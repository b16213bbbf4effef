//! Compositing and input-routing core of a layered rendering toolkit.
//!
//! The library owns an ordered collection of independently-rendered visual
//! layers, plans one frame pass over a shared render target in ascending
//! z-order, routes raw pointer input to the topmost receptive layer, and
//! derives per-element hover/press/click semantics from resolved pointer
//! signals. Issuing the planned GPU work, and the closures that draw each
//! layer, belong to the host.

use vstd::prelude::*;

pub mod interaction;
pub mod layer;

verus! {

/// Specification-level declaration of `glam::Vec2`, the two-component vector
/// carried opaquely through input events and render calls. The library never
/// inspects its coordinates; it only moves values through.
#[verifier::external_type_specification]
#[verifier::external_body]
pub struct ExVec2(glam::Vec2);

/// Relies on `glam::Vec2`'s derived `Clone` on a `Copy` type: `clone`
/// returns a value identical to its argument.
pub assume_specification[ <glam::Vec2 as core::clone::Clone>::clone ](v: &glam::Vec2) -> (r: glam::Vec2)
    ensures
        r == *v,
;

} // verus!
