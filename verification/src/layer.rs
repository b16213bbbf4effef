//! Layers, layer options, and the layer manager that owns the ordered layer
//! sequence, plans the per-frame render pass, and routes input top-down.

use vstd::prelude::*;

verus! {

/// An RGBA color with 8-bit channels; 255 stands for full intensity or full
/// opacity. The host converts to its backend's floating-point clear color.
#[derive(Debug, Clone, Copy, PartialEq, Eq, Structural)]
pub struct Rgba {
    pub r: u8,
    pub g: u8,
    pub b: u8,
    pub a: u8,
}

impl Rgba {
    /// Opaque black, the default clear color.
    pub fn black() -> (c: Self)
        ensures
            c == (Rgba { r: 0, g: 0, b: 0, a: 255 }),
    {
        Rgba { r: 0, g: 0, b: 0, a: 255 }
    }

    /// Fully transparent black, the blend base of a load (non-clearing) pass.
    pub fn transparent() -> (c: Self)
        ensures
            c == (Rgba { r: 0, g: 0, b: 0, a: 0 }),
    {
        Rgba { r: 0, g: 0, b: 0, a: 0 }
    }
}

/// The default clear color: opaque black.
pub open spec fn default_clear_color() -> Rgba {
    Rgba { r: 0, g: 0, b: 0, a: 255 }
}

/// The blend base of a pass that loads (preserves) the target: fully
/// transparent.
pub open spec fn transparent_color() -> Rgba {
    Rgba { r: 0, g: 0, b: 0, a: 0 }
}

/// Blend modes for layer compositing
#[derive(Debug, Clone, Copy, PartialEq, Eq, Structural)]
pub enum BlendMode {
    /// Standard alpha blending (default)
    Alpha,
    /// Additive blending
    Additive,
    /// Multiply blending
    Multiply,
    /// Replace (no blending)
    Replace,
}

impl Default for BlendMode {
    fn default() -> (m: Self)
        ensures
            m == BlendMode::Alpha,
    {
        BlendMode::Alpha
    }
}

/// Options for configuring a layer
#[derive(Debug, Clone, Copy, PartialEq, Eq, Structural)]
pub struct LayerOptions {
    /// Whether this layer receives input events
    pub receives_input: bool,
    /// Blend mode for compositing
    pub blend_mode: BlendMode,
    /// Whether to clear before rendering
    pub clear: bool,
    /// Clear color if clearing is enabled
    pub clear_color: Rgba,
}

impl Default for LayerOptions {
    fn default() -> (o: Self)
        ensures
            !o.receives_input,
            o.blend_mode == BlendMode::Alpha,
            !o.clear,
            o.clear_color == default_clear_color(),
    {
        LayerOptions {
            receives_input: false,
            blend_mode: BlendMode::Alpha,
            clear: false,
            clear_color: Rgba { r: 0, g: 0, b: 0, a: 255 },
        }
    }
}

impl LayerOptions {
    /// Enable input handling for this layer
    pub fn with_input(self) -> (o: Self)
        ensures
            o == (LayerOptions { receives_input: true, ..self }),
    {
        LayerOptions { receives_input: true, ..self }
    }

    /// Set the blend mode
    pub fn with_blend_mode(self, mode: BlendMode) -> (o: Self)
        ensures
            o == (LayerOptions { blend_mode: mode, ..self }),
    {
        LayerOptions { blend_mode: mode, ..self }
    }

    /// Enable clearing before rendering
    pub fn with_clear(self) -> (o: Self)
        ensures
            o == (LayerOptions { clear: true, ..self }),
    {
        LayerOptions { clear: true, ..self }
    }

    /// Set the clear color
    pub fn with_clear_color(self, r: u8, g: u8, b: u8, a: u8) -> (o: Self)
        ensures
            o == (LayerOptions { clear_color: Rgba { r, g, b, a }, ..self }),
    {
        LayerOptions { clear_color: Rgba { r, g, b, a }, ..self }
    }
}

/// Whether a render pass clears the target or loads (preserves) its
/// existing contents before drawing.
#[derive(Debug, Clone, Copy, PartialEq, Eq, Structural)]
pub enum LoadAction {
    /// Hardware-clear the target to a configured color.
    Clear,
    /// Preserve the target's contents and blend over them.
    Load,
}

/// Identity of a host-registered per-frame callback: the drawing closure of
/// a raw layer, or the build function of a UI layer. The host hands the
/// identity in at layer creation and keeps the callback itself.
pub type CallbackId = u64;

/// The drawing work one layer asks of the host for one frame.
#[derive(Debug, Clone, Copy, PartialEq, Eq, Structural)]
pub enum LayerWork {
    /// Run the raw drawing callback with direct backend access.
    Raw { callback: CallbackId },
    /// Run the UI build callback, then rasterize the resulting draw list
    /// with the given load action and clear color.
    Ui { callback: CallbackId, load_action: LoadAction, clear_color: Rgba },
}

/// One step of a planned frame: the work of the layer at one position of
/// the render order.
#[derive(Debug, Clone, Copy, PartialEq, Eq, Structural)]
pub struct RenderStep {
    /// Whether this step renders the layer at sort position 0.
    pub is_first: bool,
    /// The layer's drawing work.
    pub work: LayerWork,
}

/// Input event stream delivered by the host platform layer.
#[derive(Debug, Clone)]
pub enum InputEvent {
    MouseMove { position: glam::Vec2 },
    MouseDown { position: glam::Vec2, button: MouseButton },
    MouseUp { position: glam::Vec2, button: MouseButton },
    KeyDown { key: Key },
    KeyUp { key: Key },
}

/// Mouse buttons reported by the host input source.
#[derive(Debug, Clone, Copy, PartialEq, Eq, Structural)]
pub enum MouseButton {
    Left,
    Right,
    Middle,
}

/// Key codes; defined but not yet routed to any handler.
#[derive(Debug, Clone, Copy, PartialEq, Eq, Structural)]
pub enum Key {
    A,
    B,
    C,
}

/// Core trait that all layers must implement.
///
/// A layer is an independently ordered, independently rendered visual and
/// input unit. Its z-index and options must stay fixed across a frame: both
/// `render` and `handle_input` are bound to preserve them.
pub trait Layer: Sized {
    /// The layer's z-index (higher values render on top).
    spec fn z(&self) -> i32;

    /// The layer's options.
    spec fn opts(&self) -> LayerOptions;

    /// The drawing work `render` returns for one frame.
    spec fn work_spec(&self, size: glam::Vec2, is_first: bool) -> LayerWork;

    /// The layer's state after `render` advanced it by one frame.
    spec fn after_render(&self, size: glam::Vec2, is_first: bool) -> Self;

    /// Whether the layer consumes the given input event.
    spec fn consumes(&self, event: InputEvent) -> bool;

    /// The layer's state after being offered the given input event.
    spec fn after_input(&self, event: InputEvent) -> Self;

    /// Get the z-index of this layer (higher values render on top)
    fn z_index(&self) -> (z: i32)
        ensures
            z == self.z(),
    ;

    /// Get the options for this layer
    fn options(&self) -> (o: LayerOptions)
        ensures
            o == self.opts(),
    ;

    /// Advance the layer by one frame and return its drawing work.
    fn render(&mut self, size: glam::Vec2, is_first: bool) -> (work: LayerWork)
        ensures
            work == old(self).work_spec(size, is_first),
            *final(self) == old(self).after_render(size, is_first),
            final(self).z() == old(self).z(),
            final(self).opts() == old(self).opts(),
    ;

    /// Handle input if this layer is configured to receive it.
    fn handle_input(&mut self, event: &InputEvent) -> (consumed: bool)
        ensures
            consumed == old(self).consumes(*event),
            *final(self) == old(self).after_input(*event),
            final(self).z() == old(self).z(),
            final(self).opts() == old(self).opts(),
    ;
}

/// A raw layer with direct backend access: each frame the host runs its
/// registered drawing callback.
#[derive(Debug, Clone, Copy, PartialEq, Eq, Structural)]
pub struct RawLayer {
    pub z_index: i32,
    pub options: LayerOptions,
    pub callback: CallbackId,
}

impl RawLayer {
    pub fn new(z_index: i32, options: LayerOptions, callback: CallbackId) -> (l: Self)
        ensures
            l == (RawLayer { z_index, options, callback }),
    {
        RawLayer { z_index, options, callback }
    }
}

impl Layer for RawLayer {
    open spec fn z(&self) -> i32 {
        self.z_index
    }

    open spec fn opts(&self) -> LayerOptions {
        self.options
    }

    open spec fn work_spec(&self, size: glam::Vec2, is_first: bool) -> LayerWork {
        LayerWork::Raw { callback: self.callback }
    }

    open spec fn after_render(&self, size: glam::Vec2, is_first: bool) -> Self {
        *self
    }

    open spec fn consumes(&self, event: InputEvent) -> bool {
        false
    }

    open spec fn after_input(&self, event: InputEvent) -> Self {
        *self
    }

    fn z_index(&self) -> i32 {
        self.z_index
    }

    fn options(&self) -> LayerOptions {
        self.options
    }

    fn render(&mut self, size: glam::Vec2, is_first: bool) -> LayerWork {
        LayerWork::Raw { callback: self.callback }
    }

    fn handle_input(&mut self, event: &InputEvent) -> bool {
        false
    }
}

/// A UI layer using the immediate mode API: each frame the host runs its
/// registered build callback, then rasterizes the resulting draw list with
/// the load action this layer selects.
#[derive(Debug, Clone, Copy, PartialEq, Eq, Structural)]
pub struct UiLayer {
    pub z_index: i32,
    pub options: LayerOptions,
    pub callback: CallbackId,
}

/// The pass a UI layer asks for: a hardware clear with its configured color
/// when it is the first layer of the frame or has its own clear flag set;
/// otherwise a load of the existing target over a fully transparent base.
pub open spec fn ui_work(options: LayerOptions, callback: CallbackId, is_first: bool) -> LayerWork {
    if options.clear || is_first {
        LayerWork::Ui {
            callback,
            load_action: LoadAction::Clear,
            clear_color: options.clear_color,
        }
    } else {
        LayerWork::Ui { callback, load_action: LoadAction::Load, clear_color: transparent_color() }
    }
}

impl UiLayer {
    pub fn new(z_index: i32, options: LayerOptions, callback: CallbackId) -> (l: Self)
        ensures
            l == (UiLayer { z_index, options, callback }),
    {
        UiLayer { z_index, options, callback }
    }
}

impl Layer for UiLayer {
    open spec fn z(&self) -> i32 {
        self.z_index
    }

    open spec fn opts(&self) -> LayerOptions {
        self.options
    }

    open spec fn work_spec(&self, size: glam::Vec2, is_first: bool) -> LayerWork {
        ui_work(self.options, self.callback, is_first)
    }

    open spec fn after_render(&self, size: glam::Vec2, is_first: bool) -> Self {
        *self
    }

    open spec fn consumes(&self, event: InputEvent) -> bool {
        false
    }

    open spec fn after_input(&self, event: InputEvent) -> Self {
        *self
    }

    fn z_index(&self) -> i32 {
        self.z_index
    }

    fn options(&self) -> LayerOptions {
        self.options
    }

    fn render(&mut self, size: glam::Vec2, is_first: bool) -> (work: LayerWork)
    {
        if self.options.clear || is_first {
            LayerWork::Ui {
                callback: self.callback,
                load_action: LoadAction::Clear,
                clear_color: self.options.clear_color,
            }
        } else {
            LayerWork::Ui {
                callback: self.callback,
                load_action: LoadAction::Load,
                clear_color: Rgba { r: 0, g: 0, b: 0, a: 0 },
            }
        }
    }

    fn handle_input(&mut self, event: &InputEvent) -> bool {
        false
    }
}

/// One of the built-in layer variants, under a tag: a raw drawing layer or
/// an immediate-mode UI layer.
#[derive(Debug, Clone, Copy, PartialEq, Eq, Structural)]
pub enum AnyLayer {
    Raw(RawLayer),
    Ui(UiLayer),
}

impl Layer for AnyLayer {
    open spec fn z(&self) -> i32 {
        match self {
            AnyLayer::Raw(l) => l.z(),
            AnyLayer::Ui(l) => l.z(),
        }
    }

    open spec fn opts(&self) -> LayerOptions {
        match self {
            AnyLayer::Raw(l) => l.opts(),
            AnyLayer::Ui(l) => l.opts(),
        }
    }

    open spec fn work_spec(&self, size: glam::Vec2, is_first: bool) -> LayerWork {
        match self {
            AnyLayer::Raw(l) => l.work_spec(size, is_first),
            AnyLayer::Ui(l) => l.work_spec(size, is_first),
        }
    }

    open spec fn after_render(&self, size: glam::Vec2, is_first: bool) -> Self {
        *self
    }

    open spec fn consumes(&self, event: InputEvent) -> bool {
        false
    }

    open spec fn after_input(&self, event: InputEvent) -> Self {
        *self
    }

    fn z_index(&self) -> (z: i32) {
        match self {
            AnyLayer::Raw(l) => l.z_index(),
            AnyLayer::Ui(l) => l.z_index(),
        }
    }

    fn options(&self) -> (o: LayerOptions) {
        match self {
            AnyLayer::Raw(l) => l.options(),
            AnyLayer::Ui(l) => l.options(),
        }
    }

    fn render(&mut self, size: glam::Vec2, is_first: bool) -> (work: LayerWork) {
        match self {
            AnyLayer::Raw(l) => l.render(size, is_first),
            AnyLayer::Ui(l) => l.render(size, is_first),
        }
    }

    fn handle_input(&mut self, event: &InputEvent) -> (consumed: bool) {
        match self {
            AnyLayer::Raw(l) => l.handle_input(event),
            AnyLayer::Ui(l) => l.handle_input(event),
        }
    }
}

/// The layer sequence is sorted by z-index, ascending: the manager's
/// invariant, and the order in which a frame is rendered.
pub open spec fn z_sorted<L: Layer>(s: Seq<L>) -> bool {
    forall|i: int, j: int|
        #![trigger s[i].z(), s[j].z()]
        0 <= i < j < s.len() ==> s[i].z() <= s[j].z()
}

/// No two layers share a z-index.
pub open spec fn distinct_z<L: Layer>(s: Seq<L>) -> bool {
    forall|i: int, j: int|
        #![trigger s[i].z(), s[j].z()]
        0 <= i < j < s.len() ==> s[i].z() != s[j].z()
}

/// The sort position a newly added layer of z-index `z` takes in the sorted
/// sequence `s`: after every layer with an equal or smaller z-index, so that
/// layers added earlier with an equal z-index keep rendering first.
pub open spec fn insert_pos<L: Layer>(s: Seq<L>, z: i32) -> int
    decreases s.len(),
{
    if s.len() == 0 {
        0
    } else if s[0].z() <= z {
        1 + insert_pos(s.drop_first(), z)
    } else {
        0
    }
}

/// `insert_pos` lies within the sequence, every layer before it has an
/// equal or smaller z-index, and (in a sorted sequence) every layer at or
/// after it has a strictly greater one.
pub proof fn lemma_insert_pos_bounds<L: Layer>(s: Seq<L>, z: i32)
    ensures
        0 <= insert_pos(s, z) <= s.len(),
        forall|k: int| 0 <= k < insert_pos(s, z) ==> #[trigger] s[k].z() <= z,
        insert_pos(s, z) < s.len() ==> z < s[insert_pos(s, z)].z(),
        z_sorted(s) ==> forall|k: int|
            insert_pos(s, z) <= k < s.len() ==> z < #[trigger] s[k].z(),
    decreases s.len(),
{
    if s.len() == 0 {
    } else if s[0].z() <= z {
        lemma_insert_pos_bounds(s.drop_first(), z);
        assert forall|k: int| 0 <= k < insert_pos(s, z) implies #[trigger] s[k].z() <= z by {
            if k > 0 {
                assert(s.drop_first()[k - 1] == s[k]);
            }
        }
        if z_sorted(s) {
            let p = insert_pos(s, z);
            assert forall|k: int| p <= k < s.len() implies z < #[trigger] s[k].z() by {
                assert(s.drop_first()[k - 1] == s[k]);
            }
        }
    } else {
        if z_sorted(s) {
            assert forall|k: int| 0 <= k < s.len() implies z < #[trigger] s[k].z() by {
                assert(s[0].z() <= s[k].z());
            }
        }
    }
}

/// Stable insertion: adding a layer keeps the sequence sorted, leaves every
/// existing layer in place relative to the others, and puts the new layer
/// after every layer with an equal or smaller z-index and before every
/// layer with a strictly greater one.
pub proof fn lemma_add_layer_stable<L: Layer>(s: Seq<L>, x: L)
    requires
        z_sorted(s),
    ensures
        ({
            let p = insert_pos(s, x.z());
            let t = s.insert(p, x);
            &&& z_sorted(t)
            &&& t.len() == s.len() + 1
            &&& t[p] == x
            &&& forall|k: int| 0 <= k < p ==> t[k] == s[k]
            &&& forall|k: int| p <= k < s.len() ==> t[k + 1] == s[k]
            &&& forall|k: int| 0 <= k < p ==> #[trigger] s[k].z() <= x.z()
            &&& forall|k: int| p <= k < s.len() ==> x.z() < #[trigger] s[k].z()
        }),
{
    lemma_insert_pos_bounds(s, x.z());
    let p = insert_pos(s, x.z());
    let t = s.insert(p, x);
    assert forall|i: int, j: int|
        #![trigger t[i].z(), t[j].z()]
        0 <= i < j < t.len() implies t[i].z() <= t[j].z() by {
        if i < p {
            assert(t[i] == s[i]);
        } else if i > p {
            assert(t[i] == s[i - 1]);
        }
        if j < p {
            assert(t[j] == s[j]);
        } else if j > p {
            assert(t[j] == s[j - 1]);
        }
    }
}

/// The index, counted in the stored (ascending) sequence, of the topmost
/// input-receptive layer that consumes the event: the largest such index,
/// since routing starts at the visual top. `-1` when no layer consumes it.
pub open spec fn consumer_index<L: Layer>(s: Seq<L>, event: InputEvent) -> int
    decreases s.len(),
{
    if s.len() == 0 {
        -1
    } else if s.last().opts().receives_input && s.last().consumes(event) {
        s.len() - 1
    } else {
        consumer_index(s.drop_last(), event)
    }
}

/// Whether some input-receptive layer consumes the event.
pub open spec fn some_layer_consumes<L: Layer>(s: Seq<L>, event: InputEvent) -> bool {
    exists|i: int|
        0 <= i < s.len() && (#[trigger] s[i]).opts().receives_input && s[i].consumes(event)
}

/// Whether routing offers the event to the layer at index `k`: the layer is
/// input-receptive and no layer above it consumed the event first.
pub open spec fn offered<L: Layer>(s: Seq<L>, event: InputEvent, k: int) -> bool {
    s[k].opts().receives_input && (consumer_index(s, event) == -1 || k >= consumer_index(s, event))
}

/// The state of the layer at index `k` after one routing pass: advanced by
/// the event if it was offered it, untouched otherwise.
pub open spec fn routed<L: Layer>(s: Seq<L>, event: InputEvent, k: int) -> L {
    if offered(s, event, k) {
        s[k].after_input(event)
    } else {
        s[k]
    }
}

/// `consumer_index` points at an input-receptive consumer, no layer above
/// it is one, and it exists exactly when some layer consumes the event.
pub proof fn lemma_consumer_index<L: Layer>(s: Seq<L>, event: InputEvent)
    ensures
        -1 <= consumer_index(s, event) < s.len(),
        consumer_index(s, event) >= 0 ==> s[consumer_index(s, event)].opts().receives_input
            && s[consumer_index(s, event)].consumes(event),
        forall|k: int|
            consumer_index(s, event) < k < s.len() ==> !((#[trigger] s[k]).opts().receives_input
                && s[k].consumes(event)),
        (consumer_index(s, event) >= 0) == some_layer_consumes(s, event),
    decreases s.len(),
{
    if s.len() == 0 {
    } else if s.last().opts().receives_input && s.last().consumes(event) {
    } else {
        lemma_consumer_index(s.drop_last(), event);
        let ci = consumer_index(s, event);
        assert forall|k: int|
            ci < k < s.len() implies !((#[trigger] s[k]).opts().receives_input && s[k].consumes(
            event,
        )) by {
            if k < s.len() - 1 {
                assert(s.drop_last()[k] == s[k]);
            }
        }
        if ci >= 0 {
            assert(s.drop_last()[ci] == s[ci]);
        }
        if some_layer_consumes(s, event) {
            let i = choose|i: int|
                0 <= i < s.len() && (#[trigger] s[i]).opts().receives_input && s[i].consumes(event);
            assert(i < s.len() - 1);
            assert(s.drop_last()[i] == s[i]);
            assert(some_layer_consumes(s.drop_last(), event));
        }
        if consumer_index(s.drop_last(), event) >= 0 {
            let i = consumer_index(s.drop_last(), event);
            assert(s.drop_last()[i] == s[i]);
            assert(some_layer_consumes(s, event));
        }
    }
}

/// Two sorted layer sequences that hold the same layers (as a multiset),
/// each with pairwise distinct z-indices, are the same sequence: the render
/// order of a set of layers with distinct z-indices does not depend on the
/// order in which they were added.
pub proof fn lemma_render_order_unique<L: Layer>(a: Seq<L>, b: Seq<L>)
    requires
        z_sorted(a),
        z_sorted(b),
        distinct_z(a),
        distinct_z(b),
        a.to_multiset() == b.to_multiset(),
    ensures
        a == b,
    decreases a.len(),
{
    broadcast use vstd::seq_lib::group_to_multiset_ensures;

    if a.len() == 0 {
        assert(b.len() == b.to_multiset().len());
        assert(a =~= b);
    } else {
        assert(a.len() == a.to_multiset().len());
        assert(b.len() == b.to_multiset().len());
        // The first layer of each sequence occurs in the other.
        assert(a.contains(a[0]));
        assert(b.to_multiset().count(a[0]) > 0);
        assert(b.contains(a[0]));
        let j = choose|j: int| 0 <= j < b.len() && b[j] == a[0];
        assert(b.contains(b[0]));
        assert(a.to_multiset().count(b[0]) > 0);
        assert(a.contains(b[0]));
        let m = choose|m: int| 0 <= m < a.len() && a[m] == b[0];
        // Each first layer has the minimal z-index, so the two agree.
        assert(b[0].z() <= b[j].z());
        assert(a[0].z() <= a[m].z());
        assert(a[0].z() == b[0].z());
        // Distinct z-indices leave only position 0 for a[0] in b.
        assert(j == 0) by {
            if j > 0 {
                assert(b[0].z() != b[j].z());
            }
        }
        assert(a[0] == b[0]);
        // The tails satisfy the same assumptions; recurse.
        let at = a.drop_first();
        let bt = b.drop_first();
        assert(a.remove(0) =~= at);
        assert(b.remove(0) =~= bt);
        assert(a.remove(0).to_multiset() =~= a.to_multiset().remove(a[0]));
        assert(b.remove(0).to_multiset() =~= b.to_multiset().remove(b[0]));
        assert(at.to_multiset() == bt.to_multiset());
        assert(z_sorted(at)) by {
            assert forall|p: int, q: int|
                #![trigger at[p].z(), at[q].z()]
                0 <= p < q < at.len() implies at[p].z() <= at[q].z() by {
                assert(at[p] == a[p + 1]);
                assert(at[q] == a[q + 1]);
                assert(a[p + 1].z() <= a[q + 1].z());
            }
        }
        assert(z_sorted(bt)) by {
            assert forall|p: int, q: int|
                #![trigger bt[p].z(), bt[q].z()]
                0 <= p < q < bt.len() implies bt[p].z() <= bt[q].z() by {
                assert(bt[p] == b[p + 1]);
                assert(bt[q] == b[q + 1]);
                assert(b[p + 1].z() <= b[q + 1].z());
            }
        }
        assert(distinct_z(at)) by {
            assert forall|p: int, q: int|
                #![trigger at[p].z(), at[q].z()]
                0 <= p < q < at.len() implies at[p].z() != at[q].z() by {
                assert(at[p] == a[p + 1]);
                assert(at[q] == a[q + 1]);
                assert(a[p + 1].z() != a[q + 1].z());
            }
        }
        assert(distinct_z(bt)) by {
            assert forall|p: int, q: int|
                #![trigger bt[p].z(), bt[q].z()]
                0 <= p < q < bt.len() implies bt[p].z() != bt[q].z() by {
                assert(bt[p] == b[p + 1]);
                assert(bt[q] == b[q + 1]);
                assert(b[p + 1].z() != b[q + 1].z());
            }
        }
        lemma_render_order_unique(at, bt);
        assert(a =~= b) by {
            assert(a.len() == b.len());
            assert forall|k: int| 0 <= k < a.len() implies a[k] == b[k] by {
                if k > 0 {
                    assert(a[k] == at[k - 1]);
                    assert(b[k] == bt[k - 1]);
                }
            }
        }
    }
}

/// An empty manager is inert: no layer consumes any event.
pub proof fn lemma_empty_manager_inert<L: Layer>(event: InputEvent)
    ensures
        !some_layer_consumes(Seq::<L>::empty(), event),
        consumer_index(Seq::<L>::empty(), event) == -1,
{
}

/// Manages all layers and handles rendering order.
///
/// The layers stand in one sequence, kept sorted by ascending z-index with
/// insertion order preserved among equal z-indices. Rendering visits that
/// sequence front to back; input routing visits it back to front. Every
/// operation takes the manager exclusively, so the sequence cannot be
/// mutated from within a render or input call.
pub struct LayerManager<L> {
    layers: Vec<L>,
}

impl<L: Layer> View for LayerManager<L> {
    type V = Seq<L>;

    closed spec fn view(&self) -> Seq<L> {
        self.layers@
    }
}

impl<L: Layer> LayerManager<L> {
    /// A manager with no layers.
    pub fn new() -> (m: Self)
        ensures
            m@ == Seq::<L>::empty(),
    {
        LayerManager { layers: Vec::new() }
    }

    /// The number of layers held.
    pub fn len(&self) -> (n: usize)
        ensures
            n == self@.len(),
    {
        self.layers.len()
    }

    /// Add a layer and maintain z-order: the new layer takes the position
    /// after every layer with an equal or smaller z-index, so that earlier
    /// additions with an equal z-index keep rendering first.
    #[verifier::loop_isolation(false)]
    pub fn add_layer(&mut self, layer: L)
        requires
            z_sorted(old(self)@),
        ensures
            final(self)@ == old(self)@.insert(insert_pos(old(self)@, layer.z()), layer),
            z_sorted(final(self)@),
    {
        proof {
            lemma_add_layer_stable(self@, layer);
        }
        let ghost s = self@;
        let z = layer.z_index();
        let n = self.layers.len();
        let mut i: usize = 0;
        while i < n && self.layers[i].z_index() <= z
            invariant
                n == self.layers.len(),
                self@ == s,
                i <= n,
                z == layer.z(),
                forall|k: int| 0 <= k < i ==> #[trigger] s[k].z() <= z,
            decreases n - i,
        {
            i += 1;
        }
        proof {
            lemma_insert_pos_bounds(s, z);
            let p = insert_pos(s, z);
            if p < i {
                assert(s[p].z() <= z);
            }
            if i < p {
                assert(s[i as int].z() <= z);
            }
            assert(i == p);
        }
        self.layers.insert(i, layer);
    }

    /// Clear all layers.
    pub fn clear(&mut self)
        ensures
            final(self)@ == Seq::<L>::empty(),
    {
        self.layers.clear();
        proof {
            assert(self@ =~= Seq::<L>::empty());
        }
    }

    /// Plan one frame: visit the layers in ascending z-order, advance each
    /// by one frame, and return the drawing work of each, in render order.
    /// Exactly the layer at sort position 0 is the frame's first layer.
    #[verifier::loop_isolation(false)]
    pub fn render(&mut self, size: glam::Vec2) -> (steps: Vec<RenderStep>)
        requires
            z_sorted(old(self)@),
        ensures
            steps@.len() == old(self)@.len(),
            final(self)@.len() == old(self)@.len(),
            forall|i: int|
                0 <= i < steps@.len() ==> (#[trigger] steps@[i]).is_first == (i == 0),
            forall|i: int|
                0 <= i < steps@.len() ==> (#[trigger] steps@[i]).work == old(self)@[i].work_spec(
                    size,
                    i == 0,
                ),
            forall|i: int|
                0 <= i < steps@.len() ==> #[trigger] final(self)@[i] == old(self)@[i].after_render(
                    size,
                    i == 0,
                ),
            forall|i: int|
                0 <= i < steps@.len() ==> #[trigger] final(self)@[i].z() == old(self)@[i].z()
                    && final(self)@[i].opts() == old(self)@[i].opts(),
            z_sorted(final(self)@),
    {
        let ghost orig = self@;
        let n = self.layers.len();
        let mut steps: Vec<RenderStep> = Vec::new();
        let mut i: usize = 0;
        while i < n
            invariant
                n == self.layers.len(),
                self@.len() == orig.len(),
                n == orig.len(),
                i <= n,
                steps@.len() == i,
                forall|k: int| i <= k < n ==> #[trigger] self@[k] == orig[k],
                forall|k: int|
                    0 <= k < i ==> (#[trigger] steps@[k]).is_first == (k == 0),
                forall|k: int|
                    0 <= k < i ==> (#[trigger] steps@[k]).work == orig[k].work_spec(size, k == 0),
                forall|k: int|
                    0 <= k < i ==> #[trigger] self@[k] == orig[k].after_render(size, k == 0),
                forall|k: int|
                    0 <= k < i ==> #[trigger] self@[k].z() == orig[k].z() && self@[k].opts()
                        == orig[k].opts(),
            decreases n - i,
        {
            let is_first = i == 0;
            let work = self.layers[i].render(size, is_first);
            steps.push(RenderStep { is_first, work });
            i += 1;
        }
        proof {
            assert forall|a: int, b: int|
                #![trigger self@[a].z(), self@[b].z()]
                0 <= a < b < self@.len() implies self@[a].z() <= self@[b].z() by {
                assert(orig[a].z() <= orig[b].z());
            }
        }
        steps
    }

    /// Handle input, starting from the topmost layer that accepts input:
    /// visit input-receptive layers in descending z-order, stop at the
    /// first one that consumes the event, and report whether any did.
    /// Layers below the consumer, and layers that do not receive input,
    /// are never offered the event.
    #[verifier::loop_isolation(false)]
    pub fn handle_input(&mut self, event: &InputEvent) -> (consumed: bool)
        requires
            z_sorted(old(self)@),
        ensures
            consumed == some_layer_consumes(old(self)@, *event),
            final(self)@.len() == old(self)@.len(),
            forall|k: int|
                0 <= k < old(self)@.len() ==> #[trigger] final(self)@[k] == routed(
                    old(self)@,
                    *event,
                    k,
                ),
            forall|k: int|
                0 <= k < old(self)@.len() ==> #[trigger] final(self)@[k].z() == old(self)@[k].z()
                    && final(self)@[k].opts() == old(self)@[k].opts(),
            z_sorted(final(self)@),
    {
        let ghost orig = self@;
        proof {
            lemma_consumer_index(orig, *event);
        }
        let mut i: usize = self.layers.len();
        while i > 0
            invariant
                self@.len() == orig.len(),
                i <= orig.len(),
                forall|k: int|
                    i <= k < orig.len() ==> !((#[trigger] orig[k]).opts().receives_input
                        && orig[k].consumes(*event)),
                forall|k: int| 0 <= k < i ==> #[trigger] self@[k] == orig[k],
                forall|k: int|
                    i <= k < orig.len() ==> #[trigger] self@[k] == (if orig[k].opts().receives_input {
                        orig[k].after_input(*event)
                    } else {
                        orig[k]
                    }),
                forall|k: int|
                    i <= k < orig.len() ==> #[trigger] self@[k].z() == orig[k].z() && self@[k].opts()
                        == orig[k].opts(),
            decreases i,
        {
            i -= 1;
            let ghost pre = self@;
            proof {
                assert(self@[i as int] == orig[i as int]);
                assert(forall|k: int| #![trigger pre[k]] 0 <= k <= i ==> pre[k] == orig[k]);
                assert(forall|k: int|
                    #![trigger pre[k].z()]
                    i < k < orig.len() ==> pre[k].z() == orig[k].z() && pre[k].opts()
                        == orig[k].opts());
            }
            let receptive = self.layers[i].options().receives_input;
            if receptive {
                let c = self.layers[i].handle_input(event);
                if c {
                    proof {
                        lemma_consumer_index(orig, *event);
                        let ci = consumer_index(orig, *event);
                        assert(orig[i as int].opts().receives_input && orig[i as int].consumes(
                            *event,
                        ));
                        // `i` consumes, so the topmost consumer is not below it.
                        assert(i <= ci) by {
                            if ci < i {
                                assert(!(orig[i as int].opts().receives_input
                                    && orig[i as int].consumes(*event)));
                            }
                        }
                        // Nothing above `i` consumes, so it is not above either.
                        assert(ci <= i) by {
                            if ci > i {
                                assert(!(orig[ci].opts().receives_input && orig[ci].consumes(
                                    *event,
                                )));
                                assert(orig[ci].opts().receives_input && orig[ci].consumes(*event));
                            }
                        }
                        assert(self@ =~= pre.update(i as int, self@[i as int]));
                        assert forall|k: int|
                            0 <= k < orig.len() implies #[trigger] self@[k] == routed(
                            orig,
                            *event,
                            k,
                        ) by {
                            if k < i {
                                assert(self@[k] == orig[k]);
                            } else if k == i {
                                assert(self@[k] == orig[k].after_input(*event));
                            } else {
                                assert(self@[k] == pre[k]);
                            }
                        }
                        assert forall|k: int|
                            0 <= k < orig.len() implies #[trigger] self@[k].z() == orig[k].z()
                            && self@[k].opts() == orig[k].opts() by {
                            if k < i {
                                assert(self@[k] == orig[k]);
                            } else if k > i {
                                assert(self@[k] == pre[k]);
                            }
                        }
                        assert forall|a: int, b: int|
                            #![trigger self@[a].z(), self@[b].z()]
                            0 <= a < b < self@.len() implies self@[a].z() <= self@[b].z() by {
                            assert(self@[a].z() == orig[a].z());
                            assert(self@[b].z() == orig[b].z());
                            assert(orig[a].z() <= orig[b].z());
                        }
                    }
                    return true;
                }
            }
            proof {
                if receptive {
                    assert(self@ =~= pre.update(i as int, self@[i as int]));
                    assert(self@[i as int] == orig[i as int].after_input(*event));
                    assert(self@[i as int].z() == orig[i as int].z() && self@[i as int].opts()
                        == orig[i as int].opts());
                }
                assert forall|k: int|
                    i <= k < orig.len() implies #[trigger] self@[k].z() == orig[k].z()
                    && self@[k].opts() == orig[k].opts() by {
                    if k == i {
                        if !receptive {
                            assert(self@[k] == pre[k]);
                            assert(pre[k] == orig[k]);
                        }
                    } else {
                        assert(self@[k] == pre[k]);
                        assert(pre[k].z() == orig[k].z());
                        assert(pre[k].opts() == orig[k].opts());
                    }
                }
            }
        }
        proof {
            let ci = consumer_index(orig, *event);
            assert(ci == -1);
            assert forall|k: int|
                0 <= k < orig.len() implies #[trigger] self@[k] == routed(orig, *event, k) by {}
            assert forall|a: int, b: int|
                #![trigger self@[a].z(), self@[b].z()]
                0 <= a < b < self@.len() implies self@[a].z() <= self@[b].z() by {
                assert(orig[a].z() <= orig[b].z());
            }
        }
        false
    }
}

impl LayerManager<AnyLayer> {
    /// Add a raw layer whose drawing callback the host registered under
    /// `callback`.
    pub fn add_raw_layer(&mut self, z_index: i32, options: LayerOptions, callback: CallbackId)
        requires
            z_sorted(old(self)@),
        ensures
            final(self)@ == old(self)@.insert(
                insert_pos(old(self)@, z_index),
                AnyLayer::Raw(RawLayer { z_index, options, callback }),
            ),
            z_sorted(final(self)@),
    {
        let layer = RawLayer::new(z_index, options, callback);
        self.add_layer(AnyLayer::Raw(layer));
    }

    /// Add a UI layer whose build callback the host registered under
    /// `callback`.
    pub fn add_ui_layer(&mut self, z_index: i32, options: LayerOptions, callback: CallbackId)
        requires
            z_sorted(old(self)@),
        ensures
            final(self)@ == old(self)@.insert(
                insert_pos(old(self)@, z_index),
                AnyLayer::Ui(UiLayer { z_index, options, callback }),
            ),
            z_sorted(final(self)@),
    {
        let layer = UiLayer::new(z_index, options, callback);
        self.add_layer(AnyLayer::Ui(layer));
    }
}

} // verus!
