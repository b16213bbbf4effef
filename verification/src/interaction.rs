//! Interaction event types, per-element interaction state, and the
//! dispatch of derived pointer events to element handlers.

use vstd::prelude::*;
use crate::layer::MouseButton;

verus! {

/// Identity of an interactive element.
pub type ElementId = u64;

/// Events generated by the interaction system.
///
/// `position` is in the root coordinate space; `local_position` is relative
/// to the element's own origin. `Click` is synthesized, never raw: it is
/// emitted only immediately after a `MouseUp` on an element that is still
/// hovered while pressed.
#[derive(Debug, Clone, PartialEq)]
pub enum InteractionEvent {
    /// Mouse entered an element
    MouseEnter { element_id: ElementId },

    /// Mouse left an element
    MouseLeave { element_id: ElementId },

    /// Mouse moved over an element
    MouseMove {
        element_id: ElementId,
        position: glam::Vec2,
        local_position: glam::Vec2,
    },

    /// Mouse button pressed on an element
    MouseDown {
        element_id: ElementId,
        button: MouseButton,
        position: glam::Vec2,
        local_position: glam::Vec2,
    },

    /// Mouse button released on an element
    MouseUp {
        element_id: ElementId,
        button: MouseButton,
        position: glam::Vec2,
        local_position: glam::Vec2,
    },

    /// Click event (mouse down + up on same element)
    Click {
        element_id: ElementId,
        button: MouseButton,
        position: glam::Vec2,
        local_position: glam::Vec2,
    },
}

/// A raw per-element pointer report, already resolved against the element's
/// hit region by the layout engine: the interaction state machine only
/// reacts to these signals.
#[derive(Debug, Clone)]
pub enum PointerSignal {
    /// The pointer entered the element's hit region.
    Enter,
    /// The pointer left the element's hit region.
    Leave,
    /// The pointer moved while over the element.
    Move {
        position: glam::Vec2,
        local_position: glam::Vec2,
    },
    /// A button was pressed while over the element.
    Down {
        button: MouseButton,
        position: glam::Vec2,
        local_position: glam::Vec2,
    },
    /// A button was released.
    Up {
        button: MouseButton,
        position: glam::Vec2,
        local_position: glam::Vec2,
    },
}

/// Current interaction state of an element.
#[derive(Debug, Clone, PartialEq, Eq, Structural)]
pub struct InteractionState {
    /// Whether the mouse is currently hovering over the element
    pub is_hovered: bool,

    /// Whether a mouse button is currently pressed on the element
    pub is_pressed: bool,
}

/// The state an element is in after reacting to one pointer signal.
///
/// Hover and press are independent facets: leaving the hit region clears
/// hover but deliberately keeps press set (drag-off semantics), and a
/// release clears press whether or not a matching press was seen.
pub open spec fn state_after(s: InteractionState, sig: PointerSignal) -> InteractionState {
    match sig {
        PointerSignal::Enter => InteractionState { is_hovered: true, is_pressed: s.is_pressed },
        PointerSignal::Leave => InteractionState { is_hovered: false, is_pressed: s.is_pressed },
        PointerSignal::Move { .. } => s,
        PointerSignal::Down { .. } => if s.is_hovered {
            InteractionState { is_hovered: s.is_hovered, is_pressed: true }
        } else {
            s
        },
        PointerSignal::Up { .. } => InteractionState { is_hovered: s.is_hovered, is_pressed: false },
    }
}

/// The derived events an element emits when, in state `s`, it receives one
/// pointer signal: at most one event, except for a release while pressed
/// and still hovered, which emits `MouseUp` and then `Click`.
pub open spec fn events_for(
    s: InteractionState,
    element_id: ElementId,
    sig: PointerSignal,
) -> Seq<InteractionEvent> {
    match sig {
        PointerSignal::Enter => if !s.is_hovered {
            seq![InteractionEvent::MouseEnter { element_id }]
        } else {
            Seq::empty()
        },
        PointerSignal::Leave => if s.is_hovered {
            seq![InteractionEvent::MouseLeave { element_id }]
        } else {
            Seq::empty()
        },
        PointerSignal::Move { position, local_position } => if s.is_hovered {
            seq![InteractionEvent::MouseMove { element_id, position, local_position }]
        } else {
            Seq::empty()
        },
        PointerSignal::Down { button, position, local_position } => if s.is_hovered {
            seq![InteractionEvent::MouseDown { element_id, button, position, local_position }]
        } else {
            Seq::empty()
        },
        PointerSignal::Up { button, position, local_position } => if s.is_pressed {
            if s.is_hovered {
                seq![
                    InteractionEvent::MouseUp { element_id, button, position, local_position },
                    InteractionEvent::Click { element_id, button, position, local_position },
                ]
            } else {
                seq![InteractionEvent::MouseUp { element_id, button, position, local_position }]
            }
        } else {
            Seq::empty()
        },
    }
}

impl InteractionState {
    /// A fresh element state: not hovered, not pressed.
    pub fn new() -> (s: Self)
        ensures
            !s.is_hovered,
            !s.is_pressed,
    {
        InteractionState { is_hovered: false, is_pressed: false }
    }

    /// React to one resolved pointer signal: advance the hover/press state
    /// and return the derived events, in emission order.
    pub fn apply(&mut self, element_id: ElementId, signal: &PointerSignal) -> (events: Vec<
        InteractionEvent,
    >)
        ensures
            *final(self) == state_after(*old(self), *signal),
            events@ == events_for(*old(self), element_id, *signal),
    {
        let mut events: Vec<InteractionEvent> = Vec::new();
        match signal {
            PointerSignal::Enter => {
                if !self.is_hovered {
                    self.is_hovered = true;
                    events.push(InteractionEvent::MouseEnter { element_id });
                } else {
                    self.is_hovered = true;
                }
            },
            PointerSignal::Leave => {
                if self.is_hovered {
                    self.is_hovered = false;
                    events.push(InteractionEvent::MouseLeave { element_id });
                }
            },
            PointerSignal::Move { position, local_position } => {
                if self.is_hovered {
                    events.push(
                        InteractionEvent::MouseMove {
                            element_id,
                            position: *position,
                            local_position: *local_position,
                        },
                    );
                }
            },
            PointerSignal::Down { button, position, local_position } => {
                if self.is_hovered {
                    self.is_pressed = true;
                    events.push(
                        InteractionEvent::MouseDown {
                            element_id,
                            button: *button,
                            position: *position,
                            local_position: *local_position,
                        },
                    );
                }
            },
            PointerSignal::Up { button, position, local_position } => {
                if self.is_pressed {
                    events.push(
                        InteractionEvent::MouseUp {
                            element_id,
                            button: *button,
                            position: *position,
                            local_position: *local_position,
                        },
                    );
                    if self.is_hovered {
                        events.push(
                            InteractionEvent::Click {
                                element_id,
                                button: *button,
                                position: *position,
                                local_position: *local_position,
                            },
                        );
                    }
                }
                self.is_pressed = false;
            },
        }
        proof {
            assert(events@ =~= events_for(*old(self), element_id, *signal));
        }
        events
    }
}

impl Default for InteractionState {
    fn default() -> (s: Self)
        ensures
            !s.is_hovered,
            !s.is_pressed,
    {
        InteractionState { is_hovered: false, is_pressed: false }
    }
}

/// A `Click` is only ever emitted for a release on an element that is both
/// pressed and still hovered, and then it immediately follows the `MouseUp`
/// of the same delivery.
pub proof fn lemma_click_needs_press(s: InteractionState, element_id: ElementId, sig: PointerSignal)
    ensures
        forall|i: int|
            0 <= i < events_for(s, element_id, sig).len() && events_for(s, element_id, sig)[i] is Click
                ==> s.is_pressed && s.is_hovered && sig is Up,
        (exists|i: int|
            0 <= i < events_for(s, element_id, sig).len() && events_for(s, element_id, sig)[i] is Click)
            ==> {
            &&& events_for(s, element_id, sig).len() == 2
            &&& events_for(s, element_id, sig)[0] is MouseUp
            &&& events_for(s, element_id, sig)[1] is Click
        },
{
}

/// Press is only ever established by a button press while hovered, and that
/// same delivery emits the matching `MouseDown`.
pub proof fn lemma_press_starts_with_down(
    s: InteractionState,
    element_id: ElementId,
    sig: PointerSignal,
)
    ensures
        state_after(s, sig).is_pressed && !s.is_pressed ==> {
            &&& sig is Down
            &&& s.is_hovered
            &&& events_for(s, element_id, sig).len() == 1
            &&& events_for(s, element_id, sig)[0] is MouseDown
        },
{
}

/// Handler trait for interaction events.
///
/// Each method is the hook for one event kind; the `*_post` predicates let a
/// caller of [`handle_event`] know which hook related the handler's state
/// before and after a delivery.
pub trait InteractionHandler: Sized {
    /// Relates the handler's state before and after `on_mouse_enter`.
    spec fn enter_post(pre: Self, post: Self) -> bool;

    /// Relates the handler's state before and after `on_mouse_leave`.
    spec fn leave_post(pre: Self, post: Self) -> bool;

    /// Relates the handler's state before and after `on_mouse_move`.
    spec fn move_post(pre: Self, post: Self, position: glam::Vec2, local_position: glam::Vec2) -> bool;

    /// Relates the handler's state before and after `on_mouse_down`.
    spec fn down_post(
        pre: Self,
        post: Self,
        button: MouseButton,
        position: glam::Vec2,
        local_position: glam::Vec2,
    ) -> bool;

    /// Relates the handler's state before and after `on_mouse_up`.
    spec fn up_post(
        pre: Self,
        post: Self,
        button: MouseButton,
        position: glam::Vec2,
        local_position: glam::Vec2,
    ) -> bool;

    /// Relates the handler's state before and after `on_click`.
    spec fn click_post(
        pre: Self,
        post: Self,
        button: MouseButton,
        position: glam::Vec2,
        local_position: glam::Vec2,
    ) -> bool;

    /// Called when mouse enters the element
    fn on_mouse_enter(&mut self)
        ensures
            Self::enter_post(*old(self), *final(self)),
    ;

    /// Called when mouse leaves the element
    fn on_mouse_leave(&mut self)
        ensures
            Self::leave_post(*old(self), *final(self)),
    ;

    /// Called when mouse moves over the element
    fn on_mouse_move(&mut self, position: glam::Vec2, local_position: glam::Vec2)
        ensures
            Self::move_post(*old(self), *final(self), position, local_position),
    ;

    /// Called when mouse button is pressed on the element
    fn on_mouse_down(&mut self, button: MouseButton, position: glam::Vec2, local_position: glam::Vec2)
        ensures
            Self::down_post(*old(self), *final(self), button, position, local_position),
    ;

    /// Called when mouse button is released on the element
    fn on_mouse_up(&mut self, button: MouseButton, position: glam::Vec2, local_position: glam::Vec2)
        ensures
            Self::up_post(*old(self), *final(self), button, position, local_position),
    ;

    /// Called when element is clicked
    fn on_click(&mut self, button: MouseButton, position: glam::Vec2, local_position: glam::Vec2)
        ensures
            Self::click_post(*old(self), *final(self), button, position, local_position),
    ;
}

/// The exact hook that delivering `event` invokes: each event kind reaches
/// its matching hook and no other.
pub open spec fn delivered<H: InteractionHandler>(pre: H, post: H, event: InteractionEvent) -> bool {
    match event {
        InteractionEvent::MouseEnter { .. } => H::enter_post(pre, post),
        InteractionEvent::MouseLeave { .. } => H::leave_post(pre, post),
        InteractionEvent::MouseMove { position, local_position, .. } => H::move_post(
            pre,
            post,
            position,
            local_position,
        ),
        InteractionEvent::MouseDown { button, position, local_position, .. } => H::down_post(
            pre,
            post,
            button,
            position,
            local_position,
        ),
        InteractionEvent::MouseUp { button, position, local_position, .. } => H::up_post(
            pre,
            post,
            button,
            position,
            local_position,
        ),
        InteractionEvent::Click { button, position, local_position, .. } => H::click_post(
            pre,
            post,
            button,
            position,
            local_position,
        ),
    }
}

/// Process an interaction event: invoke exactly the one hook that matches
/// the event's kind.
pub fn handle_event<H: InteractionHandler>(handler: &mut H, event: &InteractionEvent)
    ensures
        delivered(*old(handler), *final(handler), *event),
{
    match event {
        InteractionEvent::MouseEnter { .. } => handler.on_mouse_enter(),
        InteractionEvent::MouseLeave { .. } => handler.on_mouse_leave(),
        InteractionEvent::MouseMove { position, local_position, .. } => handler.on_mouse_move(
            *position,
            *local_position,
        ),
        InteractionEvent::MouseDown { button, position, local_position, .. } => handler
            .on_mouse_down(*button, *position, *local_position),
        InteractionEvent::MouseUp { button, position, local_position, .. } => handler.on_mouse_up(
            *button,
            *position,
            *local_position,
        ),
        InteractionEvent::Click { button, position, local_position, .. } => handler.on_click(
            *button,
            *position,
            *local_position,
        ),
    }
}

/// One received handler callback, with the arguments it was given.
#[derive(Debug, Clone, PartialEq)]
pub enum HandlerCall {
    Enter,
    Leave,
    Move { position: glam::Vec2, local_position: glam::Vec2 },
    Down { button: MouseButton, position: glam::Vec2, local_position: glam::Vec2 },
    Up { button: MouseButton, position: glam::Vec2, local_position: glam::Vec2 },
    Click { button: MouseButton, position: glam::Vec2, local_position: glam::Vec2 },
}

/// A handler that records each callback it receives, in order.
#[derive(Debug)]
pub struct RecordingHandler {
    /// The callbacks received so far, oldest first.
    pub calls: Vec<HandlerCall>,
}

impl RecordingHandler {
    /// A recorder with no calls yet.
    pub fn new() -> (h: Self)
        ensures
            h.calls@ == Seq::<HandlerCall>::empty(),
    {
        RecordingHandler { calls: Vec::new() }
    }
}

impl InteractionHandler for RecordingHandler {
    open spec fn enter_post(pre: Self, post: Self) -> bool {
        post.calls@ == pre.calls@.push(HandlerCall::Enter)
    }

    open spec fn leave_post(pre: Self, post: Self) -> bool {
        post.calls@ == pre.calls@.push(HandlerCall::Leave)
    }

    open spec fn move_post(pre: Self, post: Self, position: glam::Vec2, local_position: glam::Vec2) -> bool {
        post.calls@ == pre.calls@.push(HandlerCall::Move { position, local_position })
    }

    open spec fn down_post(
        pre: Self,
        post: Self,
        button: MouseButton,
        position: glam::Vec2,
        local_position: glam::Vec2,
    ) -> bool {
        post.calls@ == pre.calls@.push(HandlerCall::Down { button, position, local_position })
    }

    open spec fn up_post(
        pre: Self,
        post: Self,
        button: MouseButton,
        position: glam::Vec2,
        local_position: glam::Vec2,
    ) -> bool {
        post.calls@ == pre.calls@.push(HandlerCall::Up { button, position, local_position })
    }

    open spec fn click_post(
        pre: Self,
        post: Self,
        button: MouseButton,
        position: glam::Vec2,
        local_position: glam::Vec2,
    ) -> bool {
        post.calls@ == pre.calls@.push(HandlerCall::Click { button, position, local_position })
    }

    fn on_mouse_enter(&mut self) {
        self.calls.push(HandlerCall::Enter);
    }

    fn on_mouse_leave(&mut self) {
        self.calls.push(HandlerCall::Leave);
    }

    fn on_mouse_move(&mut self, position: glam::Vec2, local_position: glam::Vec2) {
        self.calls.push(HandlerCall::Move { position, local_position });
    }

    fn on_mouse_down(&mut self, button: MouseButton, position: glam::Vec2, local_position: glam::Vec2) {
        self.calls.push(HandlerCall::Down { button, position, local_position });
    }

    fn on_mouse_up(&mut self, button: MouseButton, position: glam::Vec2, local_position: glam::Vec2) {
        self.calls.push(HandlerCall::Up { button, position, local_position });
    }

    fn on_click(&mut self, button: MouseButton, position: glam::Vec2, local_position: glam::Vec2) {
        self.calls.push(HandlerCall::Click { button, position, local_position });
    }
}

} // verus!
