use glam::Vec2;
use layerkit::interaction::{
    handle_event, HandlerCall, InteractionEvent, InteractionState, PointerSignal, RecordingHandler,
};
use layerkit::layer::MouseButton;

fn v(x: f32, y: f32) -> Vec2 {
    Vec2::new(x, y)
}

#[test]
fn fresh_state_is_idle() {
    let s = InteractionState::new();
    assert!(!s.is_hovered);
    assert!(!s.is_pressed);
    let d = InteractionState::default();
    assert_eq!(s, d);
}

#[test]
fn drag_off_release_emits_no_click() {
    // [Enter, Move(5,5), Down(Left), Leave, Up(Left)] on one element:
    // exactly MouseEnter, MouseMove, MouseDown, MouseLeave, MouseUp; no Click.
    let mut state = InteractionState::new();
    let id = 7u64;
    let mut emitted: Vec<InteractionEvent> = Vec::new();
    let signals = vec![
        PointerSignal::Enter,
        PointerSignal::Move { position: v(5.0, 5.0), local_position: v(5.0, 5.0) },
        PointerSignal::Down {
            button: MouseButton::Left,
            position: v(5.0, 5.0),
            local_position: v(5.0, 5.0),
        },
        PointerSignal::Leave,
        PointerSignal::Up {
            button: MouseButton::Left,
            position: v(50.0, 50.0),
            local_position: v(45.0, 45.0),
        },
    ];
    for sig in &signals {
        emitted.extend(state.apply(id, sig));
    }
    assert_eq!(emitted.len(), 5);
    assert!(matches!(emitted[0], InteractionEvent::MouseEnter { element_id: 7 }));
    assert!(matches!(emitted[1], InteractionEvent::MouseMove { element_id: 7, .. }));
    assert!(
        matches!(
            emitted[2],
            InteractionEvent::MouseDown { element_id: 7, button: MouseButton::Left, .. }
        )
    );
    assert!(matches!(emitted[3], InteractionEvent::MouseLeave { element_id: 7 }));
    assert!(
        matches!(
            emitted[4],
            InteractionEvent::MouseUp { element_id: 7, button: MouseButton::Left, .. }
        )
    );
    assert!(!emitted.iter().any(|e| matches!(e, InteractionEvent::Click { .. })));
    // Press persisted across Leave, and the release cleared it.
    assert!(!state.is_hovered);
    assert!(!state.is_pressed);
}

#[test]
fn press_and_release_on_element_clicks() {
    // [Enter, Down(Left), Up(Left)] with hover throughout:
    // MouseEnter, MouseDown, MouseUp, Click, in that exact order.
    let mut state = InteractionState::new();
    let id = 3u64;
    let mut emitted: Vec<InteractionEvent> = Vec::new();
    let p = v(2.0, 4.0);
    let signals = vec![
        PointerSignal::Enter,
        PointerSignal::Down { button: MouseButton::Left, position: p, local_position: p },
        PointerSignal::Up { button: MouseButton::Left, position: p, local_position: p },
    ];
    for sig in &signals {
        emitted.extend(state.apply(id, sig));
    }
    assert_eq!(emitted.len(), 4);
    assert!(matches!(emitted[0], InteractionEvent::MouseEnter { element_id: 3 }));
    assert!(
        matches!(
            emitted[1],
            InteractionEvent::MouseDown { element_id: 3, button: MouseButton::Left, .. }
        )
    );
    assert!(
        matches!(
            emitted[2],
            InteractionEvent::MouseUp { element_id: 3, button: MouseButton::Left, .. }
        )
    );
    assert!(
        matches!(
            emitted[3],
            InteractionEvent::Click { element_id: 3, button: MouseButton::Left, .. }
        )
    );
}

#[test]
fn move_positions_pass_through() {
    let mut state = InteractionState::new();
    let events = state.apply(1, &PointerSignal::Enter);
    assert_eq!(events.len(), 1);
    let events = state.apply(
        1,
        &PointerSignal::Move { position: v(10.0, 20.0), local_position: v(1.0, 2.0) },
    );
    assert_eq!(events.len(), 1);
    match &events[0] {
        InteractionEvent::MouseMove { element_id, position, local_position } => {
            assert_eq!(*element_id, 1);
            assert_eq!(*position, v(10.0, 20.0));
            assert_eq!(*local_position, v(1.0, 2.0));
        }
        other => panic!("unexpected event {:?}", other),
    }
}

#[test]
fn move_without_hover_is_silent() {
    let mut state = InteractionState::new();
    let events = state.apply(
        1,
        &PointerSignal::Move { position: v(10.0, 20.0), local_position: v(1.0, 2.0) },
    );
    assert!(events.is_empty());
    assert!(!state.is_hovered);
}

#[test]
fn unmatched_release_is_tolerated() {
    // A release with no matching press: no events, pressed stays false.
    let mut state = InteractionState::new();
    let events = state.apply(
        9,
        &PointerSignal::Up { button: MouseButton::Right, position: v(0.0, 0.0), local_position: v(0.0, 0.0) },
    );
    assert!(events.is_empty());
    assert!(!state.is_pressed);
}

#[test]
fn down_without_hover_is_ignored() {
    let mut state = InteractionState::new();
    let events = state.apply(
        9,
        &PointerSignal::Down { button: MouseButton::Left, position: v(0.0, 0.0), local_position: v(0.0, 0.0) },
    );
    assert!(events.is_empty());
    assert!(!state.is_pressed);
}

#[test]
fn repeated_enter_emits_once() {
    let mut state = InteractionState::new();
    let first = state.apply(2, &PointerSignal::Enter);
    let second = state.apply(2, &PointerSignal::Enter);
    assert_eq!(first.len(), 1);
    assert!(second.is_empty());
    assert!(state.is_hovered);
}

#[test]
fn handle_event_reaches_matching_hook_only() {
    let id = 4u64;
    let p = v(1.0, 1.0);
    let cases = vec![
        (InteractionEvent::MouseEnter { element_id: id }, HandlerCall::Enter),
        (InteractionEvent::MouseLeave { element_id: id }, HandlerCall::Leave),
        (
            InteractionEvent::MouseMove { element_id: id, position: p, local_position: p },
            HandlerCall::Move { position: p, local_position: p },
        ),
        (
            InteractionEvent::MouseDown {
                element_id: id,
                button: MouseButton::Middle,
                position: p,
                local_position: p,
            },
            HandlerCall::Down { button: MouseButton::Middle, position: p, local_position: p },
        ),
        (
            InteractionEvent::MouseUp {
                element_id: id,
                button: MouseButton::Right,
                position: p,
                local_position: p,
            },
            HandlerCall::Up { button: MouseButton::Right, position: p, local_position: p },
        ),
        (
            InteractionEvent::Click {
                element_id: id,
                button: MouseButton::Left,
                position: p,
                local_position: p,
            },
            HandlerCall::Click { button: MouseButton::Left, position: p, local_position: p },
        ),
    ];
    for (event, expected) in cases {
        let mut handler = RecordingHandler::new();
        handle_event(&mut handler, &event);
        assert_eq!(handler.calls.len(), 1);
        assert_eq!(handler.calls[0], expected);
    }
}

#[test]
fn full_click_sequence_through_handler() {
    let id = 11u64;
    let p = v(6.0, 8.0);
    let mut state = InteractionState::new();
    let mut handler = RecordingHandler::new();
    let signals = vec![
        PointerSignal::Enter,
        PointerSignal::Down { button: MouseButton::Left, position: p, local_position: p },
        PointerSignal::Up { button: MouseButton::Left, position: p, local_position: p },
    ];
    for sig in &signals {
        for event in state.apply(id, sig) {
            handle_event(&mut handler, &event);
        }
    }
    assert_eq!(
        handler.calls,
        vec![
            HandlerCall::Enter,
            HandlerCall::Down { button: MouseButton::Left, position: p, local_position: p },
            HandlerCall::Up { button: MouseButton::Left, position: p, local_position: p },
            HandlerCall::Click { button: MouseButton::Left, position: p, local_position: p },
        ]
    );
}
