use glam::Vec2;
use layerkit::layer::{
    AnyLayer, BlendMode, InputEvent, Layer, LayerManager, LayerOptions, LayerWork, LoadAction,
    MouseButton, RawLayer, RenderStep, Rgba, UiLayer,
};
use std::cell::RefCell;
use std::rc::Rc;

fn size() -> Vec2 {
    Vec2::new(800.0, 600.0)
}

fn callbacks_of(steps: &[RenderStep]) -> Vec<u64> {
    steps
        .iter()
        .map(|s| match s.work {
            LayerWork::Raw { callback } => callback,
            LayerWork::Ui { callback, .. } => callback,
        })
        .collect()
}

#[test]
fn options_builders_set_fields() {
    let o = LayerOptions::default();
    assert!(!o.receives_input);
    assert_eq!(o.blend_mode, BlendMode::Alpha);
    assert!(!o.clear);
    assert_eq!(o.clear_color, Rgba { r: 0, g: 0, b: 0, a: 255 });

    let o = LayerOptions::default()
        .with_input()
        .with_blend_mode(BlendMode::Additive)
        .with_clear()
        .with_clear_color(10, 20, 30, 40);
    assert!(o.receives_input);
    assert_eq!(o.blend_mode, BlendMode::Additive);
    assert!(o.clear);
    assert_eq!(o.clear_color, Rgba { r: 10, g: 20, b: 30, a: 40 });

    assert_eq!(BlendMode::default(), BlendMode::Alpha);
    assert_eq!(Rgba::black(), Rgba { r: 0, g: 0, b: 0, a: 255 });
    assert_eq!(Rgba::transparent(), Rgba { r: 0, g: 0, b: 0, a: 0 });
}

#[test]
fn layer_accessors_report_construction() {
    let opts = LayerOptions::default().with_input();
    let raw = RawLayer::new(5, opts, 42);
    assert_eq!(raw.z_index(), 5);
    assert!(raw.options().receives_input);
    assert_eq!(raw.callback, 42);
    let ui = UiLayer::new(-1, opts, 43);
    assert_eq!(ui.z_index(), -1);
    assert!(ui.options().receives_input);
    assert_eq!(ui.callback, 43);
}

#[test]
fn render_visits_ascending_z_with_stable_ties() {
    let mut manager: LayerManager<AnyLayer> = LayerManager::new();
    manager.add_raw_layer(1, LayerOptions::default(), 101);
    manager.add_raw_layer(0, LayerOptions::default(), 100);
    manager.add_raw_layer(1, LayerOptions::default(), 102);
    manager.add_raw_layer(-5, LayerOptions::default(), 99);
    let steps = manager.render(size());
    // Ascending z; the two z=1 layers keep insertion order (101 before 102).
    assert_eq!(callbacks_of(&steps), vec![99, 100, 101, 102]);
}

#[test]
fn is_first_marks_exactly_position_zero() {
    let mut manager: LayerManager<AnyLayer> = LayerManager::new();
    manager.add_raw_layer(3, LayerOptions::default(), 1);
    manager.add_raw_layer(-2, LayerOptions::default(), 2);
    manager.add_ui_layer(9, LayerOptions::default(), 3);
    let steps = manager.render(size());
    let firsts: Vec<bool> = steps.iter().map(|s| s.is_first).collect();
    assert_eq!(firsts, vec![true, false, false]);
}

#[test]
fn ui_layer_load_action_follows_first_and_clear_flags() {
    let mut manager: LayerManager<AnyLayer> = LayerManager::new();
    // Position 0: no clear flag, but first => hardware clear with its color.
    manager.add_ui_layer(0, LayerOptions::default().with_clear_color(1, 2, 3, 4), 10);
    // Position 1: no clear flag => load over a transparent base.
    manager.add_ui_layer(1, LayerOptions::default().with_clear_color(9, 9, 9, 9), 11);
    // Position 2: explicit clear flag => clear even though not first.
    manager.add_ui_layer(2, LayerOptions::default().with_clear().with_clear_color(5, 6, 7, 8), 12);
    let steps = manager.render(size());
    assert_eq!(
        steps[0].work,
        LayerWork::Ui {
            callback: 10,
            load_action: LoadAction::Clear,
            clear_color: Rgba { r: 1, g: 2, b: 3, a: 4 },
        }
    );
    assert_eq!(
        steps[1].work,
        LayerWork::Ui {
            callback: 11,
            load_action: LoadAction::Load,
            clear_color: Rgba { r: 0, g: 0, b: 0, a: 0 },
        }
    );
    assert_eq!(
        steps[2].work,
        LayerWork::Ui {
            callback: 12,
            load_action: LoadAction::Clear,
            clear_color: Rgba { r: 5, g: 6, b: 7, a: 8 },
        }
    );
}

#[test]
fn render_order_invariant_under_insertion_permutation() {
    // Distinct z-indices added in several orders give one render order.
    let layers: Vec<(i32, u64)> = vec![(5, 1), (-3, 2), (10, 3), (0, 4)];
    let permutations: Vec<Vec<usize>> = vec![
        vec![0, 1, 2, 3],
        vec![3, 2, 1, 0],
        vec![1, 3, 0, 2],
        vec![2, 0, 3, 1],
    ];
    let mut orders: Vec<Vec<u64>> = Vec::new();
    for perm in &permutations {
        let mut manager: LayerManager<AnyLayer> = LayerManager::new();
        for &i in perm {
            let (z, cb) = layers[i];
            manager.add_raw_layer(z, LayerOptions::default(), cb);
        }
        let steps = manager.render(size());
        orders.push(callbacks_of(&steps));
    }
    for order in &orders {
        assert_eq!(*order, vec![2, 4, 1, 3]);
    }
}

#[test]
fn cleared_manager_is_inert() {
    let mut manager: LayerManager<AnyLayer> = LayerManager::new();
    manager.add_raw_layer(1, LayerOptions::default().with_input(), 1);
    manager.add_ui_layer(2, LayerOptions::default().with_input(), 2);
    manager.clear();
    assert_eq!(manager.len(), 0);
    let steps = manager.render(size());
    assert!(steps.is_empty());
    let consumed = manager.handle_input(
        &InputEvent::MouseDown { position: Vec2::new(1.0, 1.0), button: MouseButton::Left },
    );
    assert!(!consumed);
}

#[test]
fn builtin_layers_do_not_consume_input() {
    let mut manager: LayerManager<AnyLayer> = LayerManager::new();
    manager.add_raw_layer(0, LayerOptions::default().with_input(), 1);
    manager.add_ui_layer(1, LayerOptions::default().with_input(), 2);
    let consumed = manager.handle_input(&InputEvent::MouseMove { position: Vec2::new(3.0, 4.0) });
    assert!(!consumed);
}

/// A test layer that logs the input offers it receives into a shared trace.
struct Probe {
    z: i32,
    options: LayerOptions,
    tag: u64,
    consume: bool,
    trace: Rc<RefCell<Vec<u64>>>,
}

// The trait's specification items survive compilation as ordinary trait
// items; they are never called at run time, so plain stand-ins suffice.
impl Layer for Probe {
    fn z(&self) -> i32 {
        self.z
    }

    fn opts(&self) -> LayerOptions {
        self.options
    }

    fn work_spec(&self, _size: Vec2, _is_first: bool) -> LayerWork {
        LayerWork::Raw { callback: self.tag }
    }

    fn after_render(&self, _size: Vec2, _is_first: bool) -> Self {
        Probe {
            z: self.z,
            options: self.options,
            tag: self.tag,
            consume: self.consume,
            trace: Rc::clone(&self.trace),
        }
    }

    fn consumes(&self, _event: InputEvent) -> bool {
        self.consume
    }

    fn after_input(&self, _event: InputEvent) -> Self {
        Probe {
            z: self.z,
            options: self.options,
            tag: self.tag,
            consume: self.consume,
            trace: Rc::clone(&self.trace),
        }
    }

    fn z_index(&self) -> i32 {
        self.z
    }

    fn options(&self) -> LayerOptions {
        self.options
    }

    fn render(&mut self, _size: Vec2, _is_first: bool) -> LayerWork {
        LayerWork::Raw { callback: self.tag }
    }

    fn handle_input(&mut self, _event: &InputEvent) -> bool {
        self.trace.borrow_mut().push(self.tag);
        self.consume
    }
}

#[test]
fn input_routing_visits_top_down_and_stops_at_consumer() {
    let trace: Rc<RefCell<Vec<u64>>> = Rc::new(RefCell::new(Vec::new()));
    let probe = |z: i32, tag: u64, receives: bool, consume: bool| Probe {
        z,
        options: if receives {
            LayerOptions::default().with_input()
        } else {
            LayerOptions::default()
        },
        tag,
        consume,
        trace: Rc::clone(&trace),
    };
    let mut manager: LayerManager<Probe> = LayerManager::new();
    manager.add_layer(probe(0, 1, true, true)); // bottom: would consume, never reached
    manager.add_layer(probe(1, 2, true, true)); // middle: consumes
    manager.add_layer(probe(2, 3, true, false)); // receptive, declines
    manager.add_layer(probe(3, 4, false, true)); // topmost but not receptive: skipped
    let consumed = manager.handle_input(&InputEvent::KeyDown { key: layerkit::layer::Key::A });
    assert!(consumed);
    // Descending z among receptive layers, stopping at the first consumer:
    // layer 4 skipped, 3 offered (declines), 2 offered (consumes), 1 never.
    assert_eq!(*trace.borrow(), vec![3, 2]);
}

#[test]
fn input_routing_ties_visit_later_additions_first() {
    // Equal z-indices: render order is insertion order, so routing (the
    // reverse view) offers the event to the later addition first.
    let trace: Rc<RefCell<Vec<u64>>> = Rc::new(RefCell::new(Vec::new()));
    let mut manager: LayerManager<Probe> = LayerManager::new();
    for tag in [1u64, 2u64] {
        manager.add_layer(Probe {
            z: 1,
            options: LayerOptions::default().with_input(),
            tag,
            consume: false,
            trace: Rc::clone(&trace),
        });
    }
    let consumed = manager.handle_input(&InputEvent::KeyDown { key: layerkit::layer::Key::C });
    assert!(!consumed);
    assert_eq!(*trace.borrow(), vec![2, 1]);
}

#[test]
fn input_routing_offers_all_when_none_consumes() {
    let trace: Rc<RefCell<Vec<u64>>> = Rc::new(RefCell::new(Vec::new()));
    let mut manager: LayerManager<Probe> = LayerManager::new();
    for (z, tag) in [(4, 1), (7, 2), (1, 3)] {
        manager.add_layer(Probe {
            z,
            options: LayerOptions::default().with_input(),
            tag,
            consume: false,
            trace: Rc::clone(&trace),
        });
    }
    let consumed = manager.handle_input(&InputEvent::KeyUp { key: layerkit::layer::Key::B });
    assert!(!consumed);
    // All receptive layers offered, strictly descending z: 7, 4, 1.
    assert_eq!(*trace.borrow(), vec![2, 1, 3]);
}
