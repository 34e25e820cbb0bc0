use paper::camera::Camera2D;
use paper::config::{Samples, WindowConfig, WindowMode};
use paper::events::{CallbackTable, EventQueue};
use paper::input::{Action, Event, Key, MouseButton};
use paper::math::{Transform, Vec2Bits, ONE_BITS};
use paper::paper::Paper;
use paper::scheduler::{FrameClock, FrameStep, DEFAULT_FIXED_STEP};
use paper::utils::{flatten, flatten_array};

#[test]
fn fixed_step_catches_up() {
    let mut clock = FrameClock::new(10, None);
    let step = clock.advance(3 * 10 + 7);
    assert_eq!(step.fixed_updates, 3);
    assert_eq!(clock.fixed_acc, 7);
    assert!(step.run_update);
    assert_eq!(step.update_delta, 37);
    let next = clock.advance(2);
    assert_eq!(next.fixed_updates, 0);
    assert_eq!(clock.fixed_acc, 9);
    let third = clock.advance(1);
    assert_eq!(third.fixed_updates, 1);
    assert_eq!(clock.fixed_acc, 0);
}

#[test]
fn residual_carries_without_drift() {
    let mut clock = FrameClock::new(DEFAULT_FIXED_STEP, None);
    let mut fired: u128 = 0;
    for _ in 0..100 {
        fired += clock.advance(16_666_667).fixed_updates;
    }
    let total: u128 = 100 * 16_666_667;
    assert_eq!(fired, total / DEFAULT_FIXED_STEP as u128);
    assert_eq!(clock.fixed_acc, total % DEFAULT_FIXED_STEP as u128);
}

#[test]
fn frame_cap_waits_for_the_interval() {
    let interval = FrameClock::interval_for_max_fps(Some(100)).unwrap();
    assert_eq!(interval, 10_000_000);
    let mut clock = FrameClock::new(DEFAULT_FIXED_STEP, Some(interval));
    let a = clock.advance(4_000_000);
    assert_eq!(a, FrameStep { fixed_updates: 0, run_update: false, update_delta: 0 });
    let b = clock.advance(7_000_000);
    assert!(b.run_update);
    assert_eq!(b.update_delta, 11_000_000);
    assert_eq!(clock.variable_acc, 0);
}

#[test]
fn frame_intervals() {
    assert_eq!(FrameClock::interval_for_max_fps(None), None);
    assert_eq!(FrameClock::interval_for_max_fps(Some(0)), None);
    assert_eq!(FrameClock::interval_for_max_fps(Some(60)), Some(16_666_666));
    assert_eq!(FrameClock::interval_for_max_fps(Some(2_000_000_000)), Some(1));
}

#[test]
fn runtime_advance_records_deltas() {
    let mut p = Paper::new(Vec2Bits { x: 0, y: 0 }).with_max_fps(50);
    let s = p.advance(25_000_000);
    assert!(s.run_update);
    assert_eq!(p.delta_time(), 25_000_000);
    assert_eq!(p.fixed_delta_time(), DEFAULT_FIXED_STEP);
    let t = p.advance(1_000_000);
    assert!(!t.run_update);
    assert_eq!(p.delta_time(), 25_000_000);
}

#[test]
fn triggered_events_come_first_in_order() {
    let mut q = EventQueue::new();
    q.trigger(Event::Close);
    q.trigger(Key(65).press());
    q.trigger(Event::Focus(true));
    q.begin_frame(vec![Event::Refresh, Event::MouseMove(3, 4)]);
    assert_eq!(
        q.events().clone(),
        vec![Event::Close, Key(65).press(), Event::Focus(true), Event::Refresh, Event::MouseMove(3, 4)]
    );
    q.end_frame();
    assert!(q.events().is_empty());
    q.begin_frame(vec![Event::Refresh]);
    assert_eq!(q.events().clone(), vec![Event::Refresh]);
}

#[test]
fn dispatch_plan_runs_callbacks_event_by_event() {
    let mut t = CallbackTable::new();
    t.register(Event::Close, 1);
    t.register(Key(65).press(), 2);
    t.register(Event::Close, 3);
    let events = vec![Key(65).press(), Event::Close, Key(66).press(), Key(65).press()];
    assert_eq!(t.dispatch_plan(&events), vec![(0, 2), (1, 1), (1, 3), (3, 2)]);
}

#[test]
fn grouped_keys_expand_to_each_key() {
    let mut t = CallbackTable::new();
    let a = Key(65);
    let b = Key(66);
    let c = Key(67);
    t.register(Event::AnyKey(vec![a, b], Action::Press), 7);
    assert_eq!(t.callbacks_for(&b.press()), vec![7]);
    assert_eq!(t.callbacks_for(&a.press()), vec![7]);
    assert!(t.callbacks_for(&c.press()).is_empty());
    assert!(t.callbacks_for(&b.release()).is_empty());
    assert!(t.callbacks_for(&Event::AnyKey(vec![a, b], Action::Press)).is_empty());
}

#[test]
fn grouped_buttons_expand_to_each_button() {
    let mut t = CallbackTable::new();
    t.register(Event::AnyMouseButton(vec![MouseButton::Left, MouseButton::Right], Action::Release), 4);
    t.register(MouseButton::Left.release(), 5);
    assert_eq!(t.callbacks_for(&MouseButton::Left.release()), vec![4, 5]);
    assert_eq!(t.callbacks_for(&MouseButton::Right.release()), vec![4]);
    assert!(t.callbacks_for(&MouseButton::Middle.release()).is_empty());
    assert!(t.callbacks_for(&MouseButton::Left.repeat()).is_empty());
}

#[test]
fn event_equality_and_copies() {
    let drop = Event::FileDrop(vec!["a.png".to_string(), "b.png".to_string()]);
    assert!(drop.same(&drop.duplicate()));
    assert!(!drop.same(&Event::FileDrop(vec!["a.png".to_string()])));
    assert!(!drop.same(&Event::FileDrop(vec!["a.png".to_string(), "c.png".to_string()])));
    assert!(Event::AnyKey(vec![Key(1)], Action::Press).grouped());
    assert!(!Event::Close.grouped());
    assert_eq!(MouseButton::Middle.press(), Event::MouseButton(MouseButton::Middle, Action::Press));
    assert_ne!(Event::Resize(1, 2), Event::Resize(2, 1));
    assert_eq!(Key(3).repeat(), Event::Key(Key(3), Action::Repeat));
}

#[test]
fn runtime_event_flow() {
    let mut p = Paper::new(Vec2Bits { x: 0, y: 0 })
        .with_event_callback(Event::AnyKey(vec![Key(87), Key(83)], Action::Release), 0);
    p.add_event_callback(Event::Close, 1);
    p.trigger_event(Event::Close);
    p.begin_frame(vec![Key(83).release(), Event::MouseMove(10, 20)]);
    let events = p.events().clone();
    assert_eq!(events.len(), 3);
    let mut ran = Vec::new();
    for e in &events {
        p.observe_pointer(e, (0, 0));
        ran.extend(p.callbacks_for(e));
    }
    assert_eq!(ran, vec![1, 0]);
    assert_eq!(p.mouse_position(), (10, 20));
    p.observe_pointer(&Event::MouseEnter(true), (5, 6));
    assert_eq!(p.mouse_position(), (5, 6));
    p.observe_pointer(&Event::MouseEnter(false), (9, 9));
    assert_eq!(p.mouse_position(), (5, 6));
    p.end_frame();
    assert!(p.events().is_empty());
    assert!(!p.should_close());
    p.close();
    assert!(p.should_close());
}

#[test]
fn camera_builders() {
    let cam = Camera2D::default();
    assert_eq!(cam.zoom, ONE_BITS);
    assert_eq!(cam.near, (-1000.0f32).to_bits());
    assert_eq!(cam.far, 1000.0f32.to_bits());
    let v = Vec2Bits { x: 800.0f32.to_bits(), y: 600.0f32.to_bits() };
    let cam2 = cam.with_viewport(v).with_zoom(2.0f32.to_bits());
    assert_eq!(cam2.viewport, v);
    assert_eq!(cam2.zoom, 2.0f32.to_bits());
    let t = Transform::default().with_scale(paper::math::Vec3Bits { x: 1, y: 2, z: 3 });
    assert_eq!(Camera2D::new(t, ONE_BITS, v).with_transform(Transform::default()).transform, Transform::default());
    let mut p = Paper::new(v);
    assert_eq!(p.camera().viewport, v);
    p.set_camera(cam2);
    assert_eq!(p.camera(), cam2);
}

#[test]
fn window_config_builders() {
    let c = WindowConfig::default();
    assert_eq!((c.width, c.height), (800, 600));
    assert_eq!(c.title, "Paper Window");
    assert!(!c.resizable);
    assert!(c.vsync);
    assert_eq!(c.mode, WindowMode::Windowed);
    assert_eq!(c.samples, Samples::Disabled);
    let c = c
        .with_width(1024)
        .with_height(768)
        .with_title("demo")
        .with_resizable(true)
        .with_mode(WindowMode::Fullscreen)
        .with_samples(Samples::X4)
        .with_vsync(false);
    assert_eq!((c.width, c.height), (1024, 768));
    assert_eq!(c.title, "demo");
    assert!(c.resizable);
    assert_eq!(c.mode, WindowMode::Fullscreen);
    assert_eq!(c.samples, Samples::X4);
    assert!(!c.vsync);
    let c = c.with_size((1, 2));
    assert_eq!((c.width, c.height), (1, 2));
}

#[test]
fn sample_counts() {
    assert_eq!(Samples::Disabled.glfw_samples(), None);
    assert_eq!(Samples::X2.glfw_samples(), Some(2));
    assert_eq!(Samples::X4.glfw_samples(), Some(4));
    assert_eq!(Samples::X8.glfw_samples(), Some(8));
    assert_eq!(Samples::X16.glfw_samples(), Some(16));
}

#[test]
fn flatten_joins_in_order() {
    assert_eq!(flatten(vec![vec![1, 2], vec![], vec![3]]), vec![1, 2, 3]);
    assert!(flatten::<u8>(vec![]).is_empty());
}

#[test]
fn flatten_array_truncates_and_pads() {
    assert_eq!(flatten_array(&vec![vec![1, 2], vec![3, 4]], 3, 0), vec![1, 2, 3]);
    assert_eq!(flatten_array(&vec![vec![1], vec![2]], 4, 9), vec![1, 2, 9, 9]);
    assert_eq!(flatten_array::<u8>(&vec![], 2, 7), vec![7, 7]);
}

#[test]
fn runtime_dispatch_plan_follows_event_order() {
    let mut p = Paper::new(Vec2Bits { x: 0, y: 0 });
    p.add_event_callback(Event::AnyMouseButton(vec![MouseButton::Left, MouseButton::Right], Action::Press), 3);
    p.add_event_callback(Event::Close, 4);
    p.trigger_event(Event::Close);
    p.begin_frame(vec![MouseButton::Right.press(), MouseButton::Middle.press(), MouseButton::Left.press()]);
    let events = p.events().clone();
    assert_eq!(p.dispatch_plan(&events), vec![(0, 4), (1, 3), (3, 3)]);
}
