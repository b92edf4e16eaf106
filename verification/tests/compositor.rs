use fusion_compositor::backend::{
    Backend, UdevData, WinitBackend, DEFAULT_REFRESH, XF86_SWITCH_VT_1, XF86_SWITCH_VT_12,
};
use fusion_compositor::connector::{Connector, ConnectorMode, DisplayInfo};
use fusion_compositor::cursor::CursorImageStatus;
use fusion_compositor::geometry::{Mode, Point, Rectangle, Size};
use fusion_compositor::globals::Window;
use fusion_compositor::input::{
    clamp_axis, key_action, plan_axis, Amount, AxisLocation, AxisPlan, AxisSample, ButtonAction,
    Coordinate, FilterResult, InputAction, InputEvent, KeyAction, KeyState, ScrollValue,
    SpecialActions, WindowUnder,
};
use fusion_compositor::mapped::{AckOutcome, DecorationMode};
use fusion_compositor::output::{Output, OutputState, RenderState, UdevOutputState};
use fusion_compositor::state::{
    check_grab, handle_commit, popup_target, App, CommitPlan, Configure, GrabStart, PointerState,
    PopupCommit, PopupParent,
};
use fusion_compositor::udev::{
    after_render, compose_elements, marker_rect, presentation_time, scan_action, DeviceAction,
    DrmEventTime, FrameResult, FrameStep, ScanAction, ScanEvent, SessionEvent, UdevEvent,
};
use fusion_compositor::window::{
    run_winit, Transform, WinitAction, WinitEvent, FRAME_INTERVAL,
};

/// A cursor file with one picture of one pixel.
fn cursor_file() -> Vec<u8> {
    let mut file: Vec<u8> = b"Xcur".to_vec();
    let words: [u32; 15] =
        [16, 0x1_0000, 1, 0xfffd_0002, 24, 28, 36, 0xfffd_0002, 24, 1, 1, 1, 0, 0, 50];
    for word in words {
        file.extend_from_slice(&word.to_le_bytes());
    }
    file.extend_from_slice(&[1, 2, 3, 4]);
    file
}

fn udev_app() -> App<UdevData> {
    App::init(UdevData::init(Some(226), &vec![]), 0, &cursor_file()).unwrap()
}

fn winit_app() -> App<WinitBackend> {
    let backend = WinitBackend::new(Size { width: 800, height: 600 });
    App::init(backend, 0, &cursor_file()).unwrap()
}

fn connector() -> Connector {
    Connector {
        interface: 10,
        interface_id: 1,
        modes: vec![ConnectorMode {
            width: 1920,
            height: 1080,
            vrefresh: 60,
            mode_type: 0,
            flags: 0,
            clock: 148_500,
            htotal: 2200,
            vtotal: 1125,
            vscan: 0,
        }],
        size: Some((600, 340)),
    }
}

fn full_hd() -> Mode {
    Mode { size: Size { width: 1920, height: 1080 }, refresh: 60_000 }
}

fn at(floor: i64) -> Coordinate {
    Coordinate { floor, fractional: false }
}

fn above(floor: i64) -> Coordinate {
    Coordinate { floor, fractional: true }
}

#[test]
fn the_compositor_starts_empty() {
    let app = winit_app();
    assert!(!app.sleep);
    assert!(app.globals.windows.is_empty());
    assert!(app.globals.outputs.is_empty());
    assert!(app.output_state.outputs.is_empty());
    assert_eq!(app.input_state.cursor.status, CursorImageStatus::Named(0));
    assert_eq!(app.backend.window_size, Size { width: 800, height: 600 });
    let backend = WinitBackend::new(Size { width: 800, height: 600 });
    assert!(App::init(backend, 0, &vec![]).is_none());
}

#[test]
fn toplevels_come_and_go() {
    let mut app = winit_app();
    let a = app.new_toplevel(11);
    let b = app.new_toplevel(12);
    assert_eq!(app.globals.all_windows(), vec![a, b]);
    assert_eq!(app.globals.windows[1].location, Point { x: 0, y: 0 });
    assert_eq!(app.toplevel_destroyed(11), a);
    assert_eq!(app.globals.all_windows(), vec![b]);
}

#[test]
fn acknowledgements_reach_the_window() {
    let mut app = winit_app();
    let key = app.new_toplevel(11);
    assert!(app.globals.set_window_size(key, 5, 6));
    assert!(app.globals.send_pending_configure(key, Some(3)));
    assert_eq!(app.ack_configure(11, Configure::Popup { serial: 3 }), None);
    assert_eq!(app.ack_configure(12, Configure::Toplevel { serial: 3 }), None);
    assert_eq!(app.globals.due_configures(), Vec::<u64>::new());
    assert_eq!(
        app.ack_configure(11, Configure::Toplevel { serial: 3 }),
        Some(AckOutcome::Confirmed)
    );
    assert_eq!(app.globals.due_configures(), vec![key]);
}

#[test]
fn clients_draw_their_own_decorations() {
    let mut app = winit_app();
    app.new_toplevel(11);
    assert_eq!(app.new_decoration(11), Some(DecorationMode::ClientSide));
    assert_eq!(
        app.request_mode(11, DecorationMode::ServerSide),
        Some(DecorationMode::ClientSide)
    );
    let (_, pending) = app.resize_request(11, grabbing(Some(true))).unwrap();
    assert_eq!(pending.decoration_mode, Some(DecorationMode::ClientSide));
    assert_eq!(app.unset_mode(11), None);
    let (_, pending) = app.resize_request(11, grabbing(Some(true))).unwrap();
    assert_eq!(pending.decoration_mode, None);
    assert_eq!(app.new_decoration(99), Some(DecorationMode::ClientSide));
}

fn grabbing(focus_same_client: Option<bool>) -> Option<PointerState> {
    Some(PointerState { has_grab: true, grab_start: Some(GrabStart { focus_same_client }) })
}

#[test]
fn grabs_are_checked() {
    let start = GrabStart { focus_same_client: Some(true) };
    assert_eq!(check_grab(grabbing(Some(true))), Some(start));
    assert_eq!(check_grab(None), None);
    assert_eq!(check_grab(grabbing(Some(false))), None);
    assert_eq!(check_grab(grabbing(None)), None);
    assert_eq!(check_grab(Some(PointerState { has_grab: true, grab_start: None })), None);
    assert_eq!(
        check_grab(Some(PointerState { has_grab: false, grab_start: Some(start) })),
        None
    );
}

#[test]
fn moves_and_resizes_start_with_a_grab() {
    let mut app = winit_app();
    let key = app.new_toplevel(11);
    let window = Window { surface: 11, key, location: Point { x: 0, y: 0 } };
    assert_eq!(app.move_request(11, grabbing(Some(true))), Some(window));
    assert_eq!(app.move_request(11, None), None);
    assert_eq!(app.resize_request(11, grabbing(Some(false))), None);
    let (resized, pending) = app.resize_request(11, grabbing(Some(true))).unwrap();
    assert_eq!(resized, window);
    assert!(pending.resizing);
    assert!(pending.activated);
    assert_eq!(app.globals.due_configures(), Vec::<u64>::new());
}

#[test]
fn commits_reach_the_root_window() {
    let mut app = winit_app();
    let key = app.new_toplevel(11);
    let window = Some(Window { surface: 11, key, location: Point { x: 0, y: 0 } });
    assert_eq!(app.commit(11, false, &vec![]), window);
    assert_eq!(app.commit(30, false, &vec![20, 11]), window);
    assert_eq!(app.commit(11, false, &vec![20]), None);
    assert_eq!(app.commit(11, true, &vec![]), None);
}

#[test]
fn first_commits_are_configured() {
    let mut app = winit_app();
    let key = app.new_toplevel(11);
    let window = Some(Window { surface: 11, key, location: Point { x: 0, y: 0 } });
    assert_eq!(
        handle_commit(&app.globals, 11, false, PopupCommit::NoPopup),
        CommitPlan { window, configure_toplevel: true, configure_popup: false }
    );
    assert_eq!(
        handle_commit(&app.globals, 11, true, PopupCommit::InputMethod),
        CommitPlan { window, configure_toplevel: false, configure_popup: false }
    );
    let unsent = PopupCommit::Xdg { initial_configure_sent: false };
    assert_eq!(
        handle_commit(&app.globals, 12, false, unsent),
        CommitPlan { window: None, configure_toplevel: false, configure_popup: true }
    );
    let sent = PopupCommit::Xdg { initial_configure_sent: true };
    assert_eq!(
        handle_commit(&app.globals, 12, false, sent),
        CommitPlan { window: None, configure_toplevel: false, configure_popup: false }
    );
}

#[test]
fn popups_are_kept_on_the_first_output() {
    let mut app = winit_app();
    let key = app.new_toplevel(11);
    app.map_output(7);
    app.map_output(8);
    let window = Window { surface: 11, key, location: Point { x: 0, y: 0 } };
    assert_eq!(app.unconstrain_popup(Some(11)), Some(PopupParent { window, output: 7 }));
    assert_eq!(app.unconstrain_popup(Some(12)), None);
    assert_eq!(app.unconstrain_popup(None), None);
}

#[test]
fn the_area_of_a_popup() {
    let size = Size { width: 1920, height: 1080 };
    let output = Rectangle { loc: Point { x: 0, y: 10 }, size };
    let target = popup_target(output, Point { x: 5, y: 6 }, Point { x: 100, y: -200 });
    assert_eq!(target, Rectangle { loc: Point { x: -105, y: 204 }, size });
    let far = popup_target(output, Point { x: i32::MAX, y: i32::MIN }, Point { x: 10, y: -1 });
    assert_eq!(far.loc, Point { x: i32::MIN, y: i32::MAX });
}

#[test]
fn the_window_output_is_set_up() {
    let mut app = winit_app();
    let output = run_winit(&mut app, 3);
    assert_eq!(app.globals.outputs, vec![3]);
    assert_eq!(output.description.name, "winit");
    assert_eq!(output.description.make, "mwm");
    assert_eq!(output.description.model, "Winit");
    assert_eq!(output.description.size, Size { width: 0, height: 0 });
    assert_eq!(output.mode, Mode { size: Size { width: 800, height: 600 }, refresh: 60_000 });
    assert_eq!(output.transform, Transform::Flipped180);
    assert_eq!(output.location, Point { x: 0, y: 0 });
    assert_eq!(FRAME_INTERVAL, 16);
    assert_eq!(DEFAULT_REFRESH, 60_000);
}

#[test]
fn window_events() {
    let mut app = winit_app();
    let size = Size { width: 640, height: 480 };
    assert_eq!(
        app.on_winit_event(WinitEvent::Resized { size }),
        WinitAction::ChangeMode { mode: Mode { size, refresh: 60_000 } }
    );
    assert_eq!(app.backend.mode().size, size);
    assert_eq!(app.on_winit_event(WinitEvent::Focus), WinitAction::Nothing);
    assert_eq!(app.on_winit_event(WinitEvent::Input), WinitAction::HandleInput);
    assert_eq!(app.on_winit_event(WinitEvent::CloseRequested), WinitAction::Stop);
    assert_eq!(app.on_winit_event(WinitEvent::Redraw), WinitAction::ServePlugins);
}

#[test]
fn the_hardware_announces_itself() {
    let data = UdevData::init(Some(1), &vec![]);
    let output = data.create_output();
    assert_eq!(output.name, "udev");
    assert_eq!(output.make, "mwm");
    assert_eq!(output.model, "udev");
    assert_eq!(output.size, Size { width: 0, height: 0 });
    assert_eq!(data.mode(), full_hd());
}

#[test]
fn the_primary_node_is_chosen() {
    let others = vec![None, Some(5), Some(6)];
    assert_eq!(UdevData::init(Some(4), &others).primary_node, 4);
    assert_eq!(UdevData::init(None, &others).primary_node, 5);
    assert!(UdevData::init(None, &others).device.is_none());
}

#[test]
fn only_the_primary_device_matters() {
    let mut app = udev_app();
    let added = |node| UdevEvent::Added { device_id: 1, node };
    assert_eq!(app.on_udev_event(added(Some(226))), DeviceAction::Open);
    assert_eq!(app.on_udev_event(added(Some(227))), DeviceAction::Ignore);
    assert_eq!(app.on_udev_event(added(None)), DeviceAction::Ignore);
    assert_eq!(app.on_udev_event(UdevEvent::Changed { device_id: 1 }), DeviceAction::Ignore);
    assert_eq!(app.on_udev_event(UdevEvent::Removed { device_id: 1 }), DeviceAction::Ignore);
    app.device_added(1);
    assert_eq!(app.on_udev_event(UdevEvent::Changed { device_id: 1 }), DeviceAction::Scan);
    assert_eq!(app.on_udev_event(UdevEvent::Changed { device_id: 2 }), DeviceAction::Ignore);
    assert_eq!(app.on_udev_event(UdevEvent::Removed { device_id: 1 }), DeviceAction::Disconnect);
    assert_eq!(app.on_udev_event(UdevEvent::Removed { device_id: 2 }), DeviceAction::Ignore);
}

#[test]
fn connectors_without_a_controller_are_passed_over() {
    assert_eq!(
        scan_action(ScanEvent::Connected { crtc: Some(3) }),
        ScanAction::Connect { crtc: 3 }
    );
    assert_eq!(
        scan_action(ScanEvent::Disconnected { crtc: Some(3) }),
        ScanAction::Disconnect { crtc: 3 }
    );
    assert_eq!(scan_action(ScanEvent::Connected { crtc: None }), ScanAction::Ignore);
    assert_eq!(scan_action(ScanEvent::Disconnected { crtc: None }), ScanAction::Ignore);
}

#[test]
fn a_display_is_connected() {
    let mut app = udev_app();
    app.device_added(1);
    let display = DisplayInfo { make: Some("Acme".to_string()), model: None, serial: None };
    let plan = app.connector_connected(20, 3, &connector(), Some(display));
    assert_eq!(plan.description.name, "DP-1");
    assert_eq!(plan.description.make, "Acme");
    assert_eq!(plan.description.model, "unknown");
    assert_eq!(plan.description.size, Size { width: 600, height: 340 });
    assert_eq!(plan.mode_index, 0);
    assert_eq!(plan.mode, full_hd());
    assert_eq!(plan.location, Point { x: 0, y: 0 });
    assert_eq!(app.globals.outputs, vec![20]);
    assert_eq!(app.render_all(), vec![20]);
    assert_eq!(app.render_target(20), 3);
    assert_eq!(app.output_state.udev_output(3, 1), Some(20));
    assert_eq!(app.output_state.udev_output(4, 1), None);
    assert_eq!(app.output_state.udev_output(3, 2), None);
    assert_eq!(
        app.output_state.any_output(),
        Some(Output {
            udev: Some(UdevOutputState { device_id: 1, crtc: 3 }),
            location: Point { x: 0, y: 0 },
            mode: Some(full_hd()),
        })
    );
    let device = app.backend.device.as_ref().unwrap();
    assert_eq!(device.surfaces[&3].connector, "DP-1");
    assert_eq!(device.surfaces[&3].make, "Acme");
}

#[test]
fn the_render_cycle() {
    let mut app = udev_app();
    app.device_added(1);
    app.connector_connected(20, 3, &connector(), None);
    app.connector_connected(21, 4, &connector(), None);
    app.frame_queued(20, true);
    assert_eq!(app.output_state.outputs[&20].state, RenderState::Idle);
    assert_eq!(app.render_all(), vec![21]);
    app.frame_queued(21, false);
    assert_eq!(app.render_all(), vec![21]);
    assert_eq!(app.on_vblank(3), Some(20));
    let mut queued = app.render_all();
    queued.sort();
    assert_eq!(queued, vec![20, 21]);
    assert_eq!(app.on_vblank(9), None);
}

#[test]
fn a_paused_session_draws_nothing() {
    let mut app = udev_app();
    app.device_added(1);
    app.connector_connected(20, 3, &connector(), None);
    app.session_event(SessionEvent::PauseSession);
    assert!(app.sleep);
    assert_eq!(app.render_all(), Vec::<u64>::new());
    app.session_event(SessionEvent::ActivateSession);
    assert!(!app.sleep);
    assert_eq!(app.render_all(), vec![20]);
}

#[test]
fn displays_are_disconnected() {
    let mut app = udev_app();
    app.device_added(1);
    app.connector_connected(20, 3, &connector(), None);
    assert!(!app.connector_disconnected(4));
    assert!(app.connector_disconnected(3));
    assert!(!app.connector_disconnected(3));
}

#[test]
fn a_device_is_removed() {
    let mut app = udev_app();
    assert_eq!(app.device_removed(1, &vec![3]), None);
    app.device_added(1);
    app.connector_connected(20, 3, &connector(), None);
    app.connector_connected(21, 4, &connector(), None);
    assert_eq!(app.device_removed(2, &vec![3]), None);
    assert_eq!(app.device_removed(1, &vec![7, 8]), None);
    assert_eq!(app.device_removed(1, &vec![7, 4, 3]), Some(4));
    let device = app.backend.device.as_ref().unwrap();
    assert!(device.surfaces.contains_key(&3));
    assert!(!device.surfaces.contains_key(&4));
}

#[test]
fn outputs_can_be_removed() {
    let mut outputs = OutputState::default();
    let output = Output { udev: None, location: Point { x: 0, y: 0 }, mode: None };
    assert_eq!(outputs.any_output(), None);
    outputs.add_output(4, output);
    assert_eq!(outputs.queued_outputs(), vec![4]);
    outputs.wait_render_request(4);
    assert_eq!(outputs.queued_outputs(), Vec::<u64>::new());
    outputs.queue_render(4);
    assert_eq!(outputs.queued_outputs(), vec![4]);
    outputs.remove_output(4);
    assert!(outputs.outputs.is_empty());
    assert_eq!(outputs.any_output(), None);
}

#[test]
fn render_states_have_names() {
    assert_eq!(RenderState::default(), RenderState::Idle);
    assert_eq!(RenderState::Idle.name(), "Idle");
    assert_eq!(RenderState::Queued.name(), "Queued");
}

#[test]
fn frames_are_presented() {
    let time = DrmEventTime::Monotonic { secs: 5, nanos: 17 };
    assert_eq!(presentation_time(time), (5, 17));
    assert_eq!(presentation_time(DrmEventTime::Realtime), (0, 0));
    assert_eq!(after_render(FrameResult::Rendered { is_empty: true }), FrameStep::Done);
    assert_eq!(after_render(FrameResult::Rendered { is_empty: false }), FrameStep::QueueFrame);
    assert_eq!(after_render(FrameResult::Failed), FrameStep::ResetBuffers);
}

#[test]
fn the_pointer_is_drawn_over_the_space() {
    assert_eq!(compose_elements(vec![1, 2], vec![7, 8], 9), vec![9, 7, 1, 2]);
    assert_eq!(compose_elements(vec![1, 2], vec![], 9), vec![9, 1, 2]);
    assert_eq!(compose_elements(vec![], vec![], 9), vec![9]);
    let loc = Point { x: -3, y: 40 };
    assert_eq!(
        marker_rect(loc),
        Rectangle { loc, size: Size { width: 6, height: 16 } }
    );
}

#[test]
fn coordinates_are_clamped() {
    assert_eq!(clamp_axis(at(-1), 0, 10), AxisLocation::Bound(0));
    assert_eq!(clamp_axis(above(-1), 0, 10), AxisLocation::Bound(0));
    assert_eq!(clamp_axis(at(0), 0, 10), AxisLocation::Unchanged);
    assert_eq!(clamp_axis(above(9), 0, 10), AxisLocation::Unchanged);
    assert_eq!(clamp_axis(at(10), 0, 10), AxisLocation::Unchanged);
    assert_eq!(clamp_axis(above(10), 0, 10), AxisLocation::Bound(10));
    assert_eq!(clamp_axis(at(i64::MAX), 0, 10), AxisLocation::Bound(10));
    assert_eq!(clamp_axis(at(i64::MIN), 0, 10), AxisLocation::Bound(0));
    assert_eq!(clamp_axis(at(15), 20, 10), AxisLocation::Bound(10));
    assert_eq!(clamp_axis(at(25), 20, 10), AxisLocation::Bound(10));
}

#[test]
fn the_pointer_stays_on_the_output() {
    let mut app = udev_app();
    app.device_added(1);
    app.connector_connected(20, 3, &connector(), None);
    assert_eq!(
        app.clamp_pointer_location(above(-5), at(2000)),
        (AxisLocation::Bound(0), AxisLocation::Bound(1080))
    );
    let event = InputEvent::PointerMotion { x: at(1920), y: above(1080) };
    match app.handle_input_event(event) {
        InputAction::Move { x, y } => {
            assert_eq!(x, AxisLocation::Unchanged);
            assert_eq!(y, AxisLocation::Bound(1080));
        }
        _ => panic!("no move"),
    }
    match app.handle_input_event(InputEvent::PointerMotionAbsolute) {
        InputAction::MoveOnOutput { output } => assert_eq!(output, 20),
        _ => panic!("no move"),
    }
}

#[test]
fn a_click_raises_and_focuses() {
    let mut app = winit_app();
    let a = app.new_toplevel(11);
    let b = app.new_toplevel(12);
    let under = Some(WindowUnder { key: a, surface: 40 });
    let press = |grabbed, under| InputEvent::PointerButton {
        state: KeyState::Pressed,
        grabbed,
        under,
    };
    match app.handle_input_event(press(true, under)) {
        InputAction::Button(ButtonAction::Nothing) => {}
        _ => panic!("a grab takes the button"),
    }
    assert_eq!(app.globals.all_windows(), vec![a, b]);
    match app.handle_input_event(press(false, under)) {
        InputAction::Button(ButtonAction::Focus { key, surface }) => {
            assert_eq!((key, surface), (a, 40));
        }
        _ => panic!("no focus"),
    }
    assert_eq!(app.globals.all_windows(), vec![b, a]);
    let (_, pending) = app.resize_request(11, grabbing(Some(true))).unwrap();
    assert!(pending.activated);
    match app.handle_input_event(press(false, None)) {
        InputAction::Button(ButtonAction::Unfocus { windows }) => assert_eq!(windows, vec![b, a]),
        _ => panic!("no focus is left"),
    }
    let (_, pending) = app.resize_request(11, grabbing(Some(true))).unwrap();
    assert!(!pending.activated);
    let release =
        InputEvent::PointerButton { state: KeyState::Released, grabbed: false, under: None };
    match app.handle_input_event(release) {
        InputAction::Button(ButtonAction::Nothing) => {}
        _ => panic!("a release does nothing"),
    }
}

#[test]
fn scrolling() {
    let plan = |amount, amount_v120, finger| plan_axis(AxisSample { amount, amount_v120 }, finger);
    assert_eq!(
        plan(Amount::NonZero, Amount::NonZero, false),
        AxisPlan { value: ScrollValue::Amount, v120: true, stop: false }
    );
    assert_eq!(
        plan(Amount::NonZero, Amount::Absent, true),
        AxisPlan { value: ScrollValue::Amount, v120: false, stop: false }
    );
    assert_eq!(
        plan(Amount::Absent, Amount::NonZero, true),
        AxisPlan { value: ScrollValue::Steps, v120: true, stop: false }
    );
    assert_eq!(
        plan(Amount::Zero, Amount::NonZero, true),
        AxisPlan { value: ScrollValue::Nothing, v120: false, stop: true }
    );
    assert_eq!(
        plan(Amount::Zero, Amount::Absent, false),
        AxisPlan { value: ScrollValue::Nothing, v120: false, stop: false }
    );
    assert_eq!(
        plan(Amount::Absent, Amount::Zero, true),
        AxisPlan { value: ScrollValue::Nothing, v120: false, stop: false }
    );
    let mut app = winit_app();
    let event = InputEvent::PointerAxis {
        horizontal: AxisSample { amount: Amount::Zero, amount_v120: Amount::Absent },
        vertical: AxisSample { amount: Amount::Absent, amount_v120: Amount::NonZero },
        finger: true,
    };
    match app.handle_input_event(event) {
        InputAction::Axis { horizontal, vertical } => {
            assert!(horizontal.stop);
            assert_eq!(vertical.value, ScrollValue::Steps);
        }
        _ => panic!("no scrolling"),
    }
}

#[test]
fn keys() {
    assert_eq!(key_action(9, KeyState::Pressed), KeyAction::Exit);
    assert_eq!(key_action(9, KeyState::Released), KeyAction::Exit);
    assert_eq!(key_action(10, KeyState::Pressed), KeyAction::Nothing);
    assert_eq!(key_action(10, KeyState::Released), KeyAction::SpawnTerminal);
    assert_eq!(key_action(11, KeyState::Released), KeyAction::Nothing);
    let mut app = winit_app();
    let event = InputEvent::Keyboard { keycode: 10, state: KeyState::Released };
    match app.handle_input_event(event) {
        InputAction::Key(action) => assert_eq!(action, KeyAction::SpawnTerminal),
        _ => panic!("no key"),
    }
    assert!(matches!(app.handle_input_event(InputEvent::Other), InputAction::Ignore));
}

#[test]
fn terminal_keys() {
    let data = UdevData::init(Some(1), &vec![]);
    for vt in 1..=12u32 {
        let keysym = XF86_SWITCH_VT_1 + vt - 1;
        assert_eq!(
            data.handle_tty_keys(KeyState::Pressed, keysym),
            FilterResult::SwitchVt(vt as i32)
        );
        assert_eq!(data.handle_tty_keys(KeyState::Released, keysym), FilterResult::Forward);
    }
    assert_eq!(XF86_SWITCH_VT_12, 0x1008_fe0c);
    assert_eq!(
        data.handle_tty_keys(KeyState::Pressed, XF86_SWITCH_VT_1 - 1),
        FilterResult::Forward
    );
    assert_eq!(
        data.handle_tty_keys(KeyState::Pressed, XF86_SWITCH_VT_12 + 1),
        FilterResult::Forward
    );
    let backend = WinitBackend::new(Size { width: 1, height: 1 });
    assert_eq!(
        backend.handle_tty_keys(KeyState::Pressed, XF86_SWITCH_VT_1),
        FilterResult::Forward
    );
}

#[test]
fn clamping_twice_changes_nothing_more() {
    for raw in [at(-7), above(3), at(10), above(10), at(99)] {
        assert_eq!(clamp_axis(raw, 20, 10), AxisLocation::Bound(10));
        let once = match clamp_axis(raw, 0, 10) {
            AxisLocation::Bound(bound) => at(i64::from(bound)),
            AxisLocation::Unchanged => raw,
        };
        assert_eq!(clamp_axis(once, 0, 10), AxisLocation::Unchanged);
    }
}

#[test]
fn clients_leave_the_outputs_alone() {
    let mut app = udev_app();
    app.device_added(1);
    app.connector_connected(20, 3, &connector(), None);
    let key = app.new_toplevel(11);
    app.new_decoration(11);
    app.globals.raise_window(key);
    app.toplevel_destroyed(11);
    assert_eq!(app.globals().outputs, vec![20]);
    assert_eq!(app.render_all(), vec![20]);
    app.frame_queued(20, true);
    assert_eq!(app.on_vblank(3), Some(20));
}

#[test]
fn clamping_keeps_order() {
    for (low, high) in [(0, 10), (20, 10)] {
        let places: Vec<i64> = [at(-7), above(3), at(10), above(10), at(15), at(99)]
            .iter()
            .map(|raw| match clamp_axis(*raw, low, high) {
                AxisLocation::Bound(bound) => 2 * i64::from(bound),
                AxisLocation::Unchanged => 2 * raw.floor + i64::from(raw.fractional),
            })
            .collect();
        assert!(places.windows(2).all(|pair| pair[0] <= pair[1]));
    }
}
