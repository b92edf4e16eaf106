use fusion_compositor::geometry::{Point, Size};
use fusion_compositor::globals::{place_of_new_window, CompositorGlobals, Window};
use fusion_compositor::mapped::{
    AckOutcome, DecorationMode, MappedWindow, PendingEdit, ToplevelState,
};

#[test]
fn new_window_asks_for_nothing() {
    let window = MappedWindow::new(17);
    assert_eq!(window.window(), 17);
    assert_eq!(window.toplevel(), 17);
    assert_eq!(window.pending, ToplevelState::new());
    assert!(!window.wants_configure());
    assert!(!window.wait_ack_configure);
    assert_eq!(window.next_configure_serial, None);
}

#[test]
fn set_window_size_makes_a_configure_due() {
    let mut window = MappedWindow::new(17);
    window.set_window_size(640, 480);
    assert_eq!(window.pending.size, Some(Size { width: 640, height: 480 }));
    assert!(window.wants_configure());
}

#[test]
fn with_pending_state_rewrites_the_state() {
    let mut window = MappedWindow::new(17);
    window.with_pending_state(|state| ToplevelState { resizing: true, ..state });
    assert!(window.pending.resizing);
    assert!(window.wants_configure());
}

#[test]
fn configure_waits_for_its_acknowledgement() {
    let mut window = MappedWindow::new(17);
    window.set_window_size(640, 480);
    let due = window;
    window.send_pending_configure(Some(5));
    assert!(!window.wants_configure());
    assert_eq!(window.next_configure_serial, Some(5));

    let waiting = window;
    window.send_pending_configure(Some(6));
    assert_eq!(window, waiting);

    assert_eq!(window.ack_configure(4), AckOutcome::IncorrectSerial);
    assert_eq!(window, waiting);
    assert_eq!(window.ack_configure(5), AckOutcome::Confirmed);
    assert_eq!(window, due);
    assert_eq!(window.ack_configure(5), AckOutcome::NotWaiting);
    assert_eq!(window, due);
}

#[test]
fn configure_without_changes_is_not_sent() {
    let mut window = MappedWindow::new(17);
    window.send_pending_configure(Some(5));
    assert_eq!(window, MappedWindow::new(17));

    window.set_window_size(1, 1);
    window.send_pending_configure(None);
    assert!(window.wants_configure());
    assert!(!window.wait_ack_configure);
}

#[test]
fn acknowledgement_without_serial() {
    let mut window = MappedWindow::new(17);
    window.wait_ack_configure = true;
    assert_eq!(window.ack_configure(5), AckOutcome::NoSerial);
    assert!(window.wait_ack_configure);
}

#[test]
fn activation_makes_no_configure_due() {
    let mut window = MappedWindow::new(17);
    window.set_activated(true);
    assert!(window.pending.activated);
    assert!(!window.wants_configure());
    window.set_activated(false);
    assert_eq!(window, MappedWindow::new(17));
}

#[test]
fn edits_change_one_thing() {
    let mut state = ToplevelState::new();
    state.edit(PendingEdit::Decoration(Some(DecorationMode::ClientSide)));
    assert_eq!(state.decoration_mode, Some(DecorationMode::ClientSide));
    assert!(!state.resizing);
    state.edit(PendingEdit::Resizing(true));
    assert!(state.resizing);
    state.edit(PendingEdit::Decoration(None));
    assert_eq!(state, ToplevelState { resizing: true, ..ToplevelState::new() });
    state.edit(PendingEdit::Resizing(false));
    assert_eq!(state, ToplevelState::new());
}

fn at_origin(surface: u64, key: u64) -> Window {
    Window { surface, key, location: Point { x: 0, y: 0 } }
}

#[test]
fn windows_are_found_by_surface() {
    let mut globals = CompositorGlobals::new();
    assert_eq!(globals.find_window(100), None);
    let first = globals.map_window(100);
    let second = globals.map_window(200);
    assert_ne!(first, second);
    assert_eq!(globals.find_window(100), Some(at_origin(100, first)));
    assert_eq!(globals.find_window(200), Some(at_origin(200, second)));
    assert_eq!(globals.find_window(300), None);
    assert_eq!(globals.all_windows(), vec![first, second]);
}

#[test]
fn the_backmost_of_two_windows_is_found_first() {
    let mut globals = CompositorGlobals::new();
    let back = globals.map_window(100);
    let front = globals.map_window(100);
    assert_eq!(globals.find_window(100), Some(at_origin(100, back)));
    globals.raise_window(back);
    assert_eq!(globals.find_window(100), Some(at_origin(100, front)));
}

#[test]
fn destroying_undoes_mapping() {
    let mut globals = CompositorGlobals::new();
    let first = globals.map_window(100);
    let second = globals.map_window(200);
    assert_eq!(globals.unmap_window(200), second);
    assert_eq!(globals.all_windows(), vec![first]);
    assert_eq!(globals.find_window(200), None);
    assert!(!globals.set_window_size(second, 1, 1));
    assert!(globals.set_window_size(first, 1, 1));
}

#[test]
fn raising_moves_to_the_top() {
    let mut globals = CompositorGlobals::new();
    let a = globals.map_window(1);
    let b = globals.map_window(2);
    let c = globals.map_window(3);
    globals.raise_window(a);
    assert_eq!(globals.all_windows(), vec![b, c, a]);
    globals.raise_window(a);
    assert_eq!(globals.all_windows(), vec![b, c, a]);
    globals.raise_window(12345);
    assert_eq!(globals.all_windows(), vec![b, c, a]);
}

fn is_active(globals: &mut CompositorGlobals, surface: u64) -> bool {
    globals.edit_pending(surface, PendingEdit::Decoration(None)).unwrap().activated
}

#[test]
fn one_window_is_active() {
    let mut globals = CompositorGlobals::new();
    let a = globals.map_window(1);
    assert!(is_active(&mut globals, 1));
    let b = globals.map_window(2);
    assert!(!is_active(&mut globals, 1));
    assert!(is_active(&mut globals, 2));
    globals.raise_window(a);
    assert!(is_active(&mut globals, 1));
    assert!(!is_active(&mut globals, 2));
    globals.raise_window(12345);
    assert!(is_active(&mut globals, 1));
    assert_eq!(globals.deactivate_windows(), vec![b, a]);
    assert!(!is_active(&mut globals, 1));
    assert!(!is_active(&mut globals, 2));
}

#[test]
fn destroying_leaves_no_active_window() {
    let mut globals = CompositorGlobals::new();
    globals.map_window(1);
    globals.map_window(2);
    globals.unmap_window(2);
    assert!(!is_active(&mut globals, 1));
}

#[test]
fn due_configures_are_collected() {
    let mut globals = CompositorGlobals::new();
    let a = globals.map_window(1);
    let b = globals.map_window(2);
    let c = globals.map_window(3);
    assert_eq!(globals.due_configures(), Vec::<u64>::new());
    assert!(globals.set_window_size(a, 10, 20));
    assert!(globals.set_window_size(c, 30, 40));
    let mut due = globals.due_configures();
    due.sort();
    let mut expected = vec![a, c];
    expected.sort();
    assert_eq!(due, expected);

    assert!(globals.send_pending_configure(a, Some(9)));
    assert_eq!(globals.due_configures(), vec![c]);
    assert!(globals.send_pending_configure(b, Some(9)));
    assert_eq!(globals.ack_configure(2, 9), Some(AckOutcome::NotWaiting));
    assert_eq!(globals.ack_configure(1, 8), Some(AckOutcome::IncorrectSerial));
    assert_eq!(globals.ack_configure(1, 9), Some(AckOutcome::Confirmed));
    assert_eq!(globals.ack_configure(4, 9), None);
    let mut due = globals.due_configures();
    due.sort();
    assert_eq!(due, expected);
}

#[test]
fn keys_without_a_window_are_refused() {
    let mut globals = CompositorGlobals::new();
    let a = globals.map_window(1);
    assert!(!globals.set_window_size(0, 1, 1));
    assert!(!globals.set_window_size(a ^ 1, 1, 1));
    assert!(!globals.set_window_size(a ^ 0x1_0000_0000, 1, 1));
    assert!(!globals.send_pending_configure(0, Some(1)));
    assert_eq!(globals.due_configures(), Vec::<u64>::new());
}

#[test]
fn a_removed_key_names_no_window() {
    let mut globals = CompositorGlobals::new();
    let a = globals.map_window(1);
    globals.unmap_window(1);
    let b = globals.map_window(2);
    assert_ne!(a, b);
    assert!(!globals.set_window_size(a, 1, 1));
    assert!(globals.set_window_size(b, 1, 1));
}

#[test]
fn outputs_are_mapped_once() {
    let mut globals = CompositorGlobals::new();
    assert_eq!(globals.first_output(), None);
    globals.map_output(4);
    globals.map_output(9);
    globals.map_output(4);
    assert_eq!(globals.outputs, vec![4, 9]);
    assert_eq!(globals.first_output(), Some(4));
}

#[test]
fn a_waiting_window_keeps_its_serial() {
    let mut window = MappedWindow::new(17);
    window.set_window_size(640, 480);
    window.send_pending_configure(Some(5));
    window.set_window_size(1, 2);
    window.with_pending_state(|state| ToplevelState { resizing: true, ..state });
    window.set_activated(true);
    window.pending.edit(PendingEdit::Decoration(None));
    window.send_pending_configure(Some(6));
    assert_eq!(window.ack_configure(6), AckOutcome::IncorrectSerial);
    assert!(window.wait_ack_configure);
    assert_eq!(window.next_configure_serial, Some(5));
    assert!(!window.wants_configure());
    assert_eq!(window.ack_configure(5), AckOutcome::Confirmed);
    assert!(window.wants_configure());
}

#[test]
fn new_windows_are_put_at_the_origin() {
    assert_eq!(place_of_new_window(), Point { x: 0, y: 0 });
    let mut globals = CompositorGlobals::new();
    globals.map_window(1);
    assert_eq!(globals.windows[0].location, Point { x: 0, y: 0 });
}

#[test]
fn windows_are_placed() {
    let mut globals = CompositorGlobals::new();
    let a = globals.map_window(1);
    let b = globals.map_window(2);
    let place = Point { x: 30, y: -4 };
    assert!(globals.set_window_pos(a, place));
    assert!(!globals.set_window_pos(12345, place));
    assert_eq!(globals.all_windows(), vec![a, b]);
    assert_eq!(globals.find_window(1), Some(Window { surface: 1, key: a, location: place }));
    assert_eq!(globals.find_window(2), Some(at_origin(2, b)));
    globals.raise_window(a);
    assert_eq!(globals.windows, vec![
        at_origin(2, b),
        Window { surface: 1, key: a, location: place },
    ]);
}

#[test]
fn destroying_later_undoes_mapping_too() {
    let mut globals = CompositorGlobals::new();
    let a = globals.map_window(1);
    let b = globals.map_window(2);
    let c = globals.map_window(3);
    globals.raise_window(a);
    globals.set_window_pos(c, Point { x: 5, y: 5 });
    globals.set_window_size(c, 10, 10);
    globals.send_pending_configure(c, Some(1));
    globals.ack_configure(3, 1);
    globals.raise_window(c);
    globals.raise_window(b);
    assert_eq!(globals.unmap_window(3), c);
    assert_eq!(globals.find_window(3), None);
    assert_eq!(globals.windows, vec![at_origin(1, a), at_origin(2, b)]);
    assert!(globals.due_configures().is_empty());
    assert!(!globals.set_window_size(c, 1, 1));
}
