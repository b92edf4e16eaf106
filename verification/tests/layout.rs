use fusion_compositor::geometry::{Point, Size};
use fusion_compositor::window_manager::{GlobalState, Placement, WindowId};

const SCREEN: Size = Size { width: 1000, height: 700 };

fn id(inner: u64) -> WindowId {
    WindowId { inner }
}

fn place(inner: u64, x: i32, width: i32) -> Placement {
    Placement {
        window: id(inner),
        size: Size { width, height: 700 },
        pos: Point { x, y: 0 },
    }
}

#[test]
fn no_windows_no_places() {
    assert!(GlobalState::new().rearrange_windows(SCREEN).is_empty());
    assert!(GlobalState::default().rearrange_windows(SCREEN).is_empty());
}

#[test]
fn windows_share_the_width() {
    let mut state = GlobalState::new();
    assert_eq!(state.new_toplevel(id(4), SCREEN), vec![place(4, 0, 1000)]);
    assert_eq!(state.new_toplevel(id(5), SCREEN), vec![place(4, 0, 500), place(5, 500, 500)]);
    assert_eq!(
        state.new_toplevel(id(6), SCREEN),
        vec![place(4, 0, 333), place(5, 333, 333), place(6, 666, 333)]
    );
    assert_eq!(
        state.rearrange_windows(SCREEN),
        vec![place(4, 0, 333), place(5, 333, 333), place(6, 666, 333)]
    );
}

#[test]
fn the_others_take_the_place_of_a_closed_window() {
    let mut state = GlobalState::new();
    let before = state.new_toplevel(id(4), SCREEN);
    state.new_toplevel(id(5), SCREEN);
    assert_eq!(state.toplevel_destroyed(id(5), SCREEN), before);
    assert_eq!(state.toplevel_destroyed(id(9), SCREEN), before);
    state.new_toplevel(id(5), SCREEN);
    assert_eq!(state.toplevel_destroyed(id(4), SCREEN), vec![place(5, 0, 1000)]);
}

#[test]
fn shares_are_rounded_towards_zero() {
    let mut state = GlobalState::new();
    state.new_toplevel(id(4), SCREEN);
    let placements = state.new_toplevel(id(5), Size { width: -5, height: 700 });
    assert_eq!(placements, vec![place(4, 0, -2), place(5, -2, -2)]);
}
