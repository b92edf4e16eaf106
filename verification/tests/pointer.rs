use fusion_compositor::cursor::{
    Cursor, CursorElement, CursorImageStatus, Image, InputState, KEYBOARD_REPEAT_DELAY,
    KEYBOARD_REPEAT_RATE,
};
use std::collections::HashMap;

/// A cursor file with one picture per given width and hotspot; every picture is
/// one line high, and its pixels count up from 1.
fn cursor_file(pictures: &[(u32, u32)]) -> Vec<u8> {
    let mut file: Vec<u8> = Vec::new();
    file.extend_from_slice(b"Xcur");
    for word in [16u32, 0x1_0000, pictures.len() as u32] {
        file.extend_from_slice(&word.to_le_bytes());
    }
    let mut position = 16 + 12 * pictures.len() as u32;
    for (width, _) in pictures {
        for word in [0xfffd_0002u32, 24, position] {
            file.extend_from_slice(&word.to_le_bytes());
        }
        position += 36 + 4 * width;
    }
    for (width, xhot) in pictures {
        for word in [36u32, 0xfffd_0002, 24, 1, *width, 1, *xhot, 1, 50] {
            file.extend_from_slice(&word.to_le_bytes());
        }
        for byte in 0..4 * *width {
            file.push(byte as u8 + 1);
        }
    }
    file
}

fn drawn(cursor: &Cursor) -> (i32, i32, i32, i32, Vec<u8>) {
    match cursor.render_cursor() {
        CursorElement::Picture { width, height, xhot, yhot, pixels_rgba } => {
            (width, height, xhot, yhot, pixels_rgba.clone())
        }
        _ => panic!("no picture"),
    }
}

#[test]
fn the_pointer_shows_the_first_picture() {
    let state = InputState::new(3, &cursor_file(&[(2, 1), (1, 0)])).unwrap();
    assert_eq!(state.cursor.status, CursorImageStatus::Named(3));
    assert!(state.cursor.has_picture());
    assert_eq!(drawn(&state.cursor), (2, 1, 1, 1, vec![1, 2, 3, 4, 5, 6, 7, 8]));
    assert_eq!(state.cursor.cache.len(), 1);
    assert_eq!(state.cursor.cache[&3].inner.len(), 2);
    assert_eq!(state.cursor.cache[&3].inner[1].width, 1);
    assert_eq!(state.cursor.cache[&3].inner[0].size, 24);
    assert_eq!(state.cursor.cache[&3].inner[0].delay, 50);
    assert_eq!(state.cursor.cache[&3].inner[0].pixels_argb, vec![4, 1, 2, 3, 8, 5, 6, 7]);
}

#[test]
fn a_file_that_is_no_cursor_file() {
    assert!(InputState::new(3, &vec![1, 2, 3]).is_none());
    let outside = cursor_file(&[(2, 3)]);
    assert!(InputState::new(3, &outside).is_none());
}

#[test]
fn a_bad_file_changes_nothing() {
    let mut cursor = InputState::new(3, &cursor_file(&[(1, 0)])).unwrap().cursor;
    assert!(!cursor.set_icon(CursorImageStatus::Named(4), &vec![]));
    assert_eq!(cursor.status, CursorImageStatus::Named(3));
    assert_eq!(cursor.cache.len(), 1);
}

#[test]
fn other_statuses_do_not_look_at_the_file() {
    let mut cursor = InputState::new(3, &cursor_file(&[(1, 0)])).unwrap().cursor;
    assert!(cursor.set_icon(CursorImageStatus::Hidden, &vec![]));
    assert!(cursor.has_picture());
    assert!(matches!(cursor.render_cursor(), CursorElement::Nothing));
    assert!(cursor.set_icon(CursorImageStatus::Surface(8), &vec![]));
    assert!(matches!(cursor.render_cursor(), CursorElement::Surface(8)));
    assert_eq!(cursor.cache.len(), 1);
}

#[test]
fn pictures_are_kept_and_replaced() {
    let mut cursor = InputState::new(3, &cursor_file(&[(1, 0)])).unwrap().cursor;
    assert!(cursor.set_icon(CursorImageStatus::Named(4), &cursor_file(&[(2, 2)])));
    assert_eq!(cursor.cache.len(), 2);
    assert_eq!(drawn(&cursor).0, 2);
    assert!(cursor.set_icon(CursorImageStatus::Named(4), &cursor_file(&[(3, 2)])));
    assert_eq!(cursor.cache.len(), 2);
    assert_eq!(drawn(&cursor).0, 3);
}

#[test]
fn a_file_without_pictures_cannot_be_drawn() {
    let mut cursor = InputState::new(3, &cursor_file(&[(1, 0)])).unwrap().cursor;
    assert!(cursor.set_icon(CursorImageStatus::Named(4), &cursor_file(&[])));
    assert!(!cursor.has_picture());
    let bare = Cursor { status: CursorImageStatus::Named(1), cache: HashMap::new() };
    assert!(!bare.has_picture());
}

#[test]
fn an_icon_is_shown_with_given_pictures() {
    let mut cursor = Cursor { status: CursorImageStatus::Hidden, cache: HashMap::new() };
    let image = Image {
        size: 1,
        width: 1,
        height: 1,
        xhot: 0,
        yhot: 1,
        delay: 0,
        pixels_rgba: vec![9, 8, 7, 6],
        pixels_argb: vec![6, 9, 8, 7],
    };
    cursor.show_icon(5, vec![image]);
    assert_eq!(cursor.status, CursorImageStatus::Named(5));
    assert_eq!(drawn(&cursor), (1, 1, 0, 1, vec![9, 8, 7, 6]));
}

#[test]
fn key_repeat() {
    assert_eq!(KEYBOARD_REPEAT_DELAY, 200);
    assert_eq!(KEYBOARD_REPEAT_RATE, 25);
}
