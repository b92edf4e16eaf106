//! What each operation does, told by the fields of what it takes and gives.

use vstd::arithmetic::div_mod::lemma_fundamental_div_mod_converse;
use vstd::prelude::*;

use crate::backend::{Backend, UdevData, WinitBackend, DEFAULT_REFRESH};
use crate::connector::{
    announced_mode, announces, decimal, interface_name, is_best_mode, mode_candidates, plans,
    size_in_millimetres, Connector, ConnectorMode, ConnectorPlan, DisplayInfo, OutputInfo,
};
use crate::cursor::{
    image_views, Cursor, CursorImageStatus, Image, ImageView, KEYBOARD_REPEAT_DELAY,
    KEYBOARD_REPEAT_RATE,
};
use crate::geometry::{Point, Rectangle, Size};
use crate::globals::{
    activated, is_first_window, lemma_no_window, new_record, one_activated, raised, raises,
    relocated, window_ids, window_index, window_keys, window_with, with_output, CompositorGlobals,
    Window,
};
use crate::input::{
    action_of_key, button_leads_to, clamped_axis, clamped_to_output, moves_focus, planned_axis,
    Amount, AxisLocation, AxisSample, ButtonAction, Coordinate, FilterResult, KeyAction, KeyState,
    ScrollValue, SpecialActions, WindowUnder, PARTS_PER_STEP, PIXELS_PER_STEP,
};
use crate::mapped::{
    blank_state, AckOutcome, DecorationMode, MappedWindow, PendingEdit, ToplevelState,
};
use crate::output::{put_state, Output, OutputState, RenderState, UdevOutputState};
use crate::session::{session_type_is, Session, SessionType};
use crate::slots::{is_slot_key, no_windows, slots};
use crate::socket::begins_with_frame;
use crate::state::{
    commit_plan, committed_window, grab_allowed, popup_area, popup_parent, root_surface, saturated,
    App, PointerState, PopupCommit,
};
use crate::udev::{
    action_of_scan, frame_elements, is_first_driven, is_first_node, marker_at, shown_at,
    step_after_render, DeviceAction, DrmEventTime, FrameResult, FrameStep, ScanAction, ScanEvent,
    UdevEvent,
};
use crate::window::{action_of_window, WinitAction, WinitEvent, FRAME_INTERVAL};
use crate::window_manager::{quotient, tiled, WindowId};

verus! {

/// A client that is asked for a size is asked for exactly that size; nothing
/// else that is asked of it changes, the next configure is to carry it, and the
/// handshake stands where it stood.
pub proof fn law_size_is_asked_for(window: MappedWindow, width: i32, height: i32)
    ensures
        ({
            let sized = window.with_size(width, height);
            &&& sized.pending.size is Some
            &&& sized.pending.size->0.width == width
            &&& sized.pending.size->0.height == height
            &&& sized.pending.activated == window.pending.activated
            &&& sized.pending.resizing == window.pending.resizing
            &&& sized.pending.decoration_mode == window.pending.decoration_mode
            &&& sized.has_pending_changes
            &&& sized.window == window.window
            &&& sized.wait_ack_configure == window.wait_ack_configure
            &&& sized.next_configure_serial == window.next_configure_serial
        }),
{
}

/// Of two sizes that a client is asked for, the later one counts, as if the
/// earlier one had never been asked for.
pub proof fn law_last_size_counts(
    window: MappedWindow,
    width: i32,
    height: i32,
    later_width: i32,
    later_height: i32,
)
    ensures
        window.with_size(width, height).with_size(later_width, later_height) == window.with_size(
            later_width,
            later_height,
        ),
        window.with_size(width, height) == window.with_size(later_width, later_height) ==> width
            == later_width && height == later_height,
{
    let a = window.with_size(width, height);
    let b = window.with_size(later_width, later_height);
    assert(a.pending.size->0.width == width && b.pending.size->0.width == later_width);
    assert(a.pending.size->0.height == height && b.pending.size->0.height == later_height);
}

/// A rewritten pending state is taken as it is, the next configure is to carry
/// it, and the handshake stands where it stood.
pub proof fn law_pending_is_taken(window: MappedWindow, pending: ToplevelState)
    ensures
        ({
            let rewritten = window.with_pending(pending);
            &&& rewritten.pending == pending
            &&& rewritten.has_pending_changes
            &&& rewritten.window == window.window
            &&& rewritten.wait_ack_configure == window.wait_ack_configure
            &&& rewritten.next_configure_serial == window.next_configure_serial
        }),
{
}

/// Activating or deactivating a window sets that one flag.
pub proof fn law_activation_sets_one_flag(window: MappedWindow, on: bool)
    ensures
        ({
            let set = window.with_activated(on);
            &&& set.pending.activated == on
            &&& set.pending.size == window.pending.size
            &&& set.pending.resizing == window.pending.resizing
            &&& set.pending.decoration_mode == window.pending.decoration_mode
            &&& set.window == window.window
            &&& set.has_pending_changes == window.has_pending_changes
            &&& set.wait_ack_configure == window.wait_ack_configure
            &&& set.next_configure_serial == window.next_configure_serial
        }),
{
}

/// A change of the pending state outside the handshake sets what it names and
/// nothing else.
pub proof fn law_edit_sets_one_thing(
    state: ToplevelState,
    mode: Option<DecorationMode>,
    resizing: bool,
)
    ensures
        ({
            let decorated = state.edited(PendingEdit::Decoration(mode));
            &&& decorated.decoration_mode == mode
            &&& decorated.resizing == state.resizing
            &&& decorated.size == state.size
            &&& decorated.activated == state.activated
        }),
        ({
            let resized = state.edited(PendingEdit::Resizing(resizing));
            &&& resized.resizing == resizing
            &&& resized.decoration_mode == state.decoration_mode
            &&& resized.size == state.size
            &&& resized.activated == state.activated
        }),
{
}

/// A new window asks nothing of its client and awaits nothing.
pub proof fn law_new_window_is_blank(surface: u64)
    ensures
        blank_state().size is None,
        !blank_state().activated,
        !blank_state().resizing,
        blank_state().decoration_mode is None,
        new_record(surface).window == surface,
        new_record(surface).pending == blank_state(),
        !new_record(surface).has_pending_changes,
        !new_record(surface).wait_ack_configure,
        new_record(surface).next_configure_serial is None,
        new_record(surface).wf(),
{
}

/// A configure is due exactly when something changed and nothing is awaited.
/// One that was sent leaves its serial awaited; a step that sends nothing leaves
/// the window as it was. Neither touches what is asked of the client.
pub proof fn law_configure_step(window: MappedWindow, reply: Option<u32>)
    ensures
        window.configure_due() <==> window.has_pending_changes && !window.wait_ack_configure,
        window.has_pending_changes && !window.wait_ack_configure && reply is Some ==> {
            &&& window.configured(reply).wait_ack_configure
            &&& window.configured(reply).next_configure_serial == reply
        },
        !window.has_pending_changes || window.wait_ack_configure || reply is None
            ==> window.configured(reply) == window,
        window.configured(reply).window == window.window,
        window.configured(reply).pending == window.pending,
        window.configured(reply).has_pending_changes == window.has_pending_changes,
        window.wf() <==> window.wait_ack_configure == (window.next_configure_serial is Some),
{
}

/// An acknowledgement counts exactly when one is awaited and its serial is the
/// awaited one; it then ends the wait, and otherwise nothing changes. What it
/// amounted to is told accordingly.
pub proof fn law_ack_step(window: MappedWindow, serial: u32)
    ensures
        ({
            let counts = window.wait_ack_configure && window.next_configure_serial == Some(serial);
            let acked = window.acked(serial);
            &&& window.ack_outcome(serial) == AckOutcome::Confirmed <==> counts
            &&& counts ==> !acked.wait_ack_configure && acked.next_configure_serial is None
            &&& !counts ==> acked == window
            &&& acked.window == window.window
            &&& acked.pending == window.pending
            &&& acked.has_pending_changes == window.has_pending_changes
        }),
        window.ack_outcome(serial) == AckOutcome::NotWaiting <==> !window.wait_ack_configure,
        window.ack_outcome(serial) == AckOutcome::NoSerial <==> window.wait_ack_configure
            && window.next_configure_serial is None,
        window.ack_outcome(serial) == AckOutcome::IncorrectSerial <==> window.wait_ack_configure
            && window.next_configure_serial is Some && window.next_configure_serial->0 != serial,
{
}

/// The window that is found for a surface is the backmost of those that have the
/// surface, and one is found exactly where there is one.
pub proof fn law_window_of_surface(windows: Seq<Window>, surface: u64)
    ensures
        window_index(windows, surface) is None <==> forall|j: int|
            0 <= j < windows.len() ==> (#[trigger] windows[j]).surface != surface,
        window_with(windows, surface) is None <==> window_index(windows, surface) is None,
        window_index(windows, surface) matches Some(i) ==> {
            &&& 0 <= i < windows.len()
            &&& windows[i].surface == surface
            &&& forall|j: int| 0 <= j < i ==> (#[trigger] windows[j]).surface != surface
            &&& window_with(windows, surface) == Some(windows[i])
        },
{
    lemma_no_window(windows, surface);
    if let Some(i) = window_index(windows, surface) {
        assert(is_first_window(windows, surface, i));
    }
}

/// Keys and identities are read off the windows one by one.
pub proof fn law_keys_and_ids(windows: Seq<Window>)
    ensures
        window_keys(windows).len() == windows.len(),
        window_ids(windows).len() == windows.len(),
        forall|i: int|
            0 <= i < windows.len() ==> #[trigger] window_keys(windows)[i] == windows[i].key,
        forall|i: int|
            0 <= i < windows.len() ==> #[trigger] window_ids(windows)[i] == (
                windows[i].surface,
                windows[i].key,
            ),
{
}

/// A window that is put elsewhere keeps its surface, its key and its place in
/// the stacking order, and no other window changes.
pub proof fn law_relocation(windows: Seq<Window>, key: u64, location: Point, i: int)
    requires
        0 <= i < windows.len(),
    ensures
        ({
            let after = relocated(windows, key, location);
            &&& after.len() == windows.len()
            &&& after[i].surface == windows[i].surface
            &&& after[i].key == windows[i].key
            &&& windows[i].key == key ==> after[i].location == location
            &&& windows[i].key != key ==> after[i] == windows[i]
        }),
{
}

/// A window that is raised goes to the top just as it is, those that were above
/// it move down by one, and those below it stay. Without a window of that key
/// nothing moves.
pub proof fn law_raise_moves_one_window(windows: Seq<Window>, after: Seq<Window>, key: u64)
    requires
        raises(windows, after, key),
    ensures
        after.len() == windows.len(),
        (forall|j: int| 0 <= j < windows.len() ==> (#[trigger] windows[j]).key != key) ==> after
            == windows,
        (exists|j: int| 0 <= j < windows.len() && (#[trigger] windows[j]).key == key) ==> exists|
            i: int,
        |
            {
                &&& 0 <= i < windows.len()
                &&& (#[trigger] windows[i]).key == key
                &&& after[windows.len() - 1] == windows[i]
                &&& forall|j: int| 0 <= j < i ==> #[trigger] after[j] == windows[j]
                &&& forall|j: int| i <= j < windows.len() - 1 ==> #[trigger] after[j] == windows[j
                    + 1]
            },
{
    if exists|j: int| 0 <= j < windows.len() && (#[trigger] windows[j]).key == key {
        let j = choose|j: int| 0 <= j < windows.len() && (#[trigger] windows[j]).key == key;
        assert(window_keys(windows)[j] == key);
        assert(window_keys(windows).contains(key));
        let i = choose|i: int|
            0 <= i < windows.len() && (#[trigger] windows[i]).key == key && after == raised(
                windows,
                i,
            );
        assert(windows[i].key == key);
        assert forall|j: int| i <= j < windows.len() - 1 implies #[trigger] after[j] == windows[j
            + 1] by {}
    } else {
        assert(!window_keys(windows).contains(key)) by {
            if window_keys(windows).contains(key) {
                let j = choose|j: int|
                    0 <= j < windows.len() && window_keys(windows)[j] == key;
                assert(windows[j].key == key);
            }
        }
    }
}

/// An output that is mapped goes behind the others, unless it is among them.
pub proof fn law_output_goes_last(outputs: Seq<u64>, output: u64)
    ensures
        outputs.contains(output) ==> with_output(outputs, output) == outputs,
        !outputs.contains(output) ==> {
            &&& with_output(outputs, output).len() == outputs.len() + 1
            &&& with_output(outputs, output).last() == output
            &&& with_output(outputs, output).drop_last() == outputs
        },
{
    if !outputs.contains(output) {
        assert(with_output(outputs, output).drop_last() =~= outputs);
    }
}

/// Activating a window sets the flag of each window and nothing else: on for
/// that window, off for the others.
pub proof fn law_activation_of_all(records: Map<u64, MappedWindow>, active: Option<u64>, key: u64)
    ensures
        activated(records, active).contains_key(key) <==> records.contains_key(key),
        records.contains_key(key) ==> {
            let after = activated(records, active)[key];
            &&& active == Some(key) ==> after.pending.activated
            &&& active != Some(key) ==> !after.pending.activated
            &&& after.pending.size == records[key].pending.size
            &&& after.pending.resizing == records[key].pending.resizing
            &&& after.pending.decoration_mode == records[key].pending.decoration_mode
            &&& after.window == records[key].window
            &&& after.has_pending_changes == records[key].has_pending_changes
            &&& after.wait_ack_configure == records[key].wait_ack_configure
            &&& after.next_configure_serial == records[key].next_configure_serial
        },
{
}

/// Windows and records of a well-formed space belong together: every window has
/// the record under its key, made for its surface, and every record has a
/// window. No two windows share a key, no two are active, and no output is
/// mapped twice. Nothing more is demanded of a space.
pub proof fn law_space_is_well_formed(globals: CompositorGlobals)
    ensures
        globals.wf() <==> {
            let records = slots(globals.mapped_windows);
            let windows = globals.windows@;
            &&& forall|i: int, j: int|
                0 <= i < j < windows.len() ==> (#[trigger] windows[i]).key != (
                #[trigger] windows[j]).key
            &&& forall|i: int|
                0 <= i < windows.len() ==> {
                    let record = records[(#[trigger] windows[i]).key];
                    &&& records.contains_key(windows[i].key)
                    &&& (windows[i].key / 0x1_0000_0000) % 2 == 1
                    &&& record.window == windows[i].surface
                    &&& record.wait_ack_configure == (record.next_configure_serial is Some)
                }
            &&& forall|key: u64| #[trigger]
                records.contains_key(key) ==> exists|i: int|
                    0 <= i < windows.len() && (#[trigger] windows[i]).key == key
            &&& forall|a: u64, b: u64|
                records.contains_key(a) && records.contains_key(b) && (
                #[trigger] records[a]).pending.activated && (
                #[trigger] records[b]).pending.activated ==> a == b
            &&& forall|i: int, j: int|
                0 <= i < j < globals.outputs@.len() ==> globals.outputs@[i] != globals.outputs@[j]
        },
{
    let records = slots(globals.mapped_windows);
    let windows = globals.windows@;
    let keys = window_keys(windows);
    assert(one_activated(records) <==> forall|a: u64, b: u64|
        records.contains_key(a) && records.contains_key(b) && (
        #[trigger] records[a]).pending.activated && (#[trigger] records[b]).pending.activated ==> a
            == b);
    if globals.wf() {
        assert forall|i: int, j: int| 0 <= i < j < windows.len() implies (
        #[trigger] windows[i]).key != (#[trigger] windows[j]).key by {
            assert(keys[i] != keys[j]);
        }
        assert forall|i: int| 0 <= i < windows.len() implies records.contains_key(
            (#[trigger] windows[i]).key,
        ) by {
            assert(keys[i] == windows[i].key);
            assert(keys.to_set().contains(keys[i]));
            assert(records.dom().contains(keys[i]));
        }
        assert forall|i: int| 0 <= i < windows.len() implies ((#[trigger] windows[i]).key
            / 0x1_0000_0000) % 2 == 1 by {
            assert(is_slot_key(windows[i].key));
        }
        assert forall|key: u64| #[trigger] records.contains_key(key) implies exists|i: int|
            0 <= i < windows.len() && (#[trigger] windows[i]).key == key by {
            assert(keys.to_set().contains(key));
            let i = choose|i: int| 0 <= i < keys.len() && keys[i] == key;
            assert(windows[i].key == key);
        }
    }
    if {
        &&& forall|i: int, j: int|
            0 <= i < j < windows.len() ==> (#[trigger] windows[i]).key != (
            #[trigger] windows[j]).key
        &&& forall|i: int|
            0 <= i < windows.len() ==> {
                let record = records[(#[trigger] windows[i]).key];
                &&& records.contains_key(windows[i].key)
                &&& (windows[i].key / 0x1_0000_0000) % 2 == 1
                &&& record.window == windows[i].surface
                &&& record.wait_ack_configure == (record.next_configure_serial is Some)
            }
        &&& forall|key: u64| #[trigger]
            records.contains_key(key) ==> exists|i: int|
                0 <= i < windows.len() && (#[trigger] windows[i]).key == key
        &&& one_activated(records)
        &&& forall|i: int, j: int|
            0 <= i < j < globals.outputs@.len() ==> globals.outputs@[i] != globals.outputs@[j]
    } {
        assert(keys.no_duplicates()) by {
            assert forall|i: int, j: int|
                0 <= i < keys.len() && 0 <= j < keys.len() && i != j implies keys[i] != keys[j] by {
                if i < j {
                    assert(windows[i].key != windows[j].key);
                } else {
                    assert(windows[j].key != windows[i].key);
                }
            }
        }
        assert forall|key: u64| records.contains_key(key) implies #[trigger] keys.to_set().contains(
            key,
        ) by {
            let i = choose|i: int| 0 <= i < windows.len() && (#[trigger] windows[i]).key == key;
            assert(keys[i] == key);
        }
        assert forall|key: u64| #[trigger] keys.to_set().contains(key) implies records.contains_key(
            key,
        ) by {
            let i = choose|i: int| 0 <= i < keys.len() && keys[i] == key;
            assert(windows[i].key == key);
        }
        assert(records.dom() =~= keys.to_set());
        assert forall|i: int| 0 <= i < windows.len() implies {
            let w = #[trigger] windows[i];
            is_slot_key(w.key) && records[w.key].window == w.surface && records[w.key].wf()
        } by {}
        assert(globals.wf());
    }
}

/// At the start there are no windows.
pub proof fn law_no_windows(key: u64)
    ensures
        !no_windows().contains_key(key),
{
}

/// What drives an output, whether it has to be drawn, and what a change of its
/// state leaves, are read off its entry; no other entry changes.
pub proof fn law_output_entries(
    state: OutputState,
    crtc: u32,
    device_id: u64,
    output: u64,
    other: u64,
    put: RenderState,
)
    ensures
        state.drives(crtc, device_id, output) <==> {
            &&& state.outputs@.contains_key(output)
            &&& state.outputs@[output].output.udev is Some
            &&& state.outputs@[output].output.udev->0.crtc == crtc
            &&& state.outputs@[output].output.udev->0.device_id == device_id
        },
        state.is_queued(output) <==> state.outputs@.contains_key(output)
            && state.outputs@[output].state == RenderState::Queued,
        state.with_state(output, put) == put_state(state.outputs@, output, put),
        ({
            let after = put_state(state.outputs@, output, put);
            &&& after.contains_key(output)
            &&& after[output].state == put
            &&& after[output].output == state.outputs@[output].output
            &&& other != output ==> {
                &&& after.contains_key(other) <==> state.outputs@.contains_key(other)
                &&& after[other] == state.outputs@[other]
            }
        }),
{
}

/// The mode that is chosen: one that the display prefers, where it prefers any,
/// and otherwise one that is not interlaced, where there is any. Of all that
/// come into question none is wider; of those as wide none is higher; of those
/// of the same size none is faster; and of those alike in all this it is the
/// last.
pub proof fn law_chosen_mode(modes: Seq<ConnectorMode>, chosen: int, j: int)
    requires
        is_best_mode(modes, mode_candidates(modes), chosen),
        0 <= j < modes.len(),
        (exists|k: int| 0 <= k < modes.len() && (#[trigger] modes[k]).mode_type & 8 != 0)
            ==> modes[j].mode_type & 8 != 0,
        (exists|k: int| 0 <= k < modes.len() && (#[trigger] modes[k]).mode_type & 8 != 0) || (
        exists|k: int| 0 <= k < modes.len() && (#[trigger] modes[k]).flags & 16 == 0)
            ==> modes[j].mode_type & 8 != 0 || modes[j].flags & 16 == 0,
    ensures
        0 <= chosen < modes.len(),
        (exists|k: int| 0 <= k < modes.len() && (#[trigger] modes[k]).mode_type & 8 != 0)
            ==> modes[chosen].mode_type & 8 != 0,
        (exists|k: int| 0 <= k < modes.len() && (#[trigger] modes[k]).mode_type & 8 != 0) || (
        exists|k: int| 0 <= k < modes.len() && (#[trigger] modes[k]).flags & 16 == 0)
            ==> modes[chosen].mode_type & 8 != 0 || modes[chosen].flags & 16 == 0,
        modes[chosen].width >= modes[j].width,
        modes[chosen].width == modes[j].width ==> modes[chosen].height >= modes[j].height,
        modes[chosen].width == modes[j].width && modes[chosen].height == modes[j].height
            ==> modes[chosen].vrefresh >= modes[j].vrefresh,
        modes[chosen].width == modes[j].width && modes[chosen].height == modes[j].height
            && modes[chosen].vrefresh == modes[j].vrefresh ==> chosen >= j,
{
    let allowed = mode_candidates(modes);
    let preferred = |m: ConnectorMode| m.preferred();
    let progressive = |m: ConnectorMode| !m.interlaced();
    assert(allowed(modes[chosen]));
    if exists|k: int| 0 <= k < modes.len() && (#[trigger] modes[k]).mode_type & 8 != 0 {
        let k = choose|k: int| 0 <= k < modes.len() && (#[trigger] modes[k]).mode_type & 8 != 0;
        assert(preferred(modes[k]));
    } else {
        assert forall|k: int| 0 <= k < modes.len() implies !preferred(#[trigger] modes[k]) by {
            assert(modes[k].mode_type & 8 == 0);
        }
        if exists|k: int| 0 <= k < modes.len() && (#[trigger] modes[k]).flags & 16 == 0 {
            let k = choose|k: int| 0 <= k < modes.len() && (#[trigger] modes[k]).flags & 16 == 0;
            assert(progressive(modes[k]));
        } else {
            assert forall|k: int| 0 <= k < modes.len() implies !progressive(
                #[trigger] modes[k],
            ) by {
                assert(modes[k].flags & 16 != 0);
            }
        }
    }
    assert(allowed(modes[j]));
}

/// The refresh rate in millihertz: `lines` are the lines per thousand seconds,
/// rounded down, and `frames` the frames, rounded to the nearest. An interlaced
/// mode shows twice as many half frames, a mode that draws its lines twice shows
/// half as many, and one that draws them `vscan` times as many times fewer.
pub proof fn law_refresh_rate(mode: ConnectorMode, lines: int, frames: int)
    requires
        mode.htotal > 0,
        mode.vtotal > 0,
        lines * mode.htotal <= mode.clock * 1_000_000 < (lines + 1) * mode.htotal,
        frames * mode.vtotal <= lines + mode.vtotal as int / 2 < (frames + 1) * mode.vtotal,
    ensures
        mode.timed(),
        mode.flags & 16 == 0 && mode.flags & 32 == 0 && mode.vscan <= 1 ==> mode.refresh()
            == frames,
        mode.flags & 16 != 0 && mode.flags & 32 == 0 && mode.vscan <= 1 ==> mode.refresh()
            == frames * 2,
        mode.flags & 16 == 0 && mode.flags & 32 != 0 && mode.vscan <= 1 ==> mode.refresh()
            == frames / 2,
        mode.flags & 16 != 0 && mode.flags & 32 != 0 && mode.vscan <= 1 ==> mode.refresh()
            == frames,
        mode.flags & 16 == 0 && mode.flags & 32 == 0 && mode.vscan > 1 ==> mode.refresh() == frames
            / (mode.vscan as int),
        mode.flags & 16 != 0 && mode.flags & 32 == 0 && mode.vscan > 1 ==> mode.refresh() == (frames
            * 2) / (mode.vscan as int),
        mode.flags & 16 == 0 && mode.flags & 32 != 0 && mode.vscan > 1 ==> mode.refresh() == (frames
            / 2) / (mode.vscan as int),
        mode.flags & 16 != 0 && mode.flags & 32 != 0 && mode.vscan > 1 ==> mode.refresh() == frames
            / (mode.vscan as int),
{
    let total = mode.clock * 1_000_000;
    let htotal = mode.htotal as int;
    let vtotal = mode.vtotal as int;
    assert((lines + 1) * htotal == lines * htotal + htotal) by (nonlinear_arith);
    lemma_fundamental_div_mod_converse(total, htotal, lines, total - lines * htotal);
    let rounded = lines + vtotal / 2;
    assert((frames + 1) * vtotal == frames * vtotal + vtotal) by (nonlinear_arith);
    lemma_fundamental_div_mod_converse(rounded, vtotal, frames, rounded - frames * vtotal);
    assert((frames * 2) / 2 == frames);
}

/// A mode is announced with its own size, and with its refresh rate, where that
/// is in range.
pub proof fn law_announced_mode(mode: ConnectorMode)
    ensures
        announced_mode(mode).size.width == mode.width,
        announced_mode(mode).size.height == mode.height,
        i32::MIN <= mode.refresh() <= i32::MAX ==> announced_mode(mode).refresh == mode.refresh(),
        announced_mode(mode).refresh == mode.refresh() as i32,
        mode.timed() <==> mode.htotal > 0 && mode.vtotal > 0,
{
}

/// The number that a text of decimal digits stands for.
pub open spec fn read_decimal(text: Seq<char>) -> int
    decreases text.len(),
{
    if text.len() == 0 {
        0
    } else {
        10 * read_decimal(text.drop_last()) + (text.last() as int - 48)
    }
}

/// A number in decimal consists of digits, has no leading zero, and reads back
/// as the number.
pub proof fn law_decimal_reads_back(value: nat)
    ensures
        decimal(value).len() > 0,
        forall|i: int|
            0 <= i < decimal(value).len() ==> 48 <= (#[trigger] decimal(value)[i]) as int <= 57,
        value > 0 ==> decimal(value)[0] as int != 48,
        value == 0 ==> decimal(value).len() == 1,
        read_decimal(decimal(value)) == value,
    decreases value,
{
    reveal_with_fuel(read_decimal, 2);
    let text = decimal(value);
    if value < 10 {
        assert(text.drop_last() =~= Seq::<char>::empty());
    } else {
        law_decimal_reads_back(value / 10);
        assert(text.drop_last() =~= decimal(value / 10));
        assert(text.last() as int == 48 + value % 10);
    }
}

/// An output is announced under the name of its connector's type, a hyphen and
/// its number, with what its display says of itself.
pub proof fn law_announcement(
    info: OutputInfo,
    interface: u32,
    interface_id: u32,
    display: Option<DisplayInfo>,
)
    requires
        announces(info, interface, interface_id, display),
    ensures
        info.connector@ == interface_name(interface) + seq!['-'] + decimal(interface_id as nat),
        display is None ==> {
            &&& info.make@ == "unknown"@
            &&& info.model@ == "unknown"@
            &&& info.serial is None
        },
        display matches Some(said) ==> {
            &&& info.serial == said.serial
            &&& said.make is None ==> info.make@ == "unknown"@
            &&& said.make is Some ==> info.make@ == said.make->0@
            &&& said.model is None ==> info.model@ == "unknown"@
            &&& said.model is Some ==> info.model@ == said.model->0@
        },
{
    reveal_strlit("-");
    assert("-"@ =~= seq!['-']);
}

/// A connector is driven under its own name, at the origin, with the physical
/// size of its display, in the mode that is chosen for it.
pub proof fn law_connector_plan(plan: ConnectorPlan, connector: Connector, info: OutputInfo)
    requires
        plans(plan, connector, info),
    ensures
        plan.description.name@ == info.connector@,
        plan.description.make@ == info.make@,
        plan.description.model@ == info.model@,
        connector.size is None ==> plan.description.size.width == 0 && plan.description.size.height
            == 0,
        connector.size matches Some(size) ==> {
            &&& plan.description.size.width == size.0 as i32
            &&& plan.description.size.height == size.1 as i32
            &&& size.0 <= i32::MAX ==> plan.description.size.width == size.0
            &&& size.1 <= i32::MAX ==> plan.description.size.height == size.1
        },
        is_best_mode(
            connector.modes@,
            mode_candidates(connector.modes@),
            plan.mode_index as int,
        ),
        0 <= plan.mode_index < connector.modes@.len(),
        plan.mode == announced_mode(connector.modes@[plan.mode_index as int]),
        plan.location.x == 0,
        plan.location.y == 0,
        plan.description.size == size_in_millimetres(connector.size),
{
}

/// A connector can be driven exactly when it has modes and a frame of the chosen
/// one takes some time.
pub proof fn law_drivable(connector: Connector, chosen: int)
    requires
        connector.modes@.len() > 0 ==> is_best_mode(
            connector.modes@,
            mode_candidates(connector.modes@),
            chosen,
        ),
    ensures
        connector.drivable() <==> connector.modes@.len() > 0 && connector.modes@[chosen].htotal > 0
            && connector.modes@[chosen].vtotal > 0,
{
    let modes = connector.modes@;
    assert forall|i: int| #[trigger]
        is_best_mode(modes, mode_candidates(modes), i) && modes.len() > 0 implies i == chosen by {
        let allowed = mode_candidates(modes);
        assert(allowed(modes[i]) && allowed(modes[chosen]));
    }
}

/// The pictures that are kept are those of the cursor files, field by field, and
/// a named cursor can be drawn exactly when it has a first picture.
pub proof fn law_pictures_are_kept(cursor: Cursor, icon: u32, images: Seq<Image>, i: int)
    requires
        0 <= i < images.len(),
    ensures
        image_views(images).len() == images.len(),
        ({
            let seen = image_views(images)[i];
            &&& seen.size == images[i].size
            &&& seen.width == images[i].width
            &&& seen.height == images[i].height
            &&& seen.xhot == images[i].xhot
            &&& seen.yhot == images[i].yhot
            &&& seen.delay == images[i].delay
            &&& seen.pixels_rgba == images[i].pixels_rgba@
            &&& seen.pixels_argb == images[i].pixels_argb@
        }),
        cursor.pictures().contains_key(icon) <==> cursor.cache@.contains_key(icon),
        cursor.cache@.contains_key(icon) ==> cursor.pictures()[icon] == image_views(
            cursor.cache@[icon].inner@,
        ),
        cursor.can_render() <==> (match cursor.status {
            CursorImageStatus::Named(shown) => cursor.cache@.contains_key(shown)
                && cursor.cache@[shown].inner@.len() > 0,
            _ => true,
        }),
        cursor.wf() <==> {
            &&& match cursor.status {
                CursorImageStatus::Named(shown) => cursor.cache@.contains_key(shown),
                _ => true,
            }
            &&& forall|kept: u32, k: int|
                cursor.cache@.contains_key(kept) && 0 <= k < cursor.cache@[kept].inner@.len() ==> (
                #[trigger] cursor.cache@[kept].inner@[k])@.well_formed()
        },
{
}

/// A picture is well-formed exactly when it has an extent of at most 32767 each
/// way, its hotspot is no further out than its far corner, and it has four bytes
/// for each pixel.
pub proof fn law_picture_is_well_formed(picture: ImageView)
    ensures
        picture.well_formed() <==> {
            &&& 0 < picture.width < 0x8000
            &&& 0 < picture.height < 0x8000
            &&& picture.xhot <= picture.width
            &&& picture.yhot <= picture.height
            &&& picture.pixels_rgba.len() == 4 * picture.width * picture.height
        },
{
}

/// The names of the connector types; a number that is none of theirs has none.
pub proof fn law_interface_names(interface: u32)
    ensures
        interface == 1 ==> interface_name(interface) == "VGA"@,
        interface == 2 ==> interface_name(interface) == "DVI-I"@,
        interface == 3 ==> interface_name(interface) == "DVI-D"@,
        interface == 4 ==> interface_name(interface) == "DVI-A"@,
        interface == 5 ==> interface_name(interface) == "Composite"@,
        interface == 6 ==> interface_name(interface) == "SVIDEO"@,
        interface == 7 ==> interface_name(interface) == "LVDS"@,
        interface == 8 ==> interface_name(interface) == "Component"@,
        interface == 9 ==> interface_name(interface) == "DIN"@,
        interface == 10 ==> interface_name(interface) == "DP"@,
        interface == 11 ==> interface_name(interface) == "HDMI-A"@,
        interface == 12 ==> interface_name(interface) == "HDMI-B"@,
        interface == 13 ==> interface_name(interface) == "TV"@,
        interface == 14 ==> interface_name(interface) == "eDP"@,
        interface == 15 ==> interface_name(interface) == "Virtual"@,
        interface == 16 ==> interface_name(interface) == "DSI"@,
        interface == 17 ==> interface_name(interface) == "DPI"@,
        interface == 18 ==> interface_name(interface) == "Writeback"@,
        interface == 19 ==> interface_name(interface) == "SPI"@,
        interface == 20 ==> interface_name(interface) == "USB"@,
        interface == 0 || interface > 20 ==> interface_name(interface) == "Unknown"@,
{
}

/// The frame that bytes begin with is what stands before their first zero byte.
pub proof fn law_frame_ends_at_first_zero(bytes: Seq<u8>, frame: Seq<u8>)
    ensures
        begins_with_frame(bytes, frame) <==> {
            &&& frame.len() < bytes.len()
            &&& bytes[frame.len() as int] == 0
            &&& forall|i: int|
                0 <= i < frame.len() ==> #[trigger] frame[i] == bytes[i] && frame[i] != 0
        },
{
    if begins_with_frame(bytes, frame) {
        assert forall|i: int| 0 <= i < frame.len() implies #[trigger] frame[i] == bytes[i]
            && frame[i] != 0 by {
            assert(frame.contains(frame[i]));
            assert(bytes.take(frame.len() as int)[i] == bytes[i]);
        }
    }
    if {
        &&& frame.len() < bytes.len()
        &&& bytes[frame.len() as int] == 0
        &&& forall|i: int|
            0 <= i < frame.len() ==> #[trigger] frame[i] == bytes[i] && frame[i] != 0
    } {
        assert(frame =~= bytes.take(frame.len() as int));
    }
}

/// The user's choice of a backend fixes the session type, whatever the
/// environment says; without one it is what the environment says, and a name
/// that is neither of the two known ones is kept.
pub proof fn law_session_type(
    session: SessionType,
    custom: Option<Session>,
    environment: Option<String>,
)
    requires
        session_type_is(session, custom, environment),
        custom is None ==> environment is Some,
    ensures
        custom == Some(Session::Winit) ==> session is Wayland,
        custom == Some(Session::Udev) ==> session is TTY,
        custom is None ==> {
            &&& session is TTY <==> environment->0@ == "tty"@
            &&& session is Wayland <==> environment->0@ == "wayland"@
            &&& session matches SessionType::Other(name) ==> name@ == environment->0@
        },
{
    reveal_strlit("tty");
    reveal_strlit("wayland");
    assert("tty"@.len() != "wayland"@.len());
}

/// The fixed numbers: how keys repeat, what a step of a wheel scrolls, how often
/// the window is drawn, and the refresh rate of an output of unknown rate.
pub proof fn law_fixed_numbers()
    ensures
        KEYBOARD_REPEAT_DELAY == 200,
        KEYBOARD_REPEAT_RATE == 25,
        PIXELS_PER_STEP == 15,
        PARTS_PER_STEP == 120,
        FRAME_INTERVAL == 16,
        DEFAULT_REFRESH == 60_000,
{
}

/// The window backend announces the size of its window; the hardware backend
/// announces a screen of 1920 by 1080. Both announce 60 Hz and their own names.
pub proof fn law_backend_outputs(window: WinitBackend, hardware: UdevData)
    ensures
        window.output_name() == "winit"@,
        window.output_model() == "Winit"@,
        window.output_mode().size == window.window_size,
        window.output_mode().refresh == 60_000,
        hardware.output_name() == "udev"@,
        hardware.output_model() == "udev"@,
        hardware.output_mode().size.width == 1920,
        hardware.output_mode().size.height == 1080,
        hardware.output_mode().refresh == 60_000,
{
}

/// Pressing the n-th key for virtual terminals, of the twelve that follow the
/// keysym 0x1008fe00, switches to terminal n on the hardware. Everything else
/// goes to the client, and in a window every key does.
pub proof fn law_terminal_of_key(
    hardware: UdevData,
    window: WinitBackend,
    state: KeyState,
    keysym: u32,
)
    ensures
        state == KeyState::Pressed && 0x1008_fe00 < keysym <= 0x1008_fe0c ==> hardware.tty_keys(
            state,
            keysym,
        ) == FilterResult::SwitchVt((keysym - 0x1008_fe00) as i32),
        state == KeyState::Released || keysym <= 0x1008_fe00 || keysym > 0x1008_fe0c
            ==> hardware.tty_keys(state, keysym) == FilterResult::Forward,
        window.tty_keys(state, keysym) == FilterResult::Forward,
{
}

/// Key code 9 ends the compositor, pressed or released; releasing key code 10
/// starts a terminal; no other key does anything.
pub proof fn law_compositor_keys(keycode: u32, state: KeyState)
    ensures
        action_of_key(keycode, state) == KeyAction::Exit <==> keycode == 9,
        action_of_key(keycode, state) == KeyAction::SpawnTerminal <==> keycode == 10 && state
            == KeyState::Released,
        action_of_key(keycode, state) == KeyAction::Nothing <==> keycode != 9 && (keycode != 10
            || state == KeyState::Pressed),
{
}

/// A button moves the focus exactly when it is pressed while no grab holds the
/// pointer. A release never does, nor does anything during a grab.
pub proof fn law_focus_moves_on_free_press(grabbed: bool)
    ensures
        !moves_focus(KeyState::Released, grabbed),
        !moves_focus(KeyState::Released, true),
        !moves_focus(KeyState::Pressed, true),
        moves_focus(KeyState::Pressed, false),
{
}

/// A released button, and any button while the pointer is grabbed, does nothing
/// and leaves the space as it was.
pub proof fn law_button_without_focus(
    before: CompositorGlobals,
    state: KeyState,
    grabbed: bool,
    under: Option<WindowUnder>,
    button: ButtonAction,
    after: CompositorGlobals,
)
    requires
        button_leads_to(before, state, grabbed, under, button, after),
        state == KeyState::Released || grabbed,
    ensures
        button is Nothing,
        after == before,
{
}

/// A button that is pressed on a window while the pointer is free focuses that
/// window: it ends up on top and is the one active window, and there are as many
/// windows as before.
pub proof fn law_button_on_window(
    before: CompositorGlobals,
    hit: WindowUnder,
    button: ButtonAction,
    after: CompositorGlobals,
    key: u64,
)
    requires
        button_leads_to(before, KeyState::Pressed, false, Some(hit), button, after),
        exists|j: int| 0 <= j < before.windows@.len() && (#[trigger] before.windows@[j]).key
            == hit.key,
        slots(before.mapped_windows).contains_key(key),
    ensures
        button == (ButtonAction::Focus { key: hit.key, surface: hit.surface }),
        after.outputs == before.outputs,
        after.windows@.len() == before.windows@.len(),
        after.windows@.last().key == hit.key,
        before.windows@.contains(after.windows@.last()),
        slots(after.mapped_windows).contains_key(key),
        slots(after.mapped_windows)[key].pending.activated <==> key == hit.key,
        slots(after.mapped_windows)[key].pending.size == slots(
            before.mapped_windows,
        )[key].pending.size,
        slots(after.mapped_windows)[key].has_pending_changes == slots(
            before.mapped_windows,
        )[key].has_pending_changes,
{
    let windows = before.windows@;
    law_raise_moves_one_window(windows, after.windows@, hit.key);
    law_activation_of_all(slots(before.mapped_windows), Some(hit.key), key);
    let j = choose|j: int| 0 <= j < windows.len() && (#[trigger] windows[j]).key == hit.key;
    assert(window_keys(windows)[j] == hit.key);
    assert(window_keys(windows).contains(hit.key));
}

/// A button that is pressed beside all windows while the pointer is free takes
/// the focus away: no window is active, all of them are told, back to front, and
/// none moves.
pub proof fn law_button_beside_windows(
    before: CompositorGlobals,
    button: ButtonAction,
    after: CompositorGlobals,
    key: u64,
    i: int,
)
    requires
        button_leads_to(before, KeyState::Pressed, false, None, button, after),
        slots(before.mapped_windows).contains_key(key),
        0 <= i < before.windows@.len(),
    ensures
        after.windows == before.windows,
        after.outputs == before.outputs,
        slots(after.mapped_windows).contains_key(key),
        !slots(after.mapped_windows)[key].pending.activated,
        button matches ButtonAction::Unfocus { windows } && windows@.len() == before.windows@.len()
            && windows@[i] == before.windows@[i].key,
{
    law_activation_of_all(slots(before.mapped_windows), None, key);
}

/// Where a number lies: an integer at twice itself, and what lies above it,
/// below the next integer, one further.
pub proof fn law_place(raw: Coordinate, bound: i32)
    ensures
        raw.fractional ==> raw.place() == 2 * raw.floor + 1,
        !raw.fractional ==> raw.place() == 2 * raw.floor,
        AxisLocation::Unchanged.place(raw) == raw.place(),
        AxisLocation::Bound(bound).place(raw) == 2 * bound,
{
}

/// A coordinate between the bounds stays, one beyond the upper bound becomes
/// that bound, and one below the lower bound becomes that bound, unless the
/// upper one is lower still and wins.
pub proof fn law_clamp(raw: Coordinate, low: i32, high: i32)
    ensures
        low <= raw.floor && (raw.floor < high || raw.floor == high && !raw.fractional)
            ==> clamped_axis(raw, low, high) == AxisLocation::Unchanged,
        raw.floor > high || raw.floor == high && raw.fractional ==> clamped_axis(raw, low, high)
            == AxisLocation::Bound(high),
        raw.floor < low && low <= high ==> clamped_axis(raw, low, high) == AxisLocation::Bound(
            low,
        ),
        raw.floor < low && low > high ==> clamped_axis(raw, low, high) == AxisLocation::Bound(high),
{
}

/// A pointer on an output stays where it is: between the output's location and
/// the size of its mode. Beyond that size it is put at the size, and short of
/// the location, where that is no further than the size, at the location. Each
/// axis goes by its own bounds.
pub proof fn law_pointer_on_output(x: Coordinate, y: Coordinate, output: Output)
    requires
        output.mode is Some,
    ensures
        ({
            let left = output.location.x;
            let top = output.location.y;
            let width = output.mode->0.size.width;
            let height = output.mode->0.size.height;
            let (to_x, to_y) = clamped_to_output(x, y, output);
            &&& left <= x.floor && (x.floor < width || x.floor == width && !x.fractional) ==> to_x
                == AxisLocation::Unchanged
            &&& top <= y.floor && (y.floor < height || y.floor == height && !y.fractional) ==> to_y
                == AxisLocation::Unchanged
            &&& x.floor > width || x.floor == width && x.fractional ==> to_x
                == AxisLocation::Bound(width)
            &&& y.floor > height || y.floor == height && y.fractional ==> to_y
                == AxisLocation::Bound(height)
            &&& x.floor < left && left <= width ==> to_x == AxisLocation::Bound(left)
            &&& y.floor < top && top <= height ==> to_y == AxisLocation::Bound(top)
            &&& x.floor < left && left > width ==> to_x == AxisLocation::Bound(width)
            &&& y.floor < top && top > height ==> to_y == AxisLocation::Bound(height)
        }),
{
}

/// The distance of an axis comes from the pixels exactly when there are some, and
/// from the wheel exactly when there is no pixel amount and the wheel turned; the
/// source of the scrolling plays no part. The steps go along with every distance
/// where there are steps. A finger with an amount of zero pixels, and nothing
/// else, ends the scrolling.
pub proof fn law_scroll_distance(sample: AxisSample, finger: bool, other: bool)
    ensures
        ({
            let plan = planned_axis(sample, finger);
            &&& plan.value == ScrollValue::Amount <==> sample.amount == Amount::NonZero
            &&& plan.value == ScrollValue::Steps <==> sample.amount == Amount::Absent
                && sample.amount_v120 == Amount::NonZero
            &&& plan.value == ScrollValue::Nothing <==> sample.amount == Amount::Zero
                || sample.amount == Amount::Absent && sample.amount_v120 != Amount::NonZero
            &&& plan.value == planned_axis(sample, other).value
            &&& plan.v120 == planned_axis(sample, other).v120
            &&& plan.v120 <==> sample.amount_v120 != Amount::Absent && (sample.amount
                == Amount::NonZero || sample.amount == Amount::Absent && sample.amount_v120
                == Amount::NonZero)
            &&& plan.stop <==> finger && sample.amount == Amount::Zero
        }),
{
}

/// A client may move or resize a window exactly when there is a pointer, it is
/// grabbed with the serial of the request, and the grab began on a surface of
/// the same client.
pub proof fn law_grab(pointer: Option<PointerState>)
    ensures
        pointer is None ==> !grab_allowed(pointer),
        pointer matches Some(p) ==> (grab_allowed(pointer) <==> p.has_grab && p.grab_start is Some
            && p.grab_start->0.focus_same_client == Some(true)),
{
}

/// The root of a surface's tree is the last of its ancestors, or the surface
/// itself where it has none.
pub proof fn law_root_surface(surface: u64, ancestors: Seq<u64>, root: u64)
    ensures
        root_surface(surface, Seq::empty()) == surface,
        root_surface(surface, ancestors.push(root)) == root,
{
    assert(ancestors.push(root).last() == root);
}

/// A value is brought into the range of `i32` by as little as possible.
pub proof fn law_saturation(value: int)
    ensures
        i32::MIN <= value <= i32::MAX ==> saturated(value) == value,
        value > i32::MAX ==> saturated(value) == i32::MAX,
        value < i32::MIN ==> saturated(value) == i32::MIN,
{
}

/// The area of a popup is as large as the output; its place is the output's,
/// less the popup's, less the window's, each difference in the range of `i32`.
pub proof fn law_popup_area_fields(output: Rectangle, popup_offset: Point, window: Point)
    ensures
        popup_area(output, popup_offset, window).size == output.size,
        ({
            let clip = |value: int|
                if value > i32::MAX {
                    i32::MAX as int
                } else if value < i32::MIN {
                    i32::MIN as int
                } else {
                    value
                };
            let area = popup_area(output, popup_offset, window);
            &&& area.loc.x == clip(clip(output.loc.x - popup_offset.x) - window.x)
            &&& area.loc.y == clip(clip(output.loc.y - popup_offset.y) - window.y)
        }),
{
}

/// Two compositors that differ in their globals alone agree on all else.
pub proof fn law_same_but_globals<B>(app: App<B>, other: App<B>)
    ensures
        app.same_but_globals(other) <==> {
            &&& app.backend == other.backend
            &&& app.sleep == other.sleep
            &&& app.input_state == other.input_state
            &&& app.output_state == other.output_state
        },
{
}

/// Deciding who draws the decorations of a window sets that in the window's
/// record and nothing else anywhere; without a window nothing changes.
pub proof fn law_decoration<B>(
    before: App<B>,
    after: App<B>,
    surface: u64,
    mode: Option<DecorationMode>,
    key: u64,
)
    requires
        after.decorated(before, surface, mode),
        slots(before.globals.mapped_windows).contains_key(key),
        window_with(before.globals.windows@, surface) matches Some(w) ==> slots(
            before.globals.mapped_windows,
        ).contains_key(w.key),
    ensures
        after.globals.windows@ == before.globals.windows@,
        after.globals.outputs@ == before.globals.outputs@,
        after.backend == before.backend,
        after.sleep == before.sleep,
        after.input_state == before.input_state,
        after.output_state == before.output_state,
        slots(after.globals.mapped_windows).dom() == slots(before.globals.mapped_windows).dom(),
        ({
            let old_record = slots(before.globals.mapped_windows)[key];
            let record = slots(after.globals.mapped_windows)[key];
            let found = window_with(before.globals.windows@, surface);
            &&& found is Some && found->0.key == key ==> record.pending.decoration_mode == mode
            &&& found is None || found->0.key != key ==> record == old_record
            &&& record.pending.size == old_record.pending.size
            &&& record.pending.activated == old_record.pending.activated
            &&& record.pending.resizing == old_record.pending.resizing
            &&& record.window == old_record.window
            &&& record.has_pending_changes == old_record.has_pending_changes
            &&& record.wait_ack_configure == old_record.wait_ack_configure
            &&& record.next_configure_serial == old_record.next_configure_serial
        }),
{
    assert(slots(after.globals.mapped_windows).dom() =~= slots(
        before.globals.mapped_windows,
    ).dom());
}

/// The first node, and the first driven controller, of a list is one that is
/// there with none before it.
pub proof fn law_first_of_list(
    nodes: Seq<Option<u64>>,
    crtcs: Seq<u32>,
    surfaces: Map<u32, OutputInfo>,
    i: int,
)
    ensures
        is_first_node(nodes, i) <==> {
            &&& 0 <= i < nodes.len()
            &&& nodes[i] is Some
            &&& forall|j: int| 0 <= j < i ==> (#[trigger] nodes[j]) is None
        },
        is_first_driven(crtcs, surfaces, i) <==> {
            &&& 0 <= i < crtcs.len()
            &&& surfaces.contains_key(crtcs[i])
            &&& forall|j: int| 0 <= j < i ==> !surfaces.contains_key(#[trigger] crtcs[j])
        },
{
}

/// The device that is driven is the one that is held, by its number, and its
/// surfaces are those that are driven.
pub proof fn law_driven_device(data: UdevData, device_id: u64)
    ensures
        data.drives_device(device_id) <==> data.device is Some && data.device->0.id == device_id,
        data.device is Some ==> data.surfaces() == data.device->0.surfaces@,
{
}

/// A compositor on the hardware is well-formed exactly when its space is, every
/// output belongs to a controller, has a mode and is mapped, and every driven
/// surface has an output.
pub proof fn law_hardware_is_well_formed(app: App<UdevData>)
    ensures
        app.wf() <==> {
            &&& app.globals.wf()
            &&& forall|id: u64| #[trigger]
                app.output_state.outputs@.contains_key(id) ==> {
                    &&& app.output_state.outputs@[id].output.udev is Some
                    &&& app.output_state.outputs@[id].output.mode is Some
                    &&& app.globals.outputs@.contains(id)
                }
            &&& app.backend.device is Some ==> forall|crtc: u32| #[trigger]
                app.backend.device->0.surfaces@.contains_key(crtc) ==> exists|id: u64|
                    {
                        &&& #[trigger] app.output_state.outputs@.contains_key(id)
                        &&& app.output_state.outputs@[id].output.udev == Some(
                            UdevOutputState { device_id: app.backend.device->0.id, crtc },
                        )
                    }
        },
{
    if let Some(device) = app.backend.device {
        assert forall|crtc: u32|
            app.has_output(crtc, device.id) <==> exists|id: u64|
                {
                    &&& #[trigger] app.output_state.outputs@.contains_key(id)
                    &&& app.output_state.outputs@[id].output.udev == Some(
                        UdevOutputState { device_id: device.id, crtc },
                    )
                } by {
            if app.has_output(crtc, device.id) {
                let id = choose|id: u64| #[trigger] app.output_state.drives(crtc, device.id, id);
                assert(app.output_state.outputs@.contains_key(id));
            }
            if exists|id: u64|
                {
                    &&& #[trigger] app.output_state.outputs@.contains_key(id)
                    &&& app.output_state.outputs@[id].output.udev == Some(
                        UdevOutputState { device_id: device.id, crtc },
                    )
                } {
                let id = choose|id: u64|
                    {
                        &&& #[trigger] app.output_state.outputs@.contains_key(id)
                        &&& app.output_state.outputs@[id].output.udev == Some(
                            UdevOutputState { device_id: device.id, crtc },
                        )
                    };
                assert(app.output_state.drives(crtc, device.id, id));
            }
        }
    }
}

/// There is an output to keep the pointer on exactly when there is one and all
/// have modes; and two compositors that differ in their outputs alone agree on
/// all else.
pub proof fn law_outputs_for_pointer(app: App<UdevData>, other: App<UdevData>)
    ensures
        app.outputs_have_modes() <==> {
            &&& exists|id: u64| #[trigger] app.output_state.outputs@.contains_key(id)
            &&& forall|id: u64| #[trigger]
                app.output_state.outputs@.contains_key(id)
                    ==> app.output_state.outputs@[id].output.mode is Some
        },
        app.same_but_outputs(other) <==> {
            &&& app.backend == other.backend
            &&& app.globals == other.globals
            &&& app.sleep == other.sleep
            &&& app.input_state == other.input_state
        },
{
    let outputs = app.output_state.outputs@;
    if !outputs.is_empty() {
        let id = outputs.dom().choose();
        assert(outputs.dom().contains(id)) by {
            if forall|id: u64| !outputs.dom().contains(id) {
                assert(outputs.dom() =~= Set::empty());
            }
        }
        assert(outputs.contains_key(id));
    }
    if exists|id: u64| #[trigger] outputs.contains_key(id) {
        assert(!outputs.is_empty());
    }
}

/// The share of each window is the screen's width by the number of windows,
/// rounded towards zero; the windows stand at the multiples of that share.
pub proof fn law_tile_shares(windows: Seq<WindowId>, screen: Size, share: int, i: int)
    requires
        0 <= i < windows.len() <= i32::MAX,
        screen.width >= 0 ==> share * windows.len() <= screen.width < (share + 1) * windows.len(),
        screen.width < 0 ==> (share - 1) * windows.len() < screen.width <= share * windows.len(),
    ensures
        quotient(screen.width as int, windows.len() as int) == share,
        tiled(windows, screen).len() == windows.len(),
        tiled(windows, screen)[i].window == windows[i],
        tiled(windows, screen)[i].size.width == share,
        tiled(windows, screen)[i].size.height == screen.height,
        tiled(windows, screen)[i].pos.x == i * share,
        tiled(windows, screen)[i].pos.y == 0,
{
    let n = windows.len() as int;
    let width = screen.width as int;
    if width >= 0 {
        assert((share + 1) * n == share * n + n) by (nonlinear_arith);
        lemma_fundamental_div_mod_converse(width, n, share, width - share * n);
    } else {
        assert((share - 1) * n == share * n - n) by (nonlinear_arith);
        assert((-share) * n == -(share * n)) by (nonlinear_arith);
        lemma_fundamental_div_mod_converse(-width, n, -share, -width - (-share) * n);
    }
    crate::window_manager::lemma_share(width, n, i);
}

/// A connector change is acted on exactly when there is a controller, and then on
/// that controller: connecting connects, disconnecting disconnects.
pub proof fn law_scan(crtc: u32)
    ensures
        action_of_scan(ScanEvent::Connected { crtc: Some(crtc) }) == (ScanAction::Connect { crtc }),
        action_of_scan(ScanEvent::Disconnected { crtc: Some(crtc) }) == (ScanAction::Disconnect {
            crtc,
        }),
        action_of_scan(ScanEvent::Connected { crtc: None }) == ScanAction::Ignore,
        action_of_scan(ScanEvent::Disconnected { crtc: None }) == ScanAction::Ignore,
{
}

/// A device is opened exactly when it is on the primary node; a device that
/// changed or went is looked at exactly when it is the one that is driven.
pub proof fn law_device_events(app: App<UdevData>, device_id: u64, node: Option<u64>)
    ensures
        ({
            let action = app.action_of_device(UdevEvent::Added { device_id, node });
            &&& action == DeviceAction::Open <==> node is Some && node->0
                == app.backend.primary_node
            &&& action == DeviceAction::Ignore <==> node is None || node->0
                != app.backend.primary_node
        }),
        ({
            let driven = app.backend.device is Some && app.backend.device->0.id == device_id;
            let changed = app.action_of_device(UdevEvent::Changed { device_id });
            let removed = app.action_of_device(UdevEvent::Removed { device_id });
            &&& driven ==> changed == DeviceAction::Scan && removed == DeviceAction::Disconnect
            &&& !driven ==> changed == DeviceAction::Ignore && removed == DeviceAction::Ignore
        }),
{
}

/// A frame is reported with the very time at which it was shown, and with zero
/// where that is a time on the wall clock.
pub proof fn law_presentation_time(secs: u64, nanos: u32)
    ensures
        shown_at(DrmEventTime::Monotonic { secs, nanos }).0 == secs,
        shown_at(DrmEventTime::Monotonic { secs, nanos }).1 == nanos,
        shown_at(DrmEventTime::Realtime).0 == 0,
        shown_at(DrmEventTime::Realtime).1 == 0,
{
}

/// A frame is handed on exactly when it was drawn and is not empty; the buffers
/// are thrown away exactly when drawing failed.
pub proof fn law_after_render(result: FrameResult)
    ensures
        step_after_render(result) == FrameStep::QueueFrame <==> result == (FrameResult::Rendered {
            is_empty: false,
        }),
        step_after_render(result) == FrameStep::ResetBuffers <==> result == FrameResult::Failed,
        step_after_render(result) == FrameStep::Done <==> result == (FrameResult::Rendered {
            is_empty: true,
        }),
{
}

/// The marker is in front of everything; behind it comes the first element of the
/// pointer's picture, where there is one; and behind these, unchanged and in
/// order, the space.
pub proof fn law_frame_elements<E>(space: Seq<E>, cursor: Seq<E>, marker: E)
    ensures
        frame_elements(space, cursor, marker)[0] == marker,
        cursor.len() == 0 ==> {
            &&& frame_elements(space, cursor, marker).len() == space.len() + 1
            &&& frame_elements(space, cursor, marker).skip(1) == space
        },
        cursor.len() > 0 ==> {
            &&& frame_elements(space, cursor, marker).len() == space.len() + 2
            &&& frame_elements(space, cursor, marker)[1] == cursor[0]
            &&& frame_elements(space, cursor, marker).skip(2) == space
        },
{
    let elements = frame_elements(space, cursor, marker);
    if cursor.len() == 0 {
        assert(elements.skip(1) =~= space);
    } else {
        assert(elements.skip(2) =~= space);
    }
}

/// The marker is 6 by 16 pixels, wherever the pointer is.
pub proof fn law_marker(location: Point)
    ensures
        marker_at(location).loc == location,
        marker_at(location).size.width == 6,
        marker_at(location).size.height == 16,
{
}

/// A new size of the window is a new mode of the output, of that size at 60 Hz;
/// closing the window stops the compositor, input is handled, a redraw serves
/// the plugins, and a change of focus does nothing.
pub proof fn law_window_events(size: Size)
    ensures
        action_of_window(WinitEvent::Resized { size }) matches WinitAction::ChangeMode { mode }
            && mode.size == size && mode.refresh == 60_000,
        action_of_window(WinitEvent::CloseRequested) == WinitAction::Stop,
        action_of_window(WinitEvent::Input) == WinitAction::HandleInput,
        action_of_window(WinitEvent::Redraw) == WinitAction::ServePlugins,
        action_of_window(WinitEvent::Focus) == WinitAction::Nothing,
{
}

/// A commit reaches the plugins exactly when a window has the surface; a first
/// configure goes to such a window that never got one, and to such a popup.
pub proof fn law_commit_plan(windows: Seq<Window>, surface: u64, sent: bool, popup: PopupCommit)
    ensures
        ({
            let plan = commit_plan(windows, surface, sent, popup);
            &&& plan.window is Some <==> exists|j: int|
                0 <= j < windows.len() && (#[trigger] windows[j]).surface == surface
            &&& plan.window matches Some(w) ==> w.surface == surface && windows.contains(w)
            &&& plan.configure_toplevel <==> plan.window is Some && !sent
            &&& plan.configure_popup <==> popup == (PopupCommit::Xdg {
                initial_configure_sent: false,
            })
        }),
{
    law_window_of_surface(windows, surface);
}

/// A commit is noted by the window at the root of the surface's tree, unless the
/// surface waits for its parent.
pub proof fn law_commit_reaches_root(
    windows: Seq<Window>,
    surface: u64,
    sync_subsurface: bool,
    ancestors: Seq<u64>,
)
    ensures
        ({
            let noted = committed_window(windows, surface, sync_subsurface, ancestors);
            let root = if ancestors.len() > 0 {
                ancestors[ancestors.len() - 1]
            } else {
                surface
            };
            &&& sync_subsurface ==> noted is None
            &&& !sync_subsurface ==> (noted is Some <==> exists|j: int|
                0 <= j < windows.len() && (#[trigger] windows[j]).surface == root)
            &&& noted matches Some(w) ==> w.surface == root && windows.contains(w)
        }),
{
    let root = if ancestors.len() > 0 {
        ancestors[ancestors.len() - 1]
    } else {
        surface
    };
    law_window_of_surface(windows, root);
}

/// A popup belongs to the mapped window of its topmost parent, and is kept on the
/// output that was mapped first.
pub proof fn law_popup_parent(globals: CompositorGlobals, root: u64)
    ensures
        popup_parent(globals, None) is None,
        popup_parent(globals, Some(root)) is Some <==> exists|j: int|
            0 <= j < globals.windows@.len() && (#[trigger] globals.windows@[j]).surface == root,
        popup_parent(globals, Some(root)) matches Some(parent) ==> {
            &&& parent.window.surface == root
            &&& globals.windows@.contains(parent.window)
            &&& parent.output == globals.outputs@[0]
        },
{
    law_window_of_surface(globals.windows@, root);
}

} // verus!
