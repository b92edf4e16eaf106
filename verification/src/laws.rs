//! What holds of the compositor as a whole, across its functions.

use vstd::prelude::*;

use crate::backend::{UdevData, XF86_SWITCH_VT_1, XF86_SWITCH_VT_12};
use crate::connector::{is_best_mode, mode_candidates, some_mode, ConnectorMode};
use crate::cursor::{Cursor, CursorImageStatus};
use crate::geometry::{Point, Rectangle, Size};
use crate::globals::{
    activated, is_first_window, lemma_no_window, lemma_window_index, new_record, one_activated,
    raised, raises, relocated, window_ids, window_index, window_keys, window_with, with_output,
    CompositorGlobals, Window,
};
use crate::input::{
    clamped_axis, planned_axis, AxisLocation, AxisSample, Coordinate, FilterResult, KeyState,
    ScrollValue, SpecialActions,
};
use crate::mapped::{MappedWindow, PendingEdit, ToplevelState};
use crate::output::{put_state, OutputEntry, OutputState, RenderState};
use crate::slots::slots;
use crate::socket::begins_with_frame;
use crate::state::{popup_area, App};
use crate::window_manager::{lemma_share, quotient, tiled, WindowId};

verus! {

/// What can happen to the record of a window.
pub enum WindowStep {
    /// The configure step, with the answer of the client connection.
    Configure(Option<u32>),
    /// An acknowledgement of a serial.
    Ack(u32),
    /// The client is asked for a size.
    SetSize(i32, i32),
    /// The pending state is rewritten.
    Rewrite(ToplevelState),
    /// The pending state is changed outside the handshake.
    Edit(PendingEdit),
    /// The window is activated or deactivated.
    Activate(bool),
}

/// A window after one step.
pub open spec fn after_step(window: MappedWindow, step: WindowStep) -> MappedWindow {
    match step {
        WindowStep::Configure(reply) => window.configured(reply),
        WindowStep::Ack(serial) => window.acked(serial),
        WindowStep::SetSize(width, height) => window.with_size(width, height),
        WindowStep::Rewrite(pending) => window.with_pending(pending),
        WindowStep::Edit(edit) => MappedWindow { pending: window.pending.edited(edit), ..window },
        WindowStep::Activate(activated) => window.with_activated(activated),
    }
}

/// All steps are configure steps or acknowledgements.
pub open spec fn only_handshake(steps: Seq<WindowStep>) -> bool {
    forall|i: int|
        0 <= i < steps.len() ==> (#[trigger] steps[i]) is Configure || steps[i] is Ack
}

/// A window after a number of steps.
pub open spec fn after_steps(window: MappedWindow, steps: Seq<WindowStep>) -> MappedWindow
    decreases steps.len(),
{
    if steps.len() == 0 {
        window
    } else {
        after_step(after_steps(window, steps.drop_last()), steps.last())
    }
}

/// An acknowledgement undoes the configure that it answers: the window is as it
/// was before, and the next configure is due.
pub proof fn law_ack_undoes_configure(window: MappedWindow, serial: u32)
    requires
        window.wf(),
        window.configure_due(),
    ensures
        window.configured(Some(serial)).acked(serial) == window,
{
}

/// Once a configure with a serial has been sent, that serial stays the awaited
/// one, and no second configure is due, whatever happens to the window, until
/// the serial is acknowledged; then the next one is due. The handshake alone
/// changes nothing at all meanwhile.
pub proof fn law_one_configure_at_a_time(
    window: MappedWindow,
    serial: u32,
    steps: Seq<WindowStep>,
)
    requires
        window.configure_due(),
        !steps.contains(WindowStep::Ack(serial)),
    ensures
        ({
            let sent = window.configured(Some(serial));
            let later = after_steps(sent, steps);
            &&& later.wait_ack_configure
            &&& later.next_configure_serial == Some(serial)
            &&& !later.configure_due()
            &&& later.has_pending_changes
            &&& later.acked(serial).configure_due()
            &&& only_handshake(steps) ==> later == sent
        }),
    decreases steps.len(),
{
    if steps.len() > 0 {
        let rest = steps.drop_last();
        assert forall|i: int| 0 <= i < rest.len() implies rest[i] != WindowStep::Ack(serial) by {
            assert(rest[i] == steps[i]);
        }
        law_one_configure_at_a_time(window, serial, rest);
        assert(steps[steps.len() - 1] == steps.last());
        if only_handshake(steps) {
            assert forall|i: int| 0 <= i < rest.len() implies (#[trigger] rest[i]) is Configure
                || rest[i] is Ack by {
                assert(rest[i] == steps[i]);
            }
        }
    }
}

/// No step touches what the window is, a well-formed window stays well-formed,
/// and a change that the next configure has to carry is not forgotten. The
/// handshake alone does not touch what is asked of the client.
pub proof fn law_handshake_keeps_window(window: MappedWindow, steps: Seq<WindowStep>)
    ensures
        ({
            let later = after_steps(window, steps);
            &&& later.window == window.window
            &&& window.wf() ==> later.wf()
            &&& window.has_pending_changes ==> later.has_pending_changes
            &&& only_handshake(steps) ==> later.pending == window.pending
                && later.has_pending_changes == window.has_pending_changes
        }),
    decreases steps.len(),
{
    if steps.len() > 0 {
        let rest = steps.drop_last();
        law_handshake_keeps_window(window, rest);
        assert(steps[steps.len() - 1] == steps.last());
        if only_handshake(steps) {
            assert forall|i: int| 0 <= i < rest.len() implies (#[trigger] rest[i]) is Configure
                || rest[i] is Ack by {
                assert(rest[i] == steps[i]);
            }
        }
    }
}

/// The window that mapping a surface puts into the space.
pub open spec fn new_window(surface: u64, key: u64) -> Window {
    Window { surface, key, location: Point { x: 0, y: 0 } }
}

/// A toplevel that is destroyed after it was mapped leaves the space as it was,
/// except that no window is active any more: `mapped` is what mapping the
/// surface makes of `before`, and `after` is what destroying it makes of that.
pub proof fn law_destroy_undoes_map(
    before: CompositorGlobals,
    mapped: CompositorGlobals,
    after: CompositorGlobals,
    surface: u64,
    key: u64,
)
    requires
        window_index(before.windows@, surface) is None,
        !slots(before.mapped_windows).contains_key(key),
        mapped.windows@ == before.windows@.push(new_window(surface, key)),
        slots(mapped.mapped_windows) == activated(
            slots(before.mapped_windows).insert(key, new_record(surface)),
            Some(key),
        ),
        after.windows@ == mapped.windows@.remove(window_index(mapped.windows@, surface)->0),
        slots(after.mapped_windows) == slots(mapped.mapped_windows).remove(
            window_with(mapped.windows@, surface)->0.key,
        ),
    ensures
        window_with(mapped.windows@, surface) == Some(new_window(surface, key)),
        after.windows@ == before.windows@,
        slots(after.mapped_windows) == activated(slots(before.mapped_windows), None),
{
    law_mapped_window_is_found(before.windows@, new_window(surface, key));
    let n = before.windows@.len() as int;
    assert(mapped.windows@[n] == new_window(surface, key));
    lemma_no_window(before.windows@, surface);
    assert(is_first_window(mapped.windows@, surface, n)) by {
        assert forall|j: int| 0 <= j < n implies (#[trigger] mapped.windows@[j]).surface
            != surface by {
            assert(mapped.windows@[j] == before.windows@[j]);
        }
    }
    lemma_window_index(mapped.windows@, surface, n);
    assert(after.windows@ =~= before.windows@);
    assert(slots(after.mapped_windows) =~= activated(slots(before.mapped_windows), None));
}

/// A toplevel that is destroyed leaves the windows that were there before it
/// was mapped, however long it lived: `mapped` is what mapping the surface makes
/// of `before`, in `between` the same windows may be stacked and placed
/// otherwise and their records may have changed, and `after` is what destroying
/// the toplevel makes of that.
pub proof fn law_destroy_undoes_map_later(
    before: CompositorGlobals,
    mapped: CompositorGlobals,
    between: CompositorGlobals,
    after: CompositorGlobals,
    surface: u64,
    key: u64,
)
    requires
        before.wf(),
        window_index(before.windows@, surface) is None,
        !slots(before.mapped_windows).contains_key(key),
        mapped.windows@ == before.windows@.push(new_window(surface, key)),
        between.wf(),
        window_ids(between.windows@).to_multiset() == window_ids(mapped.windows@).to_multiset(),
        window_index(between.windows@, surface) is Some ==> {
            &&& after.windows@ == between.windows@.remove(
                window_index(between.windows@, surface)->0,
            )
            &&& slots(after.mapped_windows) == slots(between.mapped_windows).remove(
                window_with(between.windows@, surface)->0.key,
            )
        },
    ensures
        window_index(between.windows@, surface) is Some,
        window_with(between.windows@, surface)->0.key == key,
        window_ids(after.windows@).to_multiset() == window_ids(before.windows@).to_multiset(),
        window_index(after.windows@, surface) is None,
        slots(after.mapped_windows).dom() == slots(before.mapped_windows).dom(),
        slots(after.mapped_windows) == slots(between.mapped_windows).remove(key),
{
    let id = (surface, key);
    let ids_before = window_ids(before.windows@);
    let ids_between = window_ids(between.windows@);
    let ids_after = window_ids(after.windows@);
    ids_before.to_multiset_ensures();
    ids_between.to_multiset_ensures();
    assert(window_ids(mapped.windows@) =~= ids_before.push(id));
    assert(ids_between.to_multiset() == ids_before.to_multiset().insert(id));
    lemma_no_window(before.windows@, surface);
    assert(!ids_before.contains(id)) by {
        if ids_before.contains(id) {
            let j = choose|j: int| 0 <= j < ids_before.len() && ids_before[j] == id;
            assert(before.windows@[j].surface == surface);
        }
    }
    assert(ids_between.contains(id)) by {
        assert(ids_between.to_multiset().count(id) > 0);
    }
    lemma_no_window(between.windows@, surface);
    let place = choose|j: int| 0 <= j < ids_between.len() && ids_between[j] == id;
    assert(between.windows@[place].surface == surface);
    let at = window_index(between.windows@, surface)->0;
    assert(is_first_window(between.windows@, surface, at));
    assert(ids_between[at] == id) by {
        let found = ids_between[at];
        assert(ids_between.contains(found));
        assert(ids_between.to_multiset().count(found) > 0);
        if found != id {
            assert(ids_before.to_multiset().count(found) > 0);
            assert(ids_before.contains(found));
            let j = choose|j: int| 0 <= j < ids_before.len() && ids_before[j] == found;
            assert(before.windows@[j].surface == surface);
        }
    }
    assert(ids_after =~= ids_between.remove(at));
    assert(ids_after.to_multiset() =~= ids_before.to_multiset());
    ids_after.to_multiset_ensures();
    lemma_no_window(after.windows@, surface);
    assert forall|j: int| 0 <= j < after.windows@.len() implies (
    #[trigger] after.windows@[j]).surface != surface by {
        assert(ids_after.contains(ids_after[j]));
        assert(ids_before.to_multiset().count(ids_after[j]) > 0);
        assert(ids_before.contains(ids_after[j]));
        let k = choose|k: int| 0 <= k < ids_before.len() && ids_before[k] == ids_after[j];
        assert(before.windows@[k].surface != surface);
    }
    lemma_same_keys(before.windows@, between.windows@, id);
    assert(slots(after.mapped_windows).dom() =~= slots(before.mapped_windows).dom());
}

/// Which keys there are follows from which windows there are.
proof fn lemma_same_keys(before: Seq<Window>, between: Seq<Window>, id: (u64, u64))
    requires
        window_ids(between).to_multiset() == window_ids(before).to_multiset().insert(id),
    ensures
        window_keys(between).to_set() == window_keys(before).to_set().insert(id.1),
{
    let ids_before = window_ids(before);
    let ids_between = window_ids(between);
    let keys_before = window_keys(before);
    let keys_between = window_keys(between);
    ids_before.to_multiset_ensures();
    ids_between.to_multiset_ensures();
    assert forall|k: u64| keys_between.to_set().contains(k) implies
        keys_before.to_set().insert(id.1).contains(k) by {
        let j = choose|j: int| 0 <= j < keys_between.len() && keys_between[j] == k;
        assert(ids_between.contains(ids_between[j]));
        assert(ids_between.to_multiset().count(ids_between[j]) > 0);
        if ids_between[j] != id {
            assert(ids_before.to_multiset().count(ids_between[j]) > 0);
            assert(ids_before.contains(ids_between[j]));
            let m = choose|m: int| 0 <= m < ids_before.len() && ids_before[m] == ids_between[j];
            assert(keys_before[m] == k);
        }
    }
    assert forall|k: u64| keys_before.to_set().insert(id.1).contains(k) implies
        keys_between.to_set().contains(k) by {
        let wanted = if k == id.1 {
            id
        } else {
            let m = choose|m: int| 0 <= m < keys_before.len() && keys_before[m] == k;
            assert(ids_before.contains(ids_before[m]));
            ids_before[m]
        };
        assert(ids_between.to_multiset().count(wanted) > 0);
        assert(ids_between.contains(wanted));
        let j = choose|j: int| 0 <= j < ids_between.len() && ids_between[j] == wanted;
        assert(keys_between[j] == k);
    }
    assert(keys_between.to_set() =~= keys_before.to_set().insert(id.1));
}

/// Raising a window, or putting it elsewhere, leaves the same windows in the
/// space.
pub proof fn law_same_windows(
    windows: Seq<Window>,
    after: Seq<Window>,
    key: u64,
    location: Point,
)
    requires
        raises(windows, after, key),
    ensures
        window_ids(after).to_multiset() == window_ids(windows).to_multiset(),
        window_ids(relocated(windows, key, location)) == window_ids(windows),
{
    let ids = window_ids(windows);
    if window_keys(windows).contains(key) {
        let i = choose|i: int|
            0 <= i < windows.len() && (#[trigger] windows[i]).key == key && after == raised(
                windows,
                i,
            );
        ids.to_multiset_ensures();
        ids.remove(i).to_multiset_ensures();
        assert(window_ids(after) =~= ids.remove(i).push(ids[i]));
        assert(ids.contains(ids[i]));
        assert(window_ids(after).to_multiset() =~= ids.to_multiset());
    }
    assert(window_ids(relocated(windows, key, location)) =~= ids);
}

/// Activating a window leaves it as the only active one, and activating none
/// leaves no active one. Nothing else about any window changes.
pub proof fn law_activation(records: Map<u64, MappedWindow>, active: Option<u64>, key: u64)
    requires
        records.contains_key(key),
    ensures
        one_activated(activated(records, active)),
        activated(records, active).dom() == records.dom(),
        activated(records, active)[key].pending.activated == (active == Some(key)),
        activated(records, active)[key].with_activated(records[key].pending.activated)
            == records[key],
{
    assert(activated(records, active).dom() =~= records.dom());
}

/// An output that is mapped is among the outputs, and so are those that were
/// there. Mapping it a second time changes nothing, and the output that was
/// mapped first stays the first.
pub proof fn law_map_output_once(outputs: Seq<u64>, output: u64)
    ensures
        with_output(outputs, output).contains(output),
        forall|id: u64| outputs.contains(id) ==> #[trigger] with_output(outputs, output).contains(id),
        with_output(with_output(outputs, output), output) == with_output(outputs, output),
        outputs.no_duplicates() ==> with_output(outputs, output).no_duplicates(),
        outputs.len() > 0 ==> with_output(outputs, output)[0] == outputs[0],
{
    let once = with_output(outputs, output);
    if !outputs.contains(output) {
        assert(once[outputs.len() as int] == output);
        assert forall|id: u64| outputs.contains(id) implies #[trigger] once.contains(id) by {
            let i = choose|i: int| 0 <= i < outputs.len() && outputs[i] == id;
            assert(once[i] == id);
        }
    }
}

/// A window that has been put on top is found by its surface, and every other
/// window is found as before.
pub proof fn law_mapped_window_is_found(windows: Seq<Window>, window: Window)
    requires
        window_index(windows, window.surface) is None,
    ensures
        window_with(windows.push(window), window.surface) == Some(window),
        forall|surface: u64|
            surface != window.surface ==> #[trigger] window_with(windows.push(window), surface)
                == window_with(windows, surface),
{
    let pushed = windows.push(window);
    let n = windows.len() as int;
    lemma_no_window(windows, window.surface);
    assert(is_first_window(pushed, window.surface, n)) by {
        assert forall|j: int| 0 <= j < n implies (#[trigger] pushed[j]).surface
            != window.surface by {
            assert(pushed[j] == windows[j]);
        }
    }
    lemma_window_index(pushed, window.surface, n);
    assert forall|surface: u64| surface != window.surface implies #[trigger] window_with(
        pushed,
        surface,
    ) == window_with(windows, surface) by {
        lemma_no_window(windows, surface);
        lemma_no_window(pushed, surface);
        if let Some(i) = window_index(windows, surface) {
            assert(is_first_window(windows, surface, i));
            assert(is_first_window(pushed, surface, i)) by {
                assert forall|j: int| 0 <= j < i implies (#[trigger] pushed[j]).surface
                    != surface by {
                    assert(pushed[j] == windows[j]);
                }
            }
            lemma_window_index(pushed, surface, i);
        } else {
            assert forall|j: int| 0 <= j < pushed.len() implies (#[trigger] pushed[j]).surface
                != surface by {
                if j < n {
                    assert(pushed[j] == windows[j]);
                }
            }
        }
    }
}

/// A destroyed toplevel is not found any more, provided that it had one window,
/// and every other window is found as before.
pub proof fn law_destroyed_window_is_gone(windows: Seq<Window>, surface: u64)
    requires
        window_index(windows, surface) is Some,
        forall|i: int, j: int|
            0 <= i < j < windows.len() ==> (#[trigger] windows[i]).surface != (
            #[trigger] windows[j]).surface,
    ensures
        window_index(windows.remove(window_index(windows, surface)->0), surface) is None,
        forall|other: u64|
            other != surface ==> #[trigger] window_with(
                windows.remove(window_index(windows, surface)->0),
                other,
            ) == window_with(windows, other),
{
    let at = window_index(windows, surface)->0;
    assert(is_first_window(windows, surface, at));
    let rest = windows.remove(at);
    assert forall|j: int| 0 <= j < rest.len() implies (#[trigger] rest[j]).surface != surface by {
        let k = if j < at {
            j
        } else {
            j + 1
        };
        assert(rest[j] == windows[k]);
    }
    lemma_no_window(rest, surface);
    assert forall|other: u64| other != surface implies #[trigger] window_with(rest, other)
        == window_with(windows, other) by {
        lemma_no_window(windows, other);
        lemma_no_window(rest, other);
        if let Some(i) = window_index(windows, other) {
            assert(is_first_window(windows, other, i));
            let k = if i < at {
                i
            } else {
                i - 1
            };
            assert(is_first_window(rest, other, k)) by {
                assert(rest[k] == windows[i]);
                assert forall|j: int| 0 <= j < k implies (#[trigger] rest[j]).surface != other by {
                    let m = if j < at {
                        j
                    } else {
                        j + 1
                    };
                    assert(rest[j] == windows[m]);
                }
            }
            lemma_window_index(rest, other, k);
        } else {
            assert forall|j: int| 0 <= j < rest.len() implies (#[trigger] rest[j]).surface
                != other by {
                let m = if j < at {
                    j
                } else {
                    j + 1
                };
                assert(rest[j] == windows[m]);
            }
        }
    }
}

/// A window that is raised is on top, nothing else has moved relative to
/// anything else, and raising it again changes nothing.
pub proof fn law_raise(windows: Seq<Window>, after: Seq<Window>, again: Seq<Window>, key: u64)
    requires
        window_keys(windows).no_duplicates(),
        window_keys(windows).contains(key),
        raises(windows, after, key),
        raises(after, again, key),
    ensures
        after.len() == windows.len(),
        after.last().key == key,
        after.drop_last() == windows.filter(|w: Window| w.key != key),
        again == after,
{
    let i = choose|i: int|
        0 <= i < windows.len() && (#[trigger] windows[i]).key == key && after == raised(windows, i);
    let rest = windows.remove(i);
    lemma_filter_others(windows, i);
    assert(after.drop_last() =~= rest);
    let n = after.len() - 1;
    assert(after[n] == windows[i]);
    assert(window_keys(after)[n] == key);
    let k = choose|k: int|
        0 <= k < after.len() && (#[trigger] after[k]).key == key && again == raised(after, k);
    if k < n {
        let m = if k < i {
            k
        } else {
            k + 1
        };
        assert(after[k] == windows[m]);
        assert(window_keys(windows)[m] == window_keys(windows)[i]);
    }
    assert(again =~= after);
}

proof fn lemma_filter_others(windows: Seq<Window>, i: int)
    requires
        0 <= i < windows.len(),
        window_keys(windows).no_duplicates(),
    ensures
        windows.remove(i) == windows.filter(|w: Window| w.key != windows[i].key),
{
    let other = |w: Window| w.key != windows[i].key;
    let front = windows.take(i);
    let back = windows.skip(i + 1);
    let keys = window_keys(windows);
    assert forall|j: int| 0 <= j < front.len() implies other(#[trigger] front[j]) by {
        assert(keys[j] != keys[i]);
    }
    assert forall|j: int| 0 <= j < back.len() implies other(#[trigger] back[j]) by {
        assert(keys[j + i + 1] != keys[i]);
    }
    assert(windows =~= front + seq![windows[i]] + back);
    assert(windows.remove(i) =~= front + back);
    Seq::filter_distributes_over_add(front + seq![windows[i]], back, other);
    Seq::filter_distributes_over_add(front, seq![windows[i]], other);
    lemma_filter_all(front, other);
    lemma_filter_all(back, other);
    let single = seq![windows[i]];
    assert(single.filter(other) =~= Seq::<Window>::empty()) by {
        reveal(Seq::filter);
        assert(!other(single.last()));
        assert(single.drop_last() =~= Seq::<Window>::empty());
        assert(single.drop_last().filter(other) =~= Seq::<Window>::empty());
    }
    assert(front + Seq::<Window>::empty() + back =~= front + back);
}

proof fn lemma_filter_all<T>(s: Seq<T>, keep: spec_fn(T) -> bool)
    requires
        forall|i: int| 0 <= i < s.len() ==> keep(#[trigger] s[i]),
    ensures
        s.filter(keep) == s,
    decreases s.len(),
{
    reveal(Seq::filter);
    if s.len() > 0 {
        let rest = s.drop_last();
        assert forall|i: int| 0 <= i < rest.len() implies keep(#[trigger] rest[i]) by {
            assert(rest[i] == s[i]);
        }
        lemma_filter_all(rest, keep);
        assert(s =~= rest.push(s.last()));
    }
}

/// The contract of the choice of a mode leaves no room: exactly one of a
/// connector's modes is the best candidate.
pub proof fn law_best_mode_unique(modes: Seq<ConnectorMode>, a: int, b: int)
    requires
        is_best_mode(modes, mode_candidates(modes), a),
        is_best_mode(modes, mode_candidates(modes), b),
    ensures
        a == b,
{
    let allowed = mode_candidates(modes);
    assert(allowed(modes[a]) && allowed(modes[b]));
}

/// A mode that the display prefers is chosen before any other; without one, a
/// mode that is not interlaced is chosen before an interlaced one.
pub proof fn law_mode_priority(modes: Seq<ConnectorMode>, chosen: int)
    requires
        is_best_mode(modes, mode_candidates(modes), chosen),
    ensures
        some_mode(modes, |m: ConnectorMode| m.preferred()) ==> modes[chosen].preferred(),
        !some_mode(modes, |m: ConnectorMode| m.preferred()) && some_mode(
            modes,
            |m: ConnectorMode| !m.interlaced(),
        ) ==> !modes[chosen].interlaced(),
        forall|j: int|
            0 <= j < modes.len() && modes[j].preferred() == modes[chosen].preferred()
                && modes[j].interlaced() == modes[chosen].interlaced() ==> !modes[chosen].below(
                #[trigger] modes[j],
            ),
{
    let allowed = mode_candidates(modes);
    assert forall|j: int|
        0 <= j < modes.len() && modes[j].preferred() == modes[chosen].preferred()
            && modes[j].interlaced() == modes[chosen].interlaced() implies !modes[chosen].below(
        #[trigger] modes[j],
    ) by {
        assert(allowed(modes[j]));
    }
}

/// What is written as a frame, followed by a zero byte and anything else, is
/// read back as that frame and as no other.
pub proof fn law_frame_is_read_back(frame: Seq<u8>, rest: Seq<u8>, read: Seq<u8>)
    requires
        !frame.contains(0),
    ensures
        begins_with_frame(frame + seq![0u8] + rest, frame),
        begins_with_frame(frame + seq![0u8] + rest, read) ==> read == frame,
{
    let bytes = frame + seq![0u8] + rest;
    let n = frame.len() as int;
    assert(bytes.take(n) =~= frame);
    assert(bytes[n] == 0);
    if begins_with_frame(bytes, read) {
        let m = read.len() as int;
        if m < n {
            assert(frame[m] == bytes[m]);
            assert(frame.contains(0));
        }
        if m > n {
            assert(read[n] == bytes.take(m)[n]);
            assert(read.contains(0));
        }
        assert(read =~= frame);
    }
}

/// A clamped coordinate lies between the bounds, unless they contradict each
/// other; one that lies there already is left alone.
pub proof fn law_clamp_stays_within(raw: Coordinate, low: i32, high: i32)
    ensures
        low <= high ==> 2 * low <= clamped_axis(raw, low, high).place(raw) <= 2 * high,
        clamped_axis(raw, low, high).place(raw) <= 2 * high,
        2 * low <= raw.place() <= 2 * high ==> clamped_axis(raw, low, high)
            == AxisLocation::Unchanged,
{
}

/// Clamping a clamped coordinate changes nothing. `again` is where the
/// coordinate lies after the first time.
pub proof fn law_clamp_once(raw: Coordinate, again: Coordinate, low: i32, high: i32)
    requires
        again.place() == clamped_axis(raw, low, high).place(raw),
    ensures
        clamped_axis(again, low, high).place(again) == again.place(),
{
}

/// Clamping keeps the order of two coordinates.
pub proof fn law_clamp_keeps_order(raw: Coordinate, other: Coordinate, low: i32, high: i32)
    requires
        raw.place() <= other.place(),
    ensures
        clamped_axis(raw, low, high).place(raw) <= clamped_axis(other, low, high).place(other),
{
}

/// An axis either scrolls or comes to rest, never both, and the steps of a
/// wheel are sent only along with a distance.
pub proof fn law_scroll_or_stop(sample: AxisSample, finger: bool)
    ensures
        planned_axis(sample, finger).stop ==> planned_axis(sample, finger).value
            == ScrollValue::Nothing,
        planned_axis(sample, finger).v120 ==> planned_axis(sample, finger).value
            != ScrollValue::Nothing,
{
}

/// Each of the twelve keys for virtual terminals switches to a terminal of its
/// own when it is pressed; every other key, and every release, goes to the
/// client.
pub proof fn law_terminal_keys(data: UdevData, a: u32, b: u32)
    ensures
        data.tty_keys(KeyState::Pressed, a) matches FilterResult::SwitchVt(vt) ==> 1 <= vt <= 12,
        data.tty_keys(KeyState::Pressed, a) is SwitchVt && data.tty_keys(KeyState::Pressed, a)
            == data.tty_keys(KeyState::Pressed, b) ==> a == b,
        data.tty_keys(KeyState::Pressed, a) is SwitchVt <==> XF86_SWITCH_VT_1 <= a
            <= XF86_SWITCH_VT_12,
        data.tty_keys(KeyState::Released, a) == FilterResult::Forward,
{
}

/// The area of a popup, moved by the popup's place in its window and by the
/// window's own, is the output again, as long as nothing saturates.
pub proof fn law_popup_area(output: Rectangle, popup_offset: Point, window: Point)
    requires
        i32::MIN <= output.loc.x - popup_offset.x <= i32::MAX,
        i32::MIN <= output.loc.y - popup_offset.y <= i32::MAX,
        i32::MIN <= output.loc.x - popup_offset.x - window.x <= i32::MAX,
        i32::MIN <= output.loc.y - popup_offset.y - window.y <= i32::MAX,
    ensures
        ({
            let area = popup_area(output, popup_offset, window);
            &&& area.loc.x + window.x + popup_offset.x == output.loc.x
            &&& area.loc.y + window.y + popup_offset.y == output.loc.y
            &&& area.size == output.size
        }),
{
}

/// An icon whose cursor file holds a picture can be drawn once it is shown.
pub proof fn law_shown_icon_can_be_drawn(cursor: Cursor, icon: u32)
    requires
        cursor.status == CursorImageStatus::Named(icon),
        cursor.pictures().contains_key(icon),
        cursor.pictures()[icon].len() > 0,
    ensures
        cursor.can_render(),
{
}

/// The compositor at start, with a backend that has opened no device yet, is
/// well-formed.
pub proof fn law_start_is_well_formed(app: App<UdevData>)
    requires
        app.globals.wf(),
        app.backend.device is None,
        app.output_state.outputs@.is_empty(),
    ensures
        app.wf(),
{
}

/// What clients do to their windows does not touch the outputs: a compositor
/// that differs from a well-formed one only in its windows is well-formed.
pub proof fn law_clients_leave_outputs_alone(before: App<UdevData>, after: App<UdevData>)
    requires
        before.wf(),
        after.globals.wf(),
        after.same_but_globals(before),
        after.globals.outputs@ == before.globals.outputs@,
    ensures
        after.wf(),
{
    if let Some(device) = after.backend.device {
        assert forall|crtc: u32| #[trigger]
            device.surfaces@.contains_key(crtc) implies after.has_output(crtc, device.id) by {
            assert(before.has_output(crtc, device.id));
        }
    }
}

/// Once a display is driven, the pointer has somewhere to be: there is an output
/// with a mode to keep it on, and a mapped output to place it on.
pub proof fn law_driven_display_takes_pointer(app: App<UdevData>, crtc: u32)
    requires
        app.wf(),
        app.backend.device is Some,
        app.backend.surfaces().contains_key(crtc),
    ensures
        app.has_output(crtc, app.backend.device->0.id),
        app.outputs_have_modes(),
        app.globals.outputs@.len() > 0,
{
    let device_id = app.backend.device->0.id;
    assert(app.has_output(crtc, device_id));
    let id = choose|id: u64| #[trigger] app.output_state.drives(crtc, device_id, id);
    assert(app.output_state.outputs@.contains_key(id));
    assert(app.globals.outputs@.contains(id));
}

/// A session that is activated again after a pause is as it was: `paused` and
/// `again` are what the two events make of `awake`.
pub proof fn law_activate_undoes_pause(
    awake: App<UdevData>,
    paused: App<UdevData>,
    again: App<UdevData>,
)
    requires
        !awake.sleep,
        paused == (App { sleep: true, ..awake }),
        again == (App { sleep: false, ..paused }),
    ensures
        again == awake,
{
}

/// One turn of the render cycle: an idle output that is queued has to be drawn;
/// once its frame has been taken it has not, and the outputs are as they were
/// before the turn. Meanwhile no other output changes.
pub proof fn law_render_cycle(
    idle: OutputState,
    queued: OutputState,
    taken: OutputState,
    output: u64,
)
    requires
        idle.outputs@.contains_key(output),
        idle.outputs@[output].state == RenderState::Idle,
        queued.outputs@ == idle.with_state(output, RenderState::Queued),
        taken.outputs@ == queued.with_state(output, RenderState::Idle),
    ensures
        queued.is_queued(output),
        !taken.is_queued(output),
        taken.outputs@ == idle.outputs@,
        forall|other: u64|
            other != output ==> #[trigger] queued.is_queued(other) == idle.is_queued(other),
{
    assert(taken.outputs@ =~= idle.outputs@);
}

/// What can happen to an output in its render cycle.
pub enum RenderStep {
    /// The display controller took a frame of the output.
    Taken(u64),
    /// The display controller refused a frame of the output.
    Refused(u64),
    /// A frame of the output reached the screen.
    Shown(u64),
}

/// The outputs after one step of the render cycle.
pub open spec fn after_render_step(
    outputs: Map<u64, OutputEntry>,
    step: RenderStep,
) -> Map<u64, OutputEntry> {
    match step {
        RenderStep::Taken(output) => put_state(outputs, output, RenderState::Idle),
        RenderStep::Refused(_) => outputs,
        RenderStep::Shown(output) => put_state(outputs, output, RenderState::Queued),
    }
}

/// The outputs after a number of steps of the render cycle.
pub open spec fn after_render_steps(
    outputs: Map<u64, OutputEntry>,
    steps: Seq<RenderStep>,
) -> Map<u64, OutputEntry>
    decreases steps.len(),
{
    if steps.len() == 0 {
        outputs
    } else {
        after_render_step(after_render_steps(outputs, steps.drop_last()), steps.last())
    }
}

/// After a frame of an output has been taken, the output is not drawn again
/// until that frame has reached the screen, whatever happens to the others.
pub proof fn law_one_frame_at_a_time(
    outputs: Map<u64, OutputEntry>,
    output: u64,
    steps: Seq<RenderStep>,
)
    requires
        outputs.contains_key(output),
        !steps.contains(RenderStep::Shown(output)),
    ensures
        ({
            let taken = after_render_step(outputs, RenderStep::Taken(output));
            let later = after_render_steps(taken, steps);
            later.contains_key(output) && later[output] == (OutputEntry {
                output: outputs[output].output,
                state: RenderState::Idle,
            })
        }),
    decreases steps.len(),
{
    if steps.len() > 0 {
        let rest = steps.drop_last();
        assert forall|i: int| 0 <= i < rest.len() implies rest[i] != RenderStep::Shown(output) by {
            assert(rest[i] == steps[i]);
        }
        law_one_frame_at_a_time(outputs, output, rest);
        assert(steps[steps.len() - 1] == steps.last());
    }
}

/// A frame that the display controller refused is drawn again: the output stays
/// queued until a frame of it has been taken.
pub proof fn law_refused_frame_is_drawn_again(
    outputs: Map<u64, OutputEntry>,
    output: u64,
    steps: Seq<RenderStep>,
)
    requires
        outputs.contains_key(output),
        outputs[output].state == RenderState::Queued,
        !steps.contains(RenderStep::Taken(output)),
    ensures
        after_render_steps(outputs, steps).contains_key(output),
        after_render_steps(outputs, steps)[output] == outputs[output],
    decreases steps.len(),
{
    if steps.len() > 0 {
        let rest = steps.drop_last();
        assert forall|i: int| 0 <= i < rest.len() implies rest[i] != RenderStep::Taken(output) by {
            assert(rest[i] == steps[i]);
        }
        law_refused_frame_is_drawn_again(outputs, output, rest);
        assert(steps[steps.len() - 1] == steps.last());
    }
}

/// The windows tile the screen from its left edge: each begins where the one
/// before it ends, and all have the screen's height. On a screen that has a
/// width, what is left over on the right is narrower than there are windows.
pub proof fn law_tiles_are_adjacent(windows: Seq<WindowId>, screen: Size)
    requires
        1 <= windows.len() <= i32::MAX,
    ensures
        ({
            let tiles = tiled(windows, screen);
            let last = tiles[windows.len() - 1];
            &&& tiles.len() == windows.len()
            &&& tiles[0].pos.x == 0
            &&& forall|i: int|
                0 <= i < windows.len() ==> {
                    &&& (#[trigger] tiles[i]).window == windows[i]
                    &&& tiles[i].pos.y == 0
                    &&& tiles[i].size.height == screen.height
                    &&& tiles[i].size.width == tiles[0].size.width
                    &&& i > 0 ==> tiles[i].pos.x == tiles[i - 1].pos.x + tiles[i - 1].size.width
                }
            &&& screen.width >= 0 ==> {
                &&& last.pos.x + last.size.width <= screen.width
                &&& screen.width - (last.pos.x + last.size.width) < windows.len()
            }
        }),
{
    let n = windows.len() as int;
    let width = screen.width as int;
    let share = quotient(width, n);
    let tiles = tiled(windows, screen);
    assert forall|i: int| 0 <= i < n implies {
        &&& (#[trigger] tiles[i]).window == windows[i]
        &&& tiles[i].pos.x == i * share
        &&& tiles[i].size.width == share
    } by {
        lemma_share(width, n, i);
    }
    assert(0 * share == 0);
    assert forall|i: int| 0 < i < n implies (#[trigger] tiles[i]).pos.x == tiles[i - 1].pos.x
        + tiles[i - 1].size.width by {
        assert(i * share == (i - 1) * share + share) by (nonlinear_arith);
        assert(tiles[i - 1].pos.x == (i - 1) * share);
    }
    assert((n - 1) * share + share == n * share) by (nonlinear_arith);
    if width >= 0 {
        assert(n * share <= width && width - n * share < n) by (nonlinear_arith)
            requires
                share == width / n,
                0 <= width,
                1 <= n,
        ;
    }
}

/// A window that is gone again leaves the others as they were placed before it
/// came.
pub proof fn law_tiles_come_back(windows: Seq<WindowId>, window: WindowId, screen: Size)
    requires
        !windows.contains(window),
    ensures
        windows.push(window).filter(|w: WindowId| w != window) == windows,
        tiled(windows.push(window).filter(|w: WindowId| w != window), screen) == tiled(
            windows,
            screen,
        ),
{
    let keep = |w: WindowId| w != window;
    assert forall|i: int| 0 <= i < windows.len() implies keep(#[trigger] windows[i]) by {}
    lemma_filter_all(windows, keep);
    reveal(Seq::filter);
    assert(windows.push(window).drop_last() =~= windows);
}

} // verus!
