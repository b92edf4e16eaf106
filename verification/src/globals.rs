//! What the compositor knows of its space: the windows in stacking order, the
//! mapped outputs, and the mapped-window record behind each window.

use vstd::prelude::*;

use crate::geometry::Point;
use crate::mapped::{blank_state, AckOutcome, MappedWindow, PendingEdit, ToplevelState};
use crate::slots::{
    is_slot_key, no_windows, slots, slots_get_mut, slots_insert, slots_iter, slots_new,
    slots_remove, WindowSlots,
};

verus! {

/// A window in the space: the surface of its toplevel, the key of its record
/// among the mapped windows, by which plugins know it, and where it is.
#[derive(Clone, Copy, PartialEq, Eq, Structural, Debug)]
pub struct Window {
    pub surface: u64,
    pub key: u64,
    pub location: Point,
}

/// `index` is the first window with the surface, in back to front order.
pub open spec fn is_first_window(windows: Seq<Window>, surface: u64, index: int) -> bool {
    &&& 0 <= index < windows.len()
    &&& windows[index].surface == surface
    &&& forall|j: int| 0 <= j < index ==> (#[trigger] windows[j]).surface != surface
}

/// Where a window with the surface stands, if there is one.
pub open spec fn window_index(windows: Seq<Window>, surface: u64) -> Option<int> {
    if exists|i: int| is_first_window(windows, surface, i) {
        Some(choose|i: int| is_first_window(windows, surface, i))
    } else {
        None
    }
}

/// The window with the surface, if there is one.
pub open spec fn window_with(windows: Seq<Window>, surface: u64) -> Option<Window> {
    match window_index(windows, surface) {
        Some(i) => Some(windows[i]),
        None => None,
    }
}

/// The keys of a sequence of windows.
pub open spec fn window_keys(windows: Seq<Window>) -> Seq<u64> {
    windows.map_values(|w: Window| w.key)
}

/// Which windows there are: the surface and the key of each, wherever it is.
pub open spec fn window_ids(windows: Seq<Window>) -> Seq<(u64, u64)> {
    windows.map_values(|w: Window| (w.surface, w.key))
}

/// The windows with the one with the key put at a location.
pub open spec fn relocated(windows: Seq<Window>, key: u64, location: Point) -> Seq<Window> {
    windows.map_values(
        |w: Window|
            if w.key == key {
                Window { location, ..w }
            } else {
                w
            },
    )
}

/// The windows with the one at `index` moved to the top.
pub open spec fn raised(windows: Seq<Window>, index: int) -> Seq<Window> {
    windows.remove(index).push(windows[index])
}

/// The window with the key, if there is one, is moved to the top; the others
/// keep their order.
pub open spec fn raises(before: Seq<Window>, after: Seq<Window>, key: u64) -> bool {
    if window_keys(before).contains(key) {
        exists|i: int|
            0 <= i < before.len() && (#[trigger] before[i]).key == key && after == raised(before, i)
    } else {
        after == before
    }
}

/// The outputs with one more behind them, unless it is there already.
pub open spec fn with_output(outputs: Seq<u64>, output: u64) -> Seq<u64> {
    if outputs.contains(output) {
        outputs
    } else {
        outputs.push(output)
    }
}

/// The records with the window under the key `active` activated, and no other.
pub open spec fn activated(records: Map<u64, MappedWindow>, active: Option<u64>) -> Map<
    u64,
    MappedWindow,
> {
    records.map_entries(
        |key: u64, record: MappedWindow| record.with_activated(active == Some(key)),
    )
}

/// At most one window is activated.
pub open spec fn one_activated(records: Map<u64, MappedWindow>) -> bool {
    forall|a: u64, b: u64|
        records.contains_key(a) && records.contains_key(b) && (
        #[trigger] records[a]).pending.activated && (#[trigger] records[b]).pending.activated
            ==> a == b
}

/// Names the index that `window_index` stands for.
pub proof fn lemma_window_index(windows: Seq<Window>, surface: u64, index: int)
    requires
        is_first_window(windows, surface, index),
    ensures
        window_index(windows, surface) == Some(index),
{
    let k = choose|i: int| is_first_window(windows, surface, i);
    assert(is_first_window(windows, surface, k));
    if k < index {
        assert(windows[k].surface != surface);
    }
    if index < k {
        assert(windows[index].surface != surface);
    }
}

/// Where no window has the surface, `window_index` is `None`, and the other
/// way round.
pub proof fn lemma_no_window(windows: Seq<Window>, surface: u64)
    ensures
        window_index(windows, surface) is None <==> forall|i: int|
            0 <= i < windows.len() ==> (#[trigger] windows[i]).surface != surface,
{
    if exists|i: int| 0 <= i < windows.len() && (#[trigger] windows[i]).surface == surface {
        let i = choose|i: int| 0 <= i < windows.len() && (#[trigger] windows[i]).surface == surface;
        lemma_first_exists(windows, surface, i);
    }
}

proof fn lemma_first_exists(windows: Seq<Window>, surface: u64, index: int)
    requires
        0 <= index < windows.len(),
        windows[index].surface == surface,
    ensures
        exists|i: int| is_first_window(windows, surface, i),
    decreases index,
{
    if forall|j: int| 0 <= j < index ==> (#[trigger] windows[j]).surface != surface {
        assert(is_first_window(windows, surface, index));
    } else {
        let j = choose|j: int| 0 <= j < index && (#[trigger] windows[j]).surface == surface;
        lemma_first_exists(windows, surface, j);
    }
}

/// Where a new window is put: at the origin of the space.
pub fn place_of_new_window() -> (place: Point)
    ensures
        place == (Point { x: 0, y: 0 }),
{
    Point { x: 0, y: 0 }
}

/// The space and the mapped windows.
pub struct CompositorGlobals {
    /// The windows of the space, back to front.
    pub windows: Vec<Window>,
    /// The outputs of the space, in the order in which they were mapped.
    pub outputs: Vec<u64>,
    pub mapped_windows: WindowSlots,
}

impl CompositorGlobals {
    /// Windows and mapped-window records belong together one to one: every
    /// window has the record under its key, made for its surface, no two
    /// windows share one, and there are no others. At most one window is
    /// activated.
    pub open spec fn wf(self) -> bool {
        let records = slots(self.mapped_windows);
        &&& window_keys(self.windows@).no_duplicates()
        &&& records.dom() == window_keys(self.windows@).to_set()
        &&& forall|i: int|
            0 <= i < self.windows@.len() ==> {
                let w = #[trigger] self.windows@[i];
                is_slot_key(w.key) && records[w.key].window == w.surface && records[w.key].wf()
            }
        &&& one_activated(records)
        &&& self.outputs@.no_duplicates()
    }

    /// An empty space.
    pub fn new() -> (globals: Self)
        ensures
            globals.wf(),
            globals.windows@ == Seq::<Window>::empty(),
            globals.outputs@ == Seq::<u64>::empty(),
            slots(globals.mapped_windows) == no_windows(),
    {
        let globals = CompositorGlobals {
            windows: Vec::new(),
            outputs: Vec::new(),
            mapped_windows: slots_new(),
        };
        assert(slots(globals.mapped_windows).dom() =~= window_keys(globals.windows@).to_set());
        globals
    }

    fn find_index(&self, surface: u64) -> (index: Option<usize>)
        ensures
            match index {
                Some(i) => is_first_window(self.windows@, surface, i as int) && window_index(
                    self.windows@,
                    surface,
                ) == Some(i as int),
                None => window_index(self.windows@, surface) is None,
            },
    {
        let mut i: usize = 0;
        while i < self.windows.len()
            invariant
                i <= self.windows@.len(),
                forall|j: int| 0 <= j < i ==> (#[trigger] self.windows@[j]).surface != surface,
            decreases self.windows@.len() - i,
        {
            if self.windows[i].surface == surface {
                proof {
                    lemma_window_index(self.windows@, surface, i as int);
                }
                return Some(i);
            }
            i = i + 1;
        }
        proof {
            lemma_no_window(self.windows@, surface);
        }
        None
    }

    /// The window whose toplevel has the surface, the backmost one first.
    pub fn find_window(&self, surface: u64) -> (window: Option<Window>)
        ensures
            window == window_with(self.windows@, surface),
    {
        match self.find_index(surface) {
            Some(i) => Some(self.windows[i]),
            None => None,
        }
    }

    /// Activates the window with the key `active`, and deactivates the others.
    fn activate(&mut self, active: Option<u64>)
        requires
            old(self).wf(),
        ensures
            final(self).wf(),
            final(self).windows == old(self).windows,
            final(self).outputs == old(self).outputs,
            slots(final(self).mapped_windows) == activated(
                slots(old(self).mapped_windows),
                active,
            ),
    {
        let ghost before = slots(self.mapped_windows);
        let ghost keys = window_keys(self.windows@);
        let mut i: usize = 0;
        while i < self.windows.len()
            invariant
                i <= self.windows@.len(),
                old(self).wf(),
                before == slots(old(self).mapped_windows),
                keys == window_keys(old(self).windows@),
                self.windows == old(self).windows,
                self.outputs == old(self).outputs,
                slots(self.mapped_windows).dom() == before.dom(),
                forall|j: int|
                    0 <= j < i ==> slots(self.mapped_windows)[#[trigger] keys[j]]
                        == before[keys[j]].with_activated(active == Some(keys[j])),
                forall|j: int|
                    i <= j < keys.len() ==> slots(self.mapped_windows)[#[trigger] keys[j]]
                        == before[keys[j]],
            decreases self.windows@.len() - i,
        {
            let key = self.windows[i].key;
            let on = match active {
                Some(active) => active == key,
                None => false,
            };
            assert(keys[i as int] == key);
            assert(keys.to_set().contains(key));
            if let Some(record) = slots_get_mut(&mut self.mapped_windows, key) {
                record.set_activated(on);
            }
            assert(slots(self.mapped_windows).dom() =~= before.dom());
            i = i + 1;
        }
        proof {
            let after = slots(self.mapped_windows);
            assert forall|k: u64| before.contains_key(k) implies #[trigger] after[k]
                == before[k].with_activated(active == Some(k)) by {
                assert(keys.to_set().contains(k));
                let j = choose|j: int| 0 <= j < keys.len() && keys[j] == k;
                assert(after[keys[j]] == before[k].with_activated(active == Some(k)));
            }
            assert(after =~= activated(before, active));
            assert forall|j: int| 0 <= j < self.windows@.len() implies {
                let w = #[trigger] self.windows@[j];
                is_slot_key(w.key) && after[w.key].window == w.surface && after[w.key].wf()
            } by {
                assert(old(self).windows@[j] == self.windows@[j]);
                assert(keys[j] == self.windows@[j].key);
                assert(keys.to_set().contains(keys[j]));
            }
        }
    }

    /// Puts a new window on top of the space, at its origin, activates it and no
    /// other, and gives it a record under a key of its own.
    pub fn map_window(&mut self, surface: u64) -> (key: u64)
        requires
            old(self).wf(),
            old(self).windows@.len() < u32::MAX - 1,
        ensures
            final(self).wf(),
            is_slot_key(key),
            !slots(old(self).mapped_windows).contains_key(key),
            final(self).windows@ == old(self).windows@.push(
                Window { surface, key, location: Point { x: 0, y: 0 } },
            ),
            final(self).outputs@ == old(self).outputs@,
            slots(final(self).mapped_windows) == activated(
                slots(old(self).mapped_windows).insert(key, new_record(surface)),
                Some(key),
            ),
    {
        proof {
            window_keys(self.windows@).unique_seq_to_set();
        }
        let key = slots_insert(&mut self.mapped_windows, MappedWindow::new(surface));
        self.windows.push(Window { surface, key, location: place_of_new_window() });
        proof {
            let before = window_keys(old(self).windows@);
            let after = window_keys(self.windows@);
            assert(after =~= before.push(key));
            assert(!before.contains(key)) by {
                if before.contains(key) {
                    assert(before.to_set().contains(key));
                }
            }
            assert(after.no_duplicates());
            assert(after.to_set() =~= before.to_set().insert(key)) by {
                assert forall|k: u64| before.to_set().insert(key).contains(k) implies
                    after.to_set().contains(k) by {
                    if k == key {
                        assert(after[before.len() as int] == key);
                    } else {
                        let i = choose|i: int| 0 <= i < before.len() && before[i] == k;
                        assert(after[i] == k);
                    }
                }
            }
            assert forall|i: int| 0 <= i < self.windows@.len() implies {
                let w = #[trigger] self.windows@[i];
                is_slot_key(w.key) && slots(self.mapped_windows)[w.key].window == w.surface
                    && slots(self.mapped_windows)[w.key].wf()
            } by {
                if i < old(self).windows@.len() {
                    assert(old(self).windows@[i] == self.windows@[i]);
                    assert(before[i] == old(self).windows@[i].key);
                    assert(before.contains(before[i]));
                }
            }
        }
        self.activate(Some(key));
        key
    }

    /// Takes the window with the surface, and its record, out. Its key comes
    /// back. A surface without a window is a broken promise of the client
    /// connection.
    pub fn unmap_window(&mut self, surface: u64) -> (key: u64)
        requires
            old(self).wf(),
            window_index(old(self).windows@, surface) is Some,
        ensures
            final(self).wf(),
            key == window_with(old(self).windows@, surface)->0.key,
            final(self).windows@ == old(self).windows@.remove(
                window_index(old(self).windows@, surface)->0,
            ),
            final(self).outputs@ == old(self).outputs@,
            slots(final(self).mapped_windows) == slots(old(self).mapped_windows).remove(key),
    {
        let index = self.find_index(surface).unwrap();
        let key = self.windows[index].key;
        let ghost before = window_keys(self.windows@);
        let _removed = slots_remove(&mut self.mapped_windows, key);
        self.windows.remove(index);
        proof {
            let i = index as int;
            let after = window_keys(self.windows@);
            assert(after =~= before.remove(i));
            assert(before[i] == key);
            assert forall|a: int, b: int| 0 <= a < after.len() && 0 <= b < after.len() && a != b
                implies after[a] != after[b] by {
                let a2 = if a < i { a } else { a + 1 };
                let b2 = if b < i { b } else { b + 1 };
                assert(after[a] == before[a2] && after[b] == before[b2]);
            }
            assert(after.to_set() =~= before.to_set().remove(key)) by {
                assert forall|k: u64| before.to_set().remove(key).contains(k) implies
                    after.to_set().contains(k) by {
                    let j = choose|j: int| 0 <= j < before.len() && before[j] == k;
                    if j < i {
                        assert(after[j] == k);
                    } else {
                        assert(after[j - 1] == k);
                    }
                }
                assert forall|k: u64| after.to_set().contains(k) implies
                    before.to_set().remove(key).contains(k) by {
                    let a = choose|a: int| 0 <= a < after.len() && after[a] == k;
                    let a2 = if a < i { a } else { a + 1 };
                    assert(before[a2] == k);
                }
            }
            assert forall|a: int| 0 <= a < self.windows@.len() implies {
                let w = #[trigger] self.windows@[a];
                is_slot_key(w.key) && slots(self.mapped_windows)[w.key].window == w.surface
                    && slots(self.mapped_windows)[w.key].wf()
            } by {
                let a2 = if a < i { a } else { a + 1 };
                assert(self.windows@[a] == old(self).windows@[a2]);
                assert(before[a2] == self.windows@[a].key);
            }
        }
        key
    }

    /// Moves the window with the key to the top and activates it and no other.
    /// A key without a window changes nothing.
    pub fn raise_window(&mut self, key: u64)
        requires
            old(self).wf(),
        ensures
            final(self).wf(),
            final(self).outputs == old(self).outputs,
            raises(old(self).windows@, final(self).windows@, key),
            slots(final(self).mapped_windows) == (if window_keys(old(self).windows@).contains(key) {
                activated(slots(old(self).mapped_windows), Some(key))
            } else {
                slots(old(self).mapped_windows)
            }),
    {
        let mut i: usize = 0;
        while i < self.windows.len() && self.windows[i].key != key
            invariant
                i <= self.windows@.len(),
                forall|j: int| 0 <= j < i ==> (#[trigger] self.windows@[j]).key != key,
            decreases self.windows@.len() - i,
        {
            i = i + 1;
        }
        if i < self.windows.len() {
            let window = self.windows.remove(i);
            self.windows.push(window);
            proof {
                let at = i as int;
                let before = window_keys(old(self).windows@);
                let after = window_keys(self.windows@);
                assert(self.windows@ =~= raised(old(self).windows@, at));
                assert(before[at] == key);
                assert(old(self).windows@[at].key == key);
                lemma_raised_keys(old(self).windows@, at);
                assert forall|a: int| 0 <= a < self.windows@.len() implies {
                    let w = #[trigger] self.windows@[a];
                    is_slot_key(w.key) && slots(self.mapped_windows)[w.key].window == w.surface
                        && slots(self.mapped_windows)[w.key].wf()
                } by {
                    let a2 = if a < at {
                        a
                    } else if a < self.windows@.len() - 1 {
                        a + 1
                    } else {
                        at
                    };
                    assert(self.windows@[a] == old(self).windows@[a2]);
                }
            }
            self.activate(Some(key));
        } else {
            proof {
                assert forall|j: int| 0 <= j < old(self).windows@.len() implies (
                #[trigger] old(self).windows@[j]).key != key by {
                    assert(self.windows@[j].key != key);
                }
            }
        }
    }

    /// Deactivates all windows. Their keys come back, back to front.
    pub fn deactivate_windows(&mut self) -> (keys: Vec<u64>)
        requires
            old(self).wf(),
        ensures
            final(self).wf(),
            final(self).windows == old(self).windows,
            final(self).outputs == old(self).outputs,
            slots(final(self).mapped_windows) == activated(slots(old(self).mapped_windows), None),
            keys@ == window_keys(old(self).windows@),
    {
        self.activate(None);
        self.all_windows()
    }

    /// Maps an output into the space, behind the ones that are there. One that
    /// is there already stays where it is.
    pub fn map_output(&mut self, output: u64)
        requires
            old(self).wf(),
        ensures
            final(self).wf(),
            final(self).windows@ == old(self).windows@,
            slots(final(self).mapped_windows) == slots(old(self).mapped_windows),
            final(self).outputs@ == with_output(old(self).outputs@, output),
    {
        let mut i: usize = 0;
        while i < self.outputs.len()
            invariant
                i <= self.outputs@.len(),
                self.outputs@ == old(self).outputs@,
                self.windows@ == old(self).windows@,
                slots(self.mapped_windows) == slots(old(self).mapped_windows),
                old(self).wf(),
                forall|j: int| 0 <= j < i ==> self.outputs@[j] != output,
            decreases self.outputs@.len() - i,
        {
            if self.outputs[i] == output {
                assert(old(self).outputs@[i as int] == output);
                return ;
            }
            i = i + 1;
        }
        self.outputs.push(output);
    }

    /// The first mapped output.
    pub fn first_output(&self) -> (output: Option<u64>)
        ensures
            output == (if self.outputs@.len() == 0 {
                None
            } else {
                Some(self.outputs@[0])
            }),
    {
        if self.outputs.len() == 0 {
            None
        } else {
            Some(self.outputs[0])
        }
    }

    /// An acknowledgement for the toplevel with the surface reaches the record
    /// of its window. A surface without a window is passed over.
    pub fn ack_configure(&mut self, surface: u64, serial: u32) -> (outcome: Option<AckOutcome>)
        requires
            old(self).wf(),
        ensures
            final(self).wf(),
            final(self).windows@ == old(self).windows@,
            final(self).outputs@ == old(self).outputs@,
            match window_with(old(self).windows@, surface) {
                Some(w) => {
                    let record = slots(old(self).mapped_windows)[w.key];
                    &&& outcome == Some(record.ack_outcome(serial))
                    &&& slots(final(self).mapped_windows) == slots(
                        old(self).mapped_windows,
                    ).insert(w.key, record.acked(serial))
                },
                None => outcome is None && slots(final(self).mapped_windows) == slots(
                    old(self).mapped_windows,
                ),
            },
    {
        let window = match self.find_window(surface) {
            Some(window) => window,
            None => return None,
        };
        proof {
            lemma_window_has_record(*self, surface);
        }
        match slots_get_mut(&mut self.mapped_windows, window.key) {
            Some(record) => {
                let outcome = record.ack_configure(serial);
                proof {
                    lemma_record_changed(*old(self), *self, window.key);
                }
                Some(outcome)
            },
            None => None,
        }
    }

    /// Changes the pending state of the window with the surface, outside its
    /// configure handshake. The new pending state comes back; `None` where no
    /// window has the surface.
    pub fn edit_pending(&mut self, surface: u64, edit: PendingEdit) -> (pending: Option<
        ToplevelState,
    >)
        requires
            old(self).wf(),
        ensures
            final(self).wf(),
            final(self).windows@ == old(self).windows@,
            final(self).outputs@ == old(self).outputs@,
            match window_with(old(self).windows@, surface) {
                Some(w) => {
                    let record = slots(old(self).mapped_windows)[w.key];
                    &&& pending == Some(record.pending.edited(edit))
                    &&& slots(final(self).mapped_windows) == slots(
                        old(self).mapped_windows,
                    ).insert(w.key, MappedWindow { pending: record.pending.edited(edit), ..record })
                },
                None => pending is None && slots(final(self).mapped_windows) == slots(
                    old(self).mapped_windows,
                ),
            },
    {
        let window = match self.find_window(surface) {
            Some(window) => window,
            None => return None,
        };
        proof {
            lemma_window_has_record(*self, surface);
            lemma_record_has_window(*self, window.key);
        }
        match slots_get_mut(&mut self.mapped_windows, window.key) {
            Some(record) => {
                record.pending.edit(edit);
                let pending = record.pending;
                proof {
                    lemma_record_changed(*old(self), *self, window.key);
                }
                Some(pending)
            },
            None => None,
        }
    }

    /// Asks the window with the key for a size with its next configure. `false`
    /// where no window has the key.
    pub fn set_window_size(&mut self, key: u64, width: i32, height: i32) -> (found: bool)
        requires
            old(self).wf(),
        ensures
            final(self).wf(),
            final(self).windows@ == old(self).windows@,
            final(self).outputs@ == old(self).outputs@,
            found == slots(old(self).mapped_windows).contains_key(key),
            !found ==> slots(final(self).mapped_windows) == slots(old(self).mapped_windows),
            found ==> slots(final(self).mapped_windows) == slots(old(self).mapped_windows).insert(
                key,
                slots(old(self).mapped_windows)[key].with_size(width, height),
            ),
    {
        proof {
            lemma_record_has_window(*self, key);
        }
        if (key / 0x1_0000_0000) % 2 != 1 {
            return false;
        }
        match slots_get_mut(&mut self.mapped_windows, key) {
            Some(record) => {
                record.set_window_size(width, height);
                proof {
                    lemma_record_changed(*old(self), *self, key);
                }
                true
            },
            None => false,
        }
    }

    /// Puts the window with the key at a location. The stacking order stays.
    /// `false` where no window has the key.
    pub fn set_window_pos(&mut self, key: u64, location: Point) -> (found: bool)
        requires
            old(self).wf(),
        ensures
            final(self).wf(),
            final(self).outputs == old(self).outputs,
            final(self).mapped_windows == old(self).mapped_windows,
            found == window_keys(old(self).windows@).contains(key),
            final(self).windows@ == relocated(old(self).windows@, key, location),
    {
        let mut i: usize = 0;
        while i < self.windows.len() && self.windows[i].key != key
            invariant
                i <= self.windows@.len(),
                *self == *old(self),
                forall|j: int| 0 <= j < i ==> (#[trigger] self.windows@[j]).key != key,
            decreases self.windows@.len() - i,
        {
            i = i + 1;
        }
        let ghost before = window_keys(self.windows@);
        if i == self.windows.len() {
            assert(self.windows@ =~= relocated(self.windows@, key, location));
            return false;
        }
        let window = self.windows[i];
        self.windows.set(i, Window { location, ..window });
        proof {
            let at = i as int;
            assert(before[at] == key);
            assert forall|j: int| 0 <= j < before.len() && j != at implies (
            #[trigger] old(self).windows@[j]).key != key by {
                assert(before[j] != before[at]);
            }
            assert(self.windows@ =~= relocated(old(self).windows@, key, location));
            assert(window_keys(self.windows@) =~= before);
            assert forall|j: int| 0 <= j < self.windows@.len() implies {
                let w = #[trigger] self.windows@[j];
                is_slot_key(w.key) && slots(self.mapped_windows)[w.key].window == w.surface
                    && slots(self.mapped_windows)[w.key].wf()
            } by {
                let w = old(self).windows@[j];
                assert(self.windows@[j].key == w.key && self.windows@[j].surface == w.surface);
            }
        }
        true
    }

    /// The keys of the windows for which a configure is due, each once.
    pub fn due_configures(&self) -> (keys: Vec<u64>)
        requires
            self.wf(),
        ensures
            keys@.no_duplicates(),
            forall|key: u64|
                keys@.contains(key) <==> slots(self.mapped_windows).contains_key(key) && (
                #[trigger] slots(self.mapped_windows)[key]).configure_due(),
    {
        let entries = slots_iter(&self.mapped_windows);
        let mut keys: Vec<u64> = Vec::new();
        let mut i: usize = 0;
        let ghost records = slots(self.mapped_windows);
        while i < entries.len()
            invariant
                i <= entries@.len(),
                records == slots(self.mapped_windows),
                forall|j: int|
                    0 <= j < entries@.len() ==> records.contains_key((#[trigger] entries@[j]).0)
                        && records[entries@[j].0] == entries@[j].1,
                forall|a: int, b: int|
                    0 <= a < b < entries@.len() ==> (#[trigger] entries@[a]).0 != (
                    #[trigger] entries@[b]).0,
                keys@.no_duplicates(),
                forall|k: int|
                    0 <= k < keys@.len() ==> exists|j: int|
                        0 <= j < i && (#[trigger] entries@[j]).0 == #[trigger] keys@[k],
                forall|k: int|
                    0 <= k < keys@.len() ==> records.contains_key(#[trigger] keys@[k])
                        && records[keys@[k]].configure_due(),
                forall|j: int|
                    0 <= j < i && (#[trigger] entries@[j]).1.configure_due() ==> keys@.contains(
                        entries@[j].0,
                    ),
            decreases entries@.len() - i,
        {
            let (key, window) = entries[i];
            let ghost before = keys@;
            if window.wants_configure() {
                assert(!keys@.contains(key)) by {
                    if keys@.contains(key) {
                        let k = choose|k: int| 0 <= k < keys@.len() && keys@[k] == key;
                        let j = choose|j: int|
                            0 <= j < i && (#[trigger] entries@[j]).0 == keys@[k];
                        assert(entries@[j].0 != entries@[i as int].0);
                    }
                }
                keys.push(key);
                assert forall|k: int| 0 <= k < keys@.len() implies exists|j: int|
                    0 <= j < i + 1 && (#[trigger] entries@[j]).0 == #[trigger] keys@[k] by {
                    if k < before.len() {
                        assert(keys@[k] == before[k]);
                        let j = choose|j: int|
                            0 <= j < i && (#[trigger] entries@[j]).0 == before[k];
                        assert(entries@[j].0 == keys@[k]);
                    } else {
                        assert(entries@[i as int].0 == keys@[k]);
                    }
                }
                assert forall|j: int|
                    0 <= j < i + 1 && (
                    #[trigger] entries@[j]).1.configure_due() implies keys@.contains(
                    entries@[j].0,
                ) by {
                    if j < i {
                        let k = choose|k: int|
                            0 <= k < before.len() && before[k] == entries@[j].0;
                        assert(keys@[k] == entries@[j].0);
                    } else {
                        assert(keys@[before.len() as int] == key);
                    }
                }
            }
            i = i + 1;
        }
        assert forall|key: u64| keys@.contains(key) <==> records.contains_key(key) && (
        #[trigger] records[key]).configure_due() by {
            if records.contains_key(key) && records[key].configure_due() {
                let j = choose|j: int|
                    0 <= j < entries@.len() && (#[trigger] entries@[j]).0 == key;
                assert(entries@[j].1.configure_due());
            }
        }
        keys
    }

    /// The configure step of the window with the key, to which the client
    /// connection answered `reply`. `false` where no window has the key.
    pub fn send_pending_configure(&mut self, key: u64, reply: Option<u32>) -> (found: bool)
        requires
            old(self).wf(),
        ensures
            final(self).wf(),
            final(self).windows@ == old(self).windows@,
            final(self).outputs@ == old(self).outputs@,
            found == slots(old(self).mapped_windows).contains_key(key),
            !found ==> slots(final(self).mapped_windows) == slots(old(self).mapped_windows),
            found ==> slots(final(self).mapped_windows) == slots(old(self).mapped_windows).insert(
                key,
                slots(old(self).mapped_windows)[key].configured(reply),
            ),
    {
        proof {
            lemma_record_has_window(*self, key);
        }
        if (key / 0x1_0000_0000) % 2 != 1 {
            return false;
        }
        match slots_get_mut(&mut self.mapped_windows, key) {
            Some(record) => {
                record.send_pending_configure(reply);
                proof {
                    lemma_record_changed(*old(self), *self, key);
                }
                true
            },
            None => false,
        }
    }

    /// The keys of all windows, back to front.
    pub fn all_windows(&self) -> (keys: Vec<u64>)
        ensures
            keys@ == window_keys(self.windows@),
    {
        let mut keys: Vec<u64> = Vec::new();
        let mut i: usize = 0;
        while i < self.windows.len()
            invariant
                i <= self.windows@.len(),
                keys@ == window_keys(self.windows@.take(i as int)),
            decreases self.windows@.len() - i,
        {
            keys.push(self.windows[i].key);
            i = i + 1;
            assert(keys@ =~= window_keys(self.windows@.take(i as int)));
        }
        assert(self.windows@.take(i as int) =~= self.windows@);
        keys
    }
}

proof fn lemma_raised_keys(windows: Seq<Window>, index: int)
    requires
        0 <= index < windows.len(),
        window_keys(windows).no_duplicates(),
    ensures
        window_keys(raised(windows, index)).no_duplicates(),
        window_keys(raised(windows, index)).to_set() == window_keys(windows).to_set(),
{
    let before = window_keys(windows);
    let after = window_keys(raised(windows, index));
    let old_place = |a: int|
        if a < index {
            a
        } else if a < windows.len() - 1 {
            a + 1
        } else {
            index
        };
    assert forall|a: int| 0 <= a < after.len() implies #[trigger] after[a] == before[old_place(
        a,
    )] by {}
    assert forall|k: u64| before.to_set().contains(k) implies after.to_set().contains(k) by {
        let j = choose|j: int| 0 <= j < before.len() && before[j] == k;
        let a = if j < index {
            j
        } else if j > index {
            j - 1
        } else {
            windows.len() - 1
        };
        assert(after[a] == k);
    }
    assert forall|k: u64| after.to_set().contains(k) implies before.to_set().contains(k) by {
        let a = choose|a: int| 0 <= a < after.len() && after[a] == k;
        assert(before[old_place(a)] == k);
    }
    assert(after.to_set() =~= before.to_set());
}

proof fn lemma_window_has_record(globals: CompositorGlobals, surface: u64)
    requires
        globals.wf(),
    ensures
        window_with(globals.windows@, surface) matches Some(w) ==> slots(
            globals.mapped_windows,
        ).contains_key(w.key) && is_slot_key(w.key),
{
    if let Some(i) = window_index(globals.windows@, surface) {
        assert(is_first_window(globals.windows@, surface, i));
        let keys = window_keys(globals.windows@);
        assert(keys[i] == globals.windows@[i].key);
        assert(keys.to_set().contains(keys[i]));
    }
}

proof fn lemma_record_has_window(globals: CompositorGlobals, key: u64)
    requires
        globals.wf(),
    ensures
        slots(globals.mapped_windows).contains_key(key) ==> slots(
            globals.mapped_windows,
        )[key].wf() && is_slot_key(key),
{
    if slots(globals.mapped_windows).contains_key(key) {
        let keys = window_keys(globals.windows@);
        assert(keys.to_set().contains(key));
        let i = choose|i: int| 0 <= i < keys.len() && keys[i] == key;
        assert(globals.windows@[i].key == key);
    }
}

/// A record that keeps its surface, its activation and its own invariant may
/// change.
proof fn lemma_record_changed(before: CompositorGlobals, after: CompositorGlobals, key: u64)
    requires
        before.wf(),
        after.windows@ == before.windows@,
        after.outputs@ == before.outputs@,
        slots(before.mapped_windows).contains_key(key),
        slots(after.mapped_windows) == slots(before.mapped_windows).insert(
            key,
            slots(after.mapped_windows)[key],
        ),
        slots(after.mapped_windows)[key].wf(),
        slots(after.mapped_windows)[key].window == slots(before.mapped_windows)[key].window,
        slots(after.mapped_windows)[key].pending.activated == slots(
            before.mapped_windows,
        )[key].pending.activated,
    ensures
        after.wf(),
{
    assert(slots(after.mapped_windows).dom() =~= slots(before.mapped_windows).dom());
    assert forall|i: int| 0 <= i < after.windows@.len() implies {
        let w = #[trigger] after.windows@[i];
        is_slot_key(w.key) && slots(after.mapped_windows)[w.key].window == w.surface && slots(
            after.mapped_windows,
        )[w.key].wf()
    } by {
        assert(after.windows@[i] == before.windows@[i]);
    }
}

/// The record of a window that has just been mapped.
pub open spec fn new_record(surface: u64) -> MappedWindow {
    MappedWindow {
        window: surface,
        pending: blank_state(),
        has_pending_changes: false,
        wait_ack_configure: false,
        next_configure_serial: None,
    }
}

} // verus!
