//! The slot map that holds the mapped windows.

use slotmap::{DefaultKey, Key, KeyData, SlotMap};
use vstd::prelude::*;

use crate::mapped::MappedWindow;

verus! {

/// A `slotmap::SlotMap` of mapped windows. Its keys are handed out as the
/// integers that `slotmap::KeyData::as_ffi` gives.
#[verifier::external_body]
pub struct WindowSlots {
    inner: SlotMap<DefaultKey, MappedWindow>,
}

/// The mapped windows that a slot map holds, by key.
pub uninterp spec fn slots(m: WindowSlots) -> Map<u64, MappedWindow>;

/// The shape of every key: the upper half is an odd version number.
pub open spec fn is_slot_key(key: u64) -> bool {
    (key / 0x1_0000_0000) % 2 == 1
}

/// No windows under any key.
pub open spec fn no_windows() -> Map<u64, MappedWindow> {
    Map::empty()
}

/// `slotmap::SlotMap::new`: a slot map without windows.
#[verifier::external_body]
pub(crate) fn slots_new() -> (m: WindowSlots)
    ensures
        slots(m) == no_windows(),
{
    WindowSlots { inner: SlotMap::new() }
}

/// `slotmap::SlotMap::insert`: the window goes in under a key that no window
/// in the map has. `insert` panics where the map is full, which is where it
/// holds one less than `u32::MAX` windows. That a key of a removed window does
/// not come back is not claimed: the version numbers wrap around.
#[verifier::external_body]
pub(crate) fn slots_insert(m: &mut WindowSlots, window: MappedWindow) -> (key: u64)
    requires
        slots(*old(m)).len() < u32::MAX - 1,
    ensures
        is_slot_key(key),
        !slots(*old(m)).contains_key(key),
        slots(*final(m)) == slots(*old(m)).insert(key, window),
{
    m.inner.insert(window).data().as_ffi()
}

/// `slotmap::SlotMap::get_mut`: the window under a key, where there is one, to
/// be changed in place.
#[verifier::external_body]
pub(crate) fn slots_get_mut(m: &mut WindowSlots, key: u64) -> (window: Option<&mut MappedWindow>)
    requires
        is_slot_key(key),
    ensures
        match window {
            Some(w) => {
                &&& slots(*old(m)).contains_key(key)
                &&& *w == slots(*old(m))[key]
                &&& slots(*final(m)) == slots(*old(m)).insert(key, *final(w))
            },
            None => {
                &&& !slots(*old(m)).contains_key(key)
                &&& slots(*final(m)) == slots(*old(m))
            },
        },
{
    m.inner.get_mut(DefaultKey::from(KeyData::from_ffi(key)))
}

/// `slotmap::SlotMap::remove`: takes the window under a key out, where there
/// is one.
#[verifier::external_body]
pub(crate) fn slots_remove(m: &mut WindowSlots, key: u64) -> (window: Option<MappedWindow>)
    requires
        is_slot_key(key),
    ensures
        slots(*final(m)) == slots(*old(m)).remove(key),
        match window {
            Some(w) => slots(*old(m)).contains_key(key) && w == slots(*old(m))[key],
            None => !slots(*old(m)).contains_key(key),
        },
{
    m.inner.remove(DefaultKey::from(KeyData::from_ffi(key)))
}

/// `slotmap::SlotMap::iter`: every window with its key, each once, in no
/// particular order.
#[verifier::external_body]
pub(crate) fn slots_iter(m: &WindowSlots) -> (entries: Vec<(u64, MappedWindow)>)
    ensures
        forall|i: int|
            0 <= i < entries@.len() ==> slots(*m).contains_key((#[trigger] entries@[i]).0)
                && slots(*m)[entries@[i].0] == entries@[i].1,
        forall|i: int, j: int|
            0 <= i < j < entries@.len() ==> (#[trigger] entries@[i]).0 != (
            #[trigger] entries@[j]).0,
        forall|key: u64| #[trigger]
            slots(*m).contains_key(key) ==> exists|i: int|
                0 <= i < entries@.len() && (#[trigger] entries@[i]).0 == key,
{
    m.inner.iter().map(|(key, window)| (key.data().as_ffi(), *window)).collect()
}

} // verus!
