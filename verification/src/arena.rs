//! Keys and the maps that `slotmap` keeps by them.
//!
//! A key of `slotmap` is a slot's index and a version of that slot. In this
//! library a key travels as the 64-bit integer that `KeyData::as_ffi` makes
//! of it: the version in the upper half, always odd, and the index in the
//! lower half. What a map holds is known to the contracts as a set or a map
//! of such integers.

use vstd::prelude::*;

use glam::Vec2;
use slotmap::DefaultKey;
use slotmap::SecondaryMap;
use slotmap::SlotMap;

verus! {

/// A `slotmap::SlotMap` that holds no values: it mints keys, forgets them
/// again, and tells which of them it still holds.
#[verifier::external_body]
pub struct KeyArena {
    slots: SlotMap<DefaultKey, ()>,
}

/// A `slotmap::SecondaryMap` from keys to keys.
#[verifier::external_body]
pub struct KeyMap {
    entries: SecondaryMap<DefaultKey, DefaultKey>,
}

/// A `slotmap::SecondaryMap` from keys to points.
#[verifier::external_body]
pub struct PointMap {
    entries: SecondaryMap<DefaultKey, Vec2>,
}

/// The keys that the map holds, each as `KeyData::as_ffi` gives it.
pub uninterp spec fn slot_keys(m: KeyArena) -> Set<u64>;

/// What the map holds: for each key the key stored under it, both as
/// `KeyData::as_ffi` gives them.
pub uninterp spec fn key_entries(m: KeyMap) -> Map<u64, u64>;

/// What the map holds: for each key, as `KeyData::as_ffi` gives it, the point
/// stored under it.
pub uninterp spec fn point_entries(m: PointMap) -> Map<u64, Vec2>;

/// Whether `k` is what `KeyData::as_ffi` gives for some key: its version,
/// the upper 32 bits, is odd.
pub open spec fn is_key(k: u64) -> bool {
    (k / 0x1_0000_0000) % 2 == 1
}

/// The index of the slot that the key `k` points to: its lower 32 bits.
pub open spec fn slot_of(k: u64) -> u64 {
    k % 0x1_0000_0000
}

/// Whether `k` is a key that can be stored: it is a key and not the null key,
/// whose index is the largest one.
pub open spec fn is_live_key(k: u64) -> bool {
    is_key(k) && slot_of(k) != 0xffff_ffff
}

/// Whether no key of `keys` other than `k` itself points to the slot of `k`.
pub open spec fn slot_is_free_for(keys: Set<u64>, k: u64) -> bool {
    forall|other: u64| #[trigger] keys.contains(other) && slot_of(other) == slot_of(k) ==> other == k
}

/// Calls `SlotMap::new`: the map holds no key.
#[verifier::external_body]
pub(crate) fn slots_new() -> (m: KeyArena)
    ensures
        slot_keys(m) == Set::<u64>::empty(),
{
    KeyArena { slots: SlotMap::new() }
}

/// Calls `SlotMap::insert` and hands the new key out as `KeyData::as_ffi`
/// gives it. The key is a live key that the map did not hold, no key that
/// the map held points to its slot, and the map now holds it beside the
/// others. The call panics only on a map whose slots are all taken and as
/// many as a 32-bit index can count, which a map of fewer keys is not.
#[verifier::external_body]
pub(crate) fn slots_insert(m: &mut KeyArena) -> (k: u64)
    requires
        slot_keys(*old(m)).finite(),
        slot_keys(*old(m)).len() < 0xffff_fffe,
    ensures
        is_live_key(k),
        !slot_keys(*old(m)).contains(k),
        forall|other: u64| #[trigger] slot_keys(*old(m)).contains(other) ==> slot_of(other) != slot_of(k),
        slot_keys(*final(m)) == slot_keys(*old(m)).insert(k),
{
    slotmap::Key::data(&m.slots.insert(())).as_ffi()
}

/// Calls `SlotMap::remove` with the key that `KeyData::from_ffi` makes of
/// `k`: tells whether the map held the key, which it holds no longer.
#[verifier::external_body]
pub(crate) fn slots_remove(m: &mut KeyArena, k: u64) -> (r: bool)
    requires
        is_key(k),
    ensures
        r == slot_keys(*old(m)).contains(k),
        slot_keys(*final(m)) == slot_keys(*old(m)).remove(k),
{
    m.slots.remove(slotmap::KeyData::from_ffi(k).into()).is_some()
}

/// Calls `SlotMap::keys` and collects the keys, each as `KeyData::as_ffi`
/// gives it: every key that the map holds, once.
#[verifier::external_body]
pub(crate) fn slots_keys(m: &KeyArena) -> (r: Vec<u64>)
    ensures
        r@.no_duplicates(),
        r@.to_set() == slot_keys(*m),
{
    m.slots.keys().map(|k| slotmap::Key::data(&k).as_ffi()).collect()
}

/// Calls `SecondaryMap::new`: the map holds nothing.
#[verifier::external_body]
pub(crate) fn key_map_new() -> (m: KeyMap)
    ensures
        key_entries(m) == (Map::<u64, u64>::empty()),
{
    KeyMap { entries: SecondaryMap::new() }
}

/// Calls `SecondaryMap::insert` with the keys that `KeyData::from_ffi` makes
/// of `k` and `v`. Where no other key of the map points to the slot of `k`,
/// the map then holds `v` under `k` and the rest as before, and the call
/// returns what was stored under `k`.
#[verifier::external_body]
pub(crate) fn key_map_insert(m: &mut KeyMap, k: u64, v: u64) -> (r: Option<u64>)
    requires
        is_live_key(k),
        is_key(v),
        slot_is_free_for(key_entries(*old(m)).dom(), k),
    ensures
        key_entries(*final(m)) == key_entries(*old(m)).insert(k, v),
        r == (if key_entries(*old(m)).contains_key(k) {
            Some(key_entries(*old(m))[k])
        } else {
            None
        }),
{
    let stored = m.entries.insert(slotmap::KeyData::from_ffi(k).into(), slotmap::KeyData::from_ffi(v).into());
    stored.map(|o| slotmap::Key::data(&o).as_ffi())
}

/// Calls `SecondaryMap::remove` with the key that `KeyData::from_ffi` makes
/// of `k`: the map holds nothing under `k` any more, and the call returns
/// what was stored there, which is a key.
#[verifier::external_body]
pub(crate) fn key_map_remove(m: &mut KeyMap, k: u64) -> (r: Option<u64>)
    requires
        is_key(k),
    ensures
        key_entries(*final(m)) == key_entries(*old(m)).remove(k),
        r == (if key_entries(*old(m)).contains_key(k) {
            Some(key_entries(*old(m))[k])
        } else {
            None
        }),
        r is Some ==> is_key(r->0),
{
    m.entries.remove(slotmap::KeyData::from_ffi(k).into()).map(|o| slotmap::Key::data(&o).as_ffi())
}

/// Calls `SecondaryMap::get` with the key that `KeyData::from_ffi` makes of
/// `k`: what is stored under `k`, which is a key.
#[verifier::external_body]
pub(crate) fn key_map_get(m: &KeyMap, k: u64) -> (r: Option<u64>)
    requires
        is_key(k),
    ensures
        r == (if key_entries(*m).contains_key(k) {
            Some(key_entries(*m)[k])
        } else {
            None
        }),
        r is Some ==> is_key(r->0),
{
    m.entries.get(slotmap::KeyData::from_ffi(k).into()).map(|o| slotmap::Key::data(o).as_ffi())
}

/// Calls `SecondaryMap::iter` and collects the pairs: every key that the map
/// holds, once, beside what is stored under it. All of them are live keys.
#[verifier::external_body]
pub(crate) fn key_map_pairs(m: &KeyMap) -> (r: Vec<(u64, u64)>)
    ensures
        forall|i: int, j: int| 0 <= i < j < r@.len() ==> r@[i].0 != r@[j].0,
        forall|i: int|
            0 <= i < r@.len() ==> is_live_key(#[trigger] r@[i].0) && is_key(r@[i].1)
                && key_entries(*m).contains_pair(r@[i].0, r@[i].1),
        forall|k: u64|
            key_entries(*m).contains_key(k) ==> exists|i: int|
                0 <= i < r@.len() && #[trigger] r@[i].0 == k,
{
    m.entries.iter().map(|(k, v)| (slotmap::Key::data(&k).as_ffi(), slotmap::Key::data(v).as_ffi())).collect()
}

/// Calls `SecondaryMap::new`: the map holds nothing.
#[verifier::external_body]
pub(crate) fn point_map_new() -> (m: PointMap)
    ensures
        point_entries(m) == (Map::<u64, Vec2>::empty()),
{
    PointMap { entries: SecondaryMap::new() }
}

/// Calls `SecondaryMap::insert` with the key that `KeyData::from_ffi` makes
/// of `k`. Where no other key of the map points to the slot of `k`, the map
/// then holds `v` under `k` and the rest as before, and the call returns what
/// was stored under `k`.
#[verifier::external_body]
pub(crate) fn point_map_insert(m: &mut PointMap, k: u64, v: Vec2) -> (r: Option<Vec2>)
    requires
        is_live_key(k),
        slot_is_free_for(point_entries(*old(m)).dom(), k),
    ensures
        point_entries(*final(m)) == point_entries(*old(m)).insert(k, v),
        r == (if point_entries(*old(m)).contains_key(k) {
            Some(point_entries(*old(m))[k])
        } else {
            None
        }),
{
    m.entries.insert(slotmap::KeyData::from_ffi(k).into(), v)
}

/// Calls `SecondaryMap::remove` with the key that `KeyData::from_ffi` makes
/// of `k`: the map holds nothing under `k` any more, and the call returns
/// what was stored there.
#[verifier::external_body]
pub(crate) fn point_map_remove(m: &mut PointMap, k: u64) -> (r: Option<Vec2>)
    requires
        is_key(k),
    ensures
        point_entries(*final(m)) == point_entries(*old(m)).remove(k),
        r == (if point_entries(*old(m)).contains_key(k) {
            Some(point_entries(*old(m))[k])
        } else {
            None
        }),
{
    m.entries.remove(slotmap::KeyData::from_ffi(k).into())
}

/// Calls `SecondaryMap::get` with the key that `KeyData::from_ffi` makes of
/// `k`: what is stored under `k`.
#[verifier::external_body]
pub(crate) fn point_map_get(m: &PointMap, k: u64) -> (r: Option<Vec2>)
    requires
        is_key(k),
    ensures
        r == (if point_entries(*m).contains_key(k) {
            Some(point_entries(*m)[k])
        } else {
            None
        }),
{
    m.entries.get(slotmap::KeyData::from_ffi(k).into()).copied()
}

/// Calls `SecondaryMap::iter` and collects the pairs: every key that the map
/// holds, once, beside what is stored under it. All of them are live keys.
#[verifier::external_body]
pub(crate) fn point_map_pairs(m: &PointMap) -> (r: Vec<(u64, Vec2)>)
    ensures
        forall|i: int, j: int| 0 <= i < j < r@.len() ==> r@[i].0 != r@[j].0,
        forall|i: int|
            0 <= i < r@.len() ==> is_live_key(#[trigger] r@[i].0)
                && point_entries(*m).contains_pair(r@[i].0, r@[i].1),
        forall|k: u64|
            point_entries(*m).contains_key(k) ==> exists|i: int|
                0 <= i < r@.len() && #[trigger] r@[i].0 == k,
{
    m.entries.iter().map(|(k, v)| (slotmap::Key::data(&k).as_ffi(), *v)).collect()
}

} // verus!
