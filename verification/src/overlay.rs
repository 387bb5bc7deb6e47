use vstd::prelude::*;
use slotmap::{DefaultKey, SecondaryMap, SlotMap};

verus! {

/// The slot map that hands out overlay ids.
#[verifier::external_body]
pub struct OverlayIds {
    ids: SlotMap<DefaultKey, ()>,
}

/// The secondary map from overlay ids to the entities of the mounted overlays.
#[verifier::external_body]
pub struct OverlayEntities {
    entities: SecondaryMap<DefaultKey, u64>,
}

/// The keys of the slot map, each in its 64-bit form (`KeyData::as_ffi`).
pub uninterp spec fn slot_keys(m: OverlayIds) -> Set<u64>;

/// The entries of the secondary map, each key in its 64-bit form (`KeyData::as_ffi`).
pub uninterp spec fn secondary_entries(m: OverlayEntities) -> Map<u64, u64>;

/// The slot index within a key's 64-bit form.
pub open spec fn key_index(id: u64) -> int {
    id as int % 0x1_0000_0000
}

/// The version within a key's 64-bit form.
pub open spec fn key_version(id: u64) -> int {
    id as int / 0x1_0000_0000
}

/// A 64-bit form that the key of an occupied slot has: an odd version, not the null index.
pub open spec fn is_key_form(id: u64) -> bool {
    key_version(id) % 2 == 1 && key_index(id) != 0xffff_ffff
}

/// Calls `SlotMap::new`, which makes an empty slot map.
#[verifier::external_body]
fn slot_map_new() -> (m: OverlayIds)
    ensures
        slot_keys(m) == Set::<u64>::empty(),
{
    OverlayIds { ids: SlotMap::new() }
}

/// Calls `SlotMap::insert` and returns the new key in its 64-bit form. The slot map puts the
/// value either in a vacant slot, whose version it makes odd, or in a new slot at the end, with
/// version one; so the new key is in key form and shares its index with no key of the map.
/// Besides the slots of its keys the map keeps a sentinel slot at index 0, and it panics when it
/// has no vacant slot and already `u32::MAX` slots; with fewer than `u32::MAX - 1` keys it does
/// not panic.
#[verifier::external_body]
fn slot_map_insert(m: &mut OverlayIds) -> (id: u64)
    requires
        slot_keys(*old(m)).finite(),
        slot_keys(*old(m)).len() < 0xffff_fffe,
    ensures
        is_key_form(id),
        forall|k: u64| slot_keys(*old(m)).contains(k) ==> key_index(k) != key_index(id),
        slot_keys(*final(m)) == slot_keys(*old(m)).insert(id),
{
    slotmap::Key::data(&m.ids.insert(())).as_ffi()
}

/// Calls `SlotMap::contains_key` with the key of the 64-bit form `id`, which is in key form, so
/// that `KeyData::from_ffi` gives back exactly that key.
#[verifier::external_body]
fn slot_map_contains(m: &OverlayIds, id: u64) -> (r: bool)
    requires
        is_key_form(id),
    ensures
        r == slot_keys(*m).contains(id),
{
    m.ids.contains_key(DefaultKey::from(slotmap::KeyData::from_ffi(id)))
}

/// Calls `SecondaryMap::new`, which makes an empty secondary map.
#[verifier::external_body]
fn secondary_new() -> (m: OverlayEntities)
    ensures
        secondary_entries(m) =~= Map::empty(),
{
    OverlayEntities { entities: SecondaryMap::new() }
}

/// Calls `SecondaryMap::get` with the key of the 64-bit form `id` (`KeyData::from_ffi`, which
/// gives back the key of a form in key form): the value stored under exactly that key.
#[verifier::external_body]
fn secondary_get(m: &OverlayEntities, id: u64) -> (r: Option<u64>)
    requires
        is_key_form(id),
    ensures
        r == (if secondary_entries(*m).contains_key(id) {
            Some(secondary_entries(*m)[id])
        } else {
            None::<u64>
        }),
{
    m.entities.get(DefaultKey::from(slotmap::KeyData::from_ffi(id))).copied()
}

/// Calls `SecondaryMap::insert` with the key of the 64-bit form `id`. A value under the same key
/// is replaced and returned; with no key of the same slot index the value is added; a key of the
/// same index but another version is either kept (when `id` is older) or replaced by `id`.
#[verifier::external_body]
fn secondary_insert(m: &mut OverlayEntities, id: u64, value: u64) -> (r: Option<u64>)
    requires
        is_key_form(id),
    ensures
        secondary_entries(*old(m)).contains_key(id) ==> r == Some(secondary_entries(*old(m))[id])
            && secondary_entries(*final(m)) == secondary_entries(*old(m)).insert(id, value),
        (forall|k: u64| #[trigger] secondary_entries(*old(m)).contains_key(k) ==> key_index(k) != key_index(id))
            ==> r is None && secondary_entries(*final(m)) == secondary_entries(*old(m)).insert(id, value),
        !secondary_entries(*old(m)).contains_key(id) && (exists|k: u64|
            #[trigger] secondary_entries(*old(m)).contains_key(k) && key_index(k) == key_index(id))
            ==> r is None && (secondary_entries(*final(m)) == secondary_entries(*old(m)) || exists|k: u64|
            #[trigger] secondary_entries(*old(m)).contains_key(k) && key_index(k) == key_index(id)
                && secondary_entries(*final(m)) == secondary_entries(*old(m)).remove(k).insert(id, value)),
{
    m.entities.insert(DefaultKey::from(slotmap::KeyData::from_ffi(id)), value)
}

/// Whether `id` is in key form.
fn key_form(id: u64) -> (b: bool)
    ensures
        b == is_key_form(id),
{
    let version = id / 0x1_0000_0000;
    version % 2 == 1 && id % 0x1_0000_0000 != 0xffff_ffff
}

/// Hands out the ids of overlays.
pub struct OverlayState {
    ids: OverlayIds,
    count: usize,
}

impl OverlayState {
    /// The ids handed out so far.
    pub closed spec fn ids(&self) -> Set<u64> {
        slot_keys(self.ids)
    }

    /// The ids are finitely many and counted, in key form, and no two share a slot index.
    pub closed spec fn wf(&self) -> bool {
        &&& self.ids().finite()
        &&& self.ids().len() == self.count
        &&& forall|k: u64| #[trigger] self.ids().contains(k) ==> is_key_form(k)
        &&& forall|a: u64, b: u64|
            #[trigger] self.ids().contains(a) && #[trigger] self.ids().contains(b) && key_index(a)
                == key_index(b) ==> a == b
    }

    pub fn new() -> (s: Self)
        ensures
            s.wf(),
            s.ids() == Set::<u64>::empty(),
    {
        Self { ids: slot_map_new(), count: 0 }
    }

    /// The number of ids handed out.
    pub fn len(&self) -> (n: usize)
        requires
            self.wf(),
        ensures
            n == self.ids().len(),
    {
        self.count
    }

    /// Whether `id` was handed out by this state.
    pub fn is_open_id(&self, id: u64) -> (b: bool)
        requires
            self.wf(),
        ensures
            b == self.ids().contains(id),
    {
        if key_form(id) {
            slot_map_contains(&self.ids, id)
        } else {
            false
        }
    }

    /// Hands out the id of a new overlay.
    pub fn open(&mut self) -> (id: u64)
        requires
            old(self).wf(),
            old(self).ids().len() < 0xffff_fffe,
        ensures
            final(self).wf(),
            !old(self).ids().contains(id),
            final(self).ids() == old(self).ids().insert(id),
    {
        let id = slot_map_insert(&mut self.ids);
        self.count = self.count + 1;
        id
    }
}

/// Keeps the overlays of the interface: which entity shows each open overlay.
pub struct OverlayStack {
    overlays: OverlayEntities,
    state: OverlayState,
}

impl OverlayStack {
    /// The entity of each overlay that was mounted, by id.
    pub closed spec fn entities(&self) -> Map<u64, u64> {
        secondary_entries(self.overlays)
    }

    /// The ids handed out so far.
    pub closed spec fn ids(&self) -> Set<u64> {
        self.state.ids()
    }

    /// The state that hands out the ids.
    pub closed spec fn state_view(&self) -> OverlayState {
        self.state
    }

    /// Every mounted overlay has an id that the state handed out.
    pub closed spec fn wf(&self) -> bool {
        &&& self.state.wf()
        &&& forall|k: u64| #[trigger] self.entities().contains_key(k) ==> self.state.ids().contains(k)
    }

    pub fn new() -> (s: Self)
        ensures
            s.wf(),
            s.entities() == Map::<u64, u64>::empty(),
            s.ids() == Set::<u64>::empty(),
    {
        Self { overlays: secondary_new(), state: OverlayState::new() }
    }

    pub fn from_state(state: OverlayState) -> (s: Self)
        requires
            state.wf(),
        ensures
            s.wf(),
            s.entities() == Map::<u64, u64>::empty(),
            s.state_view() == state,
    {
        Self { overlays: secondary_new(), state }
    }

    /// The state that hands out the ids.
    pub fn state(&self) -> (s: &OverlayState)
        ensures
            *s == self.state_view(),
    {
        &self.state
    }

    /// Hands out the id of a new overlay.
    pub fn open(&mut self) -> (id: u64)
        requires
            old(self).wf(),
            old(self).ids().len() < 0xffff_fffe,
        ensures
            final(self).wf(),
            !old(self).ids().contains(id),
            final(self).ids() == old(self).ids().insert(id),
            final(self).entities() == old(self).entities(),
    {
        let id = self.state.open();
        proof {
            assert forall|k: u64| #[trigger] self.entities().contains_key(k) implies self.state.ids().contains(k) by {
                assert(old(self).entities().contains_key(k));
            }
        }
        id
    }

    /// The position at which an overlay that opens is attached among `child_count` children: on
    /// top, after all of them, or at the bottom.
    pub fn open_index(top: bool, child_count: usize) -> (i: usize)
        ensures
            i == if top { child_count } else { 0 },
    {
        if top { child_count } else { 0 }
    }

    /// Records the entity of an overlay that was mounted, or mounted anew in its place.
    pub fn record(&mut self, id: u64, entity: u64)
        requires
            old(self).wf(),
            old(self).ids().contains(id),
        ensures
            final(self).wf(),
            final(self).state_view() == old(self).state_view(),
            final(self).entities() == old(self).entities().insert(id, entity),
    {
        proof {
            assert(is_key_form(id));
            assert forall|k: u64| #[trigger] secondary_entries(self.overlays).contains_key(k)
                && !secondary_entries(self.overlays).contains_key(id) implies key_index(k) != key_index(id) by {
                assert(self.entities().contains_key(k));
                assert(self.state.ids().contains(k));
            }
        }
        secondary_insert(&mut self.overlays, id, entity);
        proof {
            assert forall|k: u64| #[trigger] self.entities().contains_key(k) implies self.state.ids().contains(k) by {
                if k != id {
                    assert(old(self).entities().contains_key(k));
                }
            }
        }
    }

    /// The entity that shows overlay `id`, if it was mounted; closing an overlay detaches its
    /// entity and keeps the record.
    pub fn entity_of(&self, id: u64) -> (e: Option<u64>)
        requires
            self.wf(),
            self.ids().contains(id),
        ensures
            e == (if self.entities().contains_key(id) {
                Some(self.entities()[id])
            } else {
                None::<u64>
            }),
    {
        secondary_get(&self.overlays, id)
    }

    /// Where overlay `id` stands among the children, with its entity, for replacing it in
    /// place; `None` when it was never mounted. The entity of a mounted overlay must be a child.
    pub fn replace_target(&self, id: u64, children: &Vec<u64>) -> (t: Option<(usize, u64)>)
        requires
            self.wf(),
            self.ids().contains(id),
            self.entities().contains_key(id) ==> children@.contains(self.entities()[id]),
        ensures
            !self.entities().contains_key(id) ==> t is None,
            self.entities().contains_key(id) ==> (t matches Some((i, e)) && e == self.entities()[id]
                && i < children.len() && children@[i as int] == e
                && forall|j: int| 0 <= j < i ==> children@[j] != e),
    {
        match secondary_get(&self.overlays, id) {
            None => None,
            Some(e) => {
                let mut i: usize = 0;
                while i < children.len()
                    invariant
                        i <= children.len(),
                        children@.contains(e),
                        self.entities().contains_key(id),
                        e == self.entities()[id],
                        forall|j: int| 0 <= j < i ==> children@[j] != e,
                    decreases children.len() - i,
                {
                    if children[i] == e {
                        return Some((i, e));
                    }
                    i += 1;
                }
                None
            },
        }
    }
}

/// After an overlay is mounted, or mounted anew in its place, the stack finds it at the entity
/// that now shows it, whatever it recorded for it before; what it recorded for other overlays
/// stays.
pub proof fn lemma_record_then_lookup(before: OverlayStack, after: OverlayStack, id: u64, entity: u64, other: u64)
    requires
        after.entities() == before.entities().insert(id, entity),
        other != id,
    ensures
        after.entities().contains_key(id),
        after.entities()[id] == entity,
        after.entities().contains_key(other) == before.entities().contains_key(other),
        before.entities().contains_key(other) ==> after.entities()[other] == before.entities()[other],
{
}

} // verus!
