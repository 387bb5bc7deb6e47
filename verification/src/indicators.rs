use vstd::prelude::*;
use std::collections::BTreeMap;
use vstd::std_specs::iter::IteratorSpec;

verus! {

broadcast use vstd::std_specs::btree::group_btree_axioms, vstd::laws_cmp::group_laws_cmp;

/// Why the layout of a widget was updated.
#[derive(Debug, Clone, Copy, PartialEq, Eq, Structural)]
pub enum LayoutUpdateEvent {
    Explicit,
    SizeQueryUpdate,
    LayoutUpdate,
}

/// For how many frames the indicator of a layout update stays on screen.
pub const INDICATOR_LIFETIME: usize = 30;

/// The number of an update event within the key of an indicator.
pub open spec fn event_code(e: LayoutUpdateEvent) -> int {
    match e {
        LayoutUpdateEvent::Explicit => 0,
        LayoutUpdateEvent::SizeQueryUpdate => 1,
        LayoutUpdateEvent::LayoutUpdate => 2,
    }
}

/// The key of the indicator of a widget's layout update: the widget first, then the event, so
/// that the indicators of a widget follow each other in key order.
pub open spec fn indicator_key(entity: u64, event: LayoutUpdateEvent) -> u128 {
    (entity as int * 4 + event_code(event)) as u128
}

/// The indicators after one frame: each fades by a frame, and those that reach zero are removed.
pub open spec fn faded(m: Map<u128, usize>) -> Map<u128, usize> {
    Map::new(|k: u128| m.contains_key(k) && m[k] > 1, |k: u128| (m[k] - 1) as usize)
}

/// The layout update indicators of the debug renderer: how many more frames each is shown.
pub struct LayoutIndicators {
    lifetimes: BTreeMap<u128, usize>,
}

/// Every key is the key of a widget's layout update.
pub open spec fn is_indicator_key(k: u128) -> bool {
    k % 4 < 3 && k / 4 <= u64::MAX
}

impl LayoutIndicators {
    #[verifier::type_invariant]
    spec fn keys_are_indicators(self) -> bool {
        forall|k: u128|
            #[trigger] self.lifetimes@.contains_key(k) ==> is_indicator_key(k) && 1 <= self.lifetimes@[k]
                <= INDICATOR_LIFETIME
    }
}

/// The keys of a map, in increasing order.
fn sorted_keys(m: &BTreeMap<u128, usize>) -> (keys: Vec<u128>)
    ensures
        keys@.to_set() == m@.dom(),
        keys@.no_duplicates(),
        forall|i: int, j: int| 0 <= i < j < keys.len() ==> keys@[i] < keys@[j],
{
    let ghost ks = vstd::std_specs::btree::spec_keys_iter(m).remaining().unref();
    let mut keys: Vec<u128> = Vec::new();
    for k in it: m.keys()
        invariant
            keys.len() == it.index(),
            it.seq().unref() == ks,
            forall|i: int| 0 <= i < keys.len() ==> keys@[i] == ks[i],
    {
        keys.push(*k);
    }
    proof {
        assert(keys@ =~= ks);
        assert(vstd::std_specs::btree::increasing_seq(vstd::std_specs::btree::spec_keys_iter(m).remaining()));
        assert forall|i: int, j: int| 0 <= i < j < keys.len() implies keys@[i] < keys@[j] by {
            let r = vstd::std_specs::btree::spec_keys_iter(m).remaining();
            assert(vstd::std_specs::cmp::OrdSpec::cmp_spec(&r[i], &r[j]) is Less);
            assert(*r[i] == ks[i] && *r[j] == ks[j]);
        }
    }
    keys
}

fn event_number(event: LayoutUpdateEvent) -> (n: u128)
    ensures
        n == event_code(event),
{
    match event {
        LayoutUpdateEvent::Explicit => 0,
        LayoutUpdateEvent::SizeQueryUpdate => 1,
        LayoutUpdateEvent::LayoutUpdate => 2,
    }
}

impl LayoutIndicators {
    /// How many more frames each indicator is shown, by key.
    pub closed spec fn view(&self) -> Map<u128, usize> {
        self.lifetimes@
    }

    pub fn new() -> (s: Self)
        ensures
            s.view() == Map::<u128, usize>::empty(),
    {
        Self { lifetimes: BTreeMap::new() }
    }

    /// Shows the indicator of a widget's layout update for the full lifetime, whether or not it
    /// was shown.
    pub fn record(&mut self, entity: u64, event: LayoutUpdateEvent)
        ensures
            final(self).view() == old(self).view().insert(indicator_key(entity, event), INDICATOR_LIFETIME),
    {
        proof {
            use_type_invariant(&*self);
        }
        let key = (entity as u128) * 4 + event_number(event);
        proof {
            assert(key % 4 == event_code(event));
            assert(key / 4 == entity);
        }
        let mut lifetimes = BTreeMap::new();
        std::mem::swap(&mut lifetimes, &mut self.lifetimes);
        lifetimes.insert(key, INDICATOR_LIFETIME);
        self.lifetimes = lifetimes;
    }

    /// Fades every indicator by a frame, removing those that are done.
    pub fn fade(&mut self)
        ensures
            final(self).view() == faded(old(self).view()),
    {
        proof {
            use_type_invariant(&*self);
        }
        let mut lifetimes = BTreeMap::new();
        std::mem::swap(&mut lifetimes, &mut self.lifetimes);
        let ghost orig = lifetimes@;
        let keys = sorted_keys(&lifetimes);
        let mut i: usize = 0;
        while i < keys.len()
            invariant
                i <= keys.len(),
                keys@.to_set() == orig.dom(),
                keys@.no_duplicates(),
                forall|k: u128|
                    #[trigger] lifetimes@.contains_key(k) ==> orig.contains_key(k),
                forall|j: int| i <= j < keys.len() ==> lifetimes@.contains_key(#[trigger] keys@[j])
                    && lifetimes@[keys@[j]] == orig[keys@[j]],
                forall|j: int|
                    0 <= j < i ==> (lifetimes@.contains_key(#[trigger] keys@[j]) == (orig[keys@[j]] > 1))
                        && (orig[keys@[j]] > 1 ==> lifetimes@[keys@[j]] == orig[keys@[j]] - 1),
            decreases keys.len() - i,
        {
            let key = keys[i];
            let ghost before = lifetimes@;
            proof {
                assert(keys@.to_set().contains(key));
            }
            let life = match lifetimes.get(&key) {
                Some(v) => *v,
                None => 0,
            };
            proof {
                assert(life == orig[key]);
            }
            if life <= 1 {
                lifetimes.remove(&key);
                proof {
                    assert(lifetimes@ == before.remove(key));
                }
            } else {
                lifetimes.insert(key, life - 1);
            }
            proof {
                assert forall|j: int| i + 1 <= j < keys.len() implies lifetimes@.contains_key(#[trigger] keys@[j])
                    && lifetimes@[keys@[j]] == orig[keys@[j]] by {
                    assert(keys@[j] != key);
                }
                assert forall|j: int| 0 <= j < i + 1 implies (lifetimes@.contains_key(#[trigger] keys@[j]) == (orig[keys@[j]]
                    > 1)) && (orig[keys@[j]] > 1 ==> lifetimes@[keys@[j]] == orig[keys@[j]] - 1) by {
                    if j < i {
                        assert(keys@[j] != key);
                    }
                }
            }
            i += 1;
        }
        proof {
            assert forall|k: u128| #[trigger] lifetimes@.contains_key(k) == faded(orig).contains_key(k) by {
                if orig.contains_key(k) {
                    assert(keys@.to_set().contains(k));
                    let j = choose|j: int| 0 <= j < keys.len() && keys@[j] == k;
                }
            }
            assert forall|k: u128| #[trigger] lifetimes@.contains_key(k) implies lifetimes@[k] == faded(orig)[k] by {
                assert(keys@.to_set().contains(k));
                let j = choose|j: int| 0 <= j < keys.len() && keys@[j] == k;
            }
            assert(lifetimes@ =~= faded(orig));
        }
        self.lifetimes = lifetimes;
    }

    /// How many more frames the indicator of a widget's layout update is shown, if it is; always
    /// between one and `INDICATOR_LIFETIME`.
    pub fn lifetime_of(&self, entity: u64, event: LayoutUpdateEvent) -> (l: Option<usize>)
        ensures
            l == (if self.view().contains_key(indicator_key(entity, event)) {
                Some(self.view()[indicator_key(entity, event)])
            } else {
                None::<usize>
            }),
            l matches Some(v) ==> 1 <= v <= INDICATOR_LIFETIME,
    {
        proof {
            use_type_invariant(self);
        }
        let key = (entity as u128) * 4 + event_number(event);
        match self.lifetimes.get(&key) {
            Some(v) => Some(*v),
            None => None,
        }
    }

    /// The indicators in key order: for each its widget, its update event and how many more
    /// frames it is shown; the indicators of a widget follow each other.
    pub fn indicators(&self) -> (out: Vec<(u64, LayoutUpdateEvent, usize)>)
        ensures
            out.len() == self.view().dom().len(),
            forall|i: int|
                0 <= i < out.len() ==> self.view().contains_key(indicator_key(#[trigger] out@[i].0, out@[i].1))
                    && out@[i].2 == self.view()[indicator_key(out@[i].0, out@[i].1)],
            forall|i: int, j: int|
                0 <= i < j < out.len() ==> indicator_key(out@[i].0, out@[i].1) < indicator_key(out@[j].0, out@[j].1),
    {
        proof {
            use_type_invariant(self);
        }
        let keys = sorted_keys(&self.lifetimes);
        let mut out: Vec<(u64, LayoutUpdateEvent, usize)> = Vec::new();
        let mut i: usize = 0;
        while i < keys.len()
            invariant
                i <= keys.len(),
                forall|k: u128| #[trigger] self.lifetimes@.contains_key(k) ==> is_indicator_key(k) && 1
                    <= self.lifetimes@[k] <= INDICATOR_LIFETIME,
                keys@.to_set() == self.lifetimes@.dom(),
                keys@.no_duplicates(),
                forall|a: int, b: int| 0 <= a < b < keys.len() ==> keys@[a] < keys@[b],
                out.len() == i,
                forall|j: int| 0 <= j < i ==> indicator_key(#[trigger] out@[j].0, out@[j].1) == keys@[j],
                forall|j: int| 0 <= j < i ==> (#[trigger] out@[j]).2 == self.lifetimes@[keys@[j]],
            decreases keys.len() - i,
        {
            let key = keys[i];
            proof {
                assert(keys@.to_set().contains(key));
            }
            let entity = (key / 4) as u64;
            let event = if key % 4 == 0 {
                LayoutUpdateEvent::Explicit
            } else if key % 4 == 1 {
                LayoutUpdateEvent::SizeQueryUpdate
            } else {
                LayoutUpdateEvent::LayoutUpdate
            };
            let life = match self.lifetimes.get(&key) {
                Some(v) => *v,
                None => 0,
            };
            proof {
                assert(self.lifetimes@.contains_key(key));
                assert(is_indicator_key(key));
                assert(indicator_key(entity, event) == key);
                assert(life == self.lifetimes@[key]);
            }
            out.push((entity, event, life));
            proof {
                assert(out@[i as int] == (entity, event, life));
            }
            i += 1;
        }
        proof {
            keys@.unique_seq_to_set();
            assert forall|a: int| 0 <= a < out.len() implies self.view().contains_key(indicator_key(#[trigger] out@[a].0, out@[a].1))
                && out@[a].2 == self.view()[indicator_key(out@[a].0, out@[a].1)] by {
                assert(keys@.to_set().contains(keys@[a]));
            }
        }
        out
    }
}

/// The indicators after `n` frames without new layout updates.
pub open spec fn faded_times(m: Map<u128, usize>, n: nat) -> Map<u128, usize>
    decreases n,
{
    if n == 0 {
        m
    } else {
        faded(faded_times(m, (n - 1) as nat))
    }
}

/// Without new layout updates, an indicator with `l > 0` frames to go is shown for `n` more frames
/// exactly when `n < l`, with `l - n` frames to go; so a freshly recorded indicator is shown for
/// exactly `INDICATOR_LIFETIME` frames.
pub proof fn lemma_indicator_fades_out(m: Map<u128, usize>, k: u128, n: nat)
    requires
        m.contains_key(k) ==> m[k] >= 1,
    ensures
        faded_times(m, n).contains_key(k) == (m.contains_key(k) && m[k] > n),
        faded_times(m, n).contains_key(k) ==> faded_times(m, n)[k] == m[k] - n,
        m.contains_key(k) && m[k] == INDICATOR_LIFETIME ==> (faded_times(m, n).contains_key(k) <==> n
            < INDICATOR_LIFETIME),
    decreases n,
{
    if n > 0 {
        lemma_indicator_fades_out(m, k, (n - 1) as nat);
        let prev = faded_times(m, (n - 1) as nat);
        assert(faded_times(m, n) == faded(prev));
        assert(faded(prev).contains_key(k) == (prev.contains_key(k) && prev[k] > 1));
    }
}

} // verus!
