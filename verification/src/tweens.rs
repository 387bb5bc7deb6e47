use vstd::prelude::*;

verus! {

broadcast use vstd::seq_lib::group_seq_properties;

/// The tweens of a widget that are still to run, each with the key of the component it animates.
pub struct Tweens<D> {
    pub active: Vec<(u64, D)>,
}

/// Whether a tween does not animate component `target`.
pub open spec fn other_target<D>(target: u64) -> spec_fn((u64, D)) -> bool {
    |e: (u64, D)| e.0 != target
}

/// The tweens of `s` whose flag in `running` is set, in order.
pub open spec fn still_running<D>(s: Seq<(u64, D)>, running: Seq<bool>) -> Seq<(u64, D)>
    decreases s.len(),
{
    if s.len() == 0 {
        s
    } else {
        let front = still_running(s.drop_last(), running);
        if running[s.len() - 1] {
            front.push(s.last())
        } else {
            front
        }
    }
}

/// Keeping the running ones of a longer prefix adds at most its last tween.
proof fn lemma_still_running_step<D>(s: Seq<(u64, D)>, running: Seq<bool>, k: int)
    requires
        0 <= k < s.len(),
    ensures
        still_running(s.take(k + 1), running) == if running[k] {
            still_running(s.take(k), running).push(s[k])
        } else {
            still_running(s.take(k), running)
        },
{
    assert(s.take(k + 1).drop_last() == s.take(k));
}

impl<D> Tweens<D> {
    pub fn new() -> (t: Self)
        ensures
            t.active@ == Seq::<(u64, D)>::empty(),
    {
        Self { active: Vec::new() }
    }

    pub fn add_tween(&mut self, target: u64, tween: D)
        ensures
            final(self).active@ == old(self).active@.push((target, tween)),
    {
        self.active.push((target, tween));
    }

    /// Stops the tweens that animate component `target`; the others keep their order.
    pub fn stop_tweens(&mut self, target: u64)
        ensures
            final(self).active@ == old(self).active@.filter(other_target::<D>(target)),
    {
        let ghost orig = self.active@;
        let ghost pred = other_target::<D>(target);
        let mut i: usize = 0;
        let ghost mut k: int = 0;
        proof {
            assert(orig.take(0) == Seq::<(u64, D)>::empty());
            assert(orig.take(0).filter(pred) =~= Seq::<(u64, D)>::empty()) by {
                reveal(Seq::filter);
            }
            assert(orig.skip(0) == orig);
        }
        while i < self.active.len()
            invariant
                pred == other_target::<D>(target),
                0 <= k <= orig.len(),
                i as int == orig.take(k).filter(pred).len(),
                self.active@ == orig.take(k).filter(pred) + orig.skip(k),
            decreases self.active.len() - i,
        {
            proof {
                assert(self.active@[i as int] == orig[k]);
                assert(orig.take(k + 1) == orig.take(k).push(orig[k]));
                orig.take(k).lemma_filter_push(orig[k], pred);
                assert(orig.skip(k) == seq![orig[k]] + orig.skip(k + 1));
            }
            if self.active[i].0 == target {
                self.active.remove(i);
                proof {
                    assert(self.active@ =~= orig.take(k + 1).filter(pred) + orig.skip(k + 1));
                }
            } else {
                i += 1;
                proof {
                    assert(self.active@ =~= orig.take(k + 1).filter(pred) + orig.skip(k + 1));
                }
            }
            proof {
                k = k + 1;
            }
        }
        proof {
            assert(orig.take(k).filter(pred).len() <= k) by {
                orig.take(k).lemma_filter_len(pred);
            }
            assert(k == orig.len());
            assert(orig.take(k) == orig);
        }
    }

    /// Keeps the tweens that are still running after an update: `running[i]` tells whether the
    /// tween at position `i` runs on.
    pub fn retain_running(&mut self, running: &Vec<bool>)
        requires
            running.len() == old(self).active.len(),
        ensures
            final(self).active@ == still_running(old(self).active@, running@),
    {
        let ghost orig = self.active@;
        let mut i: usize = 0;
        let mut k: usize = 0;
        proof {
            assert(orig.take(0) == Seq::<(u64, D)>::empty());
            assert(orig.skip(0) == orig);
        }
        while k < running.len()
            invariant
                running.len() == orig.len(),
                k <= orig.len(),
                i as int == still_running(orig.take(k as int), running@).len(),
                i <= k,
                self.active@ == still_running(orig.take(k as int), running@) + orig.skip(k as int),
            decreases running.len() - k,
        {
            proof {
                lemma_still_running_step(orig, running@, k as int);
                assert(self.active@[i as int] == orig[k as int]);
                assert(orig.skip(k as int) == seq![orig[k as int]] + orig.skip(k + 1));
            }
            if running[k] {
                i += 1;
            } else {
                self.active.remove(i);
            }
            proof {
                assert(self.active@ =~= still_running(orig.take(k + 1), running@) + orig.skip(k + 1));
            }
            k += 1;
        }
        proof {
            assert(orig.take(orig.len() as int) == orig);
        }
    }
}

/// After the tweens of a component are stopped, none of them is left; the others stay, in order.
pub proof fn lemma_stop_tweens<D>(active: Seq<(u64, D)>, target: u64)
    ensures
        forall|i: int|
            0 <= i < active.filter(other_target::<D>(target)).len() ==> (#[trigger] active.filter(
                other_target::<D>(target),
            )[i]).0 != target,
        forall|i: int|
            0 <= i < active.len() && active[i].0 != target ==> active.filter(other_target::<D>(target)).contains(
                #[trigger] active[i],
            ),
{
    assert forall|i: int|
        0 <= i < active.filter(other_target::<D>(target)).len() implies (#[trigger] active.filter(
            other_target::<D>(target),
        )[i]).0 != target by {
        active.lemma_filter_pred(other_target::<D>(target), i);
    }
    assert forall|i: int|
        0 <= i < active.len() && active[i].0 != target implies active.filter(other_target::<D>(target)).contains(
            #[trigger] active[i],
        ) by {
        active.lemma_filter_contains(other_target::<D>(target), i);
    }
}

} // verus!
