use vstd::prelude::*;

use crate::export::{decimal, push_decimal};

verus! {

/// The name the editor gives a new palette when it already has `count`: `Color {count + 1}`.
pub open spec fn new_palette_name_spec(count: nat) -> Seq<char> {
    "Color "@ + decimal(count + 1)
}

/// Names the palette added to an editor that has `count` palettes.
pub fn new_palette_name(count: usize) -> (name: String)
    requires
        count < usize::MAX,
    ensures
        name@ == new_palette_name_spec(count as nat),
{
    let mut name = String::from_str("Color ");
    push_decimal(&mut name, count + 1);
    name
}

/// Where the base color of a new palette comes from.
#[derive(Debug, Clone, Copy, PartialEq, Eq, Structural)]
pub enum NewPaletteBase {
    /// The base color of the palette at this index, the last one.
    CopyOf(usize),
    /// The rainbow color for this index, when there is no palette to copy.
    Rainbow(usize),
}

/// What adding a palette to an editor with `count` palettes does: the new palette copies the base
/// color of the last palette, or takes the rainbow color of its index when there is none; it goes
/// at the end, and the selection moves to it.
pub fn add_palette(count: usize) -> (plan: (NewPaletteBase, usize))
    ensures
        plan.0 == (if count > 0 { NewPaletteBase::CopyOf((count - 1) as usize) } else { NewPaletteBase::Rainbow(count) }),
        plan.1 == count,
{
    if count > 0 {
        (NewPaletteBase::CopyOf(count - 1), count)
    } else {
        (NewPaletteBase::Rainbow(count), count)
    }
}

/// Whether entry `a` comes before entry `b` when ordering by key: a smaller key first, and of
/// equal keys the earlier entry first (a stable order). Keys compare part by part.
pub open spec fn key_before(keys: Seq<(u32, u32)>, a: int, b: int) -> bool {
    ||| keys[a].0 < keys[b].0
    ||| keys[a].0 == keys[b].0 && keys[a].1 < keys[b].1
    ||| keys[a].0 == keys[b].0 && keys[a].1 == keys[b].1 && a < b
}

/// Whether entry `a` comes before entry `b` in the stable order by key; see [`key_before`].
fn comes_before(keys: &Vec<(u32, u32)>, a: usize, b: usize) -> (r: bool)
    requires
        a < keys.len(),
        b < keys.len(),
    ensures
        r == key_before(keys@, a as int, b as int),
{
    let (a0, a1) = keys[a];
    let (b0, b1) = keys[b];
    a0 < b0 || (a0 == b0 && a1 < b1) || (a0 == b0 && a1 == b1 && a < b)
}

/// The order in which a stable sort by key puts the entries with these keys: `order[i]` is the
/// index of the entry that goes to place `i`. Every index occurs once, smaller keys come first,
/// and entries with equal keys keep their order.
pub fn sort_order(keys: &Vec<(u32, u32)>) -> (order: Vec<usize>)
    ensures
        order.len() == keys.len(),
        forall|i: int| 0 <= i < order.len() ==> #[trigger] order[i] < keys.len(),
        forall|i: int, j: int|
            0 <= i < j < order.len() ==> key_before(keys@, #[trigger] order[i] as int, #[trigger] order[j] as int),
        forall|i: int, j: int| 0 <= i < j < order.len() ==> #[trigger] order[i] != #[trigger] order[j],
{
    let mut order: Vec<usize> = Vec::new();
    let mut k: usize = 0;
    while k < keys.len()
        invariant
            k <= keys.len(),
            order.len() == k,
            forall|i: int| 0 <= i < order.len() ==> #[trigger] order[i] < k,
            forall|i: int, j: int|
                0 <= i < j < order.len() ==> key_before(keys@, #[trigger] order[i] as int, #[trigger] order[j] as int),
        decreases keys.len() - k,
    {
        let mut pos: usize = 0;
        while pos < order.len() && !comes_before(keys, k, order[pos])
            invariant
                pos <= order.len(),
                order.len() == k,
                k < keys.len(),
                forall|i: int| 0 <= i < order.len() ==> #[trigger] order[i] < k,
                forall|p: int| 0 <= p < pos ==> key_before(keys@, #[trigger] order[p] as int, k as int),
            decreases order.len() - pos,
        {
            pos += 1;
        }
        let ghost old_order = order@;
        proof {
            assert forall|p: int| pos <= p < old_order.len() implies key_before(keys@, k as int, #[trigger] old_order[p] as int) by {
                if p > pos {
                    assert(key_before(keys@, old_order[pos as int] as int, old_order[p] as int));
                }
            }
        }
        order.insert(pos, k);
        proof {
            assert forall|i: int, j: int|
                0 <= i < j < order.len() implies key_before(keys@, #[trigger] order[i] as int, #[trigger] order[j] as int) by {
                if j < pos {
                    assert(order[i] == old_order[i] && order[j] == old_order[j]);
                } else if j == pos {
                    assert(order[i] == old_order[i]);
                } else if i < pos {
                    assert(order[i] == old_order[i] && order[j] == old_order[j - 1]);
                } else if i == pos {
                    assert(order[j] == old_order[j - 1]);
                } else {
                    assert(order[i] == old_order[i - 1] && order[j] == old_order[j - 1]);
                }
            }
        }
        k += 1;
    }
    proof {
        lemma_sort_order_distinct(keys@, order@);
    }
    order
}

/// An order of indices that is strictly increasing in the stable order by key holds no index twice.
pub proof fn lemma_sort_order_distinct(keys: Seq<(u32, u32)>, order: Seq<usize>)
    requires
        forall|i: int| 0 <= i < order.len() ==> #[trigger] order[i] < keys.len(),
        forall|i: int, j: int|
            0 <= i < j < order.len() ==> key_before(keys, #[trigger] order[i] as int, #[trigger] order[j] as int),
    ensures
        forall|i: int, j: int| 0 <= i < j < order.len() ==> #[trigger] order[i] != #[trigger] order[j],
{
    assert forall|i: int, j: int| 0 <= i < j < order.len() implies #[trigger] order[i] != #[trigger] order[j] by {
        assert(key_before(keys, order[i] as int, order[j] as int));
    }
}

} // verus!
