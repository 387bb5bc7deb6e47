use std::collections::VecDeque;
use vstd::prelude::*;

verus! {

/// Instances that share one draw command are drawn with a single instanced call.
#[derive(Debug, Clone, Copy, PartialEq, Eq, Structural)]
pub struct InstancedDrawCommand {
    /// Identity of the draw command: equal draw commands carry equal keys.
    pub draw_cmd: u64,
    pub first_instance: u32,
    pub instance_count: u32,
}

/// Merges consecutive equal draw commands, the instance at position `i` of `keys`
/// having index `first + i`.
pub open spec fn coalesced(keys: Seq<u64>, first: int) -> Seq<InstancedDrawCommand>
    decreases keys.len(),
{
    if keys.len() == 0 {
        seq![]
    } else {
        let prev = coalesced(keys.drop_last(), first);
        let index = first + keys.len() - 1;
        if prev.len() > 0 && prev.last().draw_cmd == keys.last() {
            prev.update(
                prev.len() - 1,
                InstancedDrawCommand {
                    draw_cmd: prev.last().draw_cmd,
                    first_instance: prev.last().first_instance,
                    instance_count: (prev.last().instance_count + 1) as u32,
                },
            )
        } else {
            prev.push(
                InstancedDrawCommand { draw_cmd: keys.last(), first_instance: index as u32, instance_count: 1 },
            )
        }
    }
}

/// The runs of `coalesced` tile the instances `first .. first + keys.len()` without gaps,
/// every run is non-empty and holds only its own draw command, and neighbouring runs differ.
pub proof fn lemma_coalesced_runs(keys: Seq<u64>, first: int)
    requires
        0 <= first,
        first + keys.len() <= u32::MAX,
    ensures
        ({
            let r = coalesced(keys, first);
            &&& r.len() <= keys.len()
            &&& (r.len() == 0 <==> keys.len() == 0)
            &&& r.len() > 0 ==> r[0].first_instance == first
            &&& r.len() > 0 ==> r.last().first_instance + r.last().instance_count == first + keys.len()
            &&& forall|k: int| 0 <= k < r.len() ==> #[trigger] r[k].instance_count >= 1
            &&& forall|k: int|
                0 <= k < r.len() ==> first <= #[trigger] r[k].first_instance && r[k].first_instance
                    + r[k].instance_count <= first + keys.len()
            &&& forall|k: int|
                0 <= k < r.len() - 1 ==> #[trigger] r[k + 1].first_instance == r[k].first_instance
                    + r[k].instance_count
            &&& forall|k: int| 0 <= k < r.len() - 1 ==> #[trigger] r[k + 1].draw_cmd != r[k].draw_cmd
            &&& forall|k: int, j: int|
                0 <= k < r.len() && r[k].first_instance <= j < r[k].first_instance
                    + r[k].instance_count ==> #[trigger] keys[j - first] == #[trigger] r[k].draw_cmd
        }),
    decreases keys.len(),
{
    if keys.len() > 0 {
        let pk = keys.drop_last();
        lemma_coalesced_runs(pk, first);
        let prev = coalesced(pk, first);
        let r = coalesced(keys, first);
        assert forall|j: int| 0 <= j < pk.len() implies pk[j] == keys[j] by {}
        if prev.len() > 0 && prev.last().draw_cmd == keys.last() {
            assert forall|k: int, j: int|
                0 <= k < r.len() && r[k].first_instance <= j < r[k].first_instance
                    + r[k].instance_count implies #[trigger] keys[j - first] == #[trigger] r[k].draw_cmd by {
                if k < r.len() - 1 {
                    assert(r[k] == prev[k]);
                    assert(keys[j - first] == pk[j - first]);
                } else if j < first + keys.len() - 1 {
                    assert(keys[j - first] == pk[j - first]);
                }
            }
        } else {
            assert forall|k: int, j: int|
                0 <= k < r.len() && r[k].first_instance <= j < r[k].first_instance
                    + r[k].instance_count implies #[trigger] keys[j - first] == #[trigger] r[k].draw_cmd by {
                if k < r.len() - 1 {
                    assert(r[k] == prev[k]);
                    assert(keys[j - first] == pk[j - first]);
                }
            }
        }
    }
}

/// Merges consecutive equal draw commands into instanced runs; the instance at
/// position `i` of `keys` gets index `first + i`.
pub fn coalesce_draw_commands(keys: &Vec<u64>, first: u32) -> (runs: Vec<InstancedDrawCommand>)
    requires
        first + keys.len() <= u32::MAX,
    ensures
        runs@ == coalesced(keys@, first as int),
{
    let mut runs: Vec<InstancedDrawCommand> = Vec::new();
    let mut i: usize = 0;
    while i < keys.len()
        invariant
            i <= keys.len(),
            first + keys.len() <= u32::MAX,
            runs@ == coalesced(keys@.take(i as int), first as int),
        decreases keys.len() - i,
    {
        proof {
            lemma_coalesced_runs(keys@.take(i as int), first as int);
            assert(keys@.take(i + 1).drop_last() == keys@.take(i as int));
        }
        let key = keys[i];
        let n = runs.len();
        if n > 0 && runs[n - 1].draw_cmd == key {
            let last = runs[n - 1];
            runs.set(
                n - 1,
                InstancedDrawCommand {
                    draw_cmd: last.draw_cmd,
                    first_instance: last.first_instance,
                    instance_count: last.instance_count + 1,
                },
            );
        } else {
            runs.push(InstancedDrawCommand { draw_cmd: key, first_instance: first + i as u32, instance_count: 1 });
        }
        i += 1;
    }
    proof {
        assert(keys@.take(keys.len() as int) == keys@);
    }
    runs
}


/// Number of instances whose data shares one object buffer.
pub const CHUNK_SIZE: usize = 32;

/// The draw-command keys of a list of drawable entities.
pub open spec fn entity_keys<O>(entities: Seq<(u64, O)>) -> Seq<u64> {
    entities.map_values(|e: (u64, O)| e.0)
}

/// The object data of a list of drawable entities.
pub open spec fn entity_objects<O>(entities: Seq<(u64, O)>) -> Seq<O> {
    entities.map_values(|e: (u64, O)| e.1)
}

/// Splits the instances into chunks of `CHUNK_SIZE` and coalesces each chunk on its own;
/// every run is tagged with the index of its chunk and counts instances from the start of it.
pub open spec fn chunked_commands(keys: Seq<u64>, chunk_index: int) -> Seq<(usize, InstancedDrawCommand)>
    decreases keys.len(),
{
    if keys.len() == 0 {
        seq![]
    } else if keys.len() <= CHUNK_SIZE {
        coalesced(keys, 0).map_values(|c: InstancedDrawCommand| (chunk_index as usize, c))
    } else {
        coalesced(keys.take(CHUNK_SIZE as int), 0).map_values(
            |c: InstancedDrawCommand| (chunk_index as usize, c),
        ) + chunked_commands(keys.skip(CHUNK_SIZE as int), chunk_index + 1)
    }
}

/// Every chunked command names a chunk that holds objects, stays within the objects of that
/// chunk, and covers only instances of its own draw command; so the first instance plus the
/// instance count never exceeds `CHUNK_SIZE`.
pub proof fn lemma_chunked_commands_in_bounds(keys: Seq<u64>, chunk_index: int)
    requires
        0 <= chunk_index,
        chunk_index + keys.len() <= usize::MAX,
    ensures
        forall|i: int|
            0 <= i < chunked_commands(keys, chunk_index).len() ==> {
                let (c, run) = #[trigger] chunked_commands(keys, chunk_index)[i];
                let base = (c - chunk_index) * CHUNK_SIZE;
                &&& chunk_index <= c
                &&& base < keys.len()
                &&& run.instance_count >= 1
                &&& run.first_instance + run.instance_count <= CHUNK_SIZE
                &&& base + run.first_instance + run.instance_count <= keys.len()
                &&& forall|j: int|
                    base + run.first_instance <= j < base + run.first_instance + run.instance_count
                        ==> #[trigger] keys[j] == run.draw_cmd
            },
    decreases keys.len(),
{
    let r = chunked_commands(keys, chunk_index);
    if keys.len() == 0 {
    } else {
        let head = if keys.len() <= CHUNK_SIZE { keys } else { keys.take(CHUNK_SIZE as int) };
        lemma_coalesced_runs(head, 0);
        let hr = coalesced(head, 0);
        let mapped = hr.map_values(|c: InstancedDrawCommand| (chunk_index as usize, c));
        if keys.len() > CHUNK_SIZE {
            let rest = keys.skip(CHUNK_SIZE as int);
            lemma_chunked_commands_in_bounds(rest, chunk_index + 1);
            let tail = chunked_commands(rest, chunk_index + 1);
            assert(r == mapped + tail);
            assert forall|i: int| 0 <= i < r.len() implies {
                let (c, run) = #[trigger] r[i];
                let base = (c - chunk_index) * CHUNK_SIZE;
                &&& chunk_index <= c
                &&& base < keys.len()
                &&& run.instance_count >= 1
                &&& run.first_instance + run.instance_count <= CHUNK_SIZE
                &&& base + run.first_instance + run.instance_count <= keys.len()
                &&& forall|j: int|
                    base + run.first_instance <= j < base + run.first_instance + run.instance_count
                        ==> #[trigger] keys[j] == run.draw_cmd
            } by {
                if i < mapped.len() {
                    let run = hr[i];
                    assert(r[i] == (chunk_index as usize, run));
                    assert forall|j: int|
                        run.first_instance <= j < run.first_instance + run.instance_count implies #[trigger] keys[j]
                        == run.draw_cmd by {
                        assert(head[j - 0] == run.draw_cmd);
                    }
                } else {
                    let t = tail[i - mapped.len()];
                    assert(r[i] == t);
                    let base = (t.0 - chunk_index) * CHUNK_SIZE;
                    assert forall|j: int|
                        base + t.1.first_instance <= j < base + t.1.first_instance + t.1.instance_count
                            implies #[trigger] keys[j] == t.1.draw_cmd by {
                        assert(rest[j - CHUNK_SIZE] == t.1.draw_cmd);
                    }
                }
            }
        } else {
            assert(r == mapped);
            assert forall|i: int| 0 <= i < r.len() implies {
                let (c, run) = #[trigger] r[i];
                let base = (c - chunk_index) * CHUNK_SIZE;
                &&& chunk_index <= c
                &&& base < keys.len()
                &&& run.instance_count >= 1
                &&& run.first_instance + run.instance_count <= CHUNK_SIZE
                &&& base + run.first_instance + run.instance_count <= keys.len()
                &&& forall|j: int|
                    base + run.first_instance <= j < base + run.first_instance + run.instance_count
                        ==> #[trigger] keys[j] == run.draw_cmd
            } by {
                let run = hr[i];
                assert(r[i] == (chunk_index as usize, run));
                assert forall|j: int|
                    run.first_instance <= j < run.first_instance + run.instance_count implies #[trigger] keys[j]
                    == run.draw_cmd by {
                    assert(head[j - 0] == run.draw_cmd);
                }
            }
        }
    }
}

/// One step of `collect_draw_commands`: the commands of the keys from `start` on are those of
/// the chunk `start .. end`, followed by those of the keys from `end` on.
proof fn lemma_chunked_commands_step(keys: Seq<u64>, start: int, end: int, chunk_index: int, chunk: Seq<u64>)
    requires
        0 <= start < end <= keys.len(),
        end == if keys.len() - start < CHUNK_SIZE { keys.len() as int } else { start + CHUNK_SIZE },
        chunk == keys.subrange(start, end),
    ensures
        chunked_commands(keys.skip(start), chunk_index) == coalesced(chunk, 0).map_values(
            |c: InstancedDrawCommand| (chunk_index as usize, c),
        ) + chunked_commands(keys.skip(end), chunk_index + 1),
{
    let rest = keys.skip(start);
    if rest.len() <= CHUNK_SIZE {
        assert(chunk == rest);
        assert(keys.skip(end).len() == 0);
        assert(chunked_commands(keys.skip(end), chunk_index + 1) == Seq::<(usize, InstancedDrawCommand)>::empty());
    } else {
        assert(chunk == rest.take(CHUNK_SIZE as int));
        assert(rest.skip(CHUNK_SIZE as int) == keys.skip(end));
    }
}

/// Number of object buffer chunks needed for `n` objects: `n / CHUNK_SIZE` rounded up.
pub fn object_chunk_count(n: usize) -> (count: usize)
    ensures
        count * CHUNK_SIZE >= n,
        count * CHUNK_SIZE < n + CHUNK_SIZE,
{
    let count = n / CHUNK_SIZE + if n % CHUNK_SIZE == 0 { 0 } else { 1 };
    count
}

/// Appends the object data of `entities` to `objects`, and the instanced draw commands of the
/// entities to `draw_cmds`: the entities are split into chunks of `CHUNK_SIZE` objects, and
/// consecutive equal draw commands within a chunk are merged into one instanced command.
pub fn collect_draw_commands<O: Copy>(
    entities: &Vec<(u64, O)>,
    objects: &mut Vec<O>,
    draw_cmds: &mut Vec<(usize, InstancedDrawCommand)>,
)
    ensures
        final(objects)@ == old(objects)@ + entity_objects(entities@),
        final(draw_cmds)@ == old(draw_cmds)@ + chunked_commands(entity_keys(entities@), 0),
{
    let n = entities.len();
    let ghost keys = entity_keys(entities@);
    let mut start: usize = 0;
    let mut chunk_index: usize = 0;
    proof {
        assert(keys.skip(0) == keys);
    }
    while start < n
        invariant
            n == entities.len(),
            keys == entity_keys(entities@),
            start <= n,
            chunk_index <= start,
            objects@ == old(objects)@ + entity_objects(entities@).take(start as int),
            draw_cmds@ + chunked_commands(keys.skip(start as int), chunk_index as int)
                == old(draw_cmds)@ + chunked_commands(keys, 0),
        decreases n - start,
    {
        let end = if n - start < CHUNK_SIZE { n } else { start + CHUNK_SIZE };
        let mut chunk: Vec<u64> = Vec::new();
        let mut i = start;
        while i < end
            invariant
                start <= i <= end,
                end <= n,
                n == entities.len(),
                chunk@ == keys.subrange(start as int, i as int),
                keys == entity_keys(entities@),
                objects@ == old(objects)@ + entity_objects(entities@).take(i as int),
            decreases end - i,
        {
            let (key, object) = entities[i];
            chunk.push(key);
            objects.push(object);
            proof {
                assert(chunk@ == keys.subrange(start as int, i + 1));
                assert(entity_objects(entities@).take(i + 1) == entity_objects(entities@).take(
                    i as int,
                ).push(object));
            }
            i += 1;
        }
        let runs = coalesce_draw_commands(&chunk, 0);
        let mut k: usize = 0;
        let ghost before = draw_cmds@;
        while k < runs.len()
            invariant
                k <= runs.len(),
                draw_cmds@ == before + runs@.take(k as int).map_values(
                    |c: InstancedDrawCommand| (chunk_index, c),
                ),
            decreases runs.len() - k,
        {
            draw_cmds.push((chunk_index, runs[k]));
            proof {
                assert(runs@.take(k + 1).map_values(|c: InstancedDrawCommand| (chunk_index, c))
                    == runs@.take(k as int).map_values(|c: InstancedDrawCommand| (chunk_index, c)).push(
                    (chunk_index, runs@[k as int]),
                ));
            }
            k += 1;
        }
        proof {
            assert(runs@.take(runs.len() as int) == runs@);
            lemma_chunked_commands_step(keys, start as int, end as int, chunk_index as int, chunk@);
        }
        start = end;
        chunk_index += 1;
    }
    proof {
        assert(entity_objects(entities@).take(n as int) == entity_objects(entities@));
    }
}


/// Every chunk index that `collect_draw_commands` hands out refers to an object buffer, when
/// `chunk_count` buffers of `CHUNK_SIZE` objects hold all of the objects.
pub proof fn lemma_chunked_commands_fit_buffers(keys: Seq<u64>, chunk_count: int)
    requires
        keys.len() <= usize::MAX,
        chunk_count * CHUNK_SIZE >= keys.len(),
    ensures
        forall|i: int|
            0 <= i < chunked_commands(keys, 0).len() ==> (#[trigger] chunked_commands(keys, 0)[i]).0
                < chunk_count,
{
    lemma_chunked_commands_in_bounds(keys, 0);
}

/// `p` is a power of two.
pub open spec fn is_power_of_two(p: nat) -> bool
    decreases p,
{
    if p == 1 {
        true
    } else if p < 2 || p % 2 != 0 {
        false
    } else {
        is_power_of_two(p / 2)
    }
}

/// The smallest power of two that is at least `n`.
pub fn next_power_of_two(n: usize) -> (p: usize)
    requires
        n <= usize::MAX / 2 + 1,
    ensures
        is_power_of_two(p as nat),
        p >= n,
        p == 1 || p / 2 < n,
{
    let mut p: usize = 1;
    while p < n
        invariant
            is_power_of_two(p as nat),
            n <= usize::MAX / 2 + 1,
            p == 1 || p / 2 < n,
        decreases usize::MAX - p,
    {
        assert(is_power_of_two((p * 2) as nat)) by {
            assert((p * 2) as nat / 2 == p as nat);
        }
        p = p * 2;
    }
    p
}

/// The new capacity of the object buffer before `object_count` objects are written to it, or
/// `None` when the current buffer of `buffer_len` objects is kept: a buffer is replaced when it is
/// too small, or larger than twice the objects (and larger than 8), by one whose length is the
/// next power of two.
pub fn object_buffer_capacity(buffer_len: usize, object_count: usize) -> (capacity: Option<usize>)
    requires
        object_count <= usize::MAX / 2,
    ensures
        ({
            let limit = if object_count * 2 > 8 { object_count * 2 } else { 8 };
            match capacity {
                Some(len) => {
                    &&& buffer_len < object_count || buffer_len > limit
                    &&& is_power_of_two(len as nat)
                    &&& len >= object_count
                    &&& (len == 1 || len / 2 < object_count)
                },
                None => object_count <= buffer_len <= limit,
            }
        }),
{
    let doubled = object_count * 2;
    let limit = if doubled > 8 { doubled } else { 8 };
    if buffer_len < object_count || buffer_len > limit {
        Some(next_power_of_two(object_count))
    } else {
        None
    }
}

/// The triangle indices of `glyph_count` glyph quads: quad `q` uses the vertices `4q .. 4q + 4`
/// as the two triangles `(0, 1, 2)` and `(2, 3, 0)`.
pub open spec fn quad_index(i: int) -> int {
    let q = i / 6;
    let corner = i % 6;
    let offset: int = if corner == 0 || corner == 5 {
        0
    } else if corner == 1 {
        1
    } else if corner == 2 || corner == 3 {
        2
    } else {
        3
    };
    4 * q + offset
}

/// The index list of the glyph quads of a text mesh.
pub fn quad_indices(glyph_count: usize) -> (indices: Vec<u32>)
    requires
        4 * glyph_count <= u32::MAX,
    ensures
        indices.len() == 6 * glyph_count,
        forall|i: int| 0 <= i < indices.len() ==> #[trigger] indices[i] == quad_index(i),
{
    let mut indices: Vec<u32> = Vec::new();
    let mut q: usize = 0;
    while q < glyph_count
        invariant
            q <= glyph_count,
            4 * glyph_count <= u32::MAX,
            indices.len() == 6 * q,
            forall|i: int| 0 <= i < indices.len() ==> #[trigger] indices[i] == quad_index(i),
        decreases glyph_count - q,
    {
        let i = (4 * q) as u32;
        indices.push(i);
        indices.push(1 + i);
        indices.push(2 + i);
        indices.push(2 + i);
        indices.push(3 + i);
        indices.push(i);
        proof {
            assert forall|k: int| 6 * q <= k < 6 * q + 6 implies #[trigger] indices[k] == quad_index(k) by {
                assert(k / 6 == q);
                assert(k % 6 == k - 6 * q);
            }
        }
        q += 1;
    }
    indices
}


/// The children lists of the entities `order`, one after the other.
pub open spec fn concat_children(children: Seq<Seq<usize>>, order: Seq<usize>) -> Seq<usize>
    decreases order.len(),
{
    if order.len() == 0 {
        seq![]
    } else {
        concat_children(children, order.drop_last()) + children[order.last() as int]
    }
}

/// The children lists describe a forest over the entities `0 .. children.len()` whose roots are
/// `roots`: every entity in a list exists, every entity is listed at most once, as a root or as
/// a child.
pub open spec fn is_forest(roots: Seq<usize>, children: Seq<Seq<usize>>) -> bool {
    &&& roots.no_duplicates()
    &&& forall|i: int| 0 <= i < roots.len() ==> #[trigger] roots[i] < children.len()
    &&& forall|a: int, i: int|
        0 <= a < children.len() && 0 <= i < children[a].len() ==> #[trigger] children[a][i]
            < children.len() && !roots.contains(children[a][i])
    &&& forall|a: int, i: int, b: int, j: int|
        0 <= a < children.len() && 0 <= i < children[a].len() && 0 <= b < children.len() && 0 <= j
            < children[b].len() && #[trigger] children[a][i] == #[trigger] children[b][j] ==> a == b
            && i == j
}

/// A sequence of distinct entities below `n` holds at most `n` entities.
pub proof fn lemma_distinct_below_len(s: Seq<usize>, n: nat)
    requires
        s.no_duplicates(),
        forall|i: int| 0 <= i < s.len() ==> #[trigger] s[i] < n,
    ensures
        s.len() <= n,
    decreases n,
{
    if n == 0 {
        if s.len() > 0 {
            assert(s[0] < 0);
        }
    } else {
        let top = (n - 1) as usize;
        if s.contains(top) {
            let k = choose|k: int| 0 <= k < s.len() && s[k] == top;
            let t = s.remove(k);
            assert forall|i: int| 0 <= i < t.len() implies #[trigger] t[i] < (n - 1) as nat by {
                if i < k {
                    assert(t[i] == s[i]);
                } else {
                    assert(t[i] == s[i + 1]);
                }
            }
            assert(t.no_duplicates()) by {
                assert forall|i: int, j: int| 0 <= i < t.len() && 0 <= j < t.len() && i != j implies t[i]
                    != t[j] by {
                    let si = if i < k { i } else { i + 1 };
                    let sj = if j < k { j } else { j + 1 };
                    assert(t[i] == s[si] && t[j] == s[sj]);
                }
            }
            lemma_distinct_below_len(t, (n - 1) as nat);
        } else {
            assert forall|i: int| 0 <= i < s.len() implies #[trigger] s[i] < (n - 1) as nat by {
                assert(s[i] != top);
            }
            lemma_distinct_below_len(s, (n - 1) as nat);
        }
    }
}

/// Every entity in `concat_children(children, order)` is the child of an entity of `order`.
pub proof fn lemma_concat_children_parent(children: Seq<Seq<usize>>, order: Seq<usize>, p: int)
    requires
        forall|k: int| 0 <= k < order.len() ==> #[trigger] order[k] < children.len(),
        0 <= p < concat_children(children, order).len(),
    ensures
        exists|k: int, i: int|
            0 <= k < order.len() && 0 <= i < children[order[k] as int].len() && concat_children(
                children,
                order,
            )[p] == #[trigger] children[order[k] as int][i],
    decreases order.len(),
{
    let front = concat_children(children, order.drop_last());
    let last = children[order.last() as int];
    if p < front.len() {
        lemma_concat_children_parent(children, order.drop_last(), p);
        let (k, i) = choose|k: int, i: int|
            0 <= k < order.drop_last().len() && 0 <= i < children[order.drop_last()[k] as int].len()
                && front[p] == #[trigger] children[order.drop_last()[k] as int][i];
        assert(order[k] == order.drop_last()[k]);
        assert(concat_children(children, order)[p] == children[order[k] as int][i]);
    } else {
        let k = order.len() - 1;
        let i = p - front.len();
        assert(concat_children(children, order)[p] == children[order[k] as int][i]);
    }
}

/// The children lists as sequences.
pub open spec fn children_view(children: Seq<Vec<usize>>) -> Seq<Seq<usize>> {
    children.map_values(|c: Vec<usize>| c@)
}

/// The entity at position `k` of `all` is a child of an entity of `order` that stands before
/// position `k`.
pub open spec fn parent_before(cv: Seq<Seq<usize>>, order: Seq<usize>, all: Seq<usize>, k: int) -> bool {
    exists|j: int| 0 <= j < order.len() && j < k && #[trigger] cv[order[j] as int].contains(all[k])
}

/// The drawing order of a forest of widgets: the roots, then the children of the first
/// entity of the order, then those of the second, and so on (breadth first).
pub fn draw_order(roots: &Vec<usize>, children: &Vec<Vec<usize>>) -> (order: Vec<usize>)
    requires
        is_forest(roots@, children@.map_values(|c: Vec<usize>| c@)),
    ensures
        order@ == roots@ + concat_children(children@.map_values(|c: Vec<usize>| c@), order@),
        order@.no_duplicates(),
        order.len() <= children.len(),
        forall|k: int| 0 <= k < order.len() ==> #[trigger] order@[k] < children.len(),
        forall|k: int|
            roots.len() <= k < order.len() ==> #[trigger] parent_before(
                children_view(children@),
                order@,
                order@,
                k,
            ),
{
    let ghost cv = children@.map_values(|c: Vec<usize>| c@);
    let ghost n = children.len();
    let mut queue: VecDeque<usize> = VecDeque::new();
    let mut i: usize = 0;
    while i < roots.len()
        invariant
            i <= roots.len(),
            queue@ == roots@.take(i as int),
        decreases roots.len() - i,
    {
        queue.push_back(roots[i]);
        proof {
            assert(roots@.take(i + 1) == roots@.take(i as int).push(roots@[i as int]));
        }
        i += 1;
    }
    proof {
        assert(roots@.take(roots.len() as int) == roots@);
        assert(concat_children(cv, seq![]) == Seq::<usize>::empty());
        assert(Seq::<usize>::empty() + queue@ == queue@);
        assert(roots@ + Seq::<usize>::empty() == roots@);
    }
    let mut order: Vec<usize> = Vec::new();
    while queue.len() > 0
        invariant
            cv == children@.map_values(|c: Vec<usize>| c@),
            n == children.len(),
            is_forest(roots@, cv),
            order@ + queue@ == roots@ + concat_children(cv, order@),
            (order@ + queue@).no_duplicates(),
            forall|k: int| 0 <= k < (order@ + queue@).len() ==> #[trigger] (order@ + queue@)[k] < n,
            forall|k: int|
                roots.len() <= k < (order@ + queue@).len() ==> #[trigger] parent_before(
                    cv,
                    order@,
                    order@ + queue@,
                    k,
                ),
        decreases n - order.len(),
    {
        proof {
            lemma_distinct_below_len(order@ + queue@, n as nat);
            assert(queue@[0] == (order@ + queue@)[order.len() as int]);
        }
        let ghost old_order = order@;
        let ghost old_queue = queue@;
        let entity = queue.pop_front().unwrap();
        order.push(entity);
        let kids = &children[entity];
        proof {
            assert(old_order + seq![entity] + queue@ == old_order + (seq![entity] + queue@));
            assert(cv[entity as int] == kids@);
            assert(order@.drop_last() == old_order);
            assert(queue@ == old_queue.drop_first() + kids@.take(0));
        }
        let mut j: usize = 0;
        while j < kids.len()
            invariant
                j <= kids.len(),
                order@ == old_order.push(entity),
                old_queue.len() > 0,
                entity < cv.len(),
                queue@ == old_queue.drop_first() + kids@.take(j as int),
                kids@ == cv[entity as int],
            decreases kids.len() - j,
        {
            queue.push_back(kids[j]);
            proof {
                assert(kids@.take(j + 1) == kids@.take(j as int).push(kids@[j as int]));
            }
            j += 1;
        }
        proof {
            assert(kids@.take(kids.len() as int) == kids@);
            let before = old_order + old_queue;
            let after = order@ + queue@;
            assert(after == before + kids@);
            assert(old_order + old_queue == roots@ + concat_children(cv, old_order));
            assert(concat_children(cv, order@) == concat_children(cv, old_order) + kids@);
            assert forall|k: int| 0 <= k < after.len() implies #[trigger] after[k] < n by {
                if k >= before.len() {
                    assert(after[k] == kids@[k - before.len()]);
                } else {
                    assert(after[k] == before[k]);
                }
            }
            assert forall|a: int, b: int| 0 <= a < after.len() && 0 <= b < after.len() && a != b implies after[a]
                != after[b] by {
                if a >= before.len() && b >= before.len() {
                    assert(after[a] == cv[entity as int][a - before.len()]);
                    assert(after[b] == cv[entity as int][b - before.len()]);
                } else if a < before.len() && b < before.len() {
                    assert(after[a] == before[a] && after[b] == before[b]);
                } else {
                    let (x, y) = if a < before.len() { (a, b) } else { (b, a) };
                    let child = after[y];
                    assert(child == cv[entity as int][y - before.len()]);
                    assert(after[x] == before[x]);
                    if x < roots.len() {
                        assert(before[x] == roots@[x]);
                        assert(roots@.contains(before[x]));
                    } else {
                        let p = x - roots.len();
                        assert(before[x] == concat_children(cv, old_order)[p]);
                        assert forall|k: int| 0 <= k < old_order.len() implies #[trigger] old_order[k] < cv.len() by {
                            assert(before[k] == old_order[k]);
                        }
                        lemma_concat_children_parent(cv, old_order, p);
                        let (k, i) = choose|k: int, i: int|
                            0 <= k < old_order.len() && 0 <= i < cv[old_order[k] as int].len()
                                && concat_children(cv, old_order)[p]
                                == #[trigger] cv[old_order[k] as int][i];
                        assert(before[k] == old_order[k]);
                        assert(before[old_order.len() as int] == entity);
                    }
                }
            }
            assert(after.no_duplicates());
            assert forall|k: int| roots.len() <= k < after.len() implies #[trigger] parent_before(
                cv,
                order@,
                after,
                k,
            ) by {
                if k < before.len() {
                    assert(parent_before(cv, old_order, before, k));
                    let j = choose|j: int| 0 <= j < old_order.len() && j < k && #[trigger] cv[old_order[j] as int].contains(before[k]);
                    assert(order@[j] == old_order[j]);
                    assert(after[k] == before[k]);
                    assert(cv[order@[j] as int].contains(after[k]));
                } else {
                    let j = old_order.len() as int;
                    assert(order@[j] == entity);
                    assert(after[k] == kids@[k - before.len()]);
                    assert(cv[order@[j] as int].contains(after[k]));
                }
            }
        }
    }
    proof {
        assert(order@ + queue@ == order@);
        assert forall|k: int| roots.len() <= k < order.len() implies #[trigger] parent_before(
            cv,
            order@,
            order@,
            k,
        ) by {
            assert(parent_before(cv, order@, order@ + queue@, k));
        }
        assert forall|k: int| 0 <= k < order.len() implies #[trigger] order@[k] < children.len() by {
            assert((order@ + queue@)[k] == order@[k]);
        }
        assert(order@.no_duplicates()) by {
            assert forall|a: int, b: int| 0 <= a < order.len() && 0 <= b < order.len() && a != b implies order@[a]
                != order@[b] by {
                assert((order@ + queue@)[a] == order@[a]);
                assert((order@ + queue@)[b] == order@[b]);
            }
        }
        lemma_distinct_below_len(order@, n as nat);
    }
    order
}


/// `d` with the bytes from `start` on replaced by `data`.
pub open spec fn overwrite(d: Seq<u8>, start: int, data: Seq<u8>) -> Seq<u8> {
    Seq::new(d.len(), |k: int| if start <= k < start + data.len() { data[k - start] } else { d[k] })
}

/// `dst` after the first `rows` rows of the mask `src` (rows of `width` bytes) are copied to
/// column `x`, row `y` of an image that is `dst_width` bytes wide, one row after the other.
pub open spec fn blit_rows(dst: Seq<u8>, src: Seq<u8>, width: int, x: int, y: int, dst_width: int, rows: int) -> Seq<u8>
    decreases rows,
{
    if rows <= 0 {
        dst
    } else {
        overwrite(
            blit_rows(dst, src, width, x, y, dst_width, rows - 1),
            x + (y + rows - 1) * dst_width,
            src.subrange((rows - 1) * width, rows * width),
        )
    }
}

/// Copies a glyph coverage mask (rows of `width` bytes; a last, incomplete row is dropped) into a
/// single-channel image that is `dst_width` bytes wide, with its top left corner at `(x, y)`.
pub fn blit_mask(src: &Vec<u8>, width: u32, dst: &mut Vec<u8>, x: i32, y: i32, dst_width: u32)
    requires
        width > 0,
        x >= 0,
        y >= 0,
        y + (src.len() as int) / (width as int) <= usize::MAX,
        (src.len() as int) / (width as int) > 0 ==> x + (y + (src.len() as int) / (width as int) - 1) * dst_width + width
            <= old(dst).len(),
    ensures
        final(dst)@ == blit_rows(
            old(dst)@,
            src@,
            width as int,
            x as int,
            y as int,
            dst_width as int,
            (src.len() as int) / (width as int),
        ),
{
    let w = width as usize;
    let dw = dst_width as usize;
    let x0 = x as usize;
    let y0 = y as usize;
    let rows = src.len() / w;
    proof {
        assert(rows * w <= src.len()) by (nonlinear_arith)
            requires rows == (src.len() as int) / (w as int), w > 0;
    }
    let mut row: usize = 0;
    while row < rows
        invariant
            row <= rows,
            rows == (src.len() as int) / (w as int),
            rows * w <= src.len(),
            w == width,
            w > 0,
            dw == dst_width,
            x0 == x,
            y0 == y,
            x >= 0,
            y >= 0,
            y + rows <= usize::MAX,
            rows > 0 ==> x + (y + rows - 1) * dst_width + width <= dst.len(),
            dst.len() == old(dst).len(),
            dst@ == blit_rows(old(dst)@, src@, w as int, x0 as int, y0 as int, dw as int, row as int),
        decreases rows - row,
    {
        proof {
            assert((y0 + row) * dw <= (y0 + rows - 1) * dw) by (nonlinear_arith)
                requires row < rows, dw >= 0, y0 >= 0;
            assert((row + 1) * w <= rows * w) by (nonlinear_arith)
                requires row < rows, w > 0;
            assert((row + 1) * w == row * w + w) by (nonlinear_arith);
        }
        let start = x0 + (y0 + row) * dw;
        let src_start = row * w;
        let ghost base = dst@;
        let mut c: usize = 0;
        while c < w
            invariant
                c <= w,
                start + w <= dst.len(),
                src_start + w <= src.len(),
                dst.len() == base.len(),
                dst@ == overwrite(base, start as int, src@.subrange(src_start as int, src_start + c)),
            decreases w - c,
        {
            dst.set(start + c, src[src_start + c]);
            proof {
                assert(dst@ == overwrite(base, start as int, src@.subrange(src_start as int, src_start + c + 1)));
            }
            c += 1;
        }
        row += 1;
    }
}

/// The side, in pixels, of the square image made from a color.
pub const COLOR_IMAGE_SIZE: usize = 32;

/// A square image of one color, `COLOR_IMAGE_SIZE` pixels on each side; the color is given as
/// red, green, blue and alpha bytes.
#[derive(Debug, Clone, Copy, PartialEq, Eq, Hash)]
pub struct ImageFromColor(pub [u8; 4]);

impl ImageFromColor {
    /// The bytes of the image, row by row, four per pixel: every pixel has the color.
    pub fn pixels(&self) -> (p: Vec<u8>)
        ensures
            p.len() == COLOR_IMAGE_SIZE * COLOR_IMAGE_SIZE * 4,
            forall|k: int| 0 <= k < p.len() ==> #[trigger] p[k] == self.0@[k % 4],
    {
        let total: usize = COLOR_IMAGE_SIZE * COLOR_IMAGE_SIZE * 4;
        let mut p: Vec<u8> = Vec::new();
        let mut k: usize = 0;
        while k < total
            invariant
                k <= total,
                total == COLOR_IMAGE_SIZE * COLOR_IMAGE_SIZE * 4,
                p.len() == k,
                forall|j: int| 0 <= j < k ==> #[trigger] p[j] == self.0@[j % 4],
            decreases total - k,
        {
            p.push(self.0[k % 4]);
            k += 1;
        }
        p
    }
}

/// In a forest an entity is the child of at most one entity.
proof fn lemma_unique_parent(cv: Seq<Seq<usize>>, roots: Seq<usize>, a: int, b: int, x: usize)
    requires
        is_forest(roots, cv),
        0 <= a < cv.len(),
        0 <= b < cv.len(),
        cv[a].contains(x),
        cv[b].contains(x),
    ensures
        a == b,
{
    let i = choose|i: int| 0 <= i < cv[a].len() && cv[a][i] == x;
    let j = choose|j: int| 0 <= j < cv[b].len() && cv[b][j] == x;
    assert(cv[a][i] == cv[b][j]);
}

/// The children of every entity of `order` are among `concat_children(children, order)`.
proof fn lemma_child_in_concat(cv: Seq<Seq<usize>>, order: Seq<usize>, k: int, i: int)
    requires
        0 <= k < order.len(),
        0 <= i < cv[order[k] as int].len(),
    ensures
        concat_children(cv, order).contains(cv[order[k] as int][i]),
    decreases order.len(),
{
    let front = concat_children(cv, order.drop_last());
    let whole = concat_children(cv, order);
    if k < order.len() - 1 {
        lemma_child_in_concat(cv, order.drop_last(), k, i);
        assert(order.drop_last()[k] == order[k]);
        let p = choose|p: int| 0 <= p < front.len() && front[p] == cv[order[k] as int][i];
        assert(whole[p] == front[p]);
    } else {
        assert(whole[front.len() + i] == cv[order[k] as int][i]);
    }
}

/// What a drawing order of the tree under `root` satisfies.
pub open spec fn is_draw_order(root: usize, cv: Seq<Seq<usize>>, order: Seq<usize>) -> bool {
    &&& is_forest(seq![root], cv)
    &&& order == seq![root] + concat_children(cv, order)
    &&& order.no_duplicates()
    &&& forall|k: int| 0 <= k < order.len() ==> #[trigger] order[k] < cv.len()
    &&& forall|k: int| 1 <= k < order.len() ==> #[trigger] parent_before(cv, order, order, k)
}

/// A child of the entity at place `k` of a drawing order stands at no place up to `k`.
proof fn lemma_child_comes_later(root: usize, cv: Seq<Seq<usize>>, order: Seq<usize>, k: int, c: usize, j: int)
    requires
        is_draw_order(root, cv, order),
        0 <= j <= k < order.len(),
        cv[order[k] as int].contains(c),
    ensures
        order[j] != c,
{
    if order[j] == c {
        let i = choose|i: int| 0 <= i < cv[order[k] as int].len() && cv[order[k] as int][i] == c;
        if j == 0 {
            assert(order[0] == root);
            assert(seq![root].contains(cv[order[k] as int][i]));
        } else {
            assert(parent_before(cv, order, order, j));
            let jp = choose|jp: int| 0 <= jp < order.len() && jp < j && #[trigger] cv[order[jp] as int].contains(order[j]);
            lemma_unique_parent(cv, seq![root], order[jp] as int, order[k] as int, c);
        }
    }
}

/// The visibility of the widgets as drawn, computed along `order`, a drawing order of the tree
/// under `root`: the root shows when it is visible, every other widget of the tree when it and its
/// parent show; widgets outside the tree keep their `current` value.
pub fn computed_visibility(
    root: usize,
    order: &Vec<usize>,
    children: &Vec<Vec<usize>>,
    visible: &Vec<bool>,
    current: &Vec<bool>,
) -> (out: Vec<bool>)
    requires
        is_forest(seq![root], children_view(children@)),
        order@ == seq![root] + concat_children(children_view(children@), order@),
        order@.no_duplicates(),
        forall|k: int| 0 <= k < order.len() ==> #[trigger] order@[k] < children.len(),
        forall|k: int|
            1 <= k < order.len() ==> #[trigger] parent_before(
                children_view(children@),
                order@,
                order@,
                k,
            ),
        visible.len() == children.len(),
        current.len() == children.len(),
    ensures
        out.len() == children.len(),
        out[root as int] == visible[root as int],
        forall|k: int, i: int|
            0 <= k < order.len() && 0 <= i < children[order[k] as int].len() ==> out[#[trigger] children[order[k] as int][i] as int]
                == (visible[children[order[k] as int][i] as int] && out[order[k] as int]),
        forall|m: int| 0 <= m < children.len() && !order@.contains(m as usize) ==> out[m] == current[m],
{
    let ghost cv = children_view(children@);
    let ghost n = children.len() as int;
    proof {
        assert(cv.len() == n);
        assert(is_draw_order(root, cv, order@));
        assert(order@[0] == root);
        assert(root < n);
    }
    let mut out: Vec<bool> = Vec::new();
    let mut m: usize = 0;
    while m < current.len()
        invariant
            m <= current.len(),
            out@ == current@.take(m as int),
        decreases current.len() - m,
    {
        out.push(current[m]);
        proof {
            assert(current@.take(m + 1) == current@.take(m as int).push(current@[m as int]));
        }
        m += 1;
    }
    proof {
        assert(current@.take(current.len() as int) == current@);
    }
    out.set(root, visible[root]);
    let mut k: usize = 0;
    while k < order.len()
        invariant
            k <= order.len(),
            cv == children_view(children@),
            n == children.len(),
            cv.len() == n,
            is_draw_order(root, cv, order@),
            visible.len() == n,
            current.len() == n,
            out.len() == n,
            root < n,
            out[root as int] == visible[root as int],
            forall|j: int, i: int|
                0 <= j < k && 0 <= i < cv[order[j] as int].len() ==> out[#[trigger] cv[order[j] as int][i] as int]
                    == (visible[cv[order[j] as int][i] as int] && out[order[j] as int]),
            forall|x: int|
                0 <= x < n && x != root && !(exists|j: int| 0 <= j < k && #[trigger] cv[order[j] as int].contains(x as usize))
                    ==> out[x] == current[x],
        decreases order.len() - k,
    {
        let p = order[k];
        let kids = &children[p];
        let ghost out_p = out[p as int];
        proof {
            assert(kids@ == cv[p as int]);
        }
        let mut i: usize = 0;
        while i < kids.len()
            invariant
                i <= kids.len(),
                k < order.len(),
                p == order[k as int],
                kids@ == cv[p as int],
                cv == children_view(children@),
                n == children.len(),
                cv.len() == n,
                is_draw_order(root, cv, order@),
                visible.len() == n,
                current.len() == n,
                out.len() == n,
                root < n,
                out[p as int] == out_p,
                out[root as int] == visible[root as int],
                forall|j: int, i2: int|
                    0 <= j < k && 0 <= i2 < cv[order[j] as int].len() ==> out[#[trigger] cv[order[j] as int][i2] as int]
                        == (visible[cv[order[j] as int][i2] as int] && out[order[j] as int]),
                forall|i2: int| 0 <= i2 < i ==> out[#[trigger] cv[p as int][i2] as int] == (visible[cv[p as int][i2] as int] && out_p),
                forall|x: int|
                    0 <= x < n && x != root && !(exists|j: int| 0 <= j < k && #[trigger] cv[order[j] as int].contains(x as usize))
                        && !cv[p as int].take(i as int).contains(x as usize) ==> out[x] == current[x],
            decreases kids.len() - i,
        {
            let c = kids[i];
            proof {
                assert(cv[p as int].contains(c)) by {
                    assert(cv[p as int][i as int] == c);
                }
                assert(c < n);
                assert(c != root) by {
                    assert(!seq![root].contains(cv[p as int][i as int]));
                    assert(seq![root][0] == root);
                }
                lemma_child_comes_later(root, cv, order@, k as int, c, k as int);
            }
            let shown = visible[c] && out[p];
            let ghost before = out@;
            out.set(c, shown);
            proof {
                assert forall|j: int, i2: int|
                    0 <= j < k && 0 <= i2 < cv[order[j] as int].len() implies out[#[trigger] cv[order[j] as int][i2] as int]
                        == (visible[cv[order[j] as int][i2] as int] && out[order[j] as int]) by {
                    let x = cv[order[j] as int][i2];
                    assert(cv[order[j] as int].contains(x));
                    if x == c {
                        lemma_unique_parent(cv, seq![root], order[j] as int, p as int, c);
                    }
                    lemma_child_comes_later(root, cv, order@, k as int, c, j);
                    assert(before[x as int] == (visible[x as int] && before[order[j] as int]));
                }
                assert forall|i2: int| 0 <= i2 < i + 1 implies out[#[trigger] cv[p as int][i2] as int] == (visible[cv[p as int][i2] as int]
                    && out_p) by {
                    if i2 < i {
                        assert(cv[p as int][i2] != c) by {
                            assert(cv[p as int][i2] == cv[p as int][i as int] ==> i2 == i);
                        }
                    }
                }
                assert forall|x: int|
                    0 <= x < n && x != root && !(exists|j: int| 0 <= j < k && #[trigger] cv[order[j] as int].contains(x as usize))
                        && !cv[p as int].take(i + 1).contains(x as usize) implies out[x] == current[x] by {
                    assert(cv[p as int].take(i + 1)[i as int] == c);
                    if x != c {
                        if cv[p as int].take(i as int).contains(x as usize) {
                            let q = choose|q: int| 0 <= q < i && cv[p as int].take(i as int)[q] == x as usize;
                            assert(cv[p as int].take(i + 1)[q] == x as usize);
                        }
                    }
                }
            }
            i += 1;
        }
        proof {
            assert(cv[p as int].take(kids.len() as int) == cv[p as int]);
            assert forall|j: int, i2: int|
                0 <= j < k + 1 && 0 <= i2 < cv[order[j] as int].len() implies out[#[trigger] cv[order[j] as int][i2] as int]
                    == (visible[cv[order[j] as int][i2] as int] && out[order[j] as int]) by {
                if j == k {
                    assert(out[p as int] == out_p);
                }
            }
            assert forall|x: int|
                0 <= x < n && x != root && !(exists|j: int| 0 <= j < k + 1 && #[trigger] cv[order[j] as int].contains(x as usize))
                    implies out[x] == current[x] by {
                if exists|j: int| 0 <= j < k && #[trigger] cv[order[j] as int].contains(x as usize) {
                    let j = choose|j: int| 0 <= j < k && #[trigger] cv[order[j] as int].contains(x as usize);
                    assert(0 <= j < k + 1);
                }
                if cv[p as int].contains(x as usize) {
                    assert(cv[order[k as int] as int].contains(x as usize));
                }
            }
        }
        k += 1;
    }
    proof {
        assert forall|m: int| 0 <= m < children.len() && !order@.contains(m as usize) implies out[m] == current[m] by {
            if m == root {
                assert(order@[0] == root);
            }
            if exists|j: int| 0 <= j < order.len() && #[trigger] cv[order[j] as int].contains(m as usize) {
                let j = choose|j: int| 0 <= j < order.len() && #[trigger] cv[order[j] as int].contains(m as usize);
                let i = choose|i: int| 0 <= i < cv[order[j] as int].len() && cv[order[j] as int][i] == m as usize;
                lemma_child_in_concat(cv, order@, j, i);
                let q = choose|q: int| 0 <= q < concat_children(cv, order@).len() && concat_children(cv, order@)[q] == m as usize;
                assert(order@[q + 1] == m as usize);
            }
        }
        assert forall|k2: int, i: int|
            0 <= k2 < order.len() && 0 <= i < children[order[k2] as int].len() implies out[#[trigger] children[order[k2] as int][i] as int]
                == (visible[children[order[k2] as int][i] as int] && out[order[k2] as int]) by {
            assert(children[order[k2] as int]@ == cv[order[k2] as int]);
            assert(cv[order[k2] as int][i] == children[order[k2] as int][i]);
        }
    }
    out
}

/// The visibility of every widget of the tree under `root`, with the drawing order of the tree:
/// the order starts at the root and lists each widget after its parent; the root shows when it
/// is visible, every other widget of the tree when it is visible and its parent shows; widgets
/// outside the tree keep their `current` value.
pub fn tree_visibility(root: usize, children: &Vec<Vec<usize>>, visible: &Vec<bool>, current: &Vec<bool>) -> (r: (Vec<usize>, Vec<bool>))
    requires
        is_forest(seq![root], children_view(children@)),
        visible.len() == children.len(),
        current.len() == children.len(),
    ensures
        r.0@ == seq![root] + concat_children(children_view(children@), r.0@),
        r.0@.no_duplicates(),
        forall|k: int| 1 <= k < r.0.len() ==> #[trigger] parent_before(children_view(children@), r.0@, r.0@, k),
        r.1.len() == children.len(),
        r.1[root as int] == visible[root as int],
        forall|k: int, i: int|
            0 <= k < r.0.len() && 0 <= i < children[r.0[k] as int].len() ==> r.1[#[trigger] children[r.0[k] as int][i] as int]
                == (visible[children[r.0[k] as int][i] as int] && r.1[r.0[k] as int]),
        forall|m: int| 0 <= m < children.len() && !r.0@.contains(m as usize) ==> r.1[m] == current[m],
{
    let roots = vec![root];
    proof {
        assert(roots@ == seq![root]);
    }
    let order = draw_order(&roots, children);
    let out = computed_visibility(root, &order, children, visible, current);
    (order, out)
}

} // verus!
