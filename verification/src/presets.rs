//! The preset list: saving (new presets get a fresh id), deleting, and the
//! drag-and-drop reordering.
use crate::library::{is_uuid_v4_text, new_uuid};
use crate::types::Preset;
use vstd::prelude::*;

verus! {

/// `i` is the first position of a preset with id `id`.
pub open spec fn first_preset_with_id(ps: Seq<Preset>, id: Seq<char>, i: int) -> bool {
    &&& 0 <= i < ps.len()
    &&& ps[i].id@ == id
    &&& forall|j: int| 0 <= j < i ==> (#[trigger] ps[j]).id@ != id
}

/// No preset has id `id`.
pub open spec fn no_preset_with_id(ps: Seq<Preset>, id: Seq<char>) -> bool {
    forall|j: int| 0 <= j < ps.len() ==> (#[trigger] ps[j]).id@ != id
}

/// The position of the first preset with id `id`, if any.
pub fn find_preset(presets: &Vec<Preset>, id: &str) -> (r: Option<usize>)
    ensures
        r matches Some(i) ==> first_preset_with_id(presets@, id@, i as int),
        r is None ==> no_preset_with_id(presets@, id@),
{
    let key = String::from_str(id);
    let mut i: usize = 0;
    while i < presets.len()
        invariant
            key@ == id@,
            i <= presets@.len(),
            forall|j: int| 0 <= j < i ==> (#[trigger] presets@[j]).id@ != id@,
        decreases presets@.len() - i,
    {
        if presets[i].id == key {
            return Some(i);
        }
        i += 1;
    }
    None
}

/// The list after storing a preset that has an id: it replaces the first
/// preset with that id, or is appended when there is none.
pub open spec fn stored(ps: Seq<Preset>, p: Preset) -> Seq<Preset> {
    if exists|i: int| first_preset_with_id(ps, p.id@, i) {
        ps.update(choose|i: int| first_preset_with_id(ps, p.id@, i), p)
    } else {
        ps.push(p)
    }
}

proof fn lemma_first_preset_unique(ps: Seq<Preset>, id: Seq<char>, i: int, j: int)
    requires
        first_preset_with_id(ps, id, i),
        first_preset_with_id(ps, id, j),
    ensures
        i == j,
{
    if i < j {
        assert(ps[i].id@ != id);
    } else if j < i {
        assert(ps[j].id@ != id);
    }
}

/// Stores `preset`: a preset with an empty id is new and gets `fresh_id` and
/// goes to the end; one whose id is in the list replaces the first preset
/// with that id; one whose id is not found is added at the end. Returns the
/// preset as stored.
pub fn upsert_preset(presets: &mut Vec<Preset>, preset: Preset, fresh_id: String) -> (r: Preset)
    ensures
        preset.id@.len() == 0 ==> r == (Preset { id: fresh_id, ..preset }) && final(presets)@ == old(presets)@.push(r),
        preset.id@.len() > 0 ==> r == preset && final(presets)@ == stored(old(presets)@, preset),
{
    if preset.id.as_str().is_empty() {
        let p = Preset { id: fresh_id, ..preset };
        presets.push(p.duplicate());
        p
    } else {
        match find_preset(presets, preset.id.as_str()) {
            Some(i) => {
                proof {
                    let c = choose|k: int| first_preset_with_id(presets@, preset.id@, k);
                    lemma_first_preset_unique(presets@, preset.id@, i as int, c);
                }
                presets.set(i, preset.duplicate());
                preset
            },
            None => {
                assert(!exists|k: int| first_preset_with_id(presets@, preset.id@, k));
                presets.push(preset.duplicate());
                preset
            },
        }
    }
}

/// Saves `preset` as `upsert_preset` does, drawing a fresh UUID for a new
/// preset (one with an empty id).
pub fn save_preset(presets: &mut Vec<Preset>, preset: Preset) -> (r: Preset)
    ensures
        preset.id@.len() == 0 ==> {
            &&& is_uuid_v4_text(r.id@)
            &&& r == (Preset { id: r.id, ..preset })
            &&& final(presets)@ == old(presets)@.push(r)
        },
        preset.id@.len() > 0 ==> r == preset && final(presets)@ == stored(old(presets)@, preset),
{
    let fresh = if preset.id.as_str().is_empty() { new_uuid() } else { String::new() };
    upsert_preset(presets, preset, fresh)
}

/// The presets whose id is not `id`, in their order.
pub open spec fn without_id(ps: Seq<Preset>, id: Seq<char>) -> Seq<Preset>
    decreases ps.len(),
{
    if ps.len() == 0 {
        Seq::empty()
    } else {
        let rest = without_id(ps.drop_last(), id);
        if ps.last().id@ != id { rest.push(ps.last()) } else { rest }
    }
}

/// Removes every preset with id `id`; the others keep their order.
pub fn delete_preset(presets: &mut Vec<Preset>, id: &str)
    ensures
        final(presets)@ == without_id(old(presets)@, id@),
{
    let key = String::from_str(id);
    let mut kept: Vec<Preset> = Vec::new();
    let mut i: usize = 0;
    while i < presets.len()
        invariant
            key@ == id@,
            i <= presets@.len(),
            kept@ == without_id(presets@.take(i as int), id@),
        decreases presets@.len() - i,
    {
        if presets[i].id != key {
            kept.push(presets[i].duplicate());
        }
        i += 1;
        assert(presets@.take(i as int).drop_last() =~= presets@.take(i - 1));
    }
    assert(presets@.take(presets@.len() as int) =~= presets@);
    *presets = kept;
}

/// `j` is the first position in `ids` of `id`.
pub open spec fn first_id_at(ids: Seq<String>, id: Seq<char>, j: int) -> bool {
    &&& 0 <= j < ids.len()
    &&& ids[j]@ == id
    &&& forall|k: int| 0 <= k < j ==> (#[trigger] ids[k])@ != id
}

/// Where a preset with id `id` goes: the first position of `id` in `ids`,
/// or `usize::MAX` (after all listed ones) when it is not listed.
pub open spec fn rank_of(ids: Seq<String>, id: Seq<char>) -> int {
    if exists|j: int| first_id_at(ids, id, j) {
        choose|j: int| first_id_at(ids, id, j)
    } else {
        usize::MAX as int
    }
}

/// The presets of rank `r`, in their order.
pub open spec fn with_rank(ps: Seq<Preset>, ids: Seq<String>, r: int) -> Seq<Preset>
    decreases ps.len(),
{
    if ps.len() == 0 {
        Seq::empty()
    } else {
        let rest = with_rank(ps.drop_last(), ids, r);
        if rank_of(ids, ps.last().id@) == r { rest.push(ps.last()) } else { rest }
    }
}

/// The presets of rank below `k`, by rank, each rank in list order.
pub open spec fn ranks_below(ps: Seq<Preset>, ids: Seq<String>, k: nat) -> Seq<Preset>
    decreases k,
{
    if k == 0 {
        Seq::empty()
    } else {
        ranks_below(ps, ids, (k - 1) as nat) + with_rank(ps, ids, k - 1)
    }
}

/// The presets stably sorted by rank: those listed in `ids` in the order of
/// `ids`, then the unlisted ones in their old order.
pub open spec fn reordered(ps: Seq<Preset>, ids: Seq<String>) -> Seq<Preset> {
    ranks_below(ps, ids, ids.len()) + with_rank(ps, ids, usize::MAX as int)
}

proof fn lemma_first_id_unique(ids: Seq<String>, id: Seq<char>, j: int)
    requires
        first_id_at(ids, id, j),
    ensures
        rank_of(ids, id) == j,
{
    let c = choose|k: int| first_id_at(ids, id, k);
    assert(first_id_at(ids, id, c));
    if c < j {
        assert(ids[c]@ != id);
    } else if c > j {
        assert(ids[j]@ != id);
    }
}

/// The rank of a preset id among `ids`.
fn id_rank(ids: &Vec<String>, id: &String) -> (r: usize)
    ensures
        r == rank_of(ids@, id@),
{
    let mut j: usize = 0;
    while j < ids.len()
        invariant
            j <= ids@.len(),
            forall|k: int| 0 <= k < j ==> (#[trigger] ids@[k])@ != id@,
        decreases ids@.len() - j,
    {
        if ids[j] == *id {
            proof {
                lemma_first_id_unique(ids@, id@, j as int);
            }
            return j;
        }
        j += 1;
    }
    assert(!exists|k: int| first_id_at(ids@, id@, k));
    usize::MAX
}

/// Appends the presets of rank `r` to `out`, in their order.
fn append_rank(out: &mut Vec<Preset>, presets: &Vec<Preset>, ranks: &Vec<usize>, ids: Ghost<Seq<String>>, r: usize)
    requires
        ranks@.len() == presets@.len(),
        forall|i: int| 0 <= i < presets@.len() ==> ranks@[i] == rank_of(ids@, (#[trigger] presets@[i]).id@),
    ensures
        final(out)@ == old(out)@ + with_rank(presets@, ids@, r as int),
{
    let ghost start = out@;
    let mut i: usize = 0;
    while i < presets.len()
        invariant
            i <= presets@.len(),
            ranks@.len() == presets@.len(),
            forall|i: int| 0 <= i < presets@.len() ==> ranks@[i] == rank_of(ids@, (#[trigger] presets@[i]).id@),
            out@ == start + with_rank(presets@.take(i as int), ids@, r as int),
        decreases presets@.len() - i,
    {
        let ghost before = presets@.take(i as int);
        assert(presets@.take(i + 1).drop_last() =~= before);
        if ranks[i] == r {
            out.push(presets[i].duplicate());
        }
        i += 1;
        assert(out@ =~= start + with_rank(presets@.take(i as int), ids@, r as int));
    }
    assert(presets@.take(presets@.len() as int) =~= presets@);
}

/// Reorders the presets after a drag-and-drop: the presets whose ids are in
/// `ordered_ids` come first, in that order (by the first position of their
/// id); the others follow in their old order.
pub fn reorder_presets(presets: Vec<Preset>, ordered_ids: &Vec<String>) -> (r: Vec<Preset>)
    ensures
        r@ == reordered(presets@, ordered_ids@),
{
    let ghost ids = ordered_ids@;
    let mut ranks: Vec<usize> = Vec::with_capacity(presets.len());
    let mut i: usize = 0;
    while i < presets.len()
        invariant
            i <= presets@.len(),
            ids == ordered_ids@,
            ranks@.len() == i,
            forall|k: int| 0 <= k < i ==> ranks@[k] == rank_of(ids, (#[trigger] presets@[k]).id@),
        decreases presets@.len() - i,
    {
        ranks.push(id_rank(ordered_ids, &presets[i].id));
        i += 1;
    }
    let mut out: Vec<Preset> = Vec::with_capacity(presets.len());
    let mut k: usize = 0;
    while k < ordered_ids.len()
        invariant
            k <= ids.len(),
            ids == ordered_ids@,
            ranks@.len() == presets@.len(),
            forall|i: int| 0 <= i < presets@.len() ==> ranks@[i] == rank_of(ids, (#[trigger] presets@[i]).id@),
            out@ == ranks_below(presets@, ids, k as nat),
        decreases ids.len() - k,
    {
        append_rank(&mut out, &presets, &ranks, Ghost(ids), k);
        k += 1;
    }
    append_rank(&mut out, &presets, &ranks, Ghost(ids), usize::MAX);
    out
}

/// A rank is a position in `ids` or `usize::MAX`.
proof fn lemma_rank_range(ids: Seq<String>, id: Seq<char>)
    requires
        ids.len() <= usize::MAX,
    ensures
        rank_of(ids, id) == usize::MAX || 0 <= rank_of(ids, id) < ids.len(),
        0 <= rank_of(ids, id) <= usize::MAX,
{
    if exists|j: int| first_id_at(ids, id, j) {
        let c = choose|j: int| first_id_at(ids, id, j);
        assert(first_id_at(ids, id, c));
    }
}

proof fn lemma_with_rank_push(ps: Seq<Preset>, ids: Seq<String>, x: Preset, r: int)
    ensures
        with_rank(ps.push(x), ids, r) == if rank_of(ids, x.id@) == r {
            with_rank(ps, ids, r).push(x)
        } else {
            with_rank(ps, ids, r)
        },
{
    assert(ps.push(x).drop_last() =~= ps);
}

proof fn lemma_ranks_below_push(ps: Seq<Preset>, ids: Seq<String>, x: Preset, k: nat)
    requires
        ids.len() <= usize::MAX,
    ensures
        ranks_below(ps.push(x), ids, k).to_multiset() == if 0 <= rank_of(ids, x.id@) < k {
            ranks_below(ps, ids, k).to_multiset().insert(x)
        } else {
            ranks_below(ps, ids, k).to_multiset()
        },
    decreases k,
{
    broadcast use vstd::seq_lib::group_to_multiset_ensures;
    broadcast use vstd::seq_lib::lemma_multiset_commutative;

    lemma_rank_range(ids, x.id@);
    if k > 0 {
        lemma_ranks_below_push(ps, ids, x, (k - 1) as nat);
        lemma_with_rank_push(ps, ids, x, k - 1);
        let a = ranks_below(ps, ids, (k - 1) as nat);
        let b = with_rank(ps, ids, k - 1);
        assert((a + b).to_multiset() =~= a.to_multiset().add(b.to_multiset()));
        assert((a + b.push(x)).to_multiset() =~= a.to_multiset().add(b.push(x).to_multiset()));
        let a2 = ranks_below(ps.push(x), ids, (k - 1) as nat);
        let b2 = with_rank(ps.push(x), ids, k - 1);
        assert((a2 + b2).to_multiset() =~= a2.to_multiset().add(b2.to_multiset()));
        if rank_of(ids, x.id@) < k - 1 {
            assert((a2 + b2).to_multiset() =~= (a + b).to_multiset().insert(x));
        } else if rank_of(ids, x.id@) == k - 1 {
            assert((a2 + b2).to_multiset() =~= (a + b).to_multiset().insert(x));
        } else {
            assert((a2 + b2).to_multiset() =~= (a + b).to_multiset());
        }
    }
}

/// Reordering keeps every preset, each as often as before.
pub proof fn law_reorder_permutation(ps: Seq<Preset>, ids: Seq<String>)
    requires
        ids.len() <= usize::MAX,
    ensures
        reordered(ps, ids).to_multiset() == ps.to_multiset(),
    decreases ps.len(),
{
    broadcast use vstd::seq_lib::group_to_multiset_ensures;
    broadcast use vstd::seq_lib::lemma_multiset_commutative;

    if ps.len() == 0 {
        lemma_ranks_below_empty(ids, ids.len());
        assert(ps =~= Seq::<Preset>::empty());
        assert(reordered(ps, ids) =~= ps);
    } else {
        let q = ps.drop_last();
        let x = ps.last();
        assert(q.push(x) =~= ps);
        law_reorder_permutation(q, ids);
        lemma_ranks_below_push(q, ids, x, ids.len());
        lemma_with_rank_push(q, ids, x, usize::MAX as int);
        lemma_rank_range(ids, x.id@);
        let a = ranks_below(q, ids, ids.len());
        let b = with_rank(q, ids, usize::MAX as int);
        let a2 = ranks_below(ps, ids, ids.len());
        let b2 = with_rank(ps, ids, usize::MAX as int);
        assert((a + b).to_multiset() =~= a.to_multiset().add(b.to_multiset()));
        assert((a2 + b2).to_multiset() =~= a2.to_multiset().add(b2.to_multiset()));
        assert(reordered(ps, ids).to_multiset() =~= reordered(q, ids).to_multiset().insert(x));
    }
}

proof fn lemma_ranks_below_empty(ids: Seq<String>, k: nat)
    ensures
        ranks_below(Seq::<Preset>::empty(), ids, k) == Seq::<Preset>::empty(),
    decreases k,
{
    if k > 0 {
        lemma_ranks_below_empty(ids, (k - 1) as nat);
        assert(ranks_below(Seq::<Preset>::empty(), ids, k) =~= Seq::<Preset>::empty());
    }
}

/// Every preset picked for rank `r` has rank `r`.
proof fn lemma_with_rank_elems(ps: Seq<Preset>, ids: Seq<String>, r: int, i: int)
    requires
        0 <= i < with_rank(ps, ids, r).len(),
    ensures
        rank_of(ids, with_rank(ps, ids, r)[i].id@) == r,
    decreases ps.len(),
{
    if ps.len() > 0 {
        let rest = with_rank(ps.drop_last(), ids, r);
        if i < rest.len() {
            lemma_with_rank_elems(ps.drop_last(), ids, r, i);
        }
    }
}

/// Presets of lower rank come before presets of higher rank.
proof fn lemma_ranks_below_sorted(ps: Seq<Preset>, ids: Seq<String>, k: nat, i: int, j: int)
    requires
        0 <= i <= j < ranks_below(ps, ids, k).len(),
    ensures
        0 <= rank_of(ids, ranks_below(ps, ids, k)[i].id@) <= rank_of(ids, ranks_below(ps, ids, k)[j].id@) < k,
    decreases k,
{
    if k > 0 {
        let a = ranks_below(ps, ids, (k - 1) as nat);
        let b = with_rank(ps, ids, k - 1);
        let s = ranks_below(ps, ids, k);
        assert(s == a + b);
        if j < a.len() {
            lemma_ranks_below_sorted(ps, ids, (k - 1) as nat, i, j);
        } else if i < a.len() {
            lemma_ranks_below_sorted(ps, ids, (k - 1) as nat, i, i);
            lemma_with_rank_elems(ps, ids, k - 1, j - a.len());
        } else {
            lemma_with_rank_elems(ps, ids, k - 1, i - a.len());
            lemma_with_rank_elems(ps, ids, k - 1, j - a.len());
        }
    }
}

/// After reordering, ranks never decrease along the list: listed presets
/// come in the order of `ids`, unlisted ones (rank `usize::MAX`) last.
pub proof fn law_reorder_sorted(ps: Seq<Preset>, ids: Seq<String>, i: int, j: int)
    requires
        ids.len() <= usize::MAX,
        0 <= i <= j < reordered(ps, ids).len(),
    ensures
        rank_of(ids, reordered(ps, ids)[i].id@) <= rank_of(ids, reordered(ps, ids)[j].id@),
{
    let a = ranks_below(ps, ids, ids.len());
    let b = with_rank(ps, ids, usize::MAX as int);
    if j < a.len() {
        lemma_ranks_below_sorted(ps, ids, ids.len(), i, j);
    } else if i < a.len() {
        lemma_ranks_below_sorted(ps, ids, ids.len(), i, i);
        lemma_with_rank_elems(ps, ids, usize::MAX as int, j - a.len());
    } else {
        lemma_with_rank_elems(ps, ids, usize::MAX as int, i - a.len());
        lemma_with_rank_elems(ps, ids, usize::MAX as int, j - a.len());
    }
}

/// Storing a preset that has an id leaves exactly one first match for that
/// id, holding the preset; every other preset stays where it was.
pub proof fn law_stored_found(ps: Seq<Preset>, p: Preset)
    ensures
        exists|i: int| first_preset_with_id(stored(ps, p), p.id@, i) && stored(ps, p)[i] == p,
        no_preset_with_id(ps, p.id@) ==> stored(ps, p).len() == ps.len() + 1,
        !no_preset_with_id(ps, p.id@) ==> stored(ps, p).len() == ps.len(),
        forall|j: int|
            0 <= j < ps.len() && ps[j].id@ != p.id@ ==> #[trigger] stored(ps, p)[j] == ps[j],
{
    if exists|i: int| first_preset_with_id(ps, p.id@, i) {
        let c = choose|i: int| first_preset_with_id(ps, p.id@, i);
        assert(first_preset_with_id(stored(ps, p), p.id@, c));
    } else {
        let n = ps.len() as int;
        assert forall|j: int| 0 <= j < n implies (#[trigger] ps[j]).id@ != p.id@ by {
            if ps[j].id@ == p.id@ {
                lemma_exists_first_preset(ps, p.id@, j);
            }
        }
        assert(first_preset_with_id(stored(ps, p), p.id@, n));
    }
}

/// When some preset has id `id`, there is a first one.
proof fn lemma_exists_first_preset(ps: Seq<Preset>, id: Seq<char>, j: int)
    requires
        0 <= j < ps.len(),
        ps[j].id@ == id,
    ensures
        exists|i: int| first_preset_with_id(ps, id, i),
    decreases j,
{
    if exists|k: int| 0 <= k < j && (#[trigger] ps[k]).id@ == id {
        let k = choose|k: int| 0 <= k < j && (#[trigger] ps[k]).id@ == id;
        lemma_exists_first_preset(ps, id, k);
    } else {
        assert(first_preset_with_id(ps, id, j));
    }
}

/// Deleting by id leaves no preset with that id and keeps every other
/// preset, as often as before.
pub proof fn law_delete_preset(ps: Seq<Preset>, id: Seq<char>, x: Preset)
    ensures
        no_preset_with_id(without_id(ps, id), id),
        x.id@ != id ==> without_id(ps, id).to_multiset().count(x) == ps.to_multiset().count(x),
    decreases ps.len(),
{
    broadcast use vstd::seq_lib::group_to_multiset_ensures;

    if ps.len() > 0 {
        let q = ps.drop_last();
        assert(q.push(ps.last()) =~= ps);
        law_delete_preset(q, id, x);
    }
}

proof fn lemma_without_absent_id(ps: Seq<Preset>, id: Seq<char>)
    requires
        no_preset_with_id(ps, id),
    ensures
        without_id(ps, id) == ps,
    decreases ps.len(),
{
    if ps.len() > 0 {
        lemma_without_absent_id(ps.drop_last(), id);
        assert(ps.drop_last().push(ps.last()) =~= ps);
    }
}

/// Deleting a preset that was just saved under an id no other preset had
/// gives back the list as it was before the save.
pub proof fn law_delete_undoes_save(ps: Seq<Preset>, p: Preset)
    requires
        no_preset_with_id(ps, p.id@),
    ensures
        without_id(stored(ps, p), p.id@) == ps,
{
    assert(!exists|i: int| first_preset_with_id(ps, p.id@, i));
    assert(stored(ps, p) == ps.push(p));
    assert(ps.push(p).drop_last() =~= ps);
    lemma_without_absent_id(ps, p.id@);
}

proof fn lemma_with_rank_concat(a: Seq<Preset>, b: Seq<Preset>, ids: Seq<String>, r: int)
    ensures
        with_rank(a + b, ids, r) == with_rank(a, ids, r) + with_rank(b, ids, r),
    decreases b.len(),
{
    if b.len() == 0 {
        assert(a + b =~= a);
        assert(with_rank(a, ids, r) + with_rank(b, ids, r) =~= with_rank(a, ids, r));
    } else {
        lemma_with_rank_concat(a, b.drop_last(), ids, r);
        assert((a + b).drop_last() =~= a + b.drop_last());
        assert((a + b).last() == b.last());
        if rank_of(ids, b.last().id@) == r {
            assert(with_rank(a + b, ids, r) =~= with_rank(a, ids, r) + with_rank(b, ids, r));
        } else {
            assert(with_rank(a + b, ids, r) =~= with_rank(a, ids, r) + with_rank(b, ids, r));
        }
    }
}

proof fn lemma_with_rank_twice(ps: Seq<Preset>, ids: Seq<String>, k: int, r: int)
    ensures
        with_rank(with_rank(ps, ids, k), ids, r) == if k == r {
            with_rank(ps, ids, k)
        } else {
            Seq::<Preset>::empty()
        },
    decreases ps.len(),
{
    if ps.len() > 0 {
        lemma_with_rank_twice(ps.drop_last(), ids, k, r);
        let rest = with_rank(ps.drop_last(), ids, k);
        if rank_of(ids, ps.last().id@) == k {
            assert(rest.push(ps.last()).drop_last() =~= rest);
        }
    }
}

proof fn lemma_with_rank_of_ranks_below(ps: Seq<Preset>, ids: Seq<String>, m: nat, r: int)
    ensures
        with_rank(ranks_below(ps, ids, m), ids, r) == if 0 <= r < m {
            with_rank(ps, ids, r)
        } else {
            Seq::<Preset>::empty()
        },
    decreases m,
{
    if m > 0 {
        lemma_with_rank_of_ranks_below(ps, ids, (m - 1) as nat, r);
        lemma_with_rank_concat(ranks_below(ps, ids, (m - 1) as nat), with_rank(ps, ids, m - 1), ids, r);
        lemma_with_rank_twice(ps, ids, m - 1, r);
        assert(with_rank(ranks_below(ps, ids, m), ids, r) =~= if 0 <= r < m {
            with_rank(ps, ids, r)
        } else {
            Seq::<Preset>::empty()
        });
    }
}

proof fn lemma_with_rank_of_reordered(ps: Seq<Preset>, ids: Seq<String>, r: int)
    requires
        ids.len() <= usize::MAX,
        (0 <= r < ids.len()) || r == usize::MAX,
    ensures
        with_rank(reordered(ps, ids), ids, r) == with_rank(ps, ids, r),
{
    lemma_with_rank_concat(ranks_below(ps, ids, ids.len()), with_rank(ps, ids, usize::MAX as int), ids, r);
    lemma_with_rank_of_ranks_below(ps, ids, ids.len(), r);
    lemma_with_rank_twice(ps, ids, usize::MAX as int, r);
    if r == usize::MAX {
        assert(with_rank(reordered(ps, ids), ids, r) =~= with_rank(ps, ids, r));
    } else {
        assert(with_rank(reordered(ps, ids), ids, r) =~= with_rank(ps, ids, r));
    }
}

proof fn lemma_ranks_below_of_reordered(ps: Seq<Preset>, ids: Seq<String>, k: nat)
    requires
        ids.len() <= usize::MAX,
        k <= ids.len(),
    ensures
        ranks_below(reordered(ps, ids), ids, k) == ranks_below(ps, ids, k),
    decreases k,
{
    if k > 0 {
        lemma_ranks_below_of_reordered(ps, ids, (k - 1) as nat);
        lemma_with_rank_of_reordered(ps, ids, k - 1);
    }
}

/// Reordering by the same list a second time changes nothing.
pub proof fn law_reorder_idempotent(ps: Seq<Preset>, ids: Seq<String>)
    requires
        ids.len() <= usize::MAX,
    ensures
        reordered(reordered(ps, ids), ids) == reordered(ps, ids),
{
    lemma_ranks_below_of_reordered(ps, ids, ids.len());
    lemma_with_rank_of_reordered(ps, ids, usize::MAX as int);
}

} // verus!
