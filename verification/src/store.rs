//! Lists of saved records kept on this machine (favourites, school papers,
//! history): each record has an id and the time it was saved; new records go
//! first and the list is capped, records are removed and found by id, and
//! lists are shown newest first.
use vstd::prelude::*;
use crate::text::str_eq;

verus! {

/// A saved record: its id and the second it was saved at.
pub trait Kept: Sized {
    spec fn kept_id(&self) -> Seq<char>;

    spec fn kept_time(&self) -> u64;

    fn id_of(&self) -> (r: &str)
        ensures
            r@ == self.kept_id(),
    ;

    fn time_of(&self) -> (r: u64)
        ensures
            r == self.kept_time(),
    ;
}

/// The list with `e` put first, cut to `cap` records.
pub open spec fn pushed_front<T>(s: Seq<T>, e: T, cap: nat) -> Seq<T> {
    let t = seq![e] + s;
    if t.len() <= cap {
        t
    } else {
        t.take(cap as int)
    }
}

/// Puts `e` first and keeps at most `cap` records.
pub fn push_front_capped<T: Kept>(v: &mut Vec<T>, e: T, cap: usize)
    ensures
        final(v)@ == pushed_front(old(v)@, e, cap as nat),
{
    v.insert(0, e);
    assert(v@ =~= seq![e] + old(v)@);
    if v.len() > cap {
        v.truncate(cap);
    }
}

/// The records whose id is not `id`, in order.
pub open spec fn without_id<T: Kept>(s: Seq<T>, id: Seq<char>) -> Seq<T>
    decreases s.len(),
{
    if s.len() == 0 {
        s
    } else if s.last().kept_id() == id {
        without_id(s.drop_last(), id)
    } else {
        without_id(s.drop_last(), id).push(s.last())
    }
}

/// Whether a record has id `id`.
pub open spec fn has_id<T: Kept>(s: Seq<T>, id: Seq<char>) -> bool {
    exists|i: int| 0 <= i < s.len() && (#[trigger] s[i]).kept_id() == id
}

/// Removes the records with id `id`; whether there was one.
pub fn remove_with_id<T: Kept>(v: &mut Vec<T>, id: &str) -> (r: bool)
    ensures
        final(v)@ == without_id(old(v)@, id@),
        r == has_id(old(v)@, id@),
{
    let ghost s = v@;
    let mut kept: Vec<T> = Vec::new();
    let mut hit = false;
    let mut rest: Vec<T> = Vec::new();
    std::mem::swap(&mut rest, v);
    assert(s.take(0) =~= Seq::<T>::empty());
    for x in it: rest
        invariant
            it.seq() == s,
            kept@ == without_id(s.take(it.index() as int), id@),
            hit == has_id(s.take(it.index() as int), id@),
    {
        let ghost k = it.index();
        proof {
            assert(s.take(k + 1).drop_last() =~= s.take(k as int));
            assert(s.take(k + 1).last() == x);
        }
        if str_eq(x.id_of(), id) {
            hit = true;
            assert(s.take(k + 1)[k as int] == x);
        } else {
            kept.push(x);
            proof {
                if has_id(s.take(k + 1), id@) {
                    let i = choose|i: int| 0 <= i < k + 1 && (#[trigger] s.take(k + 1)[i]).kept_id() == id@;
                    assert(s.take(k as int)[i] == s.take(k + 1)[i]);
                }
            }
        }
        proof {
            if has_id(s.take(k as int), id@) {
                let i = choose|i: int| 0 <= i < k && (#[trigger] s.take(k as int)[i]).kept_id() == id@;
                assert(s.take(k + 1)[i] == s.take(k as int)[i]);
            }
        }
    }
    assert(s.take(s.len() as int) =~= s);
    *v = kept;
    hit
}

/// The first record with id `id`.
pub open spec fn first_with_id<T: Kept>(s: Seq<T>, id: Seq<char>) -> Option<int> {
    if has_id(s, id) {
        Some(choose|i: int| 0 <= i < s.len() && s[i].kept_id() == id && forall|j: int| 0 <= j < i ==> (#[trigger] s[j]).kept_id() != id)
    } else {
        None
    }
}

/// Where the first record with id `id` is.
pub fn index_of_id<T: Kept>(v: &Vec<T>, id: &str) -> (r: Option<usize>)
    ensures
        match r {
            Some(i) => i < v@.len() && v@[i as int].kept_id() == id@ && forall|j: int| 0 <= j < i ==> (#[trigger] v@[j]).kept_id() != id@,
            None => !has_id(v@, id@),
        },
{
    let mut k: usize = 0;
    while k < v.len()
        invariant
            k <= v.len(),
            forall|j: int| 0 <= j < k ==> (#[trigger] v@[j]).kept_id() != id@,
        decreases v.len() - k,
    {
        if str_eq(v[k].id_of(), id) {
            return Some(k);
        }
        k = k + 1;
    }
    None
}

/// Where a record saved at `t` goes in a list newest first: after every
/// record that is not older.
pub open spec fn slot_for<T: Kept>(s: Seq<T>, t: u64) -> int
    decreases s.len(),
{
    if s.len() == 0 {
        0
    } else if s[0].kept_time() < t {
        0
    } else {
        1 + slot_for(s.drop_first(), t)
    }
}

/// The records newest first; records saved at the same second keep their order.
pub open spec fn newest<T: Kept>(s: Seq<T>) -> Seq<T>
    decreases s.len(),
{
    if s.len() == 0 {
        s
    } else {
        let sorted = newest(s.drop_last());
        sorted.insert(slot_for(sorted, s.last().kept_time()), s.last())
    }
}

proof fn lemma_slot_bound<T: Kept>(s: Seq<T>, t: u64)
    ensures
        0 <= slot_for(s, t) <= s.len(),
        forall|i: int| 0 <= i < slot_for(s, t) ==> (#[trigger] s[i]).kept_time() >= t,
        slot_for(s, t) < s.len() ==> s[slot_for(s, t)].kept_time() < t,
    decreases s.len(),
{
    if s.len() > 0 && s[0].kept_time() >= t {
        lemma_slot_bound(s.drop_first(), t);
        assert forall|i: int| 0 <= i < slot_for(s, t) implies (#[trigger] s[i]).kept_time() >= t by {
            if i > 0 {
                assert(s[i] == s.drop_first()[i - 1]);
            }
        }
    }
}

/// Whether the records are newest first.
pub open spec fn is_newest_first<T: Kept>(s: Seq<T>) -> bool {
    forall|i: int, j: int| 0 <= i < j < s.len() ==> (#[trigger] s[i]).kept_time() >= (#[trigger] s[j]).kept_time()
}

/// A list shown newest first holds the same records, and is newest first.
pub proof fn lemma_newest_sorted<T: Kept>(s: Seq<T>)
    ensures
        newest(s).len() == s.len(),
        newest(s).to_multiset() == s.to_multiset(),
        is_newest_first(newest(s)),
    decreases s.len(),
{
    if s.len() > 0 {
        let prev = newest(s.drop_last());
        lemma_newest_sorted(s.drop_last());
        let t = s.last().kept_time();
        let p = slot_for(prev, t);
        lemma_slot_bound(prev, t);
        let r = prev.insert(p, s.last());
        assert(r == newest(s));
        assert forall|i: int, j: int| 0 <= i < j < r.len() implies (#[trigger] r[i]).kept_time() >= (#[trigger] r[j]).kept_time() by {
            if i < p && j < p {
                assert(r[i] == prev[i] && r[j] == prev[j]);
            } else if i < p && j == p {
                assert(r[i] == prev[i]);
            } else if i < p {
                assert(r[i] == prev[i] && r[j] == prev[j - 1]);
            } else if i == p {
                assert(r[j] == prev[j - 1]);
                assert(prev[p].kept_time() < t);
                if j - 1 > p {
                    assert(prev[p].kept_time() >= prev[j - 1].kept_time());
                }
            } else {
                assert(r[i] == prev[i - 1] && r[j] == prev[j - 1]);
            }
        }
        vstd::seq_lib::lemma_multiset_commutative(s.drop_last(), seq![s.last()]);
        assert(s =~= s.drop_last() + seq![s.last()]);
        assert(r =~= prev.subrange(0, p) + seq![s.last()] + prev.subrange(p, prev.len() as int));
        assert(prev =~= prev.subrange(0, p) + prev.subrange(p, prev.len() as int));
        vstd::seq_lib::lemma_multiset_commutative(prev.subrange(0, p), prev.subrange(p, prev.len() as int));
        vstd::seq_lib::lemma_multiset_commutative(prev.subrange(0, p) + seq![s.last()], prev.subrange(p, prev.len() as int));
        vstd::seq_lib::lemma_multiset_commutative(prev.subrange(0, p), seq![s.last()]);
    }
}

fn slot_of<T: Kept>(v: &Vec<T>, t: u64) -> (r: usize)
    ensures
        r == slot_for(v@, t),
{
    let mut k: usize = 0;
    assert(v@.subrange(0, v@.len() as int) =~= v@);
    while k < v.len() && v[k].time_of() >= t
        invariant
            k <= v.len(),
            slot_for(v@, t) == k + slot_for(v@.subrange(k as int, v@.len() as int), t),
        decreases v.len() - k,
    {
        proof {
            assert(v@.subrange(k as int, v@.len() as int).drop_first() =~= v@.subrange(k + 1, v@.len() as int));
        }
        k = k + 1;
    }
    proof {
        let rest = v@.subrange(k as int, v@.len() as int);
        if k < v.len() {
            assert(rest[0] == v@[k as int]);
        }
    }
    k
}

/// Sorts the records newest first (see `newest`).
pub fn sort_newest<T: Kept>(v: Vec<T>) -> (r: Vec<T>)
    ensures
        r@ == newest(v@),
{
    let ghost s = v@;
    let mut r: Vec<T> = Vec::new();
    for x in it: v
        invariant
            it.seq() == s,
            r@ == newest(s.take(it.index() as int)),
    {
        let ghost k = it.index();
        let t = x.time_of();
        let p = slot_of(&r, t);
        proof {
            lemma_slot_bound(r@, t);
            assert(s.take(k + 1).drop_last() =~= s.take(k as int));
            assert(s.take(k + 1).last() == x);
        }
        r.insert(p, x);
    }
    proof {
        assert(s.take(s.len() as int) =~= s);
    }
    r
}

/// After records with an id are removed, none with that id is left.
pub proof fn lemma_removed_gone<T: Kept>(s: Seq<T>, id: Seq<char>)
    ensures
        !has_id(without_id(s, id), id),
        without_id(s, id).len() <= s.len(),
    decreases s.len(),
{
    if s.len() > 0 {
        lemma_removed_gone(s.drop_last(), id);
        let w = without_id(s.drop_last(), id);
        if s.last().kept_id() != id {
            assert forall|i: int| 0 <= i < w.len() + 1 implies (#[trigger] w.push(s.last())[i]).kept_id() != id by {
                if i < w.len() {
                    assert(w.push(s.last())[i] == w[i]);
                }
            }
        }
    }
}

/// Removing records with an id keeps every record with another id.
pub proof fn lemma_removed_keeps<T: Kept>(s: Seq<T>, id: Seq<char>, x: T)
    requires
        s.contains(x),
        x.kept_id() != id,
    ensures
        without_id(s, id).contains(x),
    decreases s.len(),
{
    let i = choose|i: int| 0 <= i < s.len() && s[i] == x;
    if i == s.len() - 1 {
        let w = without_id(s.drop_last(), id);
        assert(w.push(s.last())[w.len() as int] == x);
    } else {
        assert(s.drop_last()[i] == x);
        lemma_removed_keeps(s.drop_last(), id, x);
        let w = without_id(s.drop_last(), id);
        let k = choose|k: int| 0 <= k < w.len() && w[k] == x;
        if s.last().kept_id() != id {
            assert(w.push(s.last())[k] == x);
        }
    }
}

} // verus!
