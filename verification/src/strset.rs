//! Strings in the order Rust gives them (`str`'s `Ord`: by UTF-8 bytes, which
//! is the order of the code points), and sorted lists of distinct strings used
//! as sets.
use vstd::prelude::*;
use crate::text::{chars_of, strings_view};

verus! {

/// Whether `a` comes before `b`: at the first character where they differ,
/// `a` has the smaller code point; or `a` is a proper prefix of `b`.
pub open spec fn seq_lt(a: Seq<char>, b: Seq<char>) -> bool
    decreases a.len(),
{
    if a.len() == 0 {
        b.len() > 0
    } else if b.len() == 0 {
        false
    } else if a[0] != b[0] {
        (a[0] as u32) < (b[0] as u32)
    } else {
        seq_lt(a.drop_first(), b.drop_first())
    }
}

pub proof fn lemma_lt_irreflexive(a: Seq<char>)
    ensures
        !seq_lt(a, a),
    decreases a.len(),
{
    if a.len() > 0 {
        lemma_lt_irreflexive(a.drop_first());
    }
}

pub proof fn lemma_lt_transitive(a: Seq<char>, b: Seq<char>, c: Seq<char>)
    requires
        seq_lt(a, b),
        seq_lt(b, c),
    ensures
        seq_lt(a, c),
    decreases a.len(),
{
    if a.len() > 0 && b.len() > 0 && c.len() > 0 {
        if a[0] == b[0] && b[0] == c[0] {
            lemma_lt_transitive(a.drop_first(), b.drop_first(), c.drop_first());
        }
    }
}

pub proof fn lemma_lt_total(a: Seq<char>, b: Seq<char>)
    requires
        a != b,
    ensures
        seq_lt(a, b) || seq_lt(b, a),
    decreases a.len(),
{
    if a.len() == 0 {
        assert(b.len() > 0) by {
            if b.len() == 0 {
                assert(a =~= b);
            }
        }
    } else if b.len() > 0 && a[0] != b[0] {
        if (a[0] as u32) == (b[0] as u32) {
            vstd::utf8::char_u32_cast(a[0], a[0] as u32);
            vstd::utf8::char_u32_cast(b[0], b[0] as u32);
        }
    } else if b.len() > 0 && a[0] == b[0] {
        if a.drop_first() == b.drop_first() {
            assert(a =~= seq![a[0]] + a.drop_first());
            assert(b =~= seq![b[0]] + b.drop_first());
        }
        lemma_lt_total(a.drop_first(), b.drop_first());
    }
}

proof fn lemma_lt_skip(a: Seq<char>, b: Seq<char>, i: int)
    requires
        0 <= i <= a.len(),
        i <= b.len(),
        a.subrange(0, i) == b.subrange(0, i),
    ensures
        seq_lt(a, b) == seq_lt(a.subrange(i, a.len() as int), b.subrange(i, b.len() as int)),
    decreases i,
{
    if i > 0 {
        assert(a[0] == a.subrange(0, i)[0]);
        assert(b[0] == b.subrange(0, i)[0]);
        assert(a.drop_first().subrange(0, i - 1) =~= a.subrange(0, i).drop_first());
        assert(b.drop_first().subrange(0, i - 1) =~= b.subrange(0, i).drop_first());
        lemma_lt_skip(a.drop_first(), b.drop_first(), i - 1);
        assert(a.drop_first().subrange(i - 1, a.len() - 1) =~= a.subrange(i, a.len() as int));
        assert(b.drop_first().subrange(i - 1, b.len() - 1) =~= b.subrange(i, b.len() as int));
    } else {
        assert(a.subrange(0, a.len() as int) =~= a);
        assert(b.subrange(0, b.len() as int) =~= b);
    }
}

/// Whether `a` comes before `b`.
pub fn str_less(a: &str, b: &str) -> (r: bool)
    ensures
        r == seq_lt(a@, b@),
{
    let x = chars_of(a);
    let y = chars_of(b);
    let mut i: usize = 0;
    while i < x.len() && i < y.len() && x[i] == y[i]
        invariant
            x@ == a@,
            y@ == b@,
            i <= x.len(),
            i <= y.len(),
            x@.subrange(0, i as int) == y@.subrange(0, i as int),
        decreases x.len() - i,
    {
        proof {
            assert(x@.subrange(0, i + 1) =~= x@.subrange(0, i as int).push(x@[i as int]));
            assert(y@.subrange(0, i + 1) =~= y@.subrange(0, i as int).push(y@[i as int]));
        }
        i = i + 1;
    }
    proof {
        lemma_lt_skip(x@, y@, i as int);
    }
    let ghost xs = x@.subrange(i as int, x.len() as int);
    let ghost ys = y@.subrange(i as int, y.len() as int);
    if i == x.len() {
        assert(xs.len() == 0);
        i < y.len()
    } else if i == y.len() {
        assert(ys.len() == 0);
        false
    } else {
        assert(xs[0] == x@[i as int] && ys[0] == y@[i as int]);
        (x[i] as u32) < (y[i] as u32)
    }
}

/// Whether the strings are in strictly increasing order (and so distinct).
pub open spec fn strictly_sorted(s: Seq<Seq<char>>) -> bool {
    forall|i: int, j: int| 0 <= i < j < s.len() ==> seq_lt(#[trigger] s[i], #[trigger] s[j])
}

/// The position at which `x` belongs in the sorted strings `v`: the first
/// that does not come before it.
fn lower_bound(v: &Vec<String>, x: &str) -> (r: usize)
    requires
        strictly_sorted(strings_view(v@)),
    ensures
        r <= v.len(),
        forall|j: int| 0 <= j < r ==> seq_lt(#[trigger] v@[j]@, x@),
        r < v.len() ==> !seq_lt(v@[r as int]@, x@),
{
    let mut k: usize = 0;
    while k < v.len() && str_less(v[k].as_str(), x)
        invariant
            k <= v.len(),
            forall|j: int| 0 <= j < k ==> seq_lt(#[trigger] v@[j]@, x@),
        decreases v.len() - k,
    {
        k = k + 1;
    }
    k
}

/// Adds `x` to the sorted set `v`.
pub fn insert_sorted(v: &mut Vec<String>, x: String)
    requires
        strictly_sorted(strings_view(old(v)@)),
    ensures
        strictly_sorted(strings_view(final(v)@)),
        strings_view(final(v)@).to_set() == strings_view(old(v)@).to_set().insert(x@),
{
    let ghost before = strings_view(v@);
    let p = lower_bound(v, x.as_str());
    if p < v.len() && v[p] == x {
        proof {
            assert(before[p as int] == x@);
            assert(before.to_set() =~= before.to_set().insert(x@));
        }
        return;
    }
    proof {
        if p < v@.len() {
            assert(v@[p as int]@ != x@);
            lemma_lt_total(v@[p as int]@, x@);
        }
    }
    let ghost xv = x@;
    v.insert(p, x);
    proof {
        let after = strings_view(v@);
        assert(after =~= before.subrange(0, p as int).push(xv) + before.subrange(p as int, before.len() as int));
        assert forall|i: int, j: int| 0 <= i < j < after.len() implies seq_lt(#[trigger] after[i], #[trigger] after[j]) by {
            if j < p {
                assert(after[i] == before[i] && after[j] == before[j]);
            } else if j == p {
                assert(after[i] == before[i]);
            } else if i == p {
                assert(after[j] == before[j - 1]);
                if j - 1 > p {
                    assert(seq_lt(before[p as int], before[j - 1]));
                    lemma_lt_transitive(xv, before[p as int], before[j - 1]);
                }
            } else if i < p {
                assert(after[i] == before[i] && after[j] == before[j - 1]);
            } else {
                assert(after[i] == before[i - 1] && after[j] == before[j - 1]);
            }
        }
        assert forall|s: Seq<char>| after.to_set().contains(s) <==> before.to_set().insert(xv).contains(s) by {
            if after.to_set().contains(s) {
                let i = choose|i: int| 0 <= i < after.len() && after[i] == s;
                if i < p {
                    assert(before[i] == s);
                } else if i > p {
                    assert(before[i - 1] == s);
                }
            }
            if before.to_set().contains(s) {
                let i = choose|i: int| 0 <= i < before.len() && before[i] == s;
                if i < p {
                    assert(after[i] == s);
                } else {
                    assert(after[i + 1] == s);
                }
            }
            if s == xv {
                assert(after[p as int] == s);
            }
        }
        assert(after.to_set() =~= before.to_set().insert(xv));
    }
}

/// Whether the sorted set `v` holds `x`.
pub fn set_contains(v: &Vec<String>, x: &str) -> (r: bool)
    ensures
        r == strings_view(v@).to_set().contains(x@),
{
    let mut k: usize = 0;
    while k < v.len()
        invariant
            k <= v.len(),
            forall|j: int| 0 <= j < k ==> v@[j]@ != x@,
        decreases v.len() - k,
    {
        if crate::text::str_eq(v[k].as_str(), x) {
            proof {
                assert(strings_view(v@)[k as int] == x@);
            }
            return true;
        }
        k = k + 1;
    }
    proof {
        if strings_view(v@).to_set().contains(x@) {
            let i = choose|i: int| 0 <= i < strings_view(v@).len() && strings_view(v@)[i] == x@;
            assert(v@[i]@ == x@);
        }
    }
    false
}

} // verus!
