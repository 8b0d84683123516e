//! The built-in bank of arithmetic expressions used for papers made without a
//! model: every expression carries the answer that the evaluator computes.
use vstd::prelude::*;
use crate::text::chars_of;
use crate::verify::{evaluate_simple_expression, evaluate_spec, format_num, lit};
use crate::expr::{fits, fmt_spec, q_add, rv, Ratio, LIMIT};
use crate::answer::signed_decimal;

verus! {

pub type Triple = (String, String, String);

pub type TripleView = (Seq<char>, Seq<char>, Seq<char>);

pub open spec fn tv(t: Triple) -> TripleView {
    (t.0@, t.1@, t.2@)
}

pub open spec fn tvs(v: Seq<Triple>) -> Seq<TripleView> {
    v.map_values(|t: Triple| tv(t))
}

pub open spec fn svs(v: Seq<String>) -> Seq<Seq<char>> {
    v.map_values(|s: String| s@)
}

/// The source named for an expression of the built-in bank.
pub open spec fn bank_source() -> Seq<char> {
    "内置可验算题库"@
}

/// The built-in expressions for a grade.
pub open spec fn fallback_spec(grade: u8) -> Seq<Seq<char>> {
    if 1 <= grade <= 2 {
        seq![
            "8+7"@, "16-9"@, "6+13"@, "20-8"@, "5×4"@, "18÷3"@, "7×3"@, "24÷6"@,
            "12+9-5"@, "30-8+6"@, "4×6+3"@, "36÷6+8"@, "45-17"@, "28+35"@,
            "9×5"@, "42÷7"@, "63-26"@, "37+18"@, "3×8"@, "32÷4"@, "50-23+7"@,
            "18+12÷3"@, "6×7-9"@, "48÷8+15"@, "25+16-8"@, "54-19"@, "8×6"@,
            "49÷7"@, "70-28"@, "34+29"@,
        ]
    } else if 3 <= grade <= 4 {
        seq![
            "432÷4"@, "208×5"@, "846÷6"@, "720÷3÷2"@, "450-120×3"@, "8×(156-89)"@,
            "315÷5×4"@, "36+18÷6"@, "(45-9)÷6"@, "100-6×9"@, "125×8"@, "960÷6"@,
            "304×3"@, "728÷7"@, "240+360÷6"@, "18×5+120"@, "900-425"@, "376+589"@,
            "45×12"@, "864÷8"@, "600-24×9"@, "(320+160)÷6"@, "25×16"@, "1000-368"@,
            "144÷9+36"@, "72×5"@, "630÷7"@, "48×6-90"@, "250×4"@, "936÷9"@,
        ]
    } else {
        seq![
            "125+375"@, "960÷24"@, "48×25"@, "7.5+2.8"@, "12.6-4.75"@, "3.2×5"@,
            "24÷0.6"@, "1.2×(3.5+1.5)"@, "36÷0.4-15"@, "(24+36)÷5"@, "2.5×16"@,
            "18.4÷4"@, "125×32"@, "4500÷18"@, "6.25+3.75"@, "14.8-6.9"@, "0.75×8"@,
            "7.2÷0.9"@, "45×12-180"@, "(720-240)÷8"@, "3.6×25"@, "81÷0.3"@,
            "1250-486"@, "768+945"@, "144÷12+38"@, "32×15"@, "630÷21"@, "4.8×6-9.8"@,
            "250×16"@, "936÷18"@,
        ]
    }
}

/// The given entries with later repeats of an expression dropped, and the
/// expressions seen.
pub open spec fn dedup_entries(v: Seq<TripleView>) -> (Seq<TripleView>, Seq<Seq<char>>)
    decreases v.len(),
{
    if v.len() == 0 {
        (Seq::empty(), Seq::empty())
    } else {
        let p = dedup_entries(v.drop_last());
        if p.1.contains(v.last().0) {
            p
        } else {
            (p.0.push(v.last()), p.1.push(v.last().0))
        }
    }
}

/// Adds the built-in expressions `rest` in order: one is skipped when 30
/// entries are there already or its expression was seen; otherwise it is
/// marked as seen, and added with its computed answer when it evaluates.
pub open spec fn bank_fold(items: Seq<TripleView>, seen: Seq<Seq<char>>, rest: Seq<Seq<char>>) -> Seq<TripleView>
    decreases rest.len(),
{
    if rest.len() == 0 {
        items
    } else {
        let e = rest[0];
        if items.len() >= 30 || seen.contains(e) {
            bank_fold(items, seen, rest.drop_first())
        } else {
            match evaluate_spec(e) {
                Ok(a) => bank_fold(items.push((e, a, bank_source())), seen.push(e), rest.drop_first()),
                Err(_) => bank_fold(items, seen.push(e), rest.drop_first()),
            }
        }
    }
}

pub open spec fn offline_spec(grade: u8, verified: Seq<TripleView>) -> Seq<TripleView> {
    let d = dedup_entries(verified);
    bank_fold(d.0, d.1, fallback_spec(grade))
}

fn fallback_expressions(grade: u8) -> (r: Vec<&'static str>)
    ensures
        r@.map_values(|s: &str| s@) == fallback_spec(grade),
{
    let v: Vec<&'static str> = if 1 <= grade && grade <= 2 {
        vec![
            "8+7", "16-9", "6+13", "20-8", "5×4", "18÷3", "7×3", "24÷6",
            "12+9-5", "30-8+6", "4×6+3", "36÷6+8", "45-17", "28+35",
            "9×5", "42÷7", "63-26", "37+18", "3×8", "32÷4", "50-23+7",
            "18+12÷3", "6×7-9", "48÷8+15", "25+16-8", "54-19", "8×6",
            "49÷7", "70-28", "34+29",
        ]
    } else if 3 <= grade && grade <= 4 {
        vec![
            "432÷4", "208×5", "846÷6", "720÷3÷2", "450-120×3", "8×(156-89)",
            "315÷5×4", "36+18÷6", "(45-9)÷6", "100-6×9", "125×8", "960÷6",
            "304×3", "728÷7", "240+360÷6", "18×5+120", "900-425", "376+589",
            "45×12", "864÷8", "600-24×9", "(320+160)÷6", "25×16", "1000-368",
            "144÷9+36", "72×5", "630÷7", "48×6-90", "250×4", "936÷9",
        ]
    } else {
        vec![
            "125+375", "960÷24", "48×25", "7.5+2.8", "12.6-4.75", "3.2×5",
            "24÷0.6", "1.2×(3.5+1.5)", "36÷0.4-15", "(24+36)÷5", "2.5×16",
            "18.4÷4", "125×32", "4500÷18", "6.25+3.75", "14.8-6.9", "0.75×8",
            "7.2÷0.9", "45×12-180", "(720-240)÷8", "3.6×25", "81÷0.3",
            "1250-486", "768+945", "144÷12+38", "32×15", "630÷21", "4.8×6-9.8",
            "250×16", "936÷18",
        ]
    };
    assert(v@.map_values(|s: &str| s@) =~= fallback_spec(grade));
    v
}

fn seen_contains(seen: &Vec<String>, e: &String) -> (r: bool)
    ensures
        r == svs(seen@).contains(e@),
{
    let mut k: usize = 0;
    while k < seen.len()
        invariant
            k <= seen.len(),
            forall|j: int| 0 <= j < k ==> seen@[j]@ != e@,
        decreases seen.len() - k,
    {
        if seen[k].eq(e) {
            assert(svs(seen@)[k as int] == e@);
            return true;
        }
        k = k + 1;
    }
    proof {
        if svs(seen@).contains(e@) {
            let j = choose|j: int| 0 <= j < svs(seen@).len() && svs(seen@)[j] == e@;
            assert(seen@[j]@ == e@);
        }
    }
    false
}

fn copy_triple(t: &Triple) -> (r: Triple)
    ensures
        tv(r) == tv(*t),
{
    (t.0.clone(), t.1.clone(), t.2.clone())
}

/// The expressions for an offline arithmetic paper: the given verified entries
/// first (each expression once), then built-in expressions with their computed
/// answers until there are 30 entries.
pub fn offline_math_expressions(grade: u8, verified: &Vec<Triple>) -> (r: Vec<Triple>)
    ensures
        tvs(r@) == offline_spec(grade, tvs(verified@)),
{
    let mut items: Vec<Triple> = Vec::new();
    let mut seen: Vec<String> = Vec::new();
    let mut k: usize = 0;
    while k < verified.len()
        invariant
            k <= verified.len(),
            (tvs(items@), svs(seen@)) == dedup_entries(tvs(verified@.subrange(0, k as int))),
        decreases verified.len() - k,
    {
        proof {
            assert(tvs(verified@.subrange(0, k + 1)).drop_last() =~= tvs(verified@.subrange(0, k as int)));
        }
        let t = &verified[k];
        if !seen_contains(&seen, &t.0) {
            let c = copy_triple(t);
            seen.push(t.0.clone());
            items.push(c);
            assert(tvs(items@) =~= dedup_entries(tvs(verified@.subrange(0, k as int))).0.push(tv(*t)));
            assert(svs(seen@) =~= dedup_entries(tvs(verified@.subrange(0, k as int))).1.push(t.0@));
        }
        k = k + 1;
    }
    assert(verified@.subrange(0, verified.len() as int) =~= verified@);
    let fb = fallback_expressions(grade);
    let ghost fbs = fb@.map_values(|s: &str| s@);
    assert(tvs(verified@.subrange(0, verified.len() as int)) =~= tvs(verified@));
    assert(fbs.subrange(0, fbs.len() as int) =~= fbs);
    let mut j: usize = 0;
    while j < fb.len()
        invariant
            j <= fb.len(),
            fbs == fb@.map_values(|s: &str| s@),
            fbs == fallback_spec(grade),
            offline_spec(grade, tvs(verified@)) == bank_fold(tvs(items@), svs(seen@), fbs.subrange(j as int, fbs.len() as int)),
        decreases fb.len() - j,
    {
        let e = lit(fb[j]);
        proof {
            assert(fbs.subrange(j as int, fbs.len() as int).drop_first() =~= fbs.subrange(j + 1, fbs.len() as int));
            assert(fbs.subrange(j as int, fbs.len() as int)[0] == e@);
        }
        if items.len() >= 30 || seen_contains(&seen, &e) {
        } else {
            let ghost seen_before = svs(seen@);
            seen.push(e.clone());
            assert(svs(seen@) =~= seen_before.push(e@));
            match evaluate_simple_expression(fb[j]) {
                Ok(answer) => {
                    let ghost before = tvs(items@);
                    items.push((e, answer, lit("内置可验算题库")));
                    assert(tvs(items@) =~= before.push((fbs[j as int], answer@, bank_source())));
                },
                Err(_) => {},
            }
        }
        j = j + 1;
    }
    assert(fbs.subrange(fbs.len() as int, fbs.len() as int) =~= Seq::<Seq<char>>::empty());
    items
}

/// Value shown as a wrong option: the answer moved by `delta`, in display form.
/// An answer that is not a number counts as 0; when the moved value leaves the
/// representable range the answer is returned unchanged.
pub open spec fn shifted_spec(answer: Seq<char>, delta: i64) -> Seq<char> {
    let a = match signed_decimal(answer) {
        Some(v) => v,
        None => (0, 1),
    };
    let s = q_add(a, (delta as int, 1));
    if fits(s) {
        fmt_spec(s)
    } else {
        answer
    }
}

pub fn shifted_math_answer(answer: &str, delta: i64) -> (r: String)
    ensures
        r@ == shifted_spec(answer@, delta),
{
    let v = chars_of(answer);
    assert(v@.subrange(0, v@.len() as int) =~= v@);
    let a = match crate::answer::signed_decimal_exec(&v, 0, v.len()) {
        Some(q) => q,
        None => Ratio { num: 0, den: 1 },
    };
    proof {
        assert(-0x8000000000000000 * LIMIT <= delta * a.den <= 0x8000000000000000 * LIMIT) by (nonlinear_arith)
            requires
                -0x8000000000000000 <= delta <= 0x8000000000000000,
                0 < a.den <= LIMIT,
        ;
    }
    let n = a.num + (delta as i128) * a.den;
    let dd = a.den;
    proof {
        assert(q_add(rv(a), (delta as int, 1)) == (n as int, dd as int));
    }
    if -LIMIT <= n && n <= LIMIT {
        format_num(Ratio { num: n, den: dd })
    } else {
        lit(answer)
    }
}

} // verus!
