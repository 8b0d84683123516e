//! Reading the numeric value of a written answer ("0.375", "3/8", "37.5%",
//! "12米", "0.375（小数）") and comparing values with a relative tolerance.
use vstd::prelude::*;
use crate::text::{
    is_digit, is_ws, replace_char, replace_char_exec, trim, trim_bounds, chars_of,
};
use crate::expr::{
    Ratio, LIMIT, fits, rv, decimal_value, is_num_char, num_end, q_div, abs, lemma_mul_bound,
    scan_num_end, number_value, ExprError, pow10, all_digits, digits_val,
};
use crate::text::digit_value;

verus! {

pub open spec fn is_open_bracket(c: char) -> bool {
    c == '(' || c == '（'
}

pub open spec fn is_close_bracket(c: char) -> bool {
    c == ')' || c == '）'
}

/// First position at or after `i` holding an opening bracket.
pub open spec fn first_open_from(s: Seq<char>, i: int) -> Option<int>
    decreases s.len() - i,
{
    if i < 0 || i >= s.len() {
        None
    } else if is_open_bracket(s[i]) {
        Some(i)
    } else {
        first_open_from(s, i + 1)
    }
}

/// First position at or after `i` holding a closing bracket.
pub open spec fn first_close_from(s: Seq<char>, i: int) -> Option<int>
    decreases s.len() - i,
{
    if i < 0 || i >= s.len() {
        None
    } else if is_close_bracket(s[i]) {
        Some(i)
    } else {
        first_close_from(s, i + 1)
    }
}

/// `s[i..]` with every bracketed remark removed: an opening bracket, the text
/// up to the first closing bracket after it, and that closing bracket.
pub open spec fn strip_remarks_from(s: Seq<char>, i: int) -> Seq<char>
    decreases s.len() - i,
{
    if i < 0 || i > s.len() {
        Seq::empty()
    } else {
        match first_open_from(s, i) {
            None => s.subrange(i, s.len() as int),
            Some(p) => match first_close_from(s, p + 1) {
                None => s.subrange(i, s.len() as int),
                Some(q) => if i <= p < q < s.len() {
                    s.subrange(i, p) + strip_remarks_from(s, q + 1)
                } else {
                    s.subrange(i, s.len() as int)
                },
            },
        }
    }
}

pub open spec fn strip_remarks(s: Seq<char>) -> Seq<char> {
    strip_remarks_from(s, 0)
}

/// The separator characters and the characters that are dropped or rewritten
/// before an answer is read.
pub open spec fn answer_cleanup(s: Seq<char>) -> Seq<char> {
    let e = Seq::<char>::empty();
    let a = replace_char(s, '，', e);
    let b = replace_char(a, ',', e);
    let c = replace_char(b, '．', seq!['.']);
    let d = replace_char(c, '÷', seq!['/']);
    let f = replace_char(d, '／', seq!['/']);
    let g = replace_char(f, '％', seq!['%']);
    let h = replace_char(g, ' ', e);
    replace_char(h, '\u{3000}', e)
}

pub open spec fn is_answer_sep(c: char) -> bool {
    c == '；' || c == ';' || c == '、' || c == ',' || c == '，'
}

/// Position of the first separator in `s`, or its length.
pub open spec fn first_sep_from(s: Seq<char>, i: int) -> int
    decreases s.len() - i,
{
    if i < 0 || i >= s.len() {
        s.len() as int
    } else if is_answer_sep(s[i]) {
        i
    } else {
        first_sep_from(s, i + 1)
    }
}

/// A signed decimal literal without exponent: `[+-]?` then a literal that
/// `decimal_value` accepts.
pub open spec fn signed_decimal(t: Seq<char>) -> Option<(int, int)> {
    if t.len() > 0 && (t[0] == '+' || t[0] == '-') {
        match decimal_value(t.drop_first()) {
            Some(v) => if fits(v) {
                Some(if t[0] == '-' { (-v.0, v.1) } else { v })
            } else {
                None
            },
            None => None,
        }
    } else {
        match decimal_value(t) {
            Some(v) => if fits(v) {
                Some(v)
            } else {
                None
            },
            None => None,
        }
    }
}

/// Position of the first `e` or `E` in `t`, if any.
pub open spec fn first_exp_from(t: Seq<char>, i: int) -> Option<int>
    decreases t.len() - i,
{
    if i < 0 || i >= t.len() {
        None
    } else if t[i] == 'e' || t[i] == 'E' {
        Some(i)
    } else {
        first_exp_from(t, i + 1)
    }
}

/// The value of an exponent `[+-]?d+`.
pub open spec fn exponent_value(u: Seq<char>) -> Option<int> {
    let neg = u.len() > 0 && u[0] == '-';
    let d = if u.len() > 0 && (u[0] == '+' || u[0] == '-') { u.drop_first() } else { u };
    if d.len() > 0 && all_digits(d) {
        Some(if neg { -digits_val(d) } else { digits_val(d) })
    } else {
        None
    }
}

/// `v` times ten to the power `e`, when in range (zero stays zero).
pub open spec fn scaled(v: (int, int), e: int) -> Option<(int, int)> {
    if v.0 == 0 {
        Some((0, 1))
    } else {
        let q = if e >= 0 { (v.0 * pow10(e as nat), v.1) } else { (v.0, v.1 * pow10((-e) as nat)) };
        if fits(q) {
            Some(q)
        } else {
            None
        }
    }
}

/// A number literal as Rust's float parsing reads it, without the
/// infinities and not-a-number: a signed decimal literal, optionally
/// followed by `e` or `E` and a signed exponent.
pub open spec fn float_literal(t: Seq<char>) -> Option<(int, int)> {
    match first_exp_from(t, 0) {
        None => signed_decimal(t),
        Some(p) => match (signed_decimal(t.subrange(0, p)), exponent_value(t.subrange(p + 1, t.len() as int))) {
            (Some(v), Some(e)) => scaled(v, e),
            _ => None,
        },
    }
}

/// End of the run of digits that starts at `i`.
pub open spec fn digit_end(s: Seq<char>, i: int) -> int
    decreases s.len() - i,
{
    if 0 <= i < s.len() && is_digit(s[i]) {
        digit_end(s, i + 1)
    } else {
        i
    }
}

/// Length of the longest prefix of `t` of the form `[+-]?d+(.d+)?`, if any.
pub open spec fn leading_number_len(t: Seq<char>) -> Option<int> {
    let sl: int = if t.len() > 0 && (t[0] == '+' || t[0] == '-') { 1 } else { 0 };
    let e1 = digit_end(t, sl);
    if e1 == sl {
        None
    } else if e1 + 1 < t.len() && t[e1] == '.' && is_digit(t[e1 + 1]) {
        Some(digit_end(t, e1 + 1))
    } else {
        Some(e1)
    }
}

/// Value of `s` read as a percentage `x%`.
pub open spec fn percent_value(s: Seq<char>) -> Option<(int, int)> {
    match float_literal(trim(s.drop_last())) {
        Some(v) => if fits((v.0, v.1 * 100)) {
            Some((v.0, v.1 * 100))
        } else {
            None
        },
        None => None,
    }
}

/// Value of `s` read as a fraction `a/b`, split at the slash at `p`.
pub open spec fn fraction_value(s: Seq<char>, p: int) -> Option<(int, int)> {
    match (float_literal(trim(s.subrange(0, p))), float_literal(trim(s.subrange(p + 1, s.len() as int)))) {
        (Some(a), Some(b)) => if b.0 == 0 {
            None
        } else if fits(q_div(a, b)) {
            Some(q_div(a, b))
        } else {
            None
        },
        _ => None,
    }
}

/// Value of `s` read as its leading decimal number, or else as a literal.
pub open spec fn leading_value(s: Seq<char>) -> Option<(int, int)> {
    match leading_number_len(s) {
        Some(n) => signed_decimal(s.subrange(0, n)),
        None => float_literal(s),
    }
}

pub open spec fn has_slash(s: Seq<char>) -> bool {
    exists|k: int| 0 <= k < s.len() && s[k] == '/'
}

pub open spec fn first_slash(s: Seq<char>) -> int {
    choose|k: int| 0 <= k < s.len() && s[k] == '/' && forall|j: int| 0 <= j < k ==> s[j] != '/'
}

/// Value of a cleaned, non-empty answer.
pub open spec fn answer_core(s: Seq<char>) -> Option<(int, int)> {
    if s.last() == '%' {
        percent_value(s)
    } else if has_slash(s) {
        fraction_value(s, first_slash(s))
    } else {
        leading_value(s)
    }
}

/// The answer text that is read: the part before the first separator, with
/// bracketed remarks removed and the cleanup applied, trimmed.
pub open spec fn answer_text(ans: Seq<char>) -> Seq<char> {
    let s1 = answer_cleanup(strip_remarks(trim(ans)));
    trim(s1.subrange(0, first_sep_from(s1, 0)))
}

/// The numeric value of a written answer, as a fraction.
pub open spec fn answer_value(ans: Seq<char>) -> Option<(int, int)> {
    if trim(ans).len() == 0 {
        None
    } else {
        let s = answer_text(ans);
        if s.len() == 0 {
            None
        } else {
            answer_core(s)
        }
    }
}

/// Two values agree when their difference is below a millionth of the larger
/// magnitude (or of 1 when both are smaller than 1).
pub open spec fn nearly_eq(a: (int, int), b: (int, int)) -> bool {
    let diff = abs(a.0 * b.1 - b.0 * a.1);
    let m1 = abs(a.0) * b.1;
    let m2 = abs(b.0) * a.1;
    let m3 = a.1 * b.1;
    let m = if m1 >= m2 && m1 >= m3 {
        m1
    } else if m2 >= m3 {
        m2
    } else {
        m3
    };
    diff * 1000000 < m
}

pub fn nearly_eq_exec(a: Ratio, b: Ratio) -> (r: bool)
    requires
        fits(rv(a)),
        fits(rv(b)),
    ensures
        r == nearly_eq(rv(a), rv(b)),
{
    proof {
        lemma_mul_bound(a.num as int, b.den as int);
        lemma_mul_bound(b.num as int, a.den as int);
        lemma_mul_bound(a.den as int, b.den as int);
        lemma_mul_bound(abs(a.num as int), b.den as int);
        lemma_mul_bound(abs(b.num as int), a.den as int);
    }
    let x = a.num * b.den - b.num * a.den;
    let diff: i128 = if x < 0 { -x } else { x };
    let an: i128 = if a.num < 0 { -a.num } else { a.num };
    let bn: i128 = if b.num < 0 { -b.num } else { b.num };
    let m1 = an * b.den;
    let m2 = bn * a.den;
    let m3 = a.den * b.den;
    let m = if m1 >= m2 && m1 >= m3 {
        m1
    } else if m2 >= m3 {
        m2
    } else {
        m3
    };
    proof {
        lemma_den_pos_local(a.den as int, b.den as int);
    }
    // diff * 10^6 < m  <=>  diff <= (m - 1) / 10^6
    let r = diff <= (m - 1) / 1000000;
    proof {
        let dd = diff as int;
        let mm = m as int;
        assert(mm >= 1);
        assert((dd <= (mm - 1) / 1000000) == (dd * 1000000 < mm)) by (nonlinear_arith)
            requires
                mm >= 1,
                dd >= 0,
        ;
    }
    r
}

proof fn lemma_den_pos_local(x: int, y: int)
    requires
        0 < x,
        0 < y,
    ensures
        0 < x * y,
{
    assert(0 < x * y) by (nonlinear_arith)
        requires
            0 < x,
            0 < y,
    ;
}


fn first_open_exec(s: &Vec<char>, from: usize) -> (r: Option<usize>)
    requires
        from <= s.len(),
    ensures
        match r {
            Some(p) => first_open_from(s@, from as int) == Some(p as int) && from <= p < s.len(),
            None => first_open_from(s@, from as int) is None,
        },
{
    let mut i = from;
    while i < s.len()
        invariant
            from <= i <= s.len(),
            first_open_from(s@, from as int) == first_open_from(s@, i as int),
        decreases s.len() - i,
    {
        if s[i] == '(' || s[i] == '（' {
            return Some(i);
        }
        i = i + 1;
    }
    None
}

fn first_close_exec(s: &Vec<char>, from: usize) -> (r: Option<usize>)
    requires
        from <= s.len(),
    ensures
        match r {
            Some(p) => first_close_from(s@, from as int) == Some(p as int) && from <= p < s.len(),
            None => first_close_from(s@, from as int) is None,
        },
{
    let mut i = from;
    while i < s.len()
        invariant
            from <= i <= s.len(),
            first_close_from(s@, from as int) == first_close_from(s@, i as int),
        decreases s.len() - i,
    {
        if s[i] == ')' || s[i] == '）' {
            return Some(i);
        }
        i = i + 1;
    }
    None
}

fn push_range(out: &mut Vec<char>, s: &Vec<char>, a: usize, b: usize)
    requires
        a <= b <= s.len(),
    ensures
        final(out)@ == old(out)@ + s@.subrange(a as int, b as int),
{
    let mut k = a;
    let ghost base = out@;
    while k < b
        invariant
            a <= k <= b <= s.len(),
            out@ == base + s@.subrange(a as int, k as int),
        decreases b - k,
    {
        out.push(s[k]);
        k = k + 1;
        assert(out@ =~= base + s@.subrange(a as int, k as int));
    }
}

/// `s` with its bracketed remarks removed.
pub fn strip_remarks_exec(s: &Vec<char>) -> (out: Vec<char>)
    ensures
        out@ == strip_remarks(s@),
{
    let mut out: Vec<char> = Vec::new();
    let mut i: usize = 0;
    loop
        invariant
            i <= s.len(),
            strip_remarks(s@) == out@ + strip_remarks_from(s@, i as int),
        decreases s.len() - i,
    {
        match first_open_exec(s, i) {
            None => {
                push_range(&mut out, s, i, s.len());
                return out;
            },
            Some(p) => {
                match first_close_exec(s, p + 1) {
                    None => {
                        push_range(&mut out, s, i, s.len());
                        return out;
                    },
                    Some(q) => {
                        let ghost before = out@;
                        push_range(&mut out, s, i, p);
                        assert(out@ == before + s@.subrange(i as int, p as int));
                        assert(strip_remarks_from(s@, i as int) == s@.subrange(i as int, p as int)
                            + strip_remarks_from(s@, q + 1));
                        assert(before + (s@.subrange(i as int, p as int) + strip_remarks_from(s@, q + 1))
                            =~= out@ + strip_remarks_from(s@, q + 1));
                        i = q + 1;
                    },
                }
            },
        }
    }
}

/// Applies `answer_cleanup`.
fn answer_cleanup_exec(s: &Vec<char>) -> (out: Vec<char>)
    ensures
        out@ == answer_cleanup(s@),
{
    let e: Vec<char> = Vec::new();
    let dot: Vec<char> = vec!['.'];
    let slash: Vec<char> = vec!['/'];
    let pct: Vec<char> = vec!['%'];
    assert(e@ =~= Seq::<char>::empty());
    assert(dot@ =~= seq!['.']);
    assert(slash@ =~= seq!['/']);
    assert(pct@ =~= seq!['%']);
    let a = replace_char_exec(s, '，', &e);
    let b = replace_char_exec(&a, ',', &e);
    let c = replace_char_exec(&b, '．', &dot);
    let d = replace_char_exec(&c, '÷', &slash);
    let f = replace_char_exec(&d, '／', &slash);
    let g = replace_char_exec(&f, '％', &pct);
    let h = replace_char_exec(&g, ' ', &e);
    replace_char_exec(&h, '\u{3000}', &e)
}

fn first_sep_exec(s: &Vec<char>) -> (r: usize)
    ensures
        r as int == first_sep_from(s@, 0),
        r <= s.len(),
{
    let mut i: usize = 0;
    while i < s.len()
        invariant
            i <= s.len(),
            first_sep_from(s@, 0) == first_sep_from(s@, i as int),
        decreases s.len() - i,
    {
        let c = s[i];
        if c == '；' || c == ';' || c == '、' || c == ',' || c == '，' {
            return i;
        }
        i = i + 1;
    }
    i
}

/// The value of the signed literal `s[a..b]`.
pub fn signed_decimal_exec(s: &Vec<char>, a: usize, b: usize) -> (r: Option<Ratio>)
    requires
        a <= b <= s.len(),
    ensures
        match r {
            Some(q) => signed_decimal(s@.subrange(a as int, b as int)) == Some(rv(q)) && fits(rv(q)),
            None => signed_decimal(s@.subrange(a as int, b as int)) is None,
        },
{
    let ghost t = s@.subrange(a as int, b as int);
    let mut start = a;
    let mut neg = false;
    if a < b && (s[a] == '+' || s[a] == '-') {
        neg = s[a] == '-';
        start = a + 1;
        assert(t.drop_first() =~= s@.subrange(start as int, b as int));
    }
    let ghost u = s@.subrange(start as int, b as int);
    let mut k = start;
    while k < b
        invariant
            start <= k <= b <= s.len(),
            u == s@.subrange(start as int, b as int),
            t == s@.subrange(a as int, b as int),
            start == a || (start == a + 1 && a < b && (s@[a as int] == '+' || s@[a as int] == '-')),
            start == a ==> !(a < b && (s@[a as int] == '+' || s@[a as int] == '-')),
            forall|m: int| start <= m < k ==> is_num_char(#[trigger] s@[m]),
        decreases b - k,
    {
        if !(('0' <= s[k] && s[k] <= '9') || s[k] == '.') {
            proof {
                assert(u[k - start] == s@[k as int]);
                assert(!is_num_char(u[k - start]));
                assert(decimal_value(u) is None);
                if start > a {
                    assert(t.drop_first() =~= u);
                } else {
                    assert(t =~= u);
                }
            }
            return None;
        }
        k = k + 1;
    }
    if start == b {
        proof {
            assert(u.len() == 0);
            assert(decimal_value(u) is None);
            if start > a {
                assert(t.drop_first() =~= u);
            } else {
                assert(t =~= u);
            }
        }
        return None;
    }
    proof {
        if start > a {
            assert(t.drop_first() =~= u);
        } else {
            assert(t =~= u);
        }
    }
    match number_value(s, start, b) {
        Err(_) => None,
        Ok(q) => {
            if neg {
                Some(Ratio { num: -q.num, den: q.den })
            } else {
                Some(q)
            }
        },
    }
}

proof fn lemma_digits_nonneg(d: Seq<char>)
    requires
        all_digits(d),
    ensures
        digits_val(d) >= 0,
    decreases d.len(),
{
    if d.len() > 0 {
        assert(all_digits(d.drop_last())) by {
            assert forall|k: int| 0 <= k < d.drop_last().len() implies is_digit(#[trigger] d.drop_last()[k]) by {
                assert(d.drop_last()[k] == d[k]);
            }
        }
        lemma_digits_nonneg(d.drop_last());
        assert(is_digit(d[d.len() - 1]));
    }
}

proof fn lemma_pow10_big(k: nat)
    requires
        k >= 20,
    ensures
        pow10(k) > LIMIT,
    decreases k,
{
    if k == 20 {
        reveal_with_fuel(pow10, 21);
    } else {
        lemma_pow10_big((k - 1) as nat);
    }
}

/// The exponent `s[a..b]` (see `exponent_value`), as itself when it is at
/// most 19 in magnitude, else as 20 or -20.
fn exponent_exec(s: &Vec<char>, a: usize, b: usize) -> (r: Option<i64>)
    requires
        a <= b <= s.len(),
    ensures
        match r {
            Some(x) => exponent_value(s@.subrange(a as int, b as int)) matches Some(e) && (
                (-19 <= e <= 19 && x == e) || (e > 19 && x == 20) || (e < -19 && x == -20)),
            None => exponent_value(s@.subrange(a as int, b as int)) is None,
        },
{
    let ghost u = s@.subrange(a as int, b as int);
    let neg = a < b && s[a] == '-';
    let start = if a < b && (s[a] == '+' || s[a] == '-') { a + 1 } else { a };
    let ghost d = s@.subrange(start as int, b as int);
    assert(d == (if u.len() > 0 && (u[0] == '+' || u[0] == '-') { u.drop_first() } else { u }));
    if start == b {
        assert(d.len() == 0);
        return None;
    }
    let mut acc: u64 = 0;
    let mut big = false;
    let mut k = start;
    while k < b
        invariant
            start <= k <= b <= s.len(),
            d == s@.subrange(start as int, b as int),
            u == s@.subrange(a as int, b as int),
            d == (if u.len() > 0 && (u[0] == '+' || u[0] == '-') { u.drop_first() } else { u }),
            neg == (u.len() > 0 && u[0] == '-'),
            all_digits(s@.subrange(start as int, k as int)),
            big ==> digits_val(s@.subrange(start as int, k as int)) > 19,
            !big ==> acc == digits_val(s@.subrange(start as int, k as int)) && acc <= 19,
        decreases b - k,
    {
        let c = s[k];
        if !('0' <= c && c <= '9') {
            proof {
                assert(d[k - start] == c);
                assert(!is_digit(d[k - start]));
            }
            return None;
        }
        let ghost pre = s@.subrange(start as int, k as int);
        let ghost nxt = s@.subrange(start as int, k + 1);
        proof {
            assert(nxt.drop_last() =~= pre);
            assert(all_digits(nxt)) by {
                assert forall|m: int| 0 <= m < nxt.len() implies is_digit(#[trigger] nxt[m]) by {
                    if m < pre.len() {
                        assert(nxt[m] == pre[m]);
                    }
                }
            }
            lemma_digits_nonneg(pre);
        }
        let dv: u64 = (c as u32 - '0' as u32) as u64;
        assert(dv == digit_value(c));
        if !big {
            let nv = acc * 10 + dv;
            if nv > 19 {
                big = true;
            } else {
                acc = nv;
            }
        }
        k = k + 1;
    }
    assert(s@.subrange(start as int, b as int) == d);
    if big {
        if neg { Some(-20) } else { Some(20) }
    } else {
        let x: i64 = acc as i64;
        if neg { Some(-x) } else { Some(x) }
    }
}

/// The value of the literal `s[a..b]` (see `float_literal`).
fn float_exec(s: &Vec<char>, a: usize, b: usize) -> (r: Option<Ratio>)
    requires
        a <= b <= s.len(),
    ensures
        match r {
            Some(q) => float_literal(s@.subrange(a as int, b as int)) == Some(rv(q)) && fits(rv(q)),
            None => float_literal(s@.subrange(a as int, b as int)) is None,
        },
{
    let ghost t = s@.subrange(a as int, b as int);
    let mut p = a;
    while p < b && s[p] != 'e' && s[p] != 'E'
        invariant
            a <= p <= b <= s.len(),
            t == s@.subrange(a as int, b as int),
            first_exp_from(t, 0) == first_exp_from(t, p - a),
        decreases b - p,
    {
        assert(t[p - a] == s@[p as int]);
        p = p + 1;
    }
    if p == b {
        return signed_decimal_exec(s, a, b);
    }
    assert(t[p - a] == s@[p as int]);
    assert(first_exp_from(t, 0) == Some(p - a));
    assert(t.subrange(0, p - a) =~= s@.subrange(a as int, p as int));
    assert(t.subrange(p - a + 1, t.len() as int) =~= s@.subrange(p + 1, b as int));
    let v = match signed_decimal_exec(s, a, p) {
        None => { return None; },
        Some(v) => v,
    };
    let x = match exponent_exec(s, p + 1, b) {
        None => { return None; },
        Some(x) => x,
    };
    if v.num == 0 {
        return Some(Ratio { num: 0, den: 1 });
    }
    let ghost e = exponent_value(t.subrange(p - a + 1, t.len() as int))->0;
    if x == 20 || x == -20 {
        proof {
            if e > 19 {
                lemma_pow10_big(e as nat);
                let a0 = v.num as int;
                let pp = pow10(e as nat);
                if a0 >= 1 {
                    assert(a0 * pp >= pp) by (nonlinear_arith)
                        requires a0 >= 1, pp > 0;
                } else {
                    assert(a0 * pp <= -pp) by (nonlinear_arith)
                        requires a0 <= -1, pp > 0;
                }
            } else {
                lemma_pow10_big((-e) as nat);
                assert(v.den * pow10((-e) as nat) >= pow10((-e) as nat)) by (nonlinear_arith)
                    requires v.den >= 1, pow10((-e) as nat) > 0;
            }
        }
        return None;
    }
    let m: u32 = if x < 0 { (-x) as u32 } else { x as u32 };
    let mut pw: i128 = 1;
    let mut i: u32 = 0;
    while i < m
        invariant
            i <= m <= 19,
            pw == pow10(i as nat),
        decreases m - i,
    {
        proof {
            assert(pow10((i + 1) as nat) == 10 * pow10(i as nat));
            lemma_pow10_upto((i + 1) as nat, 19);
        }
        pw = pw * 10;
        i = i + 1;
    }
    proof {
        lemma_pow10_upto(m as nat, 19);
        lemma_mul_small(v.num as int, pw as int);
        lemma_mul_small(v.den as int, pw as int);
        assert(-19 <= e <= 19 && x == e);
        if e >= 0 {
            assert(m as nat == e as nat);
        } else {
            assert(m as nat == (-e) as nat);
        }
    }
    let ghost sv = signed_decimal(t.subrange(0, p - a));
    assert(sv == Some(rv(v)));
    assert(float_literal(t) == scaled(rv(v), e));
    if x >= 0 {
        let num = v.num * pw;
        assert(scaled(rv(v), e) == (if fits((num as int, v.den as int)) { Some((num as int, v.den as int)) } else { None }));
        if -LIMIT <= num && num <= LIMIT {
            Some(Ratio { num, den: v.den })
        } else {
            None
        }
    } else {
        let den = v.den * pw;
        assert(den >= 1) by (nonlinear_arith)
            requires
                v.den >= 1,
                pw >= 1,
                den == v.den * pw,
        ;
        assert(scaled(rv(v), e) == (if fits((v.num as int, den as int)) { Some((v.num as int, den as int)) } else { None }));
        if den <= LIMIT {
            Some(Ratio { num: v.num, den })
        } else {
            None
        }
    }
}

proof fn lemma_pow10_pos(k: nat)
    ensures
        pow10(k) >= 1,
    decreases k,
{
    if k > 0 {
        lemma_pow10_pos((k - 1) as nat);
    }
}

proof fn lemma_pow10_mono(i: nat, n: nat)
    requires
        i <= n,
    ensures
        pow10(i) <= pow10(n),
    decreases n,
{
    if i < n {
        lemma_pow10_mono(i, (n - 1) as nat);
        lemma_pow10_pos((n - 1) as nat);
    }
}

proof fn lemma_pow10_upto(i: nat, n: nat)
    requires
        i <= n <= 19,
    ensures
        1 <= pow10(i) <= pow10(n) <= 10000000000000000000,
{
    lemma_pow10_pos(i);
    lemma_pow10_mono(i, n);
    lemma_pow10_mono(n, 19);
    reveal_with_fuel(pow10, 20);
}

proof fn lemma_mul_small(x: int, y: int)
    requires
        -LIMIT <= x <= LIMIT,
        1 <= y <= 10000000000000000000,
    ensures
        -LIMIT * 10000000000000000000 <= x * y <= LIMIT * 10000000000000000000,
        0 < y,
{
    assert(-LIMIT * 10000000000000000000 <= x * y <= LIMIT * 10000000000000000000) by (nonlinear_arith)
        requires
            -LIMIT <= x <= LIMIT,
            1 <= y <= 10000000000000000000,
    ;
}

fn digit_end_exec(s: &Vec<char>, i: usize) -> (e: usize)
    requires
        i <= s.len(),
    ensures
        e as int == digit_end(s@, i as int),
        i <= e <= s.len(),
{
    let mut e = i;
    while e < s.len() && '0' <= s[e] && s[e] <= '9'
        invariant
            i <= e <= s.len(),
            digit_end(s@, i as int) == digit_end(s@, e as int),
        decreases s.len() - e,
    {
        e = e + 1;
    }
    e
}

fn percent_exec(s: &Vec<char>) -> (r: Option<Ratio>)
    requires
        s.len() > 0,
    ensures
        match r {
            Some(q) => percent_value(s@) == Some(rv(q)) && fits(rv(q)),
            None => percent_value(s@) is None,
        },
{
    let n = s.len();
    let (pa, pb) = trim_bounds(s, 0, n - 1);
    assert(s@.drop_last() =~= s@.subrange(0, (n - 1) as int));
    match float_exec(s, pa, pb) {
        None => None,
        Some(q) => {
            if q.den <= LIMIT / 100 {
                Some(Ratio { num: q.num, den: q.den * 100 })
            } else {
                None
            }
        },
    }
}

fn fraction_exec(s: &Vec<char>, p: usize) -> (r: Option<Ratio>)
    requires
        p < s.len(),
    ensures
        match r {
            Some(q) => fraction_value(s@, p as int) == Some(rv(q)) && fits(rv(q)),
            None => fraction_value(s@, p as int) is None,
        },
{
    let n = s.len();
    let (xa, xb) = trim_bounds(s, 0, p);
    let (ya, yb) = trim_bounds(s, p + 1, n);
    let x = float_exec(s, xa, xb);
    let y = float_exec(s, ya, yb);
    match (x, y) {
        (Some(qa), Some(qb)) => {
            if qb.num == 0 {
                return None;
            }
            match crate::expr::ratio_div(qa, qb) {
                Ok(q) => Some(q),
                Err(_) => None,
            }
        },
        _ => None,
    }
}

fn leading_exec(s: &Vec<char>) -> (r: Option<Ratio>)
    requires
        s.len() > 0,
    ensures
        match r {
            Some(q) => leading_value(s@) == Some(rv(q)) && fits(rv(q)),
            None => leading_value(s@) is None,
        },
{
    let n = s.len();
    assert(s@.subrange(0, n as int) =~= s@);
    let sl: usize = if s[0] == '+' || s[0] == '-' { 1 } else { 0 };
    let e1 = digit_end_exec(s, sl);
    if e1 == sl {
        return float_exec(s, 0, n);
    }
    let e = if n - e1 > 1 && s[e1] == '.' && '0' <= s[e1 + 1] && s[e1 + 1] <= '9' {
        digit_end_exec(s, e1 + 1)
    } else {
        e1
    };
    signed_decimal_exec(s, 0, e)
}

fn answer_core_exec(s: &Vec<char>) -> (r: Option<Ratio>)
    requires
        s.len() > 0,
    ensures
        match r {
            Some(q) => answer_core(s@) == Some(rv(q)) && fits(rv(q)),
            None => answer_core(s@) is None,
        },
{
    let n = s.len();
    if s[n - 1] == '%' {
        return percent_exec(s);
    }
    let mut p: usize = 0;
    while p < n && s[p] != '/'
        invariant
            p <= n == s.len(),
            forall|j: int| 0 <= j < p ==> s@[j] != '/',
        decreases n - p,
    {
        p = p + 1;
    }
    if p < n {
        proof {
            assert(has_slash(s@));
            let c = first_slash(s@);
            if c < p {
            } else if c > p {
                assert(s@[p as int] != '/');
            }
        }
        return fraction_exec(s, p);
    }
    leading_exec(s)
}

/// The text of an answer that is read (see `answer_text`), or `None` when the
/// trimmed answer is empty.
fn answer_text_exec(ans: &str) -> (r: Option<Vec<char>>)
    ensures
        match r {
            Some(t) => trim(ans@).len() > 0 && t@ == answer_text(ans@),
            None => trim(ans@).len() == 0,
        },
{
    let v = chars_of(ans);
    let (a0, b0) = trim_bounds(&v, 0, v.len());
    assert(v@.subrange(0, v@.len() as int) =~= v@);
    if a0 == b0 {
        return None;
    }
    let mut s0: Vec<char> = Vec::new();
    push_range(&mut s0, &v, a0, b0);
    assert(s0@ =~= trim(ans@));
    let s1 = answer_cleanup_exec(&strip_remarks_exec(&s0));
    let cut = first_sep_exec(&s1);
    let (a, b) = trim_bounds(&s1, 0, cut);
    let mut s: Vec<char> = Vec::new();
    push_range(&mut s, &s1, a, b);
    assert(s@ =~= answer_text(ans@));
    Some(s)
}

/// The numeric value of a written answer: the first part before a separator,
/// with bracketed remarks removed, read as a percentage, a fraction `a/b`, a
/// leading decimal number (units after it are ignored) or a plain literal
/// (with an optional exponent, as float parsing reads it).
pub fn parse_answer_number(ans: &str) -> (r: Option<Ratio>)
    ensures
        match r {
            Some(q) => answer_value(ans@) == Some(rv(q)) && fits(rv(q)),
            None => answer_value(ans@) is None,
        },
{
    match answer_text_exec(ans) {
        None => None,
        Some(s) => {
            if s.len() == 0 {
                None
            } else {
                answer_core_exec(&s)
            }
        },
    }
}

} // verus!
