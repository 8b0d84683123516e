//! Reading a displayed value back: the text that `fmt_spec` produces, when
//! read as a written answer, gives a value that `nearly_eq` accepts.
use vstd::prelude::*;
use crate::text::{is_digit, is_ws, digit_value, trim, trim_start, trim_end, trim_end_char, replace_char};
use crate::expr::{
    digit_char, nat_to_seq, six_digits, pow10, digits_val, all_digits, dec_state,
    decimal_value, fmt_spec, round_half_away, abs, is_num_char,
};
use crate::answer::{
    nearly_eq, answer_value, answer_text, answer_core, answer_cleanup, strip_remarks,
    first_open_from, is_open_bracket, first_sep_from, is_answer_sep,
    leading_value, leading_number_len, digit_end, signed_decimal, has_slash,
};
use crate::expr::{fits, p_factor, p_term, p_term_tail, p_expr, p_expr_tail, eval_spec, remove_ws};

verus! {

proof fn lemma_digit_char(k: int)
    requires
        0 <= k < 10,
    ensures
        is_digit(digit_char(k)),
        digit_value(digit_char(k)) == k,
{
    assert(0 <= k < 10 ==> ((48 + k) as u8) as u32 == 48 + k);
    assert(digit_char(k) as u32 == 48 + k);
}


proof fn lemma_nat_seq(n: nat)
    ensures
        all_digits(nat_to_seq(n)),
        nat_to_seq(n).len() >= 1,
        digits_val(nat_to_seq(n)) == n,
    decreases n,
{
    if n < 10 {
        lemma_digit_char(n as int);
        let s = nat_to_seq(n);
        assert(s.drop_last().len() == 0);
        assert(digits_val(s.drop_last()) == 0);
    } else {
        lemma_nat_seq(n / 10);
        lemma_digit_char((n % 10) as int);
        let s = nat_to_seq(n);
        assert(s.drop_last() =~= nat_to_seq(n / 10));
    }
}

/// The decimal digits of a two-digit number `10 * t + u`.
pub proof fn lemma_two_digits(t: nat, u: nat)
    requires
        1 <= t < 10,
        u < 10,
    ensures
        nat_to_seq(10 * t + u) == seq![((48 + t) as u8) as char, ((48 + u) as u8) as char],
{
    let n = 10 * t + u;
    assert(n / 10 == t);
    assert(n % 10 == u);
    assert(nat_to_seq(t) == seq![digit_char(t as int)]);
    assert(nat_to_seq(n) =~= seq![digit_char(t as int), digit_char(u as int)]);
}

/// Digits of `x + y` read as one number.
proof fn lemma_digits_concat(x: Seq<char>, y: Seq<char>)
    ensures
        digits_val(x + y) == digits_val(x) * pow10(y.len()) + digits_val(y),
    decreases y.len(),
{
    if y.len() == 0 {
        assert(x + y =~= x);
    } else {
        lemma_digits_concat(x, y.drop_last());
        assert((x + y).drop_last() =~= x + y.drop_last());
        let a = digits_val(x);
        let p = pow10((y.len() - 1) as nat);
        let b = digits_val(y.drop_last());
        assert((a * p + b) * 10 == a * (10 * p) + b * 10) by (nonlinear_arith);
    }
}

/// A run of zeros reads as zero.
proof fn lemma_zeros(z: Seq<char>)
    requires
        forall|k: int| 0 <= k < z.len() ==> z[k] == '0',
    ensures
        digits_val(z) == 0,
    decreases z.len(),
{
    if z.len() > 0 {
        lemma_zeros(z.drop_last());
        lemma_digit_char(0);
        assert(z.last() == digit_char(0));
    }
}

proof fn lemma_pow10_pos(k: nat)
    ensures
        pow10(k) >= 1,
    decreases k,
{
    if k > 0 {
        lemma_pow10_pos((k - 1) as nat);
    }
}

proof fn lemma_pow10_split(j: nat, k: nat)
    ensures
        pow10(j) * pow10(k) == pow10(j + k),
    decreases j,
{
    if j > 0 {
        lemma_pow10_split((j - 1) as nat, k);
        let a = pow10((j - 1) as nat);
        let b = pow10(k);
        assert((10 * a) * b == 10 * (a * b)) by (nonlinear_arith);
    }
}


proof fn lemma_six_digits(m: int)
    requires
        0 <= m < 1000000,
    ensures
        six_digits(m).len() == 6,
        all_digits(six_digits(m)),
        digits_val(six_digits(m)) == m,
{
    let s = six_digits(m);
    reveal_with_fuel(pow10, 7);
    assert(pow10(5) == 100000 && pow10(4) == 10000 && pow10(3) == 1000);
    assert(pow10(2) == 100 && pow10(1) == 10 && pow10(0) == 1);
    assert forall|k: int| 0 <= k < 6 implies is_digit(#[trigger] s[k]) && digit_value(s[k]) == (m / pow10((5 - k) as nat)) % 10 by {
        lemma_pow10_pos((5 - k) as nat);
        lemma_digit_char((m / pow10((5 - k) as nat)) % 10);
    }
    let ghost d0 = digit_value(s[0]);
    let ghost d1 = digit_value(s[1]);
    let ghost d2 = digit_value(s[2]);
    let ghost d3 = digit_value(s[3]);
    let ghost d4 = digit_value(s[4]);
    let ghost d5 = digit_value(s[5]);
    assert(s.subrange(0, 1).drop_last() =~= s.subrange(0, 0));
    assert(s.subrange(0, 2).drop_last() =~= s.subrange(0, 1));
    assert(s.subrange(0, 3).drop_last() =~= s.subrange(0, 2));
    assert(s.subrange(0, 4).drop_last() =~= s.subrange(0, 3));
    assert(s.subrange(0, 5).drop_last() =~= s.subrange(0, 4));
    assert(s.subrange(0, 6).drop_last() =~= s.subrange(0, 5));
    assert(s.subrange(0, 6) =~= s);
    assert(digits_val(s.subrange(0, 0)) == 0);
    assert(digits_val(s.subrange(0, 1)) == d0);
    assert(digits_val(s.subrange(0, 2)) == d0 * 10 + d1);
    assert(digits_val(s.subrange(0, 3)) == (d0 * 10 + d1) * 10 + d2);
    assert(digits_val(s.subrange(0, 4)) == ((d0 * 10 + d1) * 10 + d2) * 10 + d3);
    assert(digits_val(s.subrange(0, 5)) == (((d0 * 10 + d1) * 10 + d2) * 10 + d3) * 10 + d4);
    assert(digits_val(s) == ((((d0 * 10 + d1) * 10 + d2) * 10 + d3) * 10 + d4) * 10 + d5);
    assert(((((d0 * 10 + d1) * 10 + d2) * 10 + d3) * 10 + d4) * 10 + d5 == m) by (nonlinear_arith)
        requires
            0 <= m < 1000000,
            d0 == (m / 100000) % 10,
            d1 == (m / 10000) % 10,
            d2 == (m / 1000) % 10,
            d3 == (m / 100) % 10,
            d4 == (m / 10) % 10,
            d5 == (m / 1) % 10,
    ;
}


/// A number as `fmt_spec` writes it: an optional minus sign, the digits `a`,
/// and, when `b` is not empty, a dot and the digits `b`.
pub open spec fn shown_number(a: Seq<char>, b: Seq<char>, neg: bool) -> Seq<char> {
    (if neg { seq!['-'] } else { Seq::<char>::empty() }) + (if b.len() == 0 {
        a
    } else {
        a + seq!['.'] + b
    })
}

/// The value that `shown_number(a, b, neg)` denotes.
pub open spec fn shown_value(a: Seq<char>, b: Seq<char>, neg: bool) -> (int, int) {
    let p = digits_val(a) * pow10(b.len()) + digits_val(b);
    if neg {
        (-p, pow10(b.len()))
    } else {
        (p, pow10(b.len()))
    }
}

proof fn lemma_trim_zeros(x: Seq<char>, y: Seq<char>) -> (j: int)
    requires
        x.len() > 0,
        x.last() != '0',
    ensures
        0 <= j <= y.len(),
        trim_end_char(x + y, '0') == x + y.subrange(0, j),
        forall|i: int| j <= i < y.len() ==> y[i] == '0',
        j > 0 ==> y[j - 1] != '0',
    decreases y.len(),
{
    if y.len() == 0 {
        assert(x + y =~= x);
        assert(x + y.subrange(0, 0) =~= x);
        0
    } else if y.last() == '0' {
        assert((x + y).drop_last() =~= x + y.drop_last());
        let j = lemma_trim_zeros(x, y.drop_last());
        assert(y.drop_last().subrange(0, j) =~= y.subrange(0, j));
        assert forall|i: int| j <= i < y.len() implies y[i] == '0' by {
            if i < y.len() - 1 {
                assert(y.drop_last()[i] == y[i]);
            }
        }
        j
    } else {
        assert(y.subrange(0, y.len() as int) =~= y);
        y.len() as int
    }
}

proof fn lemma_close(n: int, d: int, p: int, k: int, c: int, m: int)
    requires
        d > 0,
        k >= 1,
        c >= 1,
        p >= 0,
        k * c == 1000000,
        p * c == m,
        2 * abs(abs(n) * 1000000 - m * d) <= d,
    ensures
        nearly_eq((n, d), if n < 0 { (-p, k) } else { (p, k) }),
{
    let an = abs(n);
    let x = an * k - p * d;
    assert(x * c == an * 1000000 - m * d) by (nonlinear_arith)
        requires
            k * c == 1000000,
            p * c == m,
            x == an * k - p * d,
    ;
    assert(abs(x) * c == abs(x * c)) by (nonlinear_arith)
        requires
            c >= 1,
    ;
    assert(abs(x) * 1000000 < d * k) by (nonlinear_arith)
        requires
            2 * (abs(x) * c) <= d,
            k * c == 1000000,
            k >= 1,
            d > 0,
            abs(x) >= 0,
    ;
    let b = if n < 0 { (-p, k) } else { (p, k) };
    if n < 0 {
        assert(n * k - (-p) * d == -x) by (nonlinear_arith)
            requires
                an == -n,
                x == an * k - p * d,
        ;
    } else {
        assert(n * k - p * d == x);
    }
    assert(abs(n * b.1 - b.0 * d) == abs(x));
}


proof fn lemma_round(big: int, d: int)
    requires
        big >= 0,
        d > 0,
    ensures
        round_half_away(big, d) >= 0,
        2 * abs(big - round_half_away(big, d) * d) <= d,
{
    let m = (2 * big + d) / (2 * d);
    assert(2 * d * m <= 2 * big + d < 2 * d * m + 2 * d && m >= 0) by (nonlinear_arith)
        requires
            m == (2 * big + d) / (2 * d),
            d > 0,
            big >= 0,
    ;
    assert(2 * d * m == 2 * (m * d)) by (nonlinear_arith);
}

/// What `fmt_spec` writes for a value with a positive denominator, taken
/// apart into sign, integer digits and decimals, and how close that reading
/// is to the value.
proof fn lemma_fmt_form(q: (int, int)) -> (r: (Seq<char>, Seq<char>, bool))
    requires
        q.1 > 0,
    ensures
        all_digits(r.0),
        r.0.len() >= 1,
        all_digits(r.1),
        r.1.len() <= 6,
        fmt_spec(q) == shown_number(r.0, r.1, r.2),
        nearly_eq(q, shown_value(r.0, r.1, r.2)),
{
    let n = q.0;
    let d = q.1;
    let rr = round_half_away(n, d);
    if abs(n - rr * d) * 1000000000 < d {
        let a = nat_to_seq(abs(rr) as nat);
        let e = Seq::<char>::empty();
        lemma_nat_seq(abs(rr) as nat);
        assert(pow10(0) == 1);
        assert(digits_val(e) == 0);
        if rr < 0 {
            assert(fmt_spec(q) =~= shown_number(a, e, true));
        } else {
            assert(fmt_spec(q) =~= shown_number(a, e, false));
        }
        assert(shown_value(a, e, rr < 0) == (rr, 1int));
        assert(abs(n * 1 - rr * d) * 1000000 < d * 1);
        (a, e, rr < 0)
    } else {
        let big = abs(n) * 1000000;
        let m = round_half_away(big, d);
        lemma_round(big, d);
        let q0 = m / 1000000;
        let rem = m % 1000000;
        let a = nat_to_seq(q0 as nat);
        let six = six_digits(rem);
        lemma_nat_seq(q0 as nat);
        lemma_six_digits(rem);
        let x = a + seq!['.'];
        let body = a + seq!['.'] + six;
        let j = lemma_trim_zeros(x, six);
        let b = six.subrange(0, j);
        let tail = six.subrange(j, 6);
        assert(six =~= b + tail);
        lemma_digits_concat(b, tail);
        lemma_zeros(tail);
        lemma_pow10_split(j as nat, (6 - j) as nat);
        reveal_with_fuel(pow10, 7);
        assert(pow10(6) == 1000000);
        let t1 = trim_end_char(body, '0');
        assert(t1 == x + b);
        let t = trim_end_char(t1, '.');
        if j == 0 {
            assert(x + b =~= x);
            assert(x.drop_last() =~= a);
            assert(a.last() != '.') by {
                assert(is_digit(a[a.len() - 1]));
            }
            assert(trim_end_char(a, '.') == a);
            assert(trim_end_char(x, '.') == trim_end_char(a, '.'));
            assert(t == a);
        } else {
            assert((x + b).last() == six[j - 1]);
            assert(is_digit(six[j - 1]));
            assert(t == x + b);
        }
        assert(all_digits(b));
        lemma_pow10_pos(j as nat);
        lemma_pow10_pos((6 - j) as nat);
        let k = pow10(j as nat);
        let c = pow10((6 - j) as nat);
        let p = digits_val(a) * k + digits_val(b);
        assert(rem == digits_val(b) * c);
        assert(p * c == m) by (nonlinear_arith)
            requires
                p == q0 * k + digits_val(b),
                rem == digits_val(b) * c,
                k * c == 1000000,
                m == q0 * 1000000 + rem,
        ;
        assert(digits_val(b) >= 0) by {
            assert(rem >= 0);
            assert(c >= 1);
            if digits_val(b) < 0 {
                assert(digits_val(b) * c < 0) by (nonlinear_arith)
                    requires digits_val(b) < 0, c >= 1;
            }
        }
        assert(p >= 0) by (nonlinear_arith)
            requires
                p == q0 * k + digits_val(b),
                q0 >= 0,
                k >= 1,
                digits_val(b) >= 0,
        ;
        lemma_close(n, d, p, k, c, m);
        if n < 0 {
            assert(fmt_spec(q) =~= shown_number(a, b, true));
        } else {
            assert(fmt_spec(q) =~= shown_number(a, b, false));
        }
        (a, b, n < 0)
    }
}


pub proof fn lemma_dec_digits(a: Seq<char>)
    requires
        all_digits(a),
    ensures
        dec_state(a) == ((digits_val(a), 1int), (false, 0int, a.len() as int)),
    decreases a.len(),
{
    if a.len() > 0 {
        let u = a.drop_last();
        assert(all_digits(u)) by {
            assert forall|k: int| 0 <= k < u.len() implies is_digit(#[trigger] u[k]) by {
                assert(u[k] == a[k]);
            }
        }
        lemma_dec_digits(u);
        assert(is_digit(a[a.len() - 1]));
    }
}

proof fn lemma_dec_frac(a: Seq<char>, b: Seq<char>)
    requires
        all_digits(a),
        all_digits(b),
    ensures
        dec_state(a + seq!['.'] + b) == (
            (digits_val(a) * pow10(b.len()) + digits_val(b), pow10(b.len())),
            (true, 1int, (a.len() + b.len()) as int),
        ),
    decreases b.len(),
{
    if b.len() == 0 {
        assert(a + seq!['.'] + b =~= a.push('.'));
        assert(a.push('.').drop_last() =~= a);
        lemma_dec_digits(a);
    } else {
        let u = b.drop_last();
        assert(all_digits(u)) by {
            assert forall|k: int| 0 <= k < u.len() implies is_digit(#[trigger] u[k]) by {
                assert(u[k] == b[k]);
            }
        }
        lemma_dec_frac(a, u);
        assert((a + seq!['.'] + b).drop_last() =~= a + seq!['.'] + u);
        assert(is_digit(b[b.len() - 1]));
        let x = digits_val(a);
        let p = pow10(u.len());
        let y = digits_val(u);
        assert((x * p + y) * 10 == x * (10 * p) + y * 10) by (nonlinear_arith);
    }
}


pub open spec fn is_plain(c: char) -> bool {
    is_digit(c) || c == '-' || c == '.'
}

proof fn lemma_plain_char(c: char)
    requires
        is_plain(c),
    ensures
        !is_ws(c),
        !is_open_bracket(c),
        !is_answer_sep(c),
        c != '，' && c != ',' && c != '．' && c != '÷' && c != '／' && c != '％' && c != ' ' && c
            != '\u{3000}' && c != '/' && c != '%' && c != '+',
{
}

proof fn lemma_replace_absent(s: Seq<char>, c: char, r: Seq<char>)
    requires
        forall|k: int| 0 <= k < s.len() ==> s[k] != c,
    ensures
        replace_char(s, c, r) == s,
    decreases s.len(),
{
    if s.len() > 0 {
        lemma_replace_absent(s.drop_last(), c, r);
        assert(s.drop_last() + seq![s.last()] =~= s);
    }
}

proof fn lemma_no_open(s: Seq<char>, i: int)
    requires
        0 <= i,
        forall|k: int| 0 <= k < s.len() ==> is_plain(#[trigger] s[k]),
    ensures
        first_open_from(s, i) is None,
    decreases s.len() - i,
{
    if i < s.len() {
        lemma_plain_char(s[i]);
        lemma_no_open(s, i + 1);
    }
}

proof fn lemma_no_sep(s: Seq<char>, i: int)
    requires
        0 <= i <= s.len(),
        forall|k: int| 0 <= k < s.len() ==> is_plain(#[trigger] s[k]),
    ensures
        first_sep_from(s, i) == s.len(),
    decreases s.len() - i,
{
    if i < s.len() {
        lemma_plain_char(s[i]);
        lemma_no_sep(s, i + 1);
    }
}

proof fn lemma_digit_end(s: Seq<char>, i: int, e: int)
    requires
        0 <= i <= e <= s.len(),
        forall|k: int| i <= k < e ==> is_digit(#[trigger] s[k]),
        e == s.len() || !is_digit(s[e]),
    ensures
        digit_end(s, i) == e,
    decreases e - i,
{
    if i < e {
        lemma_digit_end(s, i + 1, e);
    }
}


proof fn lemma_clean_plain(s: Seq<char>)
    requires
        s.len() > 0,
        forall|k: int| 0 <= k < s.len() ==> is_plain(#[trigger] s[k]),
    ensures
        trim(s).len() > 0,
        answer_text(s) == s,
        answer_core(s) == leading_value(s),
{
    lemma_plain_char(s[0]);
    lemma_plain_char(s[s.len() - 1]);
    assert(trim_start(s) == s);
    assert(trim_end(s) == s);
    assert(trim(s) == s);
    lemma_no_open(s, 0);
    assert(s.subrange(0, s.len() as int) =~= s);
    assert(strip_remarks(s) == s);
    assert forall|c: char| !is_plain(c) implies (forall|k: int| 0 <= k < s.len() ==> s[k] != c) by {
        assert forall|k: int| 0 <= k < s.len() implies s[k] != c by {
            assert(is_plain(s[k]));
        }
    }
    let e = Seq::<char>::empty();
    lemma_replace_absent(s, '，', e);
    lemma_replace_absent(s, ',', e);
    lemma_replace_absent(s, '．', seq!['.']);
    lemma_replace_absent(s, '÷', seq!['/']);
    lemma_replace_absent(s, '／', seq!['/']);
    lemma_replace_absent(s, '％', seq!['%']);
    lemma_replace_absent(s, ' ', e);
    lemma_replace_absent(s, '\u{3000}', e);
    assert(answer_cleanup(s) == s);
    lemma_no_sep(s, 0);
    assert(answer_text(s) == s);
    assert(!has_slash(s)) by {
        assert forall|k: int| 0 <= k < s.len() implies s[k] != '/' by {
            lemma_plain_char(s[k]);
        }
    }
    assert(s.last() != '%');
}

proof fn lemma_core_value(a: Seq<char>, b: Seq<char>)
    requires
        all_digits(a),
        a.len() >= 1,
        all_digits(b),
    ensures
        decimal_value(if b.len() == 0 { a } else { a + seq!['.'] + b }) == Some(
            (digits_val(a) * pow10(b.len()) + digits_val(b), pow10(b.len())),
        ),
{
    let core = if b.len() == 0 { a } else { a + seq!['.'] + b };
    assert forall|m: int| 0 <= m < core.len() implies is_num_char(#[trigger] core[m]) by {
        if m < a.len() {
            assert(core[m] == a[m]);
        } else if m > a.len() {
            assert(core[m] == b[m - a.len() - 1]);
        }
    }
    if b.len() == 0 {
        lemma_dec_digits(a);
        assert(pow10(0) == 1);
        assert(digits_val(b) == 0);
    } else {
        lemma_dec_frac(a, b);
    }
}

/// Reading `shown_number(a, b, neg)` as a written answer gives its value, or
/// nothing when that value is out of range.
proof fn lemma_read_shown(a: Seq<char>, b: Seq<char>, neg: bool)
    requires
        all_digits(a),
        a.len() >= 1,
        all_digits(b),
    ensures
        answer_value(shown_number(a, b, neg)) matches Some(x) ==> x == shown_value(a, b, neg),
{
    let s = shown_number(a, b, neg);
    let core = if b.len() == 0 { a } else { a + seq!['.'] + b };
    let sl: int = if neg { 1 } else { 0 };
    assert(s.len() == sl + core.len());
    assert forall|k: int| 0 <= k < core.len() implies is_plain(#[trigger] core[k]) by {
        if k < a.len() {
            assert(core[k] == a[k]);
        } else if k > a.len() {
            assert(core[k] == b[k - a.len() - 1]);
        }
    }
    assert forall|k: int| 0 <= k < s.len() implies is_plain(#[trigger] s[k]) by {
        if k >= sl {
            assert(s[k] == core[k - sl]);
        }
    }
    lemma_clean_plain(s);
    let e1 = sl + a.len();
    assert forall|k: int| sl <= k < e1 implies is_digit(#[trigger] s[k]) by {
        assert(s[k] == a[k - sl]);
    }
    if neg {
        assert(s[0] == '-');
    } else {
        assert(s[0] == a[0]);
        assert(is_digit(a[0]));
        lemma_plain_char(a[0]);
    }
    if b.len() == 0 {
        lemma_digit_end(s, sl, e1);
        assert(leading_number_len(s) == Some(s.len() as int));
    } else {
        assert(s[e1] == '.');
        lemma_digit_end(s, sl, e1);
        assert(s[e1 + 1] == b[0]);
        assert(is_digit(b[0]));
        assert forall|k: int| e1 + 1 <= k < s.len() implies is_digit(#[trigger] s[k]) by {
            assert(s[k] == b[k - e1 - 1]);
        }
        lemma_digit_end(s, e1 + 1, s.len() as int);
        assert(leading_number_len(s) == Some(s.len() as int));
    }
    assert(s.subrange(0, s.len() as int) =~= s);
    assert(leading_value(s) == signed_decimal(s));
    if neg {
        assert(s.drop_first() =~= core);
    } else {
        assert(s =~= core);
    }
    lemma_core_value(a, b);
}


proof fn lemma_factor_fits(s: Seq<char>, i: int)
    ensures
        p_factor(s, i) matches Ok((v, _)) ==> fits(v),
    decreases s.len() - i, 0int,
{
    if 0 <= i < s.len() {
        if s[i] == '(' {
            lemma_expr_fits(s, i + 1);
        } else if s[i] == '-' {
            lemma_factor_fits(s, i + 1);
        }
    }
}

proof fn lemma_term_tail_fits(s: Seq<char>, i: int, acc: (int, int))
    requires
        fits(acc),
    ensures
        p_term_tail(s, i, acc) matches Ok((v, _)) ==> fits(v),
    decreases s.len() - i, 1int,
{
    if 0 <= i < s.len() && (s[i] == '*' || s[i] == '/') {
        lemma_factor_fits(s, i + 1);
        match p_factor(s, i + 1) {
            Err(e) => {},
            Ok((v, j)) => {
                if i + 1 < j <= s.len() {
                    let r = if s[i] == '*' { crate::expr::q_mul(acc, v) } else { crate::expr::q_div(acc, v) };
                    if fits(r) {
                        lemma_term_tail_fits(s, j, r);
                    }
                }
            },
        }
    }
}

proof fn lemma_term_fits(s: Seq<char>, i: int)
    ensures
        p_term(s, i) matches Ok((v, _)) ==> fits(v),
    decreases s.len() - i, 1int,
{
    lemma_factor_fits(s, i);
    match p_factor(s, i) {
        Err(e) => {},
        Ok((v, j)) => {
            if i < j <= s.len() {
                lemma_term_tail_fits(s, j, v);
            }
        },
    }
}

proof fn lemma_expr_tail_fits(s: Seq<char>, i: int, acc: (int, int))
    requires
        fits(acc),
    ensures
        p_expr_tail(s, i, acc) matches Ok((v, _)) ==> fits(v),
    decreases s.len() - i, 2int,
{
    if 0 <= i < s.len() && (s[i] == '+' || s[i] == '-') {
        lemma_term_fits(s, i + 1);
        match p_term(s, i + 1) {
            Err(e) => {},
            Ok((v, j)) => {
                if i + 1 < j <= s.len() {
                    let r = if s[i] == '+' { crate::expr::q_add(acc, v) } else { crate::expr::q_sub(acc, v) };
                    if fits(r) {
                        lemma_expr_tail_fits(s, j, r);
                    }
                }
            },
        }
    }
}

proof fn lemma_expr_fits(s: Seq<char>, i: int)
    ensures
        p_expr(s, i) matches Ok((v, _)) ==> fits(v),
    decreases s.len() - i, 2int,
{
    lemma_term_fits(s, i);
    match p_term(s, i) {
        Err(e) => {},
        Ok((v, j)) => {
            if i < j <= s.len() {
                lemma_expr_tail_fits(s, j, v);
            }
        },
    }
}

/// A value that an expression evaluates to is in range.
pub proof fn lemma_eval_fits(s: Seq<char>)
    ensures
        eval_spec(s) matches Ok(v) ==> fits(v),
{
    lemma_expr_fits(remove_ws(s), 0);
}

/// The text that `fmt_spec` writes for a value, read back as a written answer,
/// gives either nothing or a value that agrees with it.
pub proof fn lemma_shown_value_reads_back(q: (int, int))
    requires
        q.1 > 0,
    ensures
        answer_value(fmt_spec(q)) matches Some(x) ==> nearly_eq(q, x),
{
    let (a, b, neg) = lemma_fmt_form(q);
    lemma_read_shown(a, b, neg);
}

} // verus!
