//! Exact evaluation of simple arithmetic expressions (`+ - * /`, parentheses,
//! unary minus, decimal numbers) over rationals, and their decimal display.
//!
//! Every value the evaluator holds is a fraction `num/den` with `den > 0` whose
//! parts are at most `LIMIT` in size; a computation that would leave that range
//! reports `Overflow`.
use vstd::prelude::*;
use crate::text::{chars_of, digit_value, is_digit, is_ws, is_ws_char, trim_end_char, trim_end_char_bound};

verus! {

pub const LIMIT: i128 = 4611686018427387904i128;

/// A fraction `num / den`.
#[derive(Clone, Copy, Debug, PartialEq, Eq, Structural)]
pub struct Ratio {
    pub num: i128,
    pub den: i128,
}

/// Why an expression could not be evaluated.
#[derive(Clone, Copy, Debug, PartialEq, Eq, Structural)]
pub enum ExprError {
    /// A divisor evaluated to zero or to less than 1e-12 in magnitude.
    DivisionByZero,
    /// The expression ended where a number or `(` was expected.
    Incomplete,
    /// A `(` has no matching `)`.
    UnclosedParen,
    /// A character that cannot start a number.
    Unexpected(char),
    /// The characters `[start, end)` form a malformed number.
    InvalidNumber(usize, usize),
    /// Characters remain after a complete expression.
    TrailingInput,
    /// An intermediate value left the representable range.
    Overflow,
}

pub open spec fn fits(q: (int, int)) -> bool {
    -LIMIT <= q.0 <= LIMIT && 0 < q.1 <= LIMIT
}

pub open spec fn rv(r: Ratio) -> (int, int) {
    (r.num as int, r.den as int)
}

pub open spec fn q_add(a: (int, int), b: (int, int)) -> (int, int) {
    (a.0 * b.1 + b.0 * a.1, a.1 * b.1)
}

pub open spec fn q_sub(a: (int, int), b: (int, int)) -> (int, int) {
    (a.0 * b.1 - b.0 * a.1, a.1 * b.1)
}

pub open spec fn q_mul(a: (int, int), b: (int, int)) -> (int, int) {
    (a.0 * b.0, a.1 * b.1)
}

pub open spec fn q_div(a: (int, int), b: (int, int)) -> (int, int) {
    if b.0 > 0 {
        (a.0 * b.1, a.1 * b.0)
    } else {
        (-(a.0 * b.1), -(a.1 * b.0))
    }
}

pub open spec fn q_neg(a: (int, int)) -> (int, int) {
    (-a.0, a.1)
}

pub open spec fn pow10(k: nat) -> int
    decreases k,
{
    if k == 0 {
        1
    } else {
        10 * pow10((k - 1) as nat)
    }
}

/// The integer that a run of decimal digits denotes.
pub open spec fn digits_val(t: Seq<char>) -> int
    decreases t.len(),
{
    if t.len() == 0 {
        0
    } else {
        digits_val(t.drop_last()) * 10 + digit_value(t.last())
    }
}

pub open spec fn all_digits(t: Seq<char>) -> bool {
    forall|k: int| 0 <= k < t.len() ==> is_digit(#[trigger] t[k])
}

pub open spec fn is_num_char(c: char) -> bool {
    is_digit(c) || c == '.'
}

/// End of the run of digits and dots that starts at `i`.
pub open spec fn num_end(s: Seq<char>, i: int) -> int
    decreases s.len() - i,
{
    if 0 <= i < s.len() && is_num_char(s[i]) {
        num_end(s, i + 1)
    } else {
        i
    }
}

/// Reading a run of digits and dots left to right: the digits read so far as
/// one integer, the power of ten that the digits after a dot contribute, whether
/// a dot was seen, the number of dots and the number of digits.
pub open spec fn dec_state(t: Seq<char>) -> ((int, int), (bool, int, int))
    decreases t.len(),
{
    if t.len() == 0 {
        ((0, 1), (false, 0, 0))
    } else {
        let prev = dec_state(t.drop_last());
        let c = t.last();
        if c == '.' {
            (prev.0, (true, prev.1.1 + 1, prev.1.2))
        } else {
            (
                (prev.0.0 * 10 + digit_value(c), if prev.1.0 { prev.0.1 * 10 } else { prev.0.1 }),
                (prev.1.0, prev.1.1, prev.1.2 + 1),
            )
        }
    }
}

/// The value of a decimal literal made of digits and dots: `ddd`, `ddd.ddd`,
/// `ddd.` or `.ddd` (at least one digit, at most one dot).
pub open spec fn decimal_value(t: Seq<char>) -> Option<(int, int)> {
    let st = dec_state(t);
    if (forall|k: int| 0 <= k < t.len() ==> is_num_char(#[trigger] t[k])) && st.1.1 <= 1
        && st.1.2 >= 1 {
        Some(st.0)
    } else {
        None
    }
}

pub open spec fn p_factor(s: Seq<char>, i: int) -> Result<((int, int), int), ExprError>
    decreases s.len() - i, 0int,
{
    if i < 0 || i >= s.len() {
        Err(ExprError::Incomplete)
    } else if s[i] == '(' {
        match p_expr(s, i + 1) {
            Err(e) => Err(e),
            Ok((v, j)) => if i < j < s.len() && s[j] == ')' {
                Ok((v, j + 1))
            } else {
                Err(ExprError::UnclosedParen)
            },
        }
    } else if s[i] == '-' {
        match p_factor(s, i + 1) {
            Err(e) => Err(e),
            Ok((v, j)) => Ok((q_neg(v), j)),
        }
    } else {
        let e = num_end(s, i);
        if e == i {
            Err(ExprError::Unexpected(s[i]))
        } else {
            match decimal_value(s.subrange(i, e)) {
                None => Err(ExprError::InvalidNumber(i as usize, e as usize)),
                Some(v) => if fits(v) {
                    Ok((v, e))
                } else {
                    Err(ExprError::Overflow)
                },
            }
        }
    }
}

pub open spec fn p_term_tail(s: Seq<char>, i: int, acc: (int, int)) -> Result<
    ((int, int), int),
    ExprError,
>
    decreases s.len() - i, 1int,
{
    if 0 <= i < s.len() && (s[i] == '*' || s[i] == '/') {
        match p_factor(s, i + 1) {
            Err(e) => Err(e),
            Ok((v, j)) => if i + 1 < j <= s.len() {
                if s[i] == '/' && abs(v.0) * 1000000000000 < v.1 {
                    Err(ExprError::DivisionByZero)
                } else {
                    let r = if s[i] == '*' {
                        q_mul(acc, v)
                    } else {
                        q_div(acc, v)
                    };
                    if fits(r) {
                        p_term_tail(s, j, r)
                    } else {
                        Err(ExprError::Overflow)
                    }
                }
            } else {
                Err(ExprError::Incomplete)
            },
        }
    } else {
        Ok((acc, i))
    }
}

pub open spec fn p_term(s: Seq<char>, i: int) -> Result<((int, int), int), ExprError>
    decreases s.len() - i, 1int,
{
    match p_factor(s, i) {
        Err(e) => Err(e),
        Ok((v, j)) => if i < j <= s.len() {
            p_term_tail(s, j, v)
        } else {
            Err(ExprError::Incomplete)
        },
    }
}

pub open spec fn p_expr_tail(s: Seq<char>, i: int, acc: (int, int)) -> Result<
    ((int, int), int),
    ExprError,
>
    decreases s.len() - i, 2int,
{
    if 0 <= i < s.len() && (s[i] == '+' || s[i] == '-') {
        match p_term(s, i + 1) {
            Err(e) => Err(e),
            Ok((v, j)) => if i + 1 < j <= s.len() {
                let r = if s[i] == '+' {
                    q_add(acc, v)
                } else {
                    q_sub(acc, v)
                };
                if fits(r) {
                    p_expr_tail(s, j, r)
                } else {
                    Err(ExprError::Overflow)
                }
            } else {
                Err(ExprError::Incomplete)
            },
        }
    } else {
        Ok((acc, i))
    }
}

pub open spec fn p_expr(s: Seq<char>, i: int) -> Result<((int, int), int), ExprError>
    decreases s.len() - i, 2int,
{
    match p_term(s, i) {
        Err(e) => Err(e),
        Ok((v, j)) => if i < j <= s.len() {
            p_expr_tail(s, j, v)
        } else {
            Err(ExprError::Incomplete)
        },
    }
}

/// `s` without its white space.
pub open spec fn remove_ws(s: Seq<char>) -> Seq<char>
    decreases s.len(),
{
    if s.len() == 0 {
        s
    } else if is_ws(s.last()) {
        remove_ws(s.drop_last())
    } else {
        remove_ws(s.drop_last()).push(s.last())
    }
}

/// The value of the whole expression `s` (white space ignored).
pub open spec fn eval_spec(s: Seq<char>) -> Result<(int, int), ExprError> {
    let t = remove_ws(s);
    match p_expr(t, 0) {
        Err(e) => Err(e),
        Ok((v, j)) => if j == t.len() {
            Ok(v)
        } else {
            Err(ExprError::TrailingInput)
        },
    }
}

pub open spec fn res_view(r: Result<(Ratio, usize), ExprError>) -> Result<((int, int), int), ExprError> {
    match r {
        Ok((q, j)) => Ok((rv(q), j as int)),
        Err(e) => Err(e),
    }
}

pub open spec fn ok_within(r: Result<(Ratio, usize), ExprError>, i: int, len: int) -> bool {
    &&& r matches Ok((q, j)) ==> fits(rv(q)) && i < j <= len
    &&& r matches Err(ExprError::InvalidNumber(a, b)) ==> a <= b <= len
}

pub proof fn lemma_mul_bound(x: int, y: int)
    requires
        -LIMIT <= x <= LIMIT,
        -LIMIT <= y <= LIMIT,
    ensures
        -(LIMIT * LIMIT) <= x * y <= LIMIT * LIMIT,
{
    assert(-(LIMIT * LIMIT) <= x * y <= LIMIT * LIMIT) by (nonlinear_arith)
        requires
            -LIMIT <= x <= LIMIT,
            -LIMIT <= y <= LIMIT,
    ;
}

proof fn lemma_den_pos(x: int, y: int)
    requires
        0 < x,
        0 < y,
    ensures
        0 < x * y,
{
    assert(0 < x * y) by (nonlinear_arith)
        requires
            0 < x,
            0 < y,
    ;
}

/// The fraction `r` checked against the representable range.
fn checked(n: i128, d: i128) -> (r: Result<Ratio, ExprError>)
    ensures
        r matches Ok(q) ==> rv(q) == (n as int, d as int) && fits(rv(q)),
        r is Err ==> !fits((n as int, d as int)) && r == Err::<Ratio, ExprError>(
            ExprError::Overflow,
        ),
{
    if -LIMIT <= n && n <= LIMIT && 0 < d && d <= LIMIT {
        Ok(Ratio { num: n, den: d })
    } else {
        Err(ExprError::Overflow)
    }
}


proof fn lemma_num_end_at(s: Seq<char>, i: int, e: int)
    requires
        0 <= i <= e <= s.len(),
        forall|k: int| i <= k < e ==> is_num_char(#[trigger] s[k]),
        e == s.len() || !is_num_char(s[e]),
    ensures
        num_end(s, i) == e,
    decreases e - i,
{
    if i < e {
        lemma_num_end_at(s, i + 1, e);
    }
}

proof fn lemma_remove_ws_none(s: Seq<char>)
    requires
        forall|k: int| 0 <= k < s.len() ==> !is_ws(#[trigger] s[k]),
    ensures
        remove_ws(s) == s,
    decreases s.len(),
{
    if s.len() > 0 {
        let u = s.drop_last();
        assert forall|k: int| 0 <= k < u.len() implies !is_ws(#[trigger] u[k]) by {
            assert(u[k] == s[k]);
        }
        lemma_remove_ws_none(u);
        assert(!is_ws(s[s.len() - 1]));
        assert(u.push(s.last()) =~= s);
    }
}

/// A run of digits `d` at `i`, followed by an operator or the end, is one factor.
proof fn lemma_digit_factor(s: Seq<char>, i: int, d: Seq<char>)
    requires
        0 <= i,
        i + d.len() <= s.len(),
        d.len() >= 1,
        all_digits(d),
        s.subrange(i, i + d.len()) == d,
        i + d.len() == s.len() || s[i + d.len()] == '/' || s[i + d.len()] == '*' || s[i + d.len()] == '+'
            || s[i + d.len()] == '-',
        digits_val(d) <= LIMIT,
    ensures
        p_factor(s, i) == Ok::<((int, int), int), ExprError>(((digits_val(d), 1int), i + d.len())),
        digits_val(d) >= 0,
{
    let e = i + d.len();
    assert(s[i] == d[0]);
    assert forall|k: int| i <= k < e implies is_num_char(#[trigger] s[k]) by {
        assert(s[k] == d[k - i]);
    }
    lemma_num_end_at(s, i, e);
    crate::readback::lemma_dec_digits(d);
    assert(s.subrange(i, e) == d);
    lemma_digits_nonneg(d);
}

proof fn lemma_digits_nonneg(d: Seq<char>)
    requires
        all_digits(d),
    ensures
        digits_val(d) >= 0,
    decreases d.len(),
{
    if d.len() > 0 {
        let u = d.drop_last();
        assert forall|k: int| 0 <= k < u.len() implies is_digit(#[trigger] u[k]) by {
            assert(u[k] == d[k]);
        }
        lemma_digits_nonneg(u);
        assert(is_digit(d[d.len() - 1]));
    }
}

/// Division and multiplication associate to the left: for numbers written
/// with digits `a`, `b`, `c` (with `b`, `c` not zero), `a/b/c` is `(a/b)/c`
/// and `a/b*c` is `(a/b)·c`; each operator of a term takes one factor as
/// its right operand.
pub proof fn lemma_terms_associate_left(a: Seq<char>, b: Seq<char>, c: Seq<char>)
    requires
        a.len() >= 1 && all_digits(a),
        b.len() >= 1 && all_digits(b),
        c.len() >= 1 && all_digits(c),
        digits_val(a) <= LIMIT,
        1 <= digits_val(b),
        1 <= digits_val(c),
        digits_val(b) * digits_val(c) <= LIMIT,
        digits_val(a) * digits_val(c) <= LIMIT,
    ensures
        eval_spec(a + seq!['/'] + b + seq!['/'] + c) == Ok::<(int, int), ExprError>(
            (digits_val(a), digits_val(b) * digits_val(c)),
        ),
        eval_spec(a + seq!['/'] + b + seq!['*'] + c) == Ok::<(int, int), ExprError>(
            (digits_val(a) * digits_val(c), digits_val(b)),
        ),
{
    let x = digits_val(a);
    let y = digits_val(b);
    let z = digits_val(c);
    assert(y <= LIMIT && z <= LIMIT) by (nonlinear_arith)
        requires y >= 1, z >= 1, y * z <= LIMIT;
    lemma_assoc_one(a, b, c, '/');
    lemma_assoc_one(a, b, c, '*');
}

/// A run of digits `d` at `i`, followed by `+`, `-` or the end, is a whole term.
proof fn lemma_digit_term(s: Seq<char>, i: int, d: Seq<char>)
    requires
        0 <= i,
        i + d.len() <= s.len(),
        d.len() >= 1,
        all_digits(d),
        s.subrange(i, i + d.len()) == d,
        i + d.len() == s.len() || s[i + d.len()] == '+' || s[i + d.len()] == '-',
        digits_val(d) <= LIMIT,
    ensures
        p_term(s, i) == Ok::<((int, int), int), ExprError>(((digits_val(d), 1int), i + d.len())),
        digits_val(d) >= 0,
{
    lemma_digit_factor(s, i, d);
}

proof fn lemma_no_ws3(s: Seq<char>, a: Seq<char>, b: Seq<char>, c: Seq<char>, o1: char, o2: char)
    requires
        s == a + seq![o1] + b + seq![o2] + c,
        all_digits(a),
        all_digits(b),
        all_digits(c),
        !is_ws(o1),
        !is_ws(o2),
    ensures
        remove_ws(s) == s,
        s.subrange(0, a.len() as int) == a,
        s.subrange((a.len() + 1) as int, (a.len() + 1 + b.len()) as int) == b,
        s.subrange((a.len() + 2 + b.len()) as int, s.len() as int) == c,
        s[a.len() as int] == o1,
        s[(a.len() + 1 + b.len()) as int] == o2,
{
    let na = a.len() as int;
    let j1 = na + 1 + b.len();
    assert forall|k: int| 0 <= k < s.len() implies !is_ws(#[trigger] s[k]) by {
        if k < na {
            assert(s[k] == a[k]);
            assert(is_digit(a[k]));
        } else if na < k < j1 {
            assert(s[k] == b[k - na - 1]);
            assert(is_digit(b[k - na - 1]));
        } else if k > j1 {
            assert(s[k] == c[k - j1 - 1]);
            assert(is_digit(c[k - j1 - 1]));
        }
    }
    lemma_remove_ws_none(s);
    assert(s.subrange(0, na) =~= a);
    assert(s.subrange(na + 1, j1) =~= b);
    assert(s.subrange(j1 + 1, s.len() as int) =~= c);
}

proof fn lemma_case_sub_sub(a: Seq<char>, b: Seq<char>, c: Seq<char>)
    requires
        a.len() >= 1 && all_digits(a),
        b.len() >= 1 && all_digits(b),
        c.len() >= 1 && all_digits(c),
        digits_val(a) <= 1000000000,
        digits_val(b) <= 1000000000,
        digits_val(c) <= 1000000000,
    ensures
        eval_spec(a + seq!['-'] + b + seq!['-'] + c) == Ok::<(int, int), ExprError>((digits_val(a) - digits_val(b) - digits_val(c), 1int)),
{
    let x = digits_val(a);
    let y = digits_val(b);
    let z = digits_val(c);
    let na = a.len() as int;
    let j1 = na + 1 + b.len();
    lemma_digits_nonneg(a);
    lemma_digits_nonneg(b);
    lemma_digits_nonneg(c);
    assert(0 <= y * z <= 1000000000000000000 && 0 <= x * y <= 1000000000000000000) by (nonlinear_arith)
        requires 0 <= x <= 1000000000, 0 <= y <= 1000000000, 0 <= z <= 1000000000;
    assert(x * 1 == x && y * 1 == y && z * 1 == z && 1 * y == y && 1 * z == z && 1 * 1 == 1) by (nonlinear_arith);
    // a-b-c
    let s1 = a + seq!['-'] + b + seq!['-'] + c;
    lemma_no_ws3(s1, a, b, c, '-', '-');
    lemma_digit_term(s1, 0, a);
    lemma_digit_term(s1, na + 1, b);
    lemma_digit_term(s1, j1 + 1, c);
    assert(p_term_tail(s1, na, (x, 1)) == Ok::<((int, int), int), ExprError>(((x, 1int), na)));
    assert(p_term(s1, 0) == Ok::<((int, int), int), ExprError>(((x, 1int), na)));
    assert(q_sub((x, 1), (y, 1)) == (x - y, 1int));
    assert(q_sub((x - y, 1), (z, 1)) == (x - y - z, 1int));
    assert(p_expr_tail(s1, s1.len() as int, (x - y - z, 1)) == Ok::<((int, int), int), ExprError>(((x - y - z, 1int), s1.len() as int)));
    assert(p_expr_tail(s1, j1, (x - y, 1)) == Ok::<((int, int), int), ExprError>(((x - y - z, 1int), s1.len() as int)));
    assert(p_expr(s1, 0) == Ok::<((int, int), int), ExprError>(((x - y - z, 1int), s1.len() as int)));
}

proof fn lemma_case_add_mul(a: Seq<char>, b: Seq<char>, c: Seq<char>)
    requires
        a.len() >= 1 && all_digits(a),
        b.len() >= 1 && all_digits(b),
        c.len() >= 1 && all_digits(c),
        digits_val(a) <= 1000000000,
        digits_val(b) <= 1000000000,
        digits_val(c) <= 1000000000,
    ensures
        eval_spec(a + seq!['+'] + b + seq!['*'] + c) == Ok::<(int, int), ExprError>((digits_val(a) + digits_val(b) * digits_val(c), 1int)),
{
    let x = digits_val(a);
    let y = digits_val(b);
    let z = digits_val(c);
    let na = a.len() as int;
    let j1 = na + 1 + b.len();
    lemma_digits_nonneg(a);
    lemma_digits_nonneg(b);
    lemma_digits_nonneg(c);
    assert(0 <= y * z <= 1000000000000000000 && 0 <= x * y <= 1000000000000000000) by (nonlinear_arith)
        requires 0 <= x <= 1000000000, 0 <= y <= 1000000000, 0 <= z <= 1000000000;
    assert(x * 1 == x && y * 1 == y && z * 1 == z && 1 * y == y && 1 * z == z && 1 * 1 == 1) by (nonlinear_arith);
    // a+b*c
    let s2 = a + seq!['+'] + b + seq!['*'] + c;
    lemma_no_ws3(s2, a, b, c, '+', '*');
    lemma_digit_term(s2, 0, a);
    lemma_digit_factor(s2, na + 1, b);
    lemma_digit_factor(s2, j1 + 1, c);
    assert(p_term_tail(s2, na, (x, 1)) == Ok::<((int, int), int), ExprError>(((x, 1int), na)));
    assert(q_mul((y, 1), (z, 1)) == (y * z, 1int));
    assert(p_term_tail(s2, s2.len() as int, (y * z, 1)) == Ok::<((int, int), int), ExprError>(((y * z, 1int), s2.len() as int)));
    assert(p_term_tail(s2, j1, (y, 1)) == Ok::<((int, int), int), ExprError>(((y * z, 1int), s2.len() as int)));
    assert(p_term(s2, na + 1) == Ok::<((int, int), int), ExprError>(((y * z, 1int), s2.len() as int)));
    assert(q_add((x, 1), (y * z, 1)) == (x + y * z, 1int));
    assert(p_expr_tail(s2, s2.len() as int, (x + y * z, 1)) == Ok::<((int, int), int), ExprError>(((x + y * z, 1int), s2.len() as int)));
    assert(p_expr_tail(s2, na, (x, 1)) == Ok::<((int, int), int), ExprError>(((x + y * z, 1int), s2.len() as int)));
    assert(p_expr(s2, 0) == Ok::<((int, int), int), ExprError>(((x + y * z, 1int), s2.len() as int)));
}

proof fn lemma_case_mul_sub(a: Seq<char>, b: Seq<char>, c: Seq<char>)
    requires
        a.len() >= 1 && all_digits(a),
        b.len() >= 1 && all_digits(b),
        c.len() >= 1 && all_digits(c),
        digits_val(a) <= 1000000000,
        digits_val(b) <= 1000000000,
        digits_val(c) <= 1000000000,
    ensures
        eval_spec(a + seq!['*'] + b + seq!['-'] + c) == Ok::<(int, int), ExprError>((digits_val(a) * digits_val(b) - digits_val(c), 1int)),
{
    let x = digits_val(a);
    let y = digits_val(b);
    let z = digits_val(c);
    let na = a.len() as int;
    let j1 = na + 1 + b.len();
    lemma_digits_nonneg(a);
    lemma_digits_nonneg(b);
    lemma_digits_nonneg(c);
    assert(0 <= y * z <= 1000000000000000000 && 0 <= x * y <= 1000000000000000000) by (nonlinear_arith)
        requires 0 <= x <= 1000000000, 0 <= y <= 1000000000, 0 <= z <= 1000000000;
    assert(x * 1 == x && y * 1 == y && z * 1 == z && 1 * y == y && 1 * z == z && 1 * 1 == 1) by (nonlinear_arith);
    // a*b-c
    let s3 = a + seq!['*'] + b + seq!['-'] + c;
    lemma_no_ws3(s3, a, b, c, '*', '-');
    lemma_digit_factor(s3, 0, a);
    lemma_digit_term(s3, na + 1, b);
    lemma_digit_term(s3, j1 + 1, c);
    assert(q_mul((x, 1), (y, 1)) == (x * y, 1int));
    assert(p_term_tail(s3, j1, (x * y, 1)) == Ok::<((int, int), int), ExprError>(((x * y, 1int), j1)));
    assert(p_term_tail(s3, na, (x, 1)) == Ok::<((int, int), int), ExprError>(((x * y, 1int), j1)));
    assert(p_term(s3, 0) == Ok::<((int, int), int), ExprError>(((x * y, 1int), j1)));
    assert((x * y) * 1 == x * y) by (nonlinear_arith);
    assert(q_sub((x * y, 1), (z, 1)) == (x * y - z, 1int));
    assert(p_expr_tail(s3, s3.len() as int, (x * y - z, 1)) == Ok::<((int, int), int), ExprError>(((x * y - z, 1int), s3.len() as int)));
    assert(p_expr_tail(s3, j1, (x * y, 1)) == Ok::<((int, int), int), ExprError>(((x * y - z, 1int), s3.len() as int)));
    assert(p_expr(s3, 0) == Ok::<((int, int), int), ExprError>(((x * y - z, 1int), s3.len() as int)));
}

/// Addition and subtraction associate to the left and give way to
/// multiplication: for numbers written with digits `a`, `b`, `c` (below
/// 10⁹), `a-b-c` is `(a-b)-c`, `a+b*c` is `a+(b·c)` and `a*b-c` is
/// `(a·b)-c`.
pub proof fn lemma_sums_and_products(a: Seq<char>, b: Seq<char>, c: Seq<char>)
    requires
        a.len() >= 1 && all_digits(a),
        b.len() >= 1 && all_digits(b),
        c.len() >= 1 && all_digits(c),
        digits_val(a) <= 1000000000,
        digits_val(b) <= 1000000000,
        digits_val(c) <= 1000000000,
    ensures
        eval_spec(a + seq!['-'] + b + seq!['-'] + c) == Ok::<(int, int), ExprError>(
            (digits_val(a) - digits_val(b) - digits_val(c), 1int),
        ),
        eval_spec(a + seq!['+'] + b + seq!['*'] + c) == Ok::<(int, int), ExprError>(
            (digits_val(a) + digits_val(b) * digits_val(c), 1int),
        ),
        eval_spec(a + seq!['*'] + b + seq!['-'] + c) == Ok::<(int, int), ExprError>(
            (digits_val(a) * digits_val(b) - digits_val(c), 1int),
        ),
{
    lemma_case_sub_sub(a, b, c);
    lemma_case_add_mul(a, b, c);
    lemma_case_mul_sub(a, b, c);
}

proof fn lemma_assoc_one(a: Seq<char>, b: Seq<char>, c: Seq<char>, op: char)
    requires
        op == '/' || op == '*',
        a.len() >= 1 && all_digits(a),
        b.len() >= 1 && all_digits(b),
        c.len() >= 1 && all_digits(c),
        digits_val(a) <= LIMIT,
        1 <= digits_val(b) <= LIMIT,
        1 <= digits_val(c) <= LIMIT,
        digits_val(b) * digits_val(c) <= LIMIT,
        digits_val(a) * digits_val(c) <= LIMIT,
    ensures
        eval_spec(a + seq!['/'] + b + seq![op] + c) == Ok::<(int, int), ExprError>(
            if op == '/' {
                (digits_val(a), digits_val(b) * digits_val(c))
            } else {
                (digits_val(a) * digits_val(c), digits_val(b))
            },
        ),
{
    let s = a + seq!['/'] + b + seq![op] + c;
    let x = digits_val(a);
    let y = digits_val(b);
    let z = digits_val(c);
    let na = a.len() as int;
    let nb = b.len() as int;
    let j1 = na + 1 + nb;
    assert forall|k: int| 0 <= k < s.len() implies !is_ws(#[trigger] s[k]) by {
        if k < na {
            assert(s[k] == a[k]);
            assert(is_digit(a[k]));
        } else if na < k < j1 {
            assert(s[k] == b[k - na - 1]);
            assert(is_digit(b[k - na - 1]));
        } else if k > j1 {
            assert(s[k] == c[k - j1 - 1]);
            assert(is_digit(c[k - j1 - 1]));
        }
    }
    lemma_remove_ws_none(s);
    assert(s.subrange(0, na) =~= a);
    assert(s.subrange(na + 1, j1) =~= b);
    assert(s.subrange(j1 + 1, s.len() as int) =~= c);
    assert(s[na] == '/');
    assert(s[j1] == op);
    lemma_digit_factor(s, 0, a);
    lemma_digit_factor(s, na + 1, b);
    lemma_digit_factor(s, j1 + 1, c);
    let r1 = q_div((x, 1), (y, 1));
    assert(r1 == (x, y));
    assert(fits(r1));
    assert(!(abs(y) * 1000000000000 < 1));
    let r2 = if op == '*' { q_mul(r1, (z, 1)) } else { q_div(r1, (z, 1)) };
    assert(x * 1 == x && y * 1 == y && 1 * y == y) by (nonlinear_arith);
    if op == '/' {
        assert(r2 == q_div((x, y), (z, 1)));
        assert(r2 == (x, y * z));
    } else {
        assert(r2 == q_mul((x, y), (z, 1)));
        assert(r2 == (x * z, y));
    }
    assert(y * z >= 1) by (nonlinear_arith)
        requires y >= 1, z >= 1;
    assert(x * z >= 0) by (nonlinear_arith)
        requires x >= 0, z >= 1;
    assert(fits(r2));
    assert(!(abs(z) * 1000000000000 < 1));
    assert(p_term_tail(s, s.len() as int, r2) == Ok::<((int, int), int), ExprError>((r2, s.len() as int)));
    assert(p_term_tail(s, j1, r1) == Ok::<((int, int), int), ExprError>((r2, s.len() as int)));
    assert(p_term_tail(s, na, (x, 1)) == Ok::<((int, int), int), ExprError>((r2, s.len() as int)));
    assert(p_term(s, 0) == Ok::<((int, int), int), ExprError>((r2, s.len() as int)));
    assert(p_expr_tail(s, s.len() as int, r2) == Ok::<((int, int), int), ExprError>((r2, s.len() as int)));
    assert(p_expr(s, 0) == Ok::<((int, int), int), ExprError>((r2, s.len() as int)));
}

pub fn ratio_add(a: Ratio, b: Ratio) -> (r: Result<Ratio, ExprError>)
    requires
        fits(rv(a)),
        fits(rv(b)),
    ensures
        r matches Ok(q) ==> rv(q) == q_add(rv(a), rv(b)) && fits(rv(q)),
        r is Err ==> !fits(q_add(rv(a), rv(b))) && r == Err::<Ratio, ExprError>(
            ExprError::Overflow,
        ),
{
    proof {
        lemma_mul_bound(a.num as int, b.den as int);
        lemma_mul_bound(b.num as int, a.den as int);
        lemma_mul_bound(a.den as int, b.den as int);
    }
    checked(a.num * b.den + b.num * a.den, a.den * b.den)
}

pub fn ratio_sub(a: Ratio, b: Ratio) -> (r: Result<Ratio, ExprError>)
    requires
        fits(rv(a)),
        fits(rv(b)),
    ensures
        r matches Ok(q) ==> rv(q) == q_sub(rv(a), rv(b)) && fits(rv(q)),
        r is Err ==> !fits(q_sub(rv(a), rv(b))) && r == Err::<Ratio, ExprError>(
            ExprError::Overflow,
        ),
{
    proof {
        lemma_mul_bound(a.num as int, b.den as int);
        lemma_mul_bound(b.num as int, a.den as int);
        lemma_mul_bound(a.den as int, b.den as int);
    }
    checked(a.num * b.den - b.num * a.den, a.den * b.den)
}

pub fn ratio_mul(a: Ratio, b: Ratio) -> (r: Result<Ratio, ExprError>)
    requires
        fits(rv(a)),
        fits(rv(b)),
    ensures
        r matches Ok(q) ==> rv(q) == q_mul(rv(a), rv(b)) && fits(rv(q)),
        r is Err ==> !fits(q_mul(rv(a), rv(b))) && r == Err::<Ratio, ExprError>(
            ExprError::Overflow,
        ),
{
    proof {
        lemma_mul_bound(a.num as int, b.num as int);
        lemma_mul_bound(a.den as int, b.den as int);
    }
    checked(a.num * b.num, a.den * b.den)
}

pub fn ratio_div(a: Ratio, b: Ratio) -> (r: Result<Ratio, ExprError>)
    requires
        fits(rv(a)),
        fits(rv(b)),
        b.num != 0,
    ensures
        r matches Ok(q) ==> rv(q) == q_div(rv(a), rv(b)) && fits(rv(q)),
        r is Err ==> !fits(q_div(rv(a), rv(b))) && r == Err::<Ratio, ExprError>(
            ExprError::Overflow,
        ),
{
    proof {
        lemma_mul_bound(a.num as int, b.den as int);
        lemma_mul_bound(a.den as int, b.num as int);
    }
    if b.num > 0 {
        checked(a.num * b.den, a.den * b.num)
    } else {
        checked(-(a.num * b.den), -(a.den * b.num))
    }
}


proof fn lemma_dec_state_grows(t: Seq<char>, k: int)
    requires
        0 <= k <= t.len(),
        forall|m: int| 0 <= m < t.len() ==> is_num_char(#[trigger] t[m]),
    ensures
        0 <= dec_state(t.subrange(0, k)).0.0 <= dec_state(t).0.0,
        0 < dec_state(t.subrange(0, k)).0.1 <= dec_state(t).0.1,
        dec_state(t.subrange(0, k)).1.1 <= dec_state(t).1.1,
        dec_state(t.subrange(0, k)).1.2 <= dec_state(t).1.2,
    decreases t.len() - k,
{
    if k == t.len() {
        assert(t.subrange(0, k) =~= t);
        lemma_dec_state_pos(t);
    } else {
        let u = t.drop_last();
        assert forall|m: int| 0 <= m < u.len() implies is_num_char(#[trigger] u[m]) by {
            assert(u[m] == t[m]);
        }
        lemma_dec_state_grows(u, k);
        assert(u.subrange(0, k) =~= t.subrange(0, k));
        lemma_dec_state_pos(u);
        let c = t.last();
        if c != '.' {
            assert(is_digit(c));
        }
    }
}

proof fn lemma_dec_state_pos(t: Seq<char>)
    requires
        forall|m: int| 0 <= m < t.len() ==> is_num_char(#[trigger] t[m]),
    ensures
        0 <= dec_state(t).0.0,
        0 < dec_state(t).0.1,
        0 <= dec_state(t).1.1,
        0 <= dec_state(t).1.2,
    decreases t.len(),
{
    if t.len() > 0 {
        let u = t.drop_last();
        assert forall|m: int| 0 <= m < u.len() implies is_num_char(#[trigger] u[m]) by {
            assert(u[m] == t[m]);
        }
        lemma_dec_state_pos(u);
        let c = t.last();
        if c != '.' {
            assert(is_digit(c));
        }
    }
}

fn is_num_char_exec(c: char) -> (r: bool)
    ensures
        r == is_num_char(c),
{
    ('0' <= c && c <= '9') || c == '.'
}

/// End of the run of digits and dots that starts at `i`.
pub fn scan_num_end(s: &Vec<char>, i: usize) -> (e: usize)
    requires
        i <= s.len(),
    ensures
        e == num_end(s@, i as int),
        i <= e <= s.len(),
        forall|k: int| i <= k < e ==> is_num_char(#[trigger] s@[k]),
{
    let mut e = i;
    while e < s.len() && is_num_char_exec(s[e])
        invariant
            i <= e <= s.len(),
            num_end(s@, i as int) == num_end(s@, e as int),
            forall|k: int| i <= k < e ==> is_num_char(#[trigger] s@[k]),
        decreases s.len() - e,
    {
        e = e + 1;
    }
    e
}

/// The value of the decimal literal `s[i..e]`.
pub fn number_value(s: &Vec<char>, i: usize, e: usize) -> (r: Result<Ratio, ExprError>)
    requires
        i < e <= s.len(),
        forall|k: int| i <= k < e ==> is_num_char(#[trigger] s@[k]),
    ensures
        ({
            let t = s@.subrange(i as int, e as int);
            match decimal_value(t) {
                None => r == Err::<Ratio, ExprError>(ExprError::InvalidNumber(i, e)),
                Some(v) => if fits(v) {
                    r matches Ok(q) && rv(q) == v
                } else {
                    r == Err::<Ratio, ExprError>(ExprError::Overflow)
                },
            }
        }),
{
    let ghost t = s@.subrange(i as int, e as int);
    proof {
        assert forall|m: int| 0 <= m < t.len() implies is_num_char(#[trigger] t[m]) by {
            assert(t[m] == s@[i + m]);
        }
    }
    let mut dots: usize = 0;
    let mut digits: usize = 0;
    let mut k = i;
    while k < e
        invariant
            i <= k <= e <= s.len(),
            t == s@.subrange(i as int, e as int),
            dots as int == dec_state(s@.subrange(i as int, k as int)).1.1,
            digits as int == dec_state(s@.subrange(i as int, k as int)).1.2,
            dots + digits == k - i,
        decreases e - k,
    {
        proof {
            assert(s@.subrange(i as int, k + 1).drop_last() =~= s@.subrange(i as int, k as int));
        }
        if s[k] == '.' {
            dots = dots + 1;
        } else {
            digits = digits + 1;
        }
        k = k + 1;
    }
    assert(s@.subrange(i as int, k as int) =~= t);
    if dots > 1 || digits == 0 {
        return Err(ExprError::InvalidNumber(i, e));
    }
    let mut num: i128 = 0;
    let mut den: i128 = 1;
    let mut seen = false;
    k = i;
    while k < e
        invariant
            i <= k <= e <= s.len(),
            t == s@.subrange(i as int, e as int),
            forall|m: int| 0 <= m < t.len() ==> is_num_char(#[trigger] t[m]),
            dec_state(s@.subrange(i as int, k as int)) == ((num as int, den as int), (
                seen,
                dec_state(s@.subrange(i as int, k as int)).1.1,
                dec_state(s@.subrange(i as int, k as int)).1.2,
            )),
            0 <= num <= LIMIT,
            0 < den <= LIMIT,
            dec_state(t).1.1 <= 1,
            dec_state(t).1.2 >= 1,
        decreases e - k,
    {
        proof {
            assert(s@.subrange(i as int, k + 1).drop_last() =~= s@.subrange(i as int, k as int));
            assert(s@.subrange(i as int, k + 1) =~= t.subrange(0, k + 1 - i));
            lemma_dec_state_grows(t, k + 1 - i);
        }
        let c = s[k];
        if c != '.' {
            let d = (c as u32 - '0' as u32) as i128;
            num = num * 10 + d;
            if seen {
                den = den * 10;
            }
            if num > LIMIT || den > LIMIT {
                proof {
                    assert(dec_state(s@.subrange(i as int, k + 1)).0 == (num as int, den as int));
                    assert(!fits(dec_state(t).0));
                }
                return Err(ExprError::Overflow);
            }
        } else {
            seen = true;
        }
        k = k + 1;
    }
    assert(s@.subrange(i as int, k as int) =~= t);
    Ok(Ratio { num, den })
}

fn parse_factor(s: &Vec<char>, i: usize) -> (r: Result<(Ratio, usize), ExprError>)
    ensures
        res_view(r) == p_factor(s@, i as int),
        ok_within(r, i as int, s.len() as int),
    decreases s.len() - i, 0int,
{
    if i >= s.len() {
        return Err(ExprError::Incomplete);
    }
    if s[i] == '(' {
        match parse_expr(s, i + 1) {
            Err(e) => Err(e),
            Ok((v, j)) => {
                if j < s.len() && s[j] == ')' {
                    Ok((v, j + 1))
                } else {
                    Err(ExprError::UnclosedParen)
                }
            },
        }
    } else if s[i] == '-' {
        match parse_factor(s, i + 1) {
            Err(e) => Err(e),
            Ok((v, j)) => Ok((Ratio { num: -v.num, den: v.den }, j)),
        }
    } else {
        let e = scan_num_end(s, i);
        if e == i {
            return Err(ExprError::Unexpected(s[i]));
        }
        match number_value(s, i, e) {
            Err(err) => Err(err),
            Ok(v) => Ok((v, e)),
        }
    }
}

fn parse_term_tail(s: &Vec<char>, i: usize, acc: Ratio) -> (r: Result<(Ratio, usize), ExprError>)
    requires
        fits(rv(acc)),
        i <= s.len(),
    ensures
        res_view(r) == p_term_tail(s@, i as int, rv(acc)),
        r matches Ok((q, j)) ==> fits(rv(q)) && i <= j <= s.len(),
        r matches Err(ExprError::InvalidNumber(a, b)) ==> a <= b <= s.len(),
    decreases s.len() - i, 1int,
{
    if i < s.len() && (s[i] == '*' || s[i] == '/') {
        match parse_factor(s, i + 1) {
            Err(e) => Err(e),
            Ok((v, j)) => {
                let an: i128 = if v.num < 0 { -v.num } else { v.num };
                if s[i] == '/' && an * 1000000000000i128 < v.den {
                    return Err(ExprError::DivisionByZero);
                }
                let r = if s[i] == '*' {
                    ratio_mul(acc, v)
                } else {
                    ratio_div(acc, v)
                };
                match r {
                    Err(e) => Err(e),
                    Ok(q) => parse_term_tail(s, j, q),
                }
            },
        }
    } else {
        Ok((acc, i))
    }
}

fn parse_term(s: &Vec<char>, i: usize) -> (r: Result<(Ratio, usize), ExprError>)
    ensures
        res_view(r) == p_term(s@, i as int),
        ok_within(r, i as int, s.len() as int),
    decreases s.len() - i, 1int,
{
    match parse_factor(s, i) {
        Err(e) => Err(e),
        Ok((v, j)) => parse_term_tail(s, j, v),
    }
}

fn parse_expr_tail(s: &Vec<char>, i: usize, acc: Ratio) -> (r: Result<(Ratio, usize), ExprError>)
    requires
        fits(rv(acc)),
        i <= s.len(),
    ensures
        res_view(r) == p_expr_tail(s@, i as int, rv(acc)),
        r matches Ok((q, j)) ==> fits(rv(q)) && i <= j <= s.len(),
        r matches Err(ExprError::InvalidNumber(a, b)) ==> a <= b <= s.len(),
    decreases s.len() - i, 2int,
{
    if i < s.len() && (s[i] == '+' || s[i] == '-') {
        match parse_term(s, i + 1) {
            Err(e) => Err(e),
            Ok((v, j)) => {
                let r = if s[i] == '+' {
                    ratio_add(acc, v)
                } else {
                    ratio_sub(acc, v)
                };
                match r {
                    Err(e) => Err(e),
                    Ok(q) => parse_expr_tail(s, j, q),
                }
            },
        }
    } else {
        Ok((acc, i))
    }
}

fn parse_expr(s: &Vec<char>, i: usize) -> (r: Result<(Ratio, usize), ExprError>)
    ensures
        res_view(r) == p_expr(s@, i as int),
        ok_within(r, i as int, s.len() as int),
    decreases s.len() - i, 2int,
{
    match parse_term(s, i) {
        Err(e) => Err(e),
        Ok((v, j)) => parse_expr_tail(s, j, v),
    }
}

proof fn lemma_remove_ws_push(s: Seq<char>, c: char)
    ensures
        remove_ws(s.push(c)) == if is_ws(c) { remove_ws(s) } else { remove_ws(s).push(c) },
{
    assert(s.push(c).drop_last() =~= s);
}

/// The characters of `s` other than white space.
pub fn without_ws(s: &str) -> (v: Vec<char>)
    ensures
        v@ == remove_ws(s@),
{
    let c = chars_of(s);
    let mut v: Vec<char> = Vec::new();
    let mut i: usize = 0;
    while i < c.len()
        invariant
            i <= c.len(),
            c@ == s@,
            v@ == remove_ws(c@.subrange(0, i as int)),
        decreases c.len() - i,
    {
        proof {
            lemma_remove_ws_push(c@.subrange(0, i as int), c@[i as int]);
            assert(c@.subrange(0, i as int).push(c@[i as int]) =~= c@.subrange(0, i + 1));
        }
        if !is_ws_char(c[i]) {
            v.push(c[i]);
        }
        i = i + 1;
    }
    assert(c@.subrange(0, c.len() as int) =~= c@);
    v
}

/// Evaluates an arithmetic expression exactly (white space is ignored).
pub fn eval_expr(expr: &str) -> (r: Result<Ratio, ExprError>)
    ensures
        match r {
            Ok(q) => eval_spec(expr@) == Ok::<(int, int), ExprError>(rv(q)),
            Err(e) => eval_spec(expr@) == Err::<(int, int), ExprError>(e),
        },
        r matches Ok(q) ==> fits(rv(q)),
        r matches Err(ExprError::InvalidNumber(a, b)) ==> a <= b <= remove_ws(expr@).len(),
{
    let chars = without_ws(expr);
    match parse_expr(&chars, 0) {
        Err(e) => Err(e),
        Ok((v, j)) => {
            if j == chars.len() {
                Ok(v)
            } else {
                Err(ExprError::TrailingInput)
            }
        },
    }
}

pub open spec fn abs(x: int) -> int {
    if x < 0 {
        -x
    } else {
        x
    }
}

/// `n / d` rounded to the nearest integer, halves away from zero (`f64::round`).
pub open spec fn round_half_away(n: int, d: int) -> int {
    if n >= 0 {
        (2 * n + d) / (2 * d)
    } else {
        -((2 * (-n) + d) / (2 * d))
    }
}

pub open spec fn digit_char(k: int) -> char {
    ((48 + k) as u8) as char
}

/// Decimal digits of `n`, most significant first, without leading zeros.
pub open spec fn nat_to_seq(n: nat) -> Seq<char>
    decreases n,
{
    if n < 10 {
        seq![digit_char(n as int)]
    } else {
        nat_to_seq(n / 10).push(digit_char((n % 10) as int))
    }
}

/// Decimal form of an integer, with `-` for negative values.
pub open spec fn int_to_seq(z: int) -> Seq<char> {
    if z < 0 {
        seq!['-'] + nat_to_seq((-z) as nat)
    } else {
        nat_to_seq(z as nat)
    }
}

/// The six digits of `m` (below one million), zero padded.
pub open spec fn six_digits(m: int) -> Seq<char> {
    Seq::new(6, |k: int| digit_char((m / pow10((5 - k) as nat)) % 10))
}

/// How a value is displayed: as an integer when it is within 1e-9 of one,
/// otherwise with six decimals rounded and the trailing zeros (and then a
/// trailing dot) removed.
pub open spec fn fmt_spec(q: (int, int)) -> Seq<char> {
    let n = q.0;
    let d = q.1;
    let r = round_half_away(n, d);
    if abs(n - r * d) * 1000000000 < d {
        int_to_seq(r)
    } else {
        let m = round_half_away(abs(n) * 1000000, d);
        let body = nat_to_seq((m / 1000000) as nat) + seq!['.'] + six_digits(m % 1000000);
        let t = trim_end_char(trim_end_char(body, '0'), '.');
        if n < 0 {
            seq!['-'] + t
        } else {
            t
        }
    }
}

fn push_digit(out: &mut Vec<char>, k: u128)
    requires
        k < 10,
    ensures
        final(out)@ == old(out)@.push(digit_char(k as int)),
{
    let b: u8 = 48u8 + (k as u8);
    out.push(b as char);
}

/// Appends the decimal digits of `n`.
pub fn push_nat_digits(out: &mut Vec<char>, n: u128)
    ensures
        final(out)@ == old(out)@ + nat_to_seq(n as nat),
    decreases n,
{
    if n < 10 {
        push_digit(out, n);
        assert(nat_to_seq(n as nat) =~= seq![digit_char(n as int)]);
    } else {
        let ghost before = out@;
        push_nat_digits(out, n / 10);
        push_digit(out, n % 10);
        assert(out@ =~= before + nat_to_seq(n as nat));
    }
}

/// Appends the decimal form of `z`.
pub fn push_int_digits(out: &mut Vec<char>, z: i128)
    requires
        z > i128::MIN,
    ensures
        final(out)@ == old(out)@ + int_to_seq(z as int),
{
    if z < 0 {
        let ghost before = out@;
        out.push('-');
        push_nat_digits(out, (-z) as u128);
        assert(out@ =~= before + int_to_seq(z as int));
    } else {
        push_nat_digits(out, z as u128);
    }
}

fn round_half_away_exec(n: i128, d: i128) -> (r: i128)
    requires
        -(LIMIT * 1000000) <= n <= LIMIT * 1000000,
        0 < d <= LIMIT,
    ensures
        r == round_half_away(n as int, d as int),
        -(LIMIT * 1000000) <= r <= LIMIT * 1000000,
{
    proof {
        assert(0 <= (2 * abs(n as int) + d) / (2 * d) <= abs(n as int)) by (nonlinear_arith)
            requires
                0 < d,
                0 <= abs(n as int),
        ;
    }
    if n >= 0 {
        let a = n as u128;
        let dd = d as u128;
        ((2 * a + dd) / (2 * dd)) as i128
    } else {
        let a = (-n) as u128;
        let dd = d as u128;
        -(((2 * a + dd) / (2 * dd)) as i128)
    }
}

/// The display form of a value (see `fmt_spec`).
pub fn format_ratio(q: Ratio) -> (out: Vec<char>)
    requires
        fits(rv(q)),
    ensures
        out@ == fmt_spec(rv(q)),
{
    let n = q.num;
    let d = q.den;
    let r = round_half_away_exec(n, d);
    proof {
        assert(abs(n as int) <= LIMIT);
        assert(-LIMIT <= r <= LIMIT) by {
            assert(0 <= (2 * abs(n as int) + d) / (2 * d as int) <= abs(n as int)) by (nonlinear_arith)
                requires
                    0 < d,
                    0 <= abs(n as int),
            ;
        }
        lemma_mul_bound(r as int, d as int);
    }
    let diff = n - r * d;
    let adiff: i128 = if diff < 0 { -diff } else { diff };
    proof {
        assert(adiff <= LIMIT * LIMIT + LIMIT);
    }
    let mut out: Vec<char> = Vec::new();
    if adiff <= LIMIT && adiff * 1000000000 < d {
        push_int_digits(&mut out, r);
        assert(out@ =~= int_to_seq(r as int));
        return out;
    }
    let an: i128 = if n < 0 { -n } else { n };
    let m = round_half_away_exec(an * 1000000, d);
    proof {
        assert(m >= 0);
    }
    let um = m as u128;
    let mut body: Vec<char> = Vec::new();
    push_nat_digits(&mut body, um / 1000000);
    body.push('.');
    let frac = um % 1000000;
    let mut p: u128 = 100000;
    let mut k: usize = 0;
    let ghost head = body@;
    proof {
        reveal_with_fuel(pow10, 7);
    }
    while k < 6
        invariant
            k <= 6,
            p as int == pow10((5 - k) as nat) || k == 6,
            frac < 1000000,
            body@ == head + six_digits(frac as int).subrange(0, k as int),
        decreases 6 - k,
    {
        proof {
            reveal_with_fuel(pow10, 7);
        }
        push_digit(&mut body, (frac / p) % 10);
        assert(body@ =~= head + six_digits(frac as int).subrange(0, k + 1));
        if k < 5 {
            p = p / 10;
        }
        k = k + 1;
    }
    assert(six_digits(frac as int).subrange(0, 6) =~= six_digits(frac as int));
    let b1 = trim_end_char_bound(&body, 0, body.len(), '0');
    let b2 = trim_end_char_bound(&body, 0, b1, '.');
    assert(body@.subrange(0, body@.len() as int) =~= body@);
    if n < 0 {
        out.push('-');
    }
    let mut i: usize = 0;
    let ghost pre = out@;
    while i < b2
        invariant
            i <= b2 <= body.len(),
            out@ == pre + body@.subrange(0, i as int),
        decreases b2 - i,
    {
        out.push(body[i]);
        i = i + 1;
        assert(out@ =~= pre + body@.subrange(0, i as int));
    }
    proof {
        let nn = n as int;
        let dd = d as int;
        let rr = round_half_away(nn, dd);
        assert(rr == r);
        assert(abs(nn - rr * dd) == adiff);
        assert(!(abs(nn - rr * dd) * 1000000000 < dd));
        assert(abs(nn) == an);
        let mm = round_half_away(abs(nn) * 1000000, dd);
        assert(mm == m);
        assert(head == nat_to_seq((mm / 1000000) as nat) + seq!['.']);
        let bodys = nat_to_seq((mm / 1000000) as nat) + seq!['.'] + six_digits(mm % 1000000);
        assert(body@ =~= bodys);
        assert(body@.subrange(0, b2 as int) == trim_end_char(trim_end_char(bodys, '0'), '.'));
    }
    assert(out@ =~= fmt_spec(rv(q)));
    out
}
} // verus!
