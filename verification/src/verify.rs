//! Checking the answers of arithmetic items: an item whose stem is mainly a
//! calculation has its expression extracted, evaluated exactly and compared
//! with the written answer.
use vstd::prelude::*;
use crate::text::{
    chars_of, contains, extend_chars, is_digit, is_ws, is_ws_char, replace_char, replace_char_exec,
    string_of, string_of_range,
};
use crate::expr::{
    eval_expr, eval_spec, fits, fmt_spec, format_ratio, is_num_char, num_end, remove_ws, rv,
    scan_num_end, without_ws, ExprError, Ratio,
};
use crate::answer::{answer_value, nearly_eq, nearly_eq_exec, parse_answer_number};

verus! {

/// One item of a paper, as the checks read it: its stem, its answer as text and
/// its explanation when that is a string.
#[derive(Clone, Debug)]
pub struct PaperItem {
    pub stem: String,
    pub answer: String,
    pub analysis: Option<String>,
}

/// One section of a paper; `items` is `None` when the section has no item list.
#[derive(Clone, Debug)]
pub struct PaperSection {
    pub items: Option<Vec<PaperItem>>,
}

/// The check of one item.
#[derive(Clone, Debug)]
pub struct VerifyItemResult {
    pub section_index: usize,
    pub item_index: usize,
    pub stem: String,
    pub answer: String,
    /// ok | mismatch | skip | error
    pub status: String,
    pub computed: Option<String>,
    pub message: String,
}

/// The checks of all items of a paper, with their counts.
#[derive(Clone, Debug)]
pub struct VerifyReport {
    pub total: usize,
    pub checked: usize,
    pub ok: usize,
    pub mismatch: usize,
    pub skipped: usize,
    pub items: Vec<VerifyItemResult>,
}

/// The text of a stem with the full-width and typographic operators replaced by
/// their ASCII forms and spaces removed.
pub open spec fn normalize_math_spec(s: Seq<char>) -> Seq<char> {
    let e = Seq::<char>::empty();
    let a = replace_char(s, '×', seq!['*']);
    let b = replace_char(a, '÷', seq!['/']);
    let c = replace_char(b, '＋', seq!['+']);
    let d = replace_char(c, '－', seq!['-']);
    let f = replace_char(d, '—', seq!['-']);
    let g = replace_char(f, '–', seq!['-']);
    let h = replace_char(g, '（', seq!['(']);
    let i = replace_char(h, '）', seq![')']);
    let j = replace_char(i, '＝', seq!['=']);
    let k = replace_char(j, '．', seq!['.']);
    let l = replace_char(k, ' ', e);
    replace_char(l, '\u{3000}', e)
}

pub open spec fn is_op(c: char) -> bool {
    c == '+' || c == '-' || c == '*' || c == '/'
}

pub open spec fn is_expr_char(c: char) -> bool {
    is_num_char(c) || is_op(c) || c == '(' || c == ')'
}

/// End of the run of expression characters that starts at `i`.
pub open spec fn expr_end(s: Seq<char>, i: int) -> int
    decreases s.len() - i,
{
    if 0 <= i < s.len() && is_expr_char(s[i]) {
        expr_end(s, i + 1)
    } else {
        i
    }
}

/// The leftmost position `i` at or after `from` where a run of digits and dots
/// starts that is directly followed by an operator, with the operator's position.
pub open spec fn first_operation_from(s: Seq<char>, from: int) -> Option<(int, int)>
    decreases s.len() - from,
{
    if from < 0 || from >= s.len() {
        None
    } else if is_num_char(s[from]) && num_end(s, from) < s.len() && is_op(s[num_end(s, from)]) {
        Some((from, num_end(s, from)))
    } else {
        first_operation_from(s, from + 1)
    }
}

/// First position at or after `from` holding an expression character.
pub open spec fn first_expr_char_from(s: Seq<char>, from: int) -> Option<int>
    decreases s.len() - from,
{
    if from < 0 || from >= s.len() {
        None
    } else if is_expr_char(s[from]) {
        Some(from)
    } else {
        first_expr_char_from(s, from + 1)
    }
}

/// First position at or after `from` holding a digit.
pub open spec fn first_digit_from(s: Seq<char>, from: int) -> Option<int>
    decreases s.len() - from,
{
    if from < 0 || from >= s.len() {
        None
    } else if is_digit(s[from]) {
        Some(from)
    } else {
        first_digit_from(s, from + 1)
    }
}

pub open spec fn has_op(s: Seq<char>) -> bool {
    exists|k: int| 0 <= k < s.len() && is_op(s[k])
}

/// The first run of expression characters, when it holds an operator.
pub open spec fn second_choice(s: Seq<char>) -> Option<Seq<char>> {
    match first_expr_char_from(s, 0) {
        None => None,
        Some(i) => {
            let m = s.subrange(i, expr_end(s, i));
            if has_op(m) {
                Some(m)
            } else {
                None
            }
        },
    }
}

/// The expression that a stem asks for, e.g. `6*7` for "6×7＝": the first
/// number directly followed by an operator, with the expression characters
/// after it, from its first digit on; or else the first run of expression
/// characters, when it holds an operator.
pub open spec fn extract_expr_spec(stem: Seq<char>) -> Option<Seq<char>> {
    let s = normalize_math_spec(stem);
    match first_operation_from(s, 0) {
        Some((i, e)) => {
            let m = s.subrange(i, expr_end(s, e + 1));
            let t = match first_digit_from(m, 0) {
                Some(p) => m.subrange(p, m.len() as int),
                None => m,
            };
            if has_op(t) {
                Some(t)
            } else {
                second_choice(s)
            }
        },
        None => second_choice(s),
    }
}

/// Characters a stem may hold besides its numbers and operators without
/// counting: white space, underscores and dashes (blanks to fill in).
pub open spec fn is_blank_char(c: char) -> bool {
    is_ws(c) || c == '＿' || c == '_' || c == '—' || c == '–'
}

pub open spec fn is_math_char(c: char) -> bool {
    is_digit(c) || c == '+' || c == '-' || c == '*' || c == '/' || c == '×' || c == '÷' || c
        == '＋' || c == '－' || c == '=' || c == '＝' || c == '.' || c == '．' || c == '(' || c
        == ')' || c == '（' || c == '）'
}

/// Numbers of arithmetic characters and of other counted characters in `s`.
pub open spec fn calc_counts(s: Seq<char>) -> (int, int)
    decreases s.len(),
{
    if s.len() == 0 {
        (0, 0)
    } else {
        let p = calc_counts(s.drop_last());
        let c = s.last();
        if is_blank_char(c) {
            p
        } else if is_math_char(c) {
            (p.0 + 1, p.1)
        } else {
            (p.0, p.1 + 1)
        }
    }
}

/// A stem is a pure calculation when it has at least 3 arithmetic characters,
/// at most 4 other characters, and at least three quarters of its counted
/// characters are arithmetic.
pub open spec fn pure_calc_spec(stem: Seq<char>) -> bool {
    let c = calc_counts(stem);
    c.0 >= 3 && c.1 <= 4 && 4 * c.0 >= 3 * (c.0 + c.1)
}

pub open spec fn should_try_spec(stem: Seq<char>) -> bool {
    extract_expr_spec(stem) is Some && pure_calc_spec(stem)
}

/// The message for an evaluation error; `t` is the expression without white space.
pub open spec fn error_text(e: ExprError, t: Seq<char>) -> Seq<char> {
    match e {
        ExprError::DivisionByZero => "除数为 0"@,
        ExprError::Incomplete => "表达式不完整"@,
        ExprError::UnclosedParen => "括号不匹配"@,
        ExprError::Unexpected(c) => "无法解析: "@.push(c),
        ExprError::InvalidNumber(a, b) => "数字无效: "@ + t.subrange(a as int, b as int),
        ExprError::TrailingInput => "表达式含无法识别字符"@,
        ExprError::Overflow => "数值超出可计算范围"@,
    }
}

/// Status, computed value and message of the check of one item.
pub open spec fn item_outcome(stem: Seq<char>, answer: Seq<char>) -> (Seq<char>, Option<Seq<char>>, Seq<char>) {
    if !should_try_spec(stem) {
        ("skip"@, None, "非可自动验算题型"@)
    } else {
        let expr = extract_expr_spec(stem).unwrap();
        match answer_value(answer) {
            None => ("skip"@, None, "答案无法解析为数值"@),
            Some(a) => match eval_spec(expr) {
                Ok(v) => if nearly_eq(v, a) {
                    ("ok"@, Some(fmt_spec(v)), "一致"@)
                } else {
                    (
                        "mismatch"@,
                        Some(fmt_spec(v)),
                        "算式 "@ + expr + " 计算得 "@ + fmt_spec(v) + "，卷面答案为 "@ + answer,
                    )
                },
                Err(e) => ("error"@, None, error_text(e, remove_ws(expr))),
            },
        }
    }
}

pub open spec fn opt_view(o: Option<String>) -> Option<Seq<char>> {
    match o {
        Some(s) => Some(s@),
        None => None,
    }
}

pub open spec fn result_is(r: VerifyItemResult, si: int, ii: int, item: PaperItem) -> bool {
    &&& r.section_index == si
    &&& r.item_index == ii
    &&& r.stem@ == item.stem@
    &&& r.answer@ == item.answer@
    &&& (r.status@, opt_view(r.computed), r.message@) == item_outcome(item.stem@, item.answer@)
}

/// The items of a paper in reading order, each with its section and item index.
pub open spec fn flat_items(sections: Seq<PaperSection>) -> Seq<(int, int, PaperItem)>
    decreases sections.len(),
{
    if sections.len() == 0 {
        Seq::empty()
    } else {
        let si = sections.len() - 1;
        flat_items(sections.drop_last()) + match sections.last().items {
            Some(v) => Seq::new(v@.len(), |ii: int| (si, ii, v@[ii])),
            None => Seq::empty(),
        }
    }
}

pub open spec fn count_status(items: Seq<VerifyItemResult>, st: Seq<char>) -> nat
    decreases items.len(),
{
    if items.len() == 0 {
        0
    } else {
        count_status(items.drop_last(), st) + if items.last().status@ == st {
            1nat
        } else {
            0nat
        }
    }
}

/// An owned copy of a literal.
pub fn lit(s: &str) -> (r: String)
    ensures
        r@ == s@,
{
    let v = chars_of(s);
    string_of(&v)
}

/// `normalize_math_spec`, computed.
pub fn normalize_math_text(stem: &str) -> (r: Vec<char>)
    ensures
        r@ == normalize_math_spec(stem@),
{
    let s = chars_of(stem);
    let e: Vec<char> = Vec::new();
    let star = vec!['*'];
    let slash = vec!['/'];
    let plus = vec!['+'];
    let minus = vec!['-'];
    let lp = vec!['('];
    let rp = vec![')'];
    let eq = vec!['='];
    let dot = vec!['.'];
    assert(e@ =~= Seq::<char>::empty());
    assert(star@ =~= seq!['*']);
    assert(slash@ =~= seq!['/']);
    assert(plus@ =~= seq!['+']);
    assert(minus@ =~= seq!['-']);
    assert(lp@ =~= seq!['(']);
    assert(rp@ =~= seq![')']);
    assert(eq@ =~= seq!['=']);
    assert(dot@ =~= seq!['.']);
    let a = replace_char_exec(&s, '×', &star);
    let b = replace_char_exec(&a, '÷', &slash);
    let c = replace_char_exec(&b, '＋', &plus);
    let d = replace_char_exec(&c, '－', &minus);
    let f = replace_char_exec(&d, '—', &minus);
    let g = replace_char_exec(&f, '–', &minus);
    let h = replace_char_exec(&g, '（', &lp);
    let i = replace_char_exec(&h, '）', &rp);
    let j = replace_char_exec(&i, '＝', &eq);
    let k = replace_char_exec(&j, '．', &dot);
    let l = replace_char_exec(&k, ' ', &e);
    replace_char_exec(&l, '\u{3000}', &e)
}

fn is_op_exec(c: char) -> (r: bool)
    ensures
        r == is_op(c),
{
    c == '+' || c == '-' || c == '*' || c == '/'
}

fn is_expr_char_exec(c: char) -> (r: bool)
    ensures
        r == is_expr_char(c),
{
    ('0' <= c && c <= '9') || c == '.' || c == '+' || c == '-' || c == '*' || c == '/' || c
        == '(' || c == ')'
}

fn expr_end_exec(s: &Vec<char>, i: usize) -> (e: usize)
    requires
        i <= s.len(),
    ensures
        e as int == expr_end(s@, i as int),
        i <= e <= s.len(),
        forall|k: int| i <= k < e ==> is_expr_char(#[trigger] s@[k]),
{
    let mut e = i;
    while e < s.len() && is_expr_char_exec(s[e])
        invariant
            i <= e <= s.len(),
            expr_end(s@, i as int) == expr_end(s@, e as int),
            forall|k: int| i <= k < e ==> is_expr_char(#[trigger] s@[k]),
        decreases s.len() - e,
    {
        e = e + 1;
    }
    e
}

fn first_operation_exec(s: &Vec<char>) -> (r: Option<(usize, usize)>)
    ensures
        match r {
            Some((i, e)) => first_operation_from(s@, 0) == Some((i as int, e as int)) && i < e
                < s.len(),
            None => first_operation_from(s@, 0) is None,
        },
{
    let mut i: usize = 0;
    while i < s.len()
        invariant
            i <= s.len(),
            first_operation_from(s@, 0) == first_operation_from(s@, i as int),
        decreases s.len() - i,
    {
        if ('0' <= s[i] && s[i] <= '9') || s[i] == '.' {
            let e = scan_num_end(s, i);
            if e < s.len() && is_op_exec(s[e]) {
                return Some((i, e));
            }
        }
        i = i + 1;
    }
    None
}

fn first_expr_char_exec(s: &Vec<char>) -> (r: Option<usize>)
    ensures
        match r {
            Some(i) => first_expr_char_from(s@, 0) == Some(i as int) && i < s.len(),
            None => first_expr_char_from(s@, 0) is None,
        },
{
    let mut i: usize = 0;
    while i < s.len()
        invariant
            i <= s.len(),
            first_expr_char_from(s@, 0) == first_expr_char_from(s@, i as int),
        decreases s.len() - i,
    {
        if is_expr_char_exec(s[i]) {
            return Some(i);
        }
        i = i + 1;
    }
    None
}

fn first_digit_exec(s: &Vec<char>, a: usize, b: usize) -> (r: Option<usize>)
    requires
        a <= b <= s.len(),
    ensures
        match r {
            Some(p) => first_digit_from(s@.subrange(a as int, b as int), 0) == Some(p - a) && a <= p
                < b,
            None => first_digit_from(s@.subrange(a as int, b as int), 0) is None,
        },
{
    let ghost m = s@.subrange(a as int, b as int);
    let mut i = a;
    while i < b
        invariant
            a <= i <= b <= s.len(),
            m == s@.subrange(a as int, b as int),
            first_digit_from(m, 0) == first_digit_from(m, i - a),
        decreases b - i,
    {
        if '0' <= s[i] && s[i] <= '9' {
            assert(m[i - a] == s@[i as int]);
            return Some(i);
        }
        assert(m[i - a] == s@[i as int]);
        i = i + 1;
    }
    None
}

fn has_op_exec(s: &Vec<char>, a: usize, b: usize) -> (r: bool)
    requires
        a <= b <= s.len(),
    ensures
        r == has_op(s@.subrange(a as int, b as int)),
{
    let ghost m = s@.subrange(a as int, b as int);
    let mut i = a;
    while i < b
        invariant
            a <= i <= b <= s.len(),
            m == s@.subrange(a as int, b as int),
            forall|k: int| 0 <= k < i - a ==> !is_op(m[k]),
        decreases b - i,
    {
        if is_op_exec(s[i]) {
            assert(m[i - a] == s@[i as int]);
            return true;
        }
        assert(m[i - a] == s@[i as int]);
        i = i + 1;
    }
    false
}

fn second_choice_exec(s: &Vec<char>) -> (r: Option<Vec<char>>)
    ensures
        match r {
            Some(t) => second_choice(s@) == Some(t@),
            None => second_choice(s@) is None,
        },
{
    match first_expr_char_exec(s) {
        None => None,
        Some(i) => {
            let e = expr_end_exec(s, i);
            if has_op_exec(s, i, e) {
                let mut t: Vec<char> = Vec::new();
                let mut k = i;
                while k < e
                    invariant
                        i <= k <= e <= s.len(),
                        t@ == s@.subrange(i as int, k as int),
                    decreases e - k,
                {
                    t.push(s[k]);
                    k = k + 1;
                    assert(t@ =~= s@.subrange(i as int, k as int));
                }
                Some(t)
            } else {
                None
            }
        },
    }
}

/// The expression a stem asks for (see `extract_expr_spec`).
pub fn extract_expr(stem: &str) -> (r: Option<Vec<char>>)
    ensures
        match r {
            Some(t) => extract_expr_spec(stem@) == Some(t@),
            None => extract_expr_spec(stem@) is None,
        },
{
    let s = normalize_math_text(stem);
    match first_operation_exec(&s) {
        None => second_choice_exec(&s),
        Some((i, e)) => {
            let end = expr_end_exec(&s, e + 1);
            let start = match first_digit_exec(&s, i, end) {
                Some(p) => p,
                None => i,
            };
            proof {
                let m = s@.subrange(i as int, end as int);
                match first_digit_from(m, 0) {
                    Some(p) => {
                        assert(m.subrange(p, m.len() as int) =~= s@.subrange(start as int, end as int));
                    },
                    None => {
                        assert(m =~= s@.subrange(start as int, end as int));
                    },
                }
            }
            if has_op_exec(&s, start, end) {
                let mut t: Vec<char> = Vec::new();
                let mut k = start;
                while k < end
                    invariant
                        start <= k <= end <= s.len(),
                        t@ == s@.subrange(start as int, k as int),
                    decreases end - k,
                {
                    t.push(s[k]);
                    k = k + 1;
                    assert(t@ =~= s@.subrange(start as int, k as int));
                }
                Some(t)
            } else {
                second_choice_exec(&s)
            }
        },
    }
}

fn is_blank_char_exec(c: char) -> (r: bool)
    ensures
        r == is_blank_char(c),
{
    is_ws_char(c) || c == '＿' || c == '_' || c == '—' || c == '–'
}

/// Characters of a plain written calculation: digits, the four operators in
/// their school and ASCII forms, and the equals sign.
pub open spec fn plain_calc_char(c: char) -> bool {
    is_digit(c) || c == '+' || c == '-' || c == '×' || c == '÷' || c == '*' || c == '/' || c == '='
        || c == '＝'
}

proof fn lemma_plain_counts(s: Seq<char>)
    requires
        forall|k: int| 0 <= k < s.len() ==> plain_calc_char(#[trigger] s[k]),
    ensures
        calc_counts(s) == (s.len() as int, 0int),
    decreases s.len(),
{
    if s.len() > 0 {
        let u = s.drop_last();
        assert forall|k: int| 0 <= k < u.len() implies plain_calc_char(#[trigger] u[k]) by {
            assert(u[k] == s[k]);
        }
        lemma_plain_counts(u);
        let c = s.last();
        assert(plain_calc_char(s[s.len() - 1]));
        assert(!is_blank_char(c));
        assert(is_math_char(c));
    }
}

/// A stem of at least three characters written only with digits, `+ - × ÷
/// * /` and `=`/`＝` is a pure calculation, so its answer is checked.
pub proof fn lemma_plain_calculation_is_pure(stem: Seq<char>)
    requires
        stem.len() >= 3,
        forall|k: int| 0 <= k < stem.len() ==> plain_calc_char(#[trigger] stem[k]),
    ensures
        pure_calc_spec(stem),
{
    lemma_plain_counts(stem);
}

fn is_math_char_exec(c: char) -> (r: bool)
    ensures
        r == is_math_char(c),
{
    ('0' <= c && c <= '9') || c == '+' || c == '-' || c == '*' || c == '/' || c == '×' || c == '÷'
        || c == '＋' || c == '－' || c == '=' || c == '＝' || c == '.' || c == '．' || c == '('
        || c == ')' || c == '（' || c == '）'
}

/// Whether a stem is mainly a calculation rather than a worded question
/// (see `pure_calc_spec`).
pub fn is_pure_calc_stem(stem: &str) -> (r: bool)
    ensures
        r == pure_calc_spec(stem@),
{
    let s = chars_of(stem);
    let mut math: usize = 0;
    let mut other: usize = 0;
    let mut i: usize = 0;
    while i < s.len()
        invariant
            i <= s.len(),
            s@ == stem@,
            (math as int, other as int) == calc_counts(s@.subrange(0, i as int)),
            math + other <= i,
        decreases s.len() - i,
    {
        proof {
            assert(s@.subrange(0, i + 1).drop_last() =~= s@.subrange(0, i as int));
        }
        let c = s[i];
        if is_blank_char_exec(c) {
        } else if is_math_char_exec(c) {
            math = math + 1;
        } else {
            other = other + 1;
        }
        i = i + 1;
    }
    assert(s@.subrange(0, s.len() as int) =~= s@);
    math >= 3 && other <= 4 && 4 * (math as u128) >= 3 * ((math as u128) + (other as u128))
}

/// Whether an item is checked at all: its stem holds an expression and is
/// mainly a calculation.
pub fn should_try_verify(stem: &str) -> (r: bool)
    ensures
        r == should_try_spec(stem@),
{
    let e = extract_expr(stem);
    e.is_some() && is_pure_calc_stem(stem)
}

/// The message for an evaluation error (see `error_text`).
pub fn error_message(e: ExprError, t: &Vec<char>) -> (r: String)
    requires
        e matches ExprError::InvalidNumber(a, b) ==> a <= b <= t.len(),
    ensures
        r@ == error_text(e, t@),
{
    match e {
        ExprError::DivisionByZero => lit("除数为 0"),
        ExprError::Incomplete => lit("表达式不完整"),
        ExprError::UnclosedParen => lit("括号不匹配"),
        ExprError::Unexpected(c) => {
            let mut v = chars_of("无法解析: ");
            v.push(c);
            string_of(&v)
        },
        ExprError::InvalidNumber(a, b) => {
            let mut v = chars_of("数字无效: ");
            let mut k = a;
            let ghost base = v@;
            while k < b
                invariant
                    a <= k <= b <= t.len(),
                    v@ == base + t@.subrange(a as int, k as int),
                decreases b - k,
            {
                v.push(t[k]);
                k = k + 1;
                assert(v@ =~= base + t@.subrange(a as int, k as int));
            }
            string_of(&v)
        },
        ExprError::TrailingInput => lit("表达式含无法识别字符"),
        ExprError::Overflow => lit("数值超出可计算范围"),
    }
}


fn push_all(out: &mut Vec<char>, v: &Vec<char>)
    ensures
        final(out)@ == old(out)@ + v@,
{
    let mut k: usize = 0;
    let ghost base = out@;
    while k < v.len()
        invariant
            k <= v.len(),
            out@ == base + v@.subrange(0, k as int),
        decreases v.len() - k,
    {
        out.push(v[k]);
        k = k + 1;
        assert(out@ =~= base + v@.subrange(0, k as int));
    }
    assert(v@.subrange(0, v.len() as int) =~= v@);
}

fn skip_result(si: usize, ii: usize, item: &PaperItem, msg: &str) -> (r: VerifyItemResult)
    ensures
        r.section_index == si,
        r.item_index == ii,
        r.stem@ == item.stem@,
        r.answer@ == item.answer@,
        r.status@ == "skip"@,
        r.computed is None,
        r.message@ == msg@,
{
    VerifyItemResult {
        section_index: si,
        item_index: ii,
        stem: item.stem.clone(),
        answer: item.answer.clone(),
        status: lit("skip"),
        computed: None,
        message: lit(msg),
    }
}

/// Checks one item (see `item_outcome`).
pub fn check_item(si: usize, ii: usize, item: &PaperItem) -> (r: VerifyItemResult)
    ensures
        result_is(r, si as int, ii as int, *item),
{
    if !should_try_verify(item.stem.as_str()) {
        return skip_result(si, ii, item, "非可自动验算题型");
    }
    let ex = extract_expr(item.stem.as_str());
    let expr_v = match ex {
        Some(v) => v,
        None => {
            return skip_result(si, ii, item, "题干中未识别到算式");
        },
    };
    let ans = match parse_answer_number(item.answer.as_str()) {
        Some(a) => a,
        None => {
            return skip_result(si, ii, item, "答案无法解析为数值");
        },
    };
    let expr_s = string_of(&expr_v);
    match eval_expr(expr_s.as_str()) {
        Ok(v) => {
            let fv = format_ratio(v);
            let computed = string_of(&fv);
            if nearly_eq_exec(v, ans) {
                VerifyItemResult {
                    section_index: si,
                    item_index: ii,
                    stem: item.stem.clone(),
                    answer: item.answer.clone(),
                    status: lit("ok"),
                    computed: Some(computed),
                    message: lit("一致"),
                }
            } else {
                let mut m = chars_of("算式 ");
                push_all(&mut m, &expr_v);
                extend_chars(&mut m, " 计算得 ");
                push_all(&mut m, &fv);
                extend_chars(&mut m, "，卷面答案为 ");
                extend_chars(&mut m, item.answer.as_str());
                VerifyItemResult {
                    section_index: si,
                    item_index: ii,
                    stem: item.stem.clone(),
                    answer: item.answer.clone(),
                    status: lit("mismatch"),
                    computed: Some(computed),
                    message: string_of(&m),
                }
            }
        },
        Err(e) => {
            let t = without_ws(expr_s.as_str());
            VerifyItemResult {
                section_index: si,
                item_index: ii,
                stem: item.stem.clone(),
                answer: item.answer.clone(),
                status: lit("error"),
                computed: None,
                message: error_message(e, &t),
            }
        },
    }
}

proof fn lemma_count_push(items: Seq<VerifyItemResult>, x: VerifyItemResult, st: Seq<char>)
    ensures
        count_status(items.push(x), st) == count_status(items, st) + if x.status@ == st {
            1nat
        } else {
            0nat
        },
{
    assert(items.push(x).drop_last() =~= items);
}

pub open spec fn known_status(r: VerifyItemResult) -> bool {
    r.status@ == "ok"@ || r.status@ == "mismatch"@ || r.status@ == "skip"@ || r.status@ == "error"@
}

proof fn lemma_outcome_status(stem: Seq<char>, answer: Seq<char>)
    ensures
        ({
            let st = item_outcome(stem, answer).0;
            st == "ok"@ || st == "mismatch"@ || st == "skip"@ || st == "error"@
        }),
{
}

proof fn lemma_status_distinct()
    ensures
        "ok"@ != "mismatch"@,
        "ok"@ != "skip"@,
        "ok"@ != "error"@,
        "mismatch"@ != "skip"@,
        "mismatch"@ != "error"@,
        "skip"@ != "error"@,
{
    reveal_strlit("ok");
    reveal_strlit("mismatch");
    reveal_strlit("skip");
    reveal_strlit("error");
    assert("ok"@.len() != "mismatch"@.len());
    assert("ok"@.len() != "error"@.len());
    assert("mismatch"@.len() != "skip"@.len());
    assert("mismatch"@.len() != "error"@.len());
    assert("skip"@.len() != "error"@.len());
    assert("ok"@[0] != "skip"@[0]);
}

/// The four counts of a list of checks add up to its length.
proof fn lemma_counts_total(items: Seq<VerifyItemResult>)
    requires
        forall|k: int| 0 <= k < items.len() ==> known_status(#[trigger] items[k]),
    ensures
        count_status(items, "ok"@) + count_status(items, "mismatch"@) + count_status(items, "skip"@)
            + count_status(items, "error"@) == items.len(),
    decreases items.len(),
{
    if items.len() > 0 {
        let init = items.drop_last();
        assert forall|k: int| 0 <= k < init.len() implies known_status(#[trigger] init[k]) by {
            assert(init[k] == items[k]);
        }
        lemma_counts_total(init);
        lemma_status_distinct();
        assert(known_status(items[items.len() - 1]));
    }
}

/// Checks every item of a paper and counts the outcomes.
pub fn verify_paper_math(sections: &Vec<PaperSection>) -> (r: VerifyReport)
    ensures
        r.items.len() == flat_items(sections@).len(),
        forall|k: int|
            0 <= k < r.items.len() ==> #[trigger] result_is(
                r.items@[k],
                flat_items(sections@)[k].0,
                flat_items(sections@)[k].1,
                flat_items(sections@)[k].2,
            ),
        r.total == r.items.len(),
        r.ok == count_status(r.items@, "ok"@),
        r.mismatch == count_status(r.items@, "mismatch"@),
        r.skipped == count_status(r.items@, "skip"@) + count_status(r.items@, "error"@),
        r.checked == r.ok + r.mismatch,
        r.checked + r.skipped == r.total,
        r.mismatch == count_mismatch_items(sections@),
{
    let mut items: Vec<VerifyItemResult> = Vec::new();
    let mut si: usize = 0;
    while si < sections.len()
        invariant
            si <= sections.len(),
            items.len() == flat_items(sections@.subrange(0, si as int)).len(),
            forall|k: int|
                0 <= k < items.len() ==> #[trigger] result_is(
                    items@[k],
                    flat_items(sections@.subrange(0, si as int))[k].0,
                    flat_items(sections@.subrange(0, si as int))[k].1,
                    flat_items(sections@.subrange(0, si as int))[k].2,
                ),
        decreases sections.len() - si,
    {
        let ghost prev = flat_items(sections@.subrange(0, si as int));
        proof {
            assert(sections@.subrange(0, si + 1).drop_last() =~= sections@.subrange(0, si as int));
        }
        match &sections[si].items {
            None => {
                assert(flat_items(sections@.subrange(0, si + 1)) =~= prev);
            },
            Some(list) => {
                let ghost entries = Seq::new(list@.len(), |ii: int| (si as int, ii, list@[ii]));
                assert(flat_items(sections@.subrange(0, si + 1)) =~= prev + entries);
                let ghost base_len = items.len();
                let mut ii: usize = 0;
                while ii < list.len()
                    invariant
                        ii <= list.len(),
                        base_len == prev.len(),
                        items.len() == base_len + ii,
                        entries == Seq::new(list@.len(), |j: int| (si as int, j, list@[j])),
                        forall|k: int|
                            0 <= k < items.len() ==> #[trigger] result_is(
                                items@[k],
                                (prev + entries)[k].0,
                                (prev + entries)[k].1,
                                (prev + entries)[k].2,
                            ),
                    decreases list.len() - ii,
                {
                    let res = check_item(si, ii, &list[ii]);
                    items.push(res);
                    proof {
                        assert((prev + entries)[base_len + ii] == entries[ii as int]);
                    }
                    ii = ii + 1;
                }
            },
        }
        si = si + 1;
    }
    assert(sections@.subrange(0, sections.len() as int) =~= sections@);
    let mut ok: usize = 0;
    let mut mismatch: usize = 0;
    let mut skip: usize = 0;
    let mut error: usize = 0;
    let mut k: usize = 0;
    while k < items.len()
        invariant
            k <= items.len(),
            ok == count_status(items@.subrange(0, k as int), "ok"@),
            mismatch == count_status(items@.subrange(0, k as int), "mismatch"@),
            skip == count_status(items@.subrange(0, k as int), "skip"@),
            error == count_status(items@.subrange(0, k as int), "error"@),
            ok + mismatch + skip + error <= k,
        decreases items.len() - k,
    {
        proof {
            assert(items@.subrange(0, k + 1) =~= items@.subrange(0, k as int).push(items@[k as int]));
            lemma_count_push(items@.subrange(0, k as int), items@[k as int], "ok"@);
            lemma_count_push(items@.subrange(0, k as int), items@[k as int], "mismatch"@);
            lemma_count_push(items@.subrange(0, k as int), items@[k as int], "skip"@);
            lemma_count_push(items@.subrange(0, k as int), items@[k as int], "error"@);
            lemma_status_distinct();
        }
        let st = &items[k].status;
        if st.eq(&lit("ok")) {
            ok = ok + 1;
        } else if st.eq(&lit("mismatch")) {
            mismatch = mismatch + 1;
        } else if st.eq(&lit("skip")) {
            skip = skip + 1;
        } else if st.eq(&lit("error")) {
            error = error + 1;
        }
        k = k + 1;
    }
    proof {
        assert(items@.subrange(0, items.len() as int) =~= items@);
        assert forall|j: int| 0 <= j < items@.len() implies known_status(#[trigger] items@[j]) by {
            let f = flat_items(sections@)[j];
            assert(result_is(items@[j], f.0, f.1, f.2));
            lemma_outcome_status(f.2.stem@, f.2.answer@);
        }
        lemma_counts_total(items@);
        lemma_flat_count(sections@, items@);
    }
    let total = items.len();
    VerifyReport { total, checked: ok + mismatch, ok, mismatch, skipped: skip + error, items }
}

/// How an item reads after its answer is corrected: a mismatching item gets the
/// computed value as its answer, and an explanation (when it has one that does
/// not mention the correction yet) gets a note appended; every other item is
/// kept as it is.
pub open spec fn item_repaired(new: PaperItem, old: PaperItem) -> bool {
    let o = item_outcome(old.stem@, old.answer@);
    &&& new.stem@ == old.stem@
    &&& if o.0 == "mismatch"@ {
        &&& new.answer@ == o.1.unwrap()
        &&& opt_view(new.analysis) == match opt_view(old.analysis) {
            Some(a) => if contains(a, "验算自动修正"@) {
                Some(a)
            } else {
                Some(a + "（验算自动修正答案）"@)
            },
            None => None,
        }
    } else {
        &&& new.answer@ == old.answer@
        &&& opt_view(new.analysis) == opt_view(old.analysis)
    }
}

pub open spec fn section_repaired(new: PaperSection, old: PaperSection) -> bool {
    match (new.items, old.items) {
        (None, None) => true,
        (Some(n), Some(o)) => n.len() == o.len() && forall|k: int|
            0 <= k < n.len() ==> #[trigger] item_repaired(n@[k], o@[k]),
        _ => false,
    }
}

pub open spec fn count_mismatch_items(sections: Seq<PaperSection>) -> nat
    decreases sections.len(),
{
    if sections.len() == 0 {
        0
    } else {
        count_mismatch_items(sections.drop_last()) + match sections.last().items {
            Some(v) => count_mismatch_in(v@),
            None => 0,
        }
    }
}

pub open spec fn count_mismatch_in(items: Seq<PaperItem>) -> nat
    decreases items.len(),
{
    if items.len() == 0 {
        0
    } else {
        count_mismatch_in(items.drop_last()) + if item_outcome(
            items.last().stem@,
            items.last().answer@,
        ).0 == "mismatch"@ {
            1nat
        } else {
            0nat
        }
    }
}

fn copy_item(item: &PaperItem) -> (r: PaperItem)
    ensures
        r.stem@ == item.stem@,
        r.answer@ == item.answer@,
        opt_view(r.analysis) == opt_view(item.analysis),
{
    let analysis = match &item.analysis {
        Some(a) => Some(a.clone()),
        None => None,
    };
    PaperItem { stem: item.stem.clone(), answer: item.answer.clone(), analysis }
}

fn repair_item(item: &PaperItem) -> (r: (PaperItem, bool))
    ensures
        item_repaired(r.0, *item),
        r.1 == (item_outcome(item.stem@, item.answer@).0 == "mismatch"@),
{
    let res = check_item(0, 0, item);
    proof {
        lemma_status_distinct();
    }
    if !res.status.eq(&lit("mismatch")) {
        return (copy_item(item), false);
    }
    let computed = match &res.computed {
        Some(c) => c.clone(),
        None => {
            return (copy_item(item), false);
        },
    };
    let analysis = match &item.analysis {
        None => None,
        Some(a) => {
            if crate::text::str_contains(a.as_str(), "验算自动修正") {
                Some(a.clone())
            } else {
                let mut v = chars_of(a.as_str());
                extend_chars(&mut v, "（验算自动修正答案）");
                Some(string_of(&v))
            }
        },
    };
    (PaperItem { stem: item.stem.clone(), answer: computed, analysis }, true)
}

proof fn lemma_count_concat(a: Seq<VerifyItemResult>, b: Seq<VerifyItemResult>, st: Seq<char>)
    ensures
        count_status(a + b, st) == count_status(a, st) + count_status(b, st),
    decreases b.len(),
{
    if b.len() > 0 {
        lemma_count_concat(a, b.drop_last(), st);
        assert((a + b).drop_last() =~= a + b.drop_last());
    } else {
        assert(a + b =~= a);
    }
}

proof fn lemma_section_count(items: Seq<PaperItem>, rs: Seq<VerifyItemResult>, si: int)
    requires
        rs.len() == items.len(),
        forall|k: int| 0 <= k < rs.len() ==> #[trigger] result_is(rs[k], si, k, items[k]),
    ensures
        count_status(rs, "mismatch"@) == count_mismatch_in(items),
    decreases items.len(),
{
    if items.len() > 0 {
        let n = items.len() - 1;
        assert forall|k: int| 0 <= k < n implies #[trigger] result_is(rs.drop_last()[k], si, k, items.drop_last()[k]) by {
            assert(result_is(rs[k], si, k, items[k]));
        }
        lemma_section_count(items.drop_last(), rs.drop_last(), si);
        assert(result_is(rs[n], si, n, items[n]));
    }
}

/// The number of mismatching checks is the number of mismatching items.
proof fn lemma_flat_count(sections: Seq<PaperSection>, rs: Seq<VerifyItemResult>)
    requires
        rs.len() == flat_items(sections).len(),
        forall|k: int|
            0 <= k < rs.len() ==> #[trigger] result_is(
                rs[k],
                flat_items(sections)[k].0,
                flat_items(sections)[k].1,
                flat_items(sections)[k].2,
            ),
    ensures
        count_status(rs, "mismatch"@) == count_mismatch_items(sections),
    decreases sections.len(),
{
    if sections.len() > 0 {
        let init = sections.drop_last();
        let fi = flat_items(init);
        let n = fi.len();
        let si = sections.len() - 1;
        let r1 = rs.subrange(0, n as int);
        let r2 = rs.subrange(n as int, rs.len() as int);
        assert(rs =~= r1 + r2);
        lemma_count_concat(r1, r2, "mismatch"@);
        assert forall|k: int| 0 <= k < r1.len() implies #[trigger] result_is(r1[k], fi[k].0, fi[k].1, fi[k].2) by {
            assert(result_is(rs[k], flat_items(sections)[k].0, flat_items(sections)[k].1, flat_items(sections)[k].2));
            assert(flat_items(sections)[k] == fi[k]);
        }
        lemma_flat_count(init, r1);
        match sections.last().items {
            Some(v) => {
                assert forall|k: int| 0 <= k < r2.len() implies #[trigger] result_is(r2[k], si, k, v@[k]) by {
                    assert(result_is(rs[n + k], flat_items(sections)[n + k].0, flat_items(sections)[n + k].1, flat_items(sections)[n + k].2));
                    assert(flat_items(sections)[n + k] == (si, k, v@[k]));
                }
                lemma_section_count(v@, r2, si);
            },
            None => {
                assert(r2.len() == 0);
                assert(count_status(r2, "mismatch"@) == 0);
            },
        }
    }
}

proof fn lemma_repaired_item_agrees(new: PaperItem, old: PaperItem)
    requires
        item_repaired(new, old),
    ensures
        item_outcome(new.stem@, new.answer@).0 != "mismatch"@,
{
    lemma_status_distinct();
    let o = item_outcome(old.stem@, old.answer@);
    if o.0 == "mismatch"@ {
        let expr = extract_expr_spec(old.stem@).unwrap();
        crate::readback::lemma_eval_fits(expr);
        match eval_spec(expr) {
            Ok(v) => {
                assert(new.answer@ == fmt_spec(v));
                crate::readback::lemma_shown_value_reads_back(v);
            },
            Err(e) => {},
        }
    }
}

proof fn lemma_repaired_items_agree(new: Seq<PaperItem>, old: Seq<PaperItem>)
    requires
        new.len() == old.len(),
        forall|k: int| 0 <= k < new.len() ==> #[trigger] item_repaired(new[k], old[k]),
    ensures
        count_mismatch_in(new) == 0,
    decreases new.len(),
{
    if new.len() > 0 {
        let n = new.len() - 1;
        assert forall|k: int| 0 <= k < n implies #[trigger] item_repaired(new.drop_last()[k], old.drop_last()[k]) by {
            assert(item_repaired(new[k], old[k]));
        }
        lemma_repaired_items_agree(new.drop_last(), old.drop_last());
        assert(item_repaired(new[n], old[n]));
        lemma_repaired_item_agrees(new[n], old[n]);
    }
}

/// Once its answers are corrected, a paper has no item whose written answer
/// disagrees with the computed value: checking a paper that
/// `repair_math_answers` returned reports no mismatch.
pub proof fn lemma_repaired_paper_has_no_mismatch(new: Seq<PaperSection>, old: Seq<PaperSection>)
    requires
        new.len() == old.len(),
        forall|k: int| 0 <= k < new.len() ==> #[trigger] section_repaired(new[k], old[k]),
    ensures
        count_mismatch_items(new) == 0,
    decreases new.len(),
{
    if new.len() > 0 {
        let n = new.len() - 1;
        assert forall|k: int| 0 <= k < n implies #[trigger] section_repaired(new.drop_last()[k], old.drop_last()[k]) by {
            assert(section_repaired(new[k], old[k]));
        }
        lemma_repaired_paper_has_no_mismatch(new.drop_last(), old.drop_last());
        assert(section_repaired(new[n], old[n]));
        match (new[n].items, old[n].items) {
            (Some(a), Some(b)) => {
                assert forall|k: int| 0 <= k < a@.len() implies #[trigger] item_repaired(a@[k], b@[k]) by {
                    assert(item_repaired(a@[k], b@[k]));
                }
                lemma_repaired_items_agree(a@, b@);
            },
            _ => {},
        }
    }
}

/// Replaces the answer of every item whose written answer disagrees with the
/// computed value; returns the corrected paper and the number of corrections.
pub fn repair_math_answers(sections: &Vec<PaperSection>) -> (r: (Vec<PaperSection>, usize))
    ensures
        r.0.len() == sections.len(),
        forall|k: int| 0 <= k < sections.len() ==> #[trigger] section_repaired(r.0@[k], sections@[k]),
        r.1 == count_mismatch_items(sections@),
{
    let report = verify_paper_math(sections);
    proof {
        lemma_flat_count(sections@, report.items@);
    }
    let mut out: Vec<PaperSection> = Vec::new();
    let mut si: usize = 0;
    while si < sections.len()
        invariant
            si <= sections.len(),
            out.len() == si,
            forall|k: int| 0 <= k < si ==> #[trigger] section_repaired(out@[k], sections@[k]),
        decreases sections.len() - si,
    {
        match &sections[si].items {
            None => {
                out.push(PaperSection { items: None });
            },
            Some(list) => {
                let mut new_items: Vec<PaperItem> = Vec::new();
                let mut ii: usize = 0;
                while ii < list.len()
                    invariant
                        ii <= list.len(),
                        new_items.len() == ii,
                        forall|k: int| 0 <= k < ii ==> #[trigger] item_repaired(new_items@[k], list@[k]),
                    decreases list.len() - ii,
                {
                    let (it, _changed) = repair_item(&list[ii]);
                    new_items.push(it);
                    ii = ii + 1;
                }
                out.push(PaperSection { items: Some(new_items) });
            },
        }
        si = si + 1;
    }
    (out, report.mismatch)
}


/// What `evaluate_simple_expression` gives for an expression written with the
/// school operators (`×`, `÷`, full-width signs).
pub open spec fn evaluate_spec(expr: Seq<char>) -> Result<Seq<char>, Seq<char>> {
    let t = normalize_math_spec(expr);
    match eval_spec(t) {
        Ok(v) => Ok(fmt_spec(v)),
        Err(e) => Err(error_text(e, remove_ws(t))),
    }
}

/// The display form of a value.
pub fn format_num(q: Ratio) -> (r: String)
    requires
        fits(rv(q)),
    ensures
        r@ == fmt_spec(rv(q)),
{
    let v = format_ratio(q);
    string_of(&v)
}

/// Evaluates an expression such as `36+18÷6` and gives its value in display
/// form (`39`), or the reason it cannot be evaluated.
pub fn evaluate_simple_expression(expr: &str) -> (r: Result<String, String>)
    ensures
        match r {
            Ok(s) => evaluate_spec(expr@) == Ok::<Seq<char>, Seq<char>>(s@),
            Err(m) => evaluate_spec(expr@) == Err::<Seq<char>, Seq<char>>(m@),
        },
{
    let t = normalize_math_text(expr);
    let ts = string_of(&t);
    match eval_expr(ts.as_str()) {
        Ok(v) => Ok(format_num(v)),
        Err(e) => {
            let w = without_ws(ts.as_str());
            Err(error_message(e, &w))
        },
    }
}
} // verus!
