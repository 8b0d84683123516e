//! Talking to an OpenAI-compatible chat endpoint: the API base as the user
//! typed it, the checks made before a request, the reading of the reply, and
//! getting the JSON document out of what a model wrote.
use vstd::prelude::*;
use crate::text::{
    copy_range, occurs_at, is_ws,
    chars_of, contains, contains_exec, ends_with, extend_chars, find, first_index, lower_char,
    lower_char_exec, lower_seq, starts_with, starts_with_exec, string_of, string_of_range, trim,
    trim_bounds, trim_end_char, trim_end_char_bound, trim_start, trim_start_char,
    trim_start_char_bound,
};
use crate::verify::lit;
use std::sync::atomic::{AtomicBool, Ordering};

verus! {

/// Whether the last `p.len()` characters of `s`, lower-cased, spell `p`.
pub open spec fn ends_with_lower(s: Seq<char>, p: Seq<char>) -> bool {
    p.len() <= s.len() && lower_seq(s.subrange(s.len() - p.len(), s.len() as int)) == p
}

/// The part of `s` before its first `?`.
pub open spec fn before_query(s: Seq<char>) -> Seq<char> {
    match first_index(s, seq!['?']) {
        Some(i) => s.subrange(0, i),
        None => s,
    }
}

/// `s` without a `/chat/completions` (or `/completions`) path at its end,
/// compared without regard to ASCII case, and then without trailing slashes.
pub open spec fn strip_completions(s: Seq<char>) -> Seq<char> {
    if ends_with_lower(s, "/chat/completions"@) {
        trim_end_char(s.subrange(0, s.len() - "/chat/completions"@.len()), '/')
    } else if ends_with_lower(s, "/v1/chat/completions"@) {
        trim_end_char(s.subrange(0, s.len() - "/v1/chat/completions"@.len()), '/')
    } else if ends_with_lower(s, "/completions"@) {
        trim_end_char(s.subrange(0, s.len() - "/completions"@.len()), '/')
    } else {
        s
    }
}

/// The API base a user typed, normalized: trimmed, without query string and
/// trailing slashes, and without a `/chat/completions` or `/completions` path
/// that was pasted by mistake.
pub open spec fn normalize_api_base_spec(raw: Seq<char>) -> Seq<char> {
    strip_completions(trim_end_char(before_query(trim(raw)), '/'))
}

fn ends_with_lower_exec(v: &Vec<char>, to: usize, p: &str) -> (r: bool)
    requires
        to <= v.len(),
    ensures
        r == ends_with_lower(v@.subrange(0, to as int), p@),
{
    let pv = chars_of(p);
    if pv.len() > to {
        return false;
    }
    let start = to - pv.len();
    let ghost s = v@.subrange(0, to as int);
    let ghost tail = s.subrange(s.len() - pv.len(), s.len() as int);
    let mut k: usize = 0;
    while k < pv.len()
        invariant
            k <= pv.len(),
            start + pv.len() == to <= v.len(),
            s == v@.subrange(0, to as int),
            tail == s.subrange(s.len() - pv.len(), s.len() as int),
            pv@ == p@,
            forall|j: int| 0 <= j < k ==> lower_char(tail[j]) == pv@[j],
        decreases pv.len() - k,
    {
        assert(tail[k as int] == v@[start + k]);
        if lower_char_exec(v[start + k]) != pv[k] {
            assert(lower_seq(tail)[k as int] != p@[k as int]);
            return false;
        }
        k = k + 1;
    }
    assert(lower_seq(tail) =~= p@);
    true
}

fn cut_one(s: &Vec<char>, e: usize, p: &str) -> (r: Option<usize>)
    requires
        e <= s.len(),
    ensures
        ends_with_lower(s@.subrange(0, e as int), p@) ==> (r matches Some(n) && s@.subrange(0, n as int)
            == trim_end_char(s@.subrange(0, e - p@.len()), '/')),
        !ends_with_lower(s@.subrange(0, e as int), p@) ==> r is None,
        r matches Some(n) ==> n <= e,
{
    if ends_with_lower_exec(s, e, p) {
        let n = p.unicode_len();
        Some(trim_end_char_bound(s, 0, e - n, '/'))
    } else {
        None
    }
}

fn strip_completions_exec(s: &Vec<char>, e: usize) -> (n: usize)
    requires
        e <= s.len(),
    ensures
        n <= e,
        s@.subrange(0, n as int) == strip_completions(s@.subrange(0, e as int)),
{
    let ghost base = s@.subrange(0, e as int);
    if let Some(n) = cut_one(s, e, "/chat/completions") {
        assert(base.subrange(0, base.len() - "/chat/completions"@.len()) =~= s@.subrange(0, e - "/chat/completions"@.len()));
        return n;
    }
    if let Some(n) = cut_one(s, e, "/v1/chat/completions") {
        assert(base.subrange(0, base.len() - "/v1/chat/completions"@.len()) =~= s@.subrange(0, e - "/v1/chat/completions"@.len()));
        return n;
    }
    if let Some(n) = cut_one(s, e, "/completions") {
        assert(base.subrange(0, base.len() - "/completions"@.len()) =~= s@.subrange(0, e - "/completions"@.len()));
        return n;
    }
    e
}

fn trimmed_before_query(raw: &str) -> (s: Vec<char>)
    ensures
        s@ == before_query(trim(raw@)),
{
    let v = chars_of(raw);
    let (a, b) = trim_bounds(&v, 0, v.len());
    assert(v@.subrange(0, v@.len() as int) =~= v@);
    let s = copy_range(&v, a, b);
    let q = vec!['?'];
    assert(q@ =~= seq!['?']);
    match find(&s, &q) {
        Some(i) => copy_range(&s, 0, i),
        None => s,
    }
}

/// Normalizes the API base a user typed (see `normalize_api_base_spec`).
pub fn normalize_api_base(raw: &str) -> (r: String)
    ensures
        r@ == normalize_api_base_spec(raw@),
{
    let s = trimmed_before_query(raw);
    assert(s@.subrange(0, s@.len() as int) =~= s@);
    let e = trim_end_char_bound(&s, 0, s.len(), '/');
    let n = strip_completions_exec(&s, e);
    string_of_range(&s, 0, n)
}

proof fn lemma_trim_end_char_last(x: Seq<char>, c: char)
    ensures
        trim_end_char(x, c).len() > 0 ==> trim_end_char(x, c).last() != c,
    decreases x.len(),
{
    if x.len() > 0 && x.last() == c {
        lemma_trim_end_char_last(x.drop_last(), c);
    }
}

/// A suffix of `p` of length `k`, compared without regard to case, is
/// found at the end of `s` when `p` is.
proof fn lemma_ends_with_lower_suffix(s: Seq<char>, p: Seq<char>, k: int)
    requires
        0 <= k <= p.len(),
        ends_with_lower(s, p),
    ensures
        ends_with_lower(s, p.subrange(p.len() - k, p.len() as int)),
{
    let a = s.subrange(s.len() - p.len(), s.len() as int);
    let b = s.subrange(s.len() - k, s.len() as int);
    assert forall|j: int| 0 <= j < k implies lower_seq(b)[j] == p.subrange(p.len() - k, p.len() as int)[j] by {
        assert(b[j] == a[p.len() - k + j]);
        assert(lower_seq(a)[p.len() - k + j] == p[p.len() - k + j]);
    }
    assert(lower_seq(b) =~= p.subrange(p.len() - k, p.len() as int));
}

/// Normalizing an API base a second time changes nothing, unless the first
/// pass left white space at its end, a `?`, or a `/completions` path (as in
/// `a/completions/completions`, where each pass cuts one).
pub proof fn lemma_normalize_api_base_settles(raw: Seq<char>)
    requires
        trim(normalize_api_base_spec(raw)) == normalize_api_base_spec(raw),
        !contains(normalize_api_base_spec(raw), seq!['?']),
        !ends_with_lower(normalize_api_base_spec(raw), "/completions"@),
    ensures
        normalize_api_base_spec(normalize_api_base_spec(raw)) == normalize_api_base_spec(raw),
{
    let n = normalize_api_base_spec(raw);
    let t = trim_end_char(before_query(trim(raw)), '/');
    lemma_trim_end_char_last(before_query(trim(raw)), '/');
    reveal_strlit("/chat/completions");
    reveal_strlit("/v1/chat/completions");
    reveal_strlit("/completions");
    if ends_with_lower(t, "/chat/completions"@) {
        lemma_trim_end_char_last(t.subrange(0, t.len() - "/chat/completions"@.len()), '/');
    } else if ends_with_lower(t, "/v1/chat/completions"@) {
        lemma_trim_end_char_last(t.subrange(0, t.len() - "/v1/chat/completions"@.len()), '/');
    } else if ends_with_lower(t, "/completions"@) {
        lemma_trim_end_char_last(t.subrange(0, t.len() - "/completions"@.len()), '/');
    }
    // `n` has no trailing slash
    assert(n.len() > 0 ==> n.last() != '/');
    reveal(first_index);
    assert(before_query(n) == n);
    assert(trim_end_char(n, '/') == n);
    assert("/chat/completions"@.subrange(5, 17) =~= "/completions"@);
    assert("/v1/chat/completions"@.subrange(8, 20) =~= "/completions"@);
    if ends_with_lower(n, "/chat/completions"@) {
        lemma_ends_with_lower_suffix(n, "/chat/completions"@, 12);
    }
    if ends_with_lower(n, "/v1/chat/completions"@) {
        lemma_ends_with_lower_suffix(n, "/v1/chat/completions"@, 12);
    }
}

/// `s` cut to `max` characters (after trimming), with `…` when cut.
pub open spec fn truncate_spec(s: Seq<char>, max: nat) -> Seq<char> {
    let t = trim(s);
    if t.len() <= max {
        t
    } else {
        t.subrange(0, max as int) + "…"@
    }
}

pub fn truncate(s: &str, max: usize) -> (r: String)
    ensures
        r@ == truncate_spec(s@, max as nat),
{
    let v = chars_of(s);
    let (a, b) = trim_bounds(&v, 0, v.len());
    assert(v@.subrange(0, v@.len() as int) =~= v@);
    if b - a <= max {
        return string_of_range(&v, a, b);
    }
    let mut out: Vec<char> = Vec::new();
    let mut k = a;
    while k < a + max
        invariant
            a <= k <= a + max <= b <= v.len(),
            out@ == v@.subrange(a as int, k as int),
        decreases a + max - k,
    {
        out.push(v[k]);
        k = k + 1;
        assert(out@ =~= v@.subrange(a as int, k as int));
    }
    extend_chars(&mut out, "…");
    assert(out@ =~= trim(s@).subrange(0, max as int) + "…"@);
    string_of(&out)
}

/// Whether a reply body is a web page rather than JSON (compared without
/// regard to ASCII case, after leading white space).
pub open spec fn looks_like_html_spec(text: Seq<char>) -> bool {
    let t = lower_seq(trim_start(text));
    starts_with(t, "<!doctype html"@) || starts_with(t, "<html"@) || (contains(t, "<title>"@)
        && contains(t, "</html>"@)) || (contains(t, "<!doctype"@) && contains(t, "html"@))
}

fn lower_vec(v: &Vec<char>, a: usize) -> (r: Vec<char>)
    requires
        a <= v.len(),
    ensures
        r@ == lower_seq(v@.subrange(a as int, v.len() as int)),
{
    let mut r: Vec<char> = Vec::new();
    let mut k = a;
    while k < v.len()
        invariant
            a <= k <= v.len(),
            r@ == lower_seq(v@.subrange(a as int, k as int)),
        decreases v.len() - k,
    {
        r.push(lower_char_exec(v[k]));
        k = k + 1;
        assert(r@ =~= lower_seq(v@.subrange(a as int, k as int)));
    }
    r
}

pub fn looks_like_html(text: &str) -> (r: bool)
    ensures
        r == looks_like_html_spec(text@),
{
    let v = chars_of(text);
    let (a, _b) = trim_bounds(&v, 0, v.len());
    assert(v@.subrange(0, v@.len() as int) =~= v@);
    let t = lower_vec(&v, a);
    starts_with_exec(&t, &chars_of("<!doctype html")) || starts_with_exec(&t, &chars_of("<html"))
        || (contains_exec(&t, &chars_of("<title>")) && contains_exec(&t, &chars_of("</html>")))
        || (contains_exec(&t, &chars_of("<!doctype")) && contains_exec(&t, &chars_of("html")))
}

/// The flag that asks a running generation to stop. It is shared with the
/// requests running on other threads, so what a read returns depends on the
/// stores made elsewhere: no contract states its value.
pub struct CancelFlag {
    flag: AtomicBool,
}

impl CancelFlag {
    /// A flag that is not set.
    pub fn new() -> CancelFlag {
        CancelFlag { flag: AtomicBool::new(false) }
    }

    /// Clears the flag before a new generation starts.
    pub fn clear_cancel_flag(&self) {
        self.flag.store(false, Ordering::SeqCst);
    }

    /// Asks the running generation to stop.
    pub fn request_cancel(&self) {
        self.flag.store(true, Ordering::SeqCst);
    }

    /// Whether a stop was asked for.
    pub fn is_cancelled(&self) -> bool {
        self.flag.load(Ordering::SeqCst)
    }
}

/// The error a cancelled generation stops with.
pub fn check_cancel(cancelled: bool) -> (r: Result<(), String>)
    ensures
        cancelled ==> (r matches Err(m) && m@ == "已取消生成"@),
        !cancelled ==> r is Ok,
{
    if cancelled {
        Err(lit("已取消生成"))
    } else {
        Ok(())
    }
}

/// Position of the last `c` in `s`.
pub open spec fn last_index_of(s: Seq<char>, c: char) -> Option<int>
    decreases s.len(),
{
    if s.len() == 0 {
        None
    } else if s.last() == c {
        Some(s.len() - 1)
    } else {
        last_index_of(s.drop_last(), c)
    }
}

/// The text after a ```` ``` ```` fence: an optional `json`/`JSON` tag and the
/// line breaks after it removed.
pub open spec fn after_fence(t: Seq<char>, st: int) -> Seq<char> {
    let after = t.subrange(st + 3, t.len() as int);
    let a2 = if starts_with(after, "json"@) {
        after.subrange(4, after.len() as int)
    } else if starts_with(after, "JSON"@) {
        after.subrange(4, after.len() as int)
    } else {
        after
    };
    trim_start_char(trim_start_char(a2, '\n'), '\r')
}

pub open spec fn extract_json_fallback(raw: Seq<char>, t: Seq<char>) -> Result<Seq<char>, Seq<char>> {
    match (first_index(t, seq!['{']), last_index_of(t, '}')) {
        (Some(s), Some(e)) => if e > s {
            Ok(t.subrange(s, e + 1))
        } else {
            Err("未能从模型输出中提取 JSON。模型原文摘要："@ + truncate_spec(raw, 400))
        },
        _ => Err("未能从模型输出中提取 JSON。模型原文摘要："@ + truncate_spec(raw, 400)),
    }
}

/// The JSON document in what a model wrote: the whole (trimmed) text when it
/// starts with `{`, else the body of the first fenced block, else the span from
/// the first `{` to the last `}`.
pub open spec fn extract_json_spec(raw: Seq<char>) -> Result<Seq<char>, Seq<char>> {
    let t = trim(raw);
    if starts_with(t, seq!['{']) {
        Ok(t)
    } else {
        match first_index(t, "```"@) {
            Some(st) => {
                let a3 = after_fence(t, st);
                match first_index(a3, "```"@) {
                    Some(e) => Ok(trim(a3.subrange(0, e))),
                    None => extract_json_fallback(raw, t),
                }
            },
            None => extract_json_fallback(raw, t),
        }
    }
}

proof fn lemma_last_index_at(s: Seq<char>, c: char, k: int)
    requires
        0 <= k < s.len(),
        s[k] == c,
        forall|j: int| k < j < s.len() ==> s[j] != c,
    ensures
        last_index_of(s, c) == Some(k),
    decreases s.len(),
{
    if s.last() != c {
        let u = s.drop_last();
        assert forall|j: int| k < j < u.len() implies u[j] != c by {
            assert(u[j] == s[j]);
        }
        lemma_last_index_at(u, c, k);
    }
}

proof fn lemma_first_char_index(s: Seq<char>, c: char, k: int)
    requires
        0 <= k < s.len(),
        s[k] == c,
        forall|j: int| 0 <= j < k ==> s[j] != c,
    ensures
        first_index(s, seq![c]) == Some(k),
{
    assert(s.subrange(k, k + 1) =~= seq![c]);
    assert forall|j: int| 0 <= j < k implies !occurs_at(s, seq![c], j) by {
        assert(s.subrange(j, j + 1)[0] == s[j]);
    }
    crate::text::lemma_first_index_at(s, seq![c], k);
}

/// A reply that holds one JSON object `json` between text `before` and
/// `after` without braces or back quotes gives that object whole, nested
/// braces included: the span runs from the first `{` to the last `}`.
pub proof fn lemma_extract_json_object_in_text(before: Seq<char>, json: Seq<char>, after: Seq<char>)
    requires
        before.len() > 0,
        !is_ws(before[0]),
        after.len() > 0 ==> !is_ws(after.last()),
        json.len() >= 2,
        json[0] == '{',
        json.last() == '}',
        forall|k: int| 0 <= k < before.len() ==> before[k] != '{' && before[k] != '}' && before[k] != '`',
        forall|k: int| 0 <= k < after.len() ==> after[k] != '{' && after[k] != '}' && after[k] != '`',
        forall|k: int| 0 <= k < json.len() ==> json[k] != '`',
    ensures
        extract_json_spec(before + json + after) == Ok::<Seq<char>, Seq<char>>(json),
{
    let t = before + json + after;
    let n = before.len() as int;
    let m = json.len() as int;
    assert(t[0] == before[0]);
    assert(t[t.len() - 1] == if after.len() > 0 { after.last() } else { json.last() });
    assert(crate::text::trim_start(t) == t);
    assert(crate::text::trim_end(t) == t);
    assert(trim(t) == t);
    assert(!starts_with(t, seq!['{'])) by {
        if starts_with(t, seq!['{']) {
            assert(t.subrange(0, 1)[0] == t[0]);
        }
    }
    assert(!contains(t, "```"@)) by {
        reveal_strlit("```");
        if contains(t, "```"@) {
            let i = choose|i: int| occurs_at(t, "```"@, i);
            assert(t.subrange(i, i + 3)[0] == t[i]);
            if i < n {
                assert(t[i] == before[i]);
            } else if i < n + m {
                assert(t[i] == json[i - n]);
            } else {
                assert(t[i] == after[i - n - m]);
            }
        }
    }
    assert(first_index(t, "```"@) is None) by {
        reveal(first_index);
    }
    assert forall|j: int| 0 <= j < n implies t[j] != '{' by {
        assert(t[j] == before[j]);
    }
    assert(t[n] == json[0]);
    lemma_first_char_index(t, '{', n);
    assert forall|j: int| n + m - 1 < j < t.len() implies t[j] != '}' by {
        assert(t[j] == after[j - n - m]);
    }
    assert(t[n + m - 1] == json[m - 1]);
    lemma_last_index_at(t, '}', n + m - 1);
    assert(t.subrange(n, n + m) =~= json);
}

pub(crate) fn last_index_exec(v: &Vec<char>, c: char) -> (r: Option<usize>)
    ensures
        match r {
            Some(i) => last_index_of(v@, c) == Some(i as int) && i < v.len(),
            None => last_index_of(v@, c) is None,
        },
{
    let mut k = v.len();
    assert(v@.subrange(0, k as int) =~= v@);
    while k > 0
        invariant
            k <= v.len(),
            last_index_of(v@, c) == last_index_of(v@.subrange(0, k as int), c),
        decreases k,
    {
        if v[k - 1] == c {
            assert(v@.subrange(0, k as int).last() == c);
            return Some(k - 1);
        }
        assert(v@.subrange(0, k as int).drop_last() =~= v@.subrange(0, k - 1));
        k = k - 1;
    }
    None
}

fn extract_json_fallback_exec(raw: &str, t: &Vec<char>) -> (r: Result<String, String>)
    ensures
        match r {
            Ok(s) => extract_json_fallback(raw@, t@) == Ok::<Seq<char>, Seq<char>>(s@),
            Err(m) => extract_json_fallback(raw@, t@) == Err::<Seq<char>, Seq<char>>(m@),
        },
{
    let open = vec!['{'];
    assert(open@ =~= seq!['{']);
    match (find(t, &open), last_index_exec(t, '}')) {
        (Some(s), Some(e)) => {
            if e > s {
                return Ok(string_of_range(t, s, e + 1));
            }
        },
        _ => {},
    }
    let mut m = chars_of("未能从模型输出中提取 JSON。模型原文摘要：");
    let tr = truncate(raw, 400);
    extend_chars(&mut m, tr.as_str());
    Err(string_of(&m))
}

/// The body of the first fenced block of `t`, if it is closed.
pub open spec fn fenced_body(t: Seq<char>) -> Option<Seq<char>> {
    match first_index(t, "```"@) {
        Some(st) => {
            let a3 = after_fence(t, st);
            match first_index(a3, "```"@) {
                Some(e) => Some(trim(a3.subrange(0, e))),
                None => None,
            }
        },
        None => None,
    }
}

fn after_fence_exec(t: &Vec<char>, st: usize) -> (r: Vec<char>)
    requires
        st + 3 <= t.len(),
    ensures
        r@ == after_fence(t@, st as int),
{
    let rest = copy_range(t, st + 3, t.len());
    let j1 = chars_of("json");
    let j2 = chars_of("JSON");
    let from = if starts_with_exec(&rest, &j1) || starts_with_exec(&rest, &j2) {
        4
    } else {
        0
    };
    proof {
        reveal_strlit("json");
        reveal_strlit("JSON");
        assert(rest@.subrange(0, rest@.len() as int) =~= rest@);
    }
    let c1 = trim_start_char_bound(&rest, from, rest.len(), '\n');
    let c2 = trim_start_char_bound(&rest, c1, rest.len(), '\r');
    copy_range(&rest, c2, rest.len())
}

fn fenced_body_exec(t: &Vec<char>) -> (r: Option<String>)
    ensures
        match r {
            Some(s) => fenced_body(t@) == Some(s@),
            None => fenced_body(t@) is None,
        },
{
    let fence = chars_of("```");
    match find(t, &fence) {
        None => None,
        Some(st) => {
            proof {
                reveal_strlit("```");
                assert(occurs_at(t@, fence@, st as int));
            }
            let a3 = after_fence_exec(t, st);
            match find(&a3, &fence) {
                Some(e) => {
                    proof {
                        assert(occurs_at(a3@, fence@, e as int));
                    }
                    let (x, y) = trim_bounds(&a3, 0, e);
                    Some(string_of_range(&a3, x, y))
                },
                None => None,
            }
        },
    }
}

/// Gets the JSON document out of what a model wrote (see `extract_json_spec`).
pub fn extract_json(raw: &str) -> (r: Result<String, String>)
    ensures
        match r {
            Ok(s) => extract_json_spec(raw@) == Ok::<Seq<char>, Seq<char>>(s@),
            Err(m) => extract_json_spec(raw@) == Err::<Seq<char>, Seq<char>>(m@),
        },
{
    let v = chars_of(raw);
    let (a, b) = trim_bounds(&v, 0, v.len());
    assert(v@.subrange(0, v@.len() as int) =~= v@);
    let t = copy_range(&v, a, b);
    if t.len() > 0 && t[0] == '{' {
        assert(t@.subrange(0, 1) =~= seq!['{']);
        return Ok(string_of(&t));
    }
    proof {
        if t@.len() > 0 {
            assert(t@.subrange(0, 1)[0] == t@[0]);
        }
    }
    match fenced_body_exec(&t) {
        Some(s) => Ok(s),
        None => extract_json_fallback_exec(raw, &t),
    }
}


/// The message given when the endpoint answers with a web page: the base
/// entered, the address requested, and what a base should look like.
pub open spec fn html_hint_spec(api_base: Seq<char>, request_url: Seq<char>) -> Seq<char> {
    "API 返回了网页 HTML，而不是 JSON。说明「API Base」填成了网站首页/控制台地址，而不是接口地址。\n\n当前 Base："@ + api_base + "\n实际请求：POST "@ + request_url + "\n\n正确示例（OpenAI 兼容）：\n· https://api.openai.com/v1\n· https://api.deepseek.com/v1\n· https://api.x.ai/v1\n· 第三方网关：https://你的域名/v1  （一般以 /v1 结尾）\n\n不要填：\n· https://xxx.com/ （网站首页）\n· 管理后台登录页 / 购买页\n\n请到「AI 与 API 设置」把 API Base 改成文档里的 Endpoint（含 /v1），并确认 Key、模型名正确。"@
}

pub fn html_response_hint(api_base: &str, request_url: &str) -> (r: String)
    ensures
        r@ == html_hint_spec(api_base@, request_url@),
{
    let mut v = chars_of("API 返回了网页 HTML，而不是 JSON。说明「API Base」填成了网站首页/控制台地址，而不是接口地址。\n\n当前 Base：");
    extend_chars(&mut v, api_base);
    extend_chars(&mut v, "\n实际请求：POST ");
    extend_chars(&mut v, request_url);
    extend_chars(&mut v, "\n\n正确示例（OpenAI 兼容）：\n· https://api.openai.com/v1\n· https://api.deepseek.com/v1\n· https://api.x.ai/v1\n· 第三方网关：https://你的域名/v1  （一般以 /v1 结尾）\n\n不要填：\n· https://xxx.com/ （网站首页）\n· 管理后台登录页 / 购买页\n\n请到「AI 与 API 设置」把 API Base 改成文档里的 Endpoint（含 /v1），并确认 Key、模型名正确。");
    string_of(&v)
}

/// Whether the API base points at this machine, where no key is needed.
pub open spec fn is_local_base(api_base: Seq<char>) -> bool {
    contains(lower_seq(api_base), "127.0.0.1"@) || contains(lower_seq(api_base), "localhost"@)
}

/// What the settings decide before a chat request: refused when generation
/// was cancelled, when no key is set for a remote endpoint, when the base or
/// the model is blank, or when the base normalizes to nothing; otherwise the
/// normalized base and the address requested.
pub open spec fn chat_preflight_spec(cancelled: bool, api_key: Seq<char>, api_base: Seq<char>, model: Seq<char>) -> Result<(Seq<char>, Seq<char>), Seq<char>> {
    let base = normalize_api_base_spec(api_base);
    if cancelled {
        Err("已取消生成"@)
    } else if trim(api_key).len() == 0 && !is_local_base(api_base) {
        Err("请先在设置中填写 API Key"@)
    } else if trim(api_base).len() == 0 {
        Err("请填写 API Base URL"@)
    } else if trim(model).len() == 0 {
        Err("请填写模型名称"@)
    } else if base.len() == 0 {
        Err("API Base 无效"@)
    } else {
        Ok((base, base + "/chat/completions"@))
    }
}

fn is_blank(s: &str) -> (r: bool)
    ensures
        r == (trim(s@).len() == 0),
{
    let v = chars_of(s);
    let (a, b) = trim_bounds(&v, 0, v.len());
    assert(v@.subrange(0, v@.len() as int) =~= v@);
    a == b
}

pub fn chat_preflight(cancelled: bool, api_key: &str, api_base: &str, model: &str) -> (r: Result<(String, String), String>)
    ensures
        match r {
            Ok(p) => chat_preflight_spec(cancelled, api_key@, api_base@, model@) == Ok::<(Seq<char>, Seq<char>), Seq<char>>((p.0@, p.1@)),
            Err(e) => chat_preflight_spec(cancelled, api_key@, api_base@, model@) == Err::<(Seq<char>, Seq<char>), Seq<char>>(e@),
        },
{
    if cancelled {
        return Err(lit("已取消生成"));
    }
    let lower = lower_vec(&chars_of(api_base), 0);
    assert(api_base@.subrange(0, api_base@.len() as int) =~= api_base@);
    let local = contains_exec(&lower, &chars_of("127.0.0.1")) || contains_exec(&lower, &chars_of("localhost"));
    if is_blank(api_key) && !local {
        return Err(lit("请先在设置中填写 API Key"));
    }
    if is_blank(api_base) {
        return Err(lit("请填写 API Base URL"));
    }
    if is_blank(model) {
        return Err(lit("请填写模型名称"));
    }
    let base = normalize_api_base(api_base);
    let bv = chars_of(base.as_str());
    if bv.len() == 0 {
        return Err(lit("API Base 无效"));
    }
    let mut url = bv;
    extend_chars(&mut url, "/chat/completions");
    (Ok((base, string_of(&url))))
}

/// The authorization header sent with a request: the trimmed key as a
/// bearer token, none when the key is blank.
pub fn bearer_header(api_key: &str) -> (r: Option<String>)
    ensures
        trim(api_key@).len() == 0 ==> r is None,
        trim(api_key@).len() > 0 ==> (r matches Some(h) && h@ == "Bearer "@ + trim(api_key@)),
{
    let v = chars_of(api_key);
    let (a, b) = trim_bounds(&v, 0, v.len());
    assert(v@.subrange(0, v@.len() as int) =~= v@);
    if a == b {
        return None;
    }
    let mut h = chars_of("Bearer ");
    let k = copy_range(&v, a, b);
    let mut i: usize = 0;
    let ghost h0 = h@;
    while i < k.len()
        invariant
            i <= k.len(),
            h@ == h0 + k@.subrange(0, i as int),
        decreases k.len() - i,
    {
        h.push(k[i]);
        i = i + 1;
        assert(h@ =~= h0 + k@.subrange(0, i as int));
    }
    assert(k@.subrange(0, k@.len() as int) =~= k@);
    Some(string_of(&h))
}

/// The error given when a request cannot be sent.
pub open spec fn send_error_spec(cancelled: bool, error: Seq<char>, url: Seq<char>) -> Seq<char> {
    if cancelled {
        "已取消生成"@
    } else {
        "请求失败: "@ + error + "\nURL: "@ + url + "\n请检查网络，以及 API Base 是否可访问。"@
    }
}

pub fn send_error(cancelled: bool, error: &str, url: &str) -> (r: String)
    ensures
        r@ == send_error_spec(cancelled, error@, url@),
{
    if cancelled {
        return lit("已取消生成");
    }
    let mut v = chars_of("请求失败: ");
    extend_chars(&mut v, error);
    extend_chars(&mut v, "\nURL: ");
    extend_chars(&mut v, url);
    extend_chars(&mut v, "\n请检查网络，以及 API Base 是否可访问。");
    string_of(&v)
}

/// A reply body as the JSON reader saw it: unreadable (with the reader's
/// message), or read, with its `error` member (and that member's message)
/// and the message content of its first choice.
#[derive(Debug, Clone)]
pub enum ParsedReply {
    Unreadable(String),
    Read { error: Option<Option<String>>, content: Option<String> },
}

/// What a reply comes to: the model's text, or the error shown to the user.
/// `status` is the status line, `error_message` the message a failed
/// request's body carries (at `/error/message`, else `message`).
pub open spec fn chat_reply_spec(
    base: Seq<char>,
    url: Seq<char>,
    model: Seq<char>,
    status_ok: bool,
    status: Seq<char>,
    content_type: Seq<char>,
    text: Seq<char>,
    error_message: Option<Seq<char>>,
    parsed: ParsedReply,
) -> Result<Seq<char>, Seq<char>> {
    if looks_like_html_spec(text) || contains(content_type, "text/html"@) {
        Err(html_hint_spec(base, url))
    } else if !status_ok {
        match error_message {
            Some(m) => Err("API 错误 ("@ + status + "): "@ + m + "\n请求: POST "@ + url + "\n模型: "@ + model),
            None => Err("API 错误 ("@ + status + ")\n请求: POST "@ + url + "\n响应: "@ + truncate_spec(text, 400)),
        }
    } else if trim(text).len() == 0 {
        Err("API 返回空内容。请检查模型名「"@ + model + "」是否在该网关可用。\n请求: POST "@ + url)
    } else {
        match parsed {
            ParsedReply::Unreadable(e) => Err("解析响应失败: "@ + e@ + "\n请求: POST "@ + url + "\nContent-Type: "@ + content_type
                + "\n响应摘要: "@ + truncate_spec(text, 300)),
            ParsedReply::Read { error, content } => match error {
                Some(m) => Err("API 返回错误: "@ + match m {
                    Some(x) => x@,
                    None => "unknown"@,
                }),
                None => match content {
                    None => Err("API 未返回 choices 内容。请确认模型「"@ + model + "」可用，且接口为 OpenAI 兼容 /chat/completions。\n请求: POST "@ + url
                        + "\n响应摘要: "@ + truncate_spec(text, 300)),
                    Some(c) => if trim(c@).len() == 0 {
                        Err("模型返回内容为空，请换模型或提高 max tokens 后重试"@)
                    } else {
                        Ok(c@)
                    },
                },
            },
        }
    }
}

fn cat4(a: &str, b: &str, c: &str, d: &str) -> (r: Vec<char>)
    ensures
        r@ == a@ + b@ + c@ + d@,
{
    let mut v = chars_of(a);
    extend_chars(&mut v, b);
    extend_chars(&mut v, c);
    extend_chars(&mut v, d);
    v
}

/// Reads a chat reply (see `chat_reply_spec`).
pub fn chat_reply(
    base: &str,
    url: &str,
    model: &str,
    status_ok: bool,
    status: &str,
    content_type: &str,
    text: &str,
    error_message: &Option<String>,
    parsed: &ParsedReply,
) -> (r: Result<String, String>)
    ensures
        match r {
            Ok(c) => chat_reply_spec(base@, url@, model@, status_ok, status@, content_type@, text@, match error_message {
                Some(m) => Some(m@),
                None => None,
            }, *parsed) == Ok::<Seq<char>, Seq<char>>(c@),
            Err(e) => chat_reply_spec(base@, url@, model@, status_ok, status@, content_type@, text@, match error_message {
                Some(m) => Some(m@),
                None => None,
            }, *parsed) == Err::<Seq<char>, Seq<char>>(e@),
        },
{
    if looks_like_html(text) || contains_exec(&chars_of(content_type), &chars_of("text/html")) {
        return Err(html_response_hint(base, url));
    }
    if !status_ok {
        match error_message {
            Some(m) => {
                let mut v = cat4("API 错误 (", status, "): ", m.as_str());
                extend_chars(&mut v, "\n请求: POST ");
                extend_chars(&mut v, url);
                extend_chars(&mut v, "\n模型: ");
                extend_chars(&mut v, model);
                return Err(string_of(&v));
            },
            None => {
                let mut v = cat4("API 错误 (", status, ")\n请求: POST ", url);
                extend_chars(&mut v, "\n响应: ");
                let t = truncate(text, 400);
                extend_chars(&mut v, t.as_str());
                return Err(string_of(&v));
            },
        }
    }
    if is_blank(text) {
        let mut v = cat4("API 返回空内容。请检查模型名「", model, "」是否在该网关可用。\n请求: POST ", url);
        return Err(string_of(&v));
    }
    match parsed {
        ParsedReply::Unreadable(e) => {
            let mut v = cat4("解析响应失败: ", e.as_str(), "\n请求: POST ", url);
            extend_chars(&mut v, "\nContent-Type: ");
            extend_chars(&mut v, content_type);
            extend_chars(&mut v, "\n响应摘要: ");
            let t = truncate(text, 300);
            extend_chars(&mut v, t.as_str());
            Err(string_of(&v))
        },
        ParsedReply::Read { error, content } => match error {
            Some(m) => {
                let mut v = chars_of("API 返回错误: ");
                match m {
                    Some(x) => extend_chars(&mut v, x.as_str()),
                    None => extend_chars(&mut v, "unknown"),
                }
                Err(string_of(&v))
            },
            None => match content {
                None => {
                    let mut v = cat4("API 未返回 choices 内容。请确认模型「", model, "」可用，且接口为 OpenAI 兼容 /chat/completions。\n请求: POST ", url);
                    extend_chars(&mut v, "\n响应摘要: ");
                    let t = truncate(text, 300);
                    extend_chars(&mut v, t.as_str());
                    Err(string_of(&v))
                },
                Some(c) => {
                    if is_blank(c.as_str()) {
                        Err(lit("模型返回内容为空，请换模型或提高 max tokens 后重试"))
                    } else {
                        Ok(c.clone())
                    }
                },
            },
        },
    }
}

/// What becomes of a model call, for the callers that fall back to a local
/// layout: the call failed (fall back), or the JSON document was found in
/// the reply, or it was not (the message of `extract_json`).
#[derive(Debug, Clone)]
pub enum ModelReply {
    Fallback,
    Json(String),
    Failed(String),
}

pub fn model_reply(reply: &Result<String, String>) -> (r: ModelReply)
    ensures
        reply is Err ==> r is Fallback,
        reply matches Ok(raw) ==> match extract_json_spec(raw@) {
            Ok(j) => (r matches ModelReply::Json(x) && x@ == j),
            Err(e) => (r matches ModelReply::Failed(x) && x@ == e),
        },
{
    match reply {
        Err(_) => ModelReply::Fallback,
        Ok(raw) => match extract_json(raw.as_str()) {
            Ok(j) => ModelReply::Json(j),
            Err(e) => ModelReply::Failed(e),
        },
    }
}

} // verus!
