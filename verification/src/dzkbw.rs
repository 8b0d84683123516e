//! Rebuilding the knowledge packs from the public catalogues of the
//! electronic-textbook site: reading catalogue pages, grouping catalogue
//! lines into units and lessons, rating and choosing book pages, and the
//! packs and messages that come out.
use vstd::prelude::*;
use crate::text::{occurs_at, first_index, starts_with, ends_with, trim_end_char, trim_start_char, find, copy_range, starts_with_exec, extend_chars, extend_vec, occurs_at_exec, chars_of, string_of, trim, trim_str, contains, str_contains, str_eq, strings_view};
use crate::verify::lit;
use crate::knowledge::{UnitInfo, KnowledgePack, SourceInfo};
use crate::pattern::{regex_found, regex_is_match, regex_all, regex_first, regex_replaced, regex_captures, regex_captures_all, regex_replace_all, groups_view};
use crate::ai::{last_index_of, last_index_exec};
use crate::ebook::{before_first, before_first_of};
use crate::strset::{seq_lt, str_less, lemma_lt_irreflexive, lemma_lt_transitive, lemma_lt_total};
use crate::expr::{nat_to_seq, push_nat_digits, all_digits, digits_val};

verus! {

/// `s` with each occurrence of `pat` (taken from the left, without overlap)
/// replaced by `rep`.
pub open spec fn replace_text(s: Seq<char>, pat: Seq<char>, rep: Seq<char>) -> Seq<char>
    decreases s.len(),
{
    if s.len() == 0 || pat.len() == 0 {
        s
    } else if occurs_at(s, pat, 0) {
        rep + replace_text(s.skip(pat.len() as int), pat, rep)
    } else {
        seq![s[0]] + replace_text(s.skip(1), pat, rep)
    }
}

proof fn lemma_replace_suffix(s: Seq<char>, pat: Seq<char>, rep: Seq<char>, i: int)
    requires
        0 <= i < s.len(),
        pat.len() > 0,
    ensures
        replace_text(s.skip(i), pat, rep) == if occurs_at(s, pat, i) {
            rep + replace_text(s.skip(i + pat.len()), pat, rep)
        } else {
            seq![s[i]] + replace_text(s.skip(i + 1), pat, rep)
        },
{
    let t = s.skip(i);
    assert(t.len() > 0);
    if occurs_at(s, pat, i) {
        assert(t.subrange(0, pat.len() as int) =~= s.subrange(i, i + pat.len()));
        assert(t.skip(pat.len() as int) =~= s.skip(i + pat.len()));
    } else {
        if occurs_at(t, pat, 0) {
            assert(t.subrange(0, pat.len() as int) =~= s.subrange(i, i + pat.len()));
        }
        assert(t.skip(1) =~= s.skip(i + 1));
    }
}

/// Replaces each occurrence of `pat` in `s` by `rep` (`str::replace`).
pub fn replace_exec(s: &str, pat: &str, rep: &str) -> (r: String)
    ensures
        r@ == replace_text(s@, pat@, rep@),
{
    let v = chars_of(s);
    let p = chars_of(pat);
    let rv = chars_of(rep);
    if p.len() == 0 {
        return string_of(&v);
    }
    let mut out: Vec<char> = Vec::new();
    let mut i: usize = 0;
    assert(v@.skip(0) =~= v@);
    while i < v.len()
        invariant
            i <= v.len(),
            p@.len() > 0,
            v@ == s@,
            p@ == pat@,
            rv@ == rep@,
            out@ + replace_text(v@.skip(i as int), p@, rv@) == replace_text(s@, pat@, rep@),
        decreases v.len() - i,
    {
        proof {
            lemma_replace_suffix(v@, p@, rv@, i as int);
        }
        if occurs_at_exec(&v, &p, i) {
            let ghost before = out@;
            crate::text::extend_vec(&mut out, &rv);
            assert(out@ + replace_text(v@.skip(i + p@.len()), p@, rv@) =~= before + (rv@ + replace_text(v@.skip(i + p@.len()), p@, rv@)));
            i = i + p.len();
        } else {
            let ghost before = out@;
            out.push(v[i]);
            assert(out@ + replace_text(v@.skip(i + 1), p@, rv@) =~= before + (seq![v@[i as int]] + replace_text(v@.skip(i + 1), p@, rv@)));
            i = i + 1;
        }
    }
    assert(v@.skip(i as int) =~= Seq::<char>::empty());
    assert(out@ + Seq::<char>::empty() =~= out@);
    string_of(&out)
}

/// The common HTML character references decoded, one after another.
pub open spec fn html_decoded(s: Seq<char>) -> Seq<char> {
    replace_text(
        replace_text(
            replace_text(
                replace_text(replace_text(replace_text(s, "&nbsp;"@, " "@), "&amp;"@, "&"@), "&lt;"@, "<"@),
                "&gt;"@,
                ">"@,
            ),
            "&quot;"@,
            "\""@,
        ),
        "&#39;"@,
        "'"@,
    )
}

pub fn html_escape_decode(s: &str) -> (r: String)
    ensures
        r@ == html_decoded(s@),
{
    let a = replace_exec(s, "&nbsp;", " ");
    let b = replace_exec(a.as_str(), "&amp;", "&");
    let c = replace_exec(b.as_str(), "&lt;", "<");
    let d = replace_exec(c.as_str(), "&gt;", ">");
    let e = replace_exec(d.as_str(), "&quot;", "\"");
    replace_exec(e.as_str(), "&#39;", "'")
}

/// Catalogue lines that are sections of a unit, kept as its lessons.
pub open spec fn section_as_lesson(t: Seq<char>) -> bool {
    t == "口语交际"@ || t == "习作"@ || t == "语文园地"@ || t == "阅读"@ || t == "写话"@ || t == "日积月累"@
}

pub fn is_section_as_lesson(t: &str) -> (r: bool)
    ensures
        r == section_as_lesson(t@),
{
    str_eq(t, "口语交际") || str_eq(t, "习作") || str_eq(t, "语文园地") || str_eq(t, "阅读") || str_eq(t, "写话")
        || str_eq(t, "日积月累")
}

/// The pattern of the lines that open a unit: `第…单元`, a Chinese numeral
/// heading, and the review and theme sections of a volume.
pub open spec fn unit_heading_pattern() -> Seq<char> {
    "^(?:第[一二三四五六七八九十百零\\d]+单元|[一二三四五六七八九十]+[、.\\s．][^\\s]{1,20}|整理与复习|数学好玩|总复习|快乐读书吧|我上学了|我上学啦|汉语拼音|综合实践|综合性学习)"@
}

/// Whether a catalogue line opens a unit: not a section kept as a lesson,
/// and either a unit heading or a short line (at most 24 characters) that
/// speaks of a unit.
pub open spec fn unit_title(t: Seq<char>) -> bool {
    !section_as_lesson(t) && (regex_found(unit_heading_pattern(), t) == Some(true) || (contains(t, "单元"@)
        && t.len() <= 24))
}

pub fn is_unit_title(t: &str) -> (r: bool)
    ensures
        r == unit_title(t@),
{
    if is_section_as_lesson(t) {
        return false;
    }
    let hard = regex_is_match(
        "^(?:第[一二三四五六七八九十百零\\d]+单元|[一二三四五六七八九十]+[、.\\s．][^\\s]{1,20}|整理与复习|数学好玩|总复习|快乐读书吧|我上学了|我上学啦|汉语拼音|综合实践|综合性学习)",
        t,
    );
    if hard == Some(true) {
        return true;
    }
    let n = chars_of(t).len();
    str_contains(t, "单元") && n <= 24
}


/// A unit being gathered: its name and its lessons.
pub type UnitDraft = (Seq<char>, Seq<Seq<char>>);

/// One catalogue line taken in: blank lines are skipped; a unit heading (or
/// any first line) opens a unit; a line equal to the unit's name or to one
/// of its lessons is skipped; any other line is a lesson of the last unit.
pub open spec fn catalog_step(units: Seq<UnitDraft>, raw: Seq<char>) -> Seq<UnitDraft> {
    let t = trim(raw);
    if t.len() == 0 {
        units
    } else if unit_title(t) || units.len() == 0 {
        units.push((t, Seq::empty()))
    } else if units.last().0 == t || units.last().1.contains(t) {
        units
    } else {
        units.update(units.len() - 1, (units.last().0, units.last().1.push(t)))
    }
}

/// The units gathered from catalogue lines, in order.
pub open spec fn grouped(entries: Seq<Seq<char>>) -> Seq<UnitDraft>
    decreases entries.len(),
{
    if entries.len() == 0 {
        Seq::empty()
    } else {
        catalog_step(grouped(entries.drop_last()), entries.last())
    }
}

/// `acc` with each of `xs` appended that it does not hold yet.
pub open spec fn push_new(acc: Seq<Seq<char>>, xs: Seq<Seq<char>>) -> Seq<Seq<char>>
    decreases xs.len(),
{
    if xs.len() == 0 {
        acc
    } else {
        let a = push_new(acc, xs.drop_last());
        if a.contains(xs.last()) {
            a
        } else {
            a.push(xs.last())
        }
    }
}

pub open spec fn first_n(s: Seq<Seq<char>>, n: nat) -> Seq<Seq<char>> {
    if s.len() <= n {
        s
    } else {
        s.take(n as int)
    }
}

/// The points of a gathered unit: its name, then its first sixteen lessons
/// that are new, at most twenty in all.
pub open spec fn unit_points(name: Seq<char>, lessons: Seq<Seq<char>>) -> Seq<Seq<char>> {
    first_n(push_new(seq![name], first_n(lessons, 16)), 20)
}

pub open spec fn unit_id(i: int) -> Seq<char> {
    "u"@ + nat_to_seq((i + 1) as nat)
}

/// The units built from catalogue lines.
pub open spec fn group_catalog_ok(r: Seq<UnitInfo>, entries: Seq<Seq<char>>) -> bool {
    let g = grouped(entries);
    &&& r.len() == g.len()
    &&& forall|i: int| #![trigger r[i]] 0 <= i < r.len() ==> {
        &&& r[i].id@ == unit_id(i)
        &&& r[i].name@ == g[i].0
        &&& strings_view(r[i].lessons@) == g[i].1
        &&& strings_view(r[i].points@) == unit_points(g[i].0, g[i].1)
    }
}

pub open spec fn drafts_view(v: Seq<UnitInfo>) -> Seq<UnitDraft> {
    v.map_values(|u: UnitInfo| (u.name@, strings_view(u.lessons@)))
}

fn unit_id_of(i: usize) -> (r: String)
    requires
        i < usize::MAX,
    ensures
        r@ == unit_id(i as int),
{
    let mut v = chars_of("u");
    push_nat_digits(&mut v, (i + 1) as u128);
    string_of(&v)
}

/// Whether `v` holds the text `x`.
pub(crate) fn holds(v: &Vec<String>, x: &String) -> (r: bool)
    ensures
        r == strings_view(v@).contains(x@),
{
    let mut k: usize = 0;
    while k < v.len()
        invariant
            k <= v.len(),
            forall|j: int| 0 <= j < k ==> v@[j]@ != x@,
        decreases v.len() - k,
    {
        if str_eq(v[k].as_str(), x.as_str()) {
            assert(strings_view(v@)[k as int] == x@);
            return true;
        }
        k = k + 1;
    }
    proof {
        if strings_view(v@).contains(x@) {
            let i = choose|i: int| 0 <= i < strings_view(v@).len() && strings_view(v@)[i] == x@;
            assert(v@[i]@ == x@);
        }
    }
    false
}

proof fn lemma_push_new_step(acc: Seq<Seq<char>>, xs: Seq<Seq<char>>, j: int)
    requires
        0 <= j < xs.len(),
    ensures
        push_new(acc, xs.take(j + 1)) == ({
            let a = push_new(acc, xs.take(j));
            if a.contains(xs[j]) {
                a
            } else {
                a.push(xs[j])
            }
        }),
{
    assert(xs.take(j + 1).drop_last() =~= xs.take(j));
}

fn points_of(name: &String, lessons: &Vec<String>) -> (r: Vec<String>)
    ensures
        strings_view(r@) == unit_points(name@, strings_view(lessons@)),
{
    let ghost ls = first_n(strings_view(lessons@), 16);
    let m: usize = if lessons.len() <= 16 { lessons.len() } else { 16 };
    let mut pts: Vec<String> = vec![name.clone()];
    assert(strings_view(pts@) =~= seq![name@]);
    assert(ls.take(0) =~= Seq::<Seq<char>>::empty());
    let mut j: usize = 0;
    while j < m
        invariant
            j <= m,
            m == ls.len(),
            m <= lessons.len(),
            ls == first_n(strings_view(lessons@), 16),
            strings_view(pts@) == push_new(seq![name@], ls.take(j as int)),
        decreases m - j,
    {
        proof {
            lemma_push_new_step(seq![name@], ls, j as int);
            assert(ls[j as int] == lessons@[j as int]@);
        }
        if !holds(&pts, &lessons[j]) {
            pts.push(lessons[j].clone());
            assert(strings_view(pts@) =~= push_new(seq![name@], ls.take(j as int)).push(ls[j as int]));
        }
        j = j + 1;
    }
    assert(ls.take(m as int) =~= ls);
    let ghost all = strings_view(pts@);
    pts.truncate(20);
    assert(strings_view(pts@) =~= first_n(all, 20));
    pts
}

proof fn lemma_grouped_step(entries: Seq<Seq<char>>, k: int)
    requires
        0 <= k < entries.len(),
    ensures
        grouped(entries.take(k + 1)) == catalog_step(grouped(entries.take(k)), entries[k]),
{
    assert(entries.take(k + 1).drop_last() =~= entries.take(k));
}

/// Groups catalogue lines into units (see `group_catalog_ok`).
pub fn group_catalog(entries: &Vec<String>) -> (r: Vec<UnitInfo>)
    ensures
        group_catalog_ok(r@, strings_view(entries@)),
{
    let ghost ev = strings_view(entries@);
    let mut units: Vec<UnitInfo> = Vec::new();
    assert(ev.take(0) =~= Seq::<Seq<char>>::empty());
    assert(drafts_view(units@) =~= Seq::<UnitDraft>::empty());
    let mut k: usize = 0;
    while k < entries.len()
        invariant
            k <= entries.len(),
            ev == strings_view(entries@),
            units@.len() <= k,
            drafts_view(units@) == grouped(ev.take(k as int)),
            forall|i: int| 0 <= i < units@.len() ==> (#[trigger] units@[i]).id@ == unit_id(i),
        decreases entries.len() - k,
    {
        proof {
            lemma_grouped_step(ev, k as int);
            assert(ev[k as int] == entries@[k as int]@);
        }
        let ghost before = drafts_view(units@);
        let t = trim_str(entries[k].as_str());
        let tl = chars_of(t.as_str()).len();
        if tl == 0 {
        } else if is_unit_title(t.as_str()) || units.len() == 0 {
            let id = unit_id_of(units.len());
            let ls: Vec<String> = Vec::new();
            assert(strings_view(ls@) =~= Seq::<Seq<char>>::empty());
            let ghost tv = t@;
            units.push(UnitInfo { id, name: t, lessons: ls, points: Vec::new() });
            assert(drafts_view(units@).last() == (tv, Seq::<Seq<char>>::empty()));
            assert(drafts_view(units@) =~= before.push((trim(ev[k as int]), Seq::<Seq<char>>::empty())));
        } else {
            let n = units.len();
            let same = str_eq(units[n - 1].name.as_str(), t.as_str());
            if same || holds(&units[n - 1].lessons, &t) {
            } else {
                let ghost uv = units@;
                let ghost tv = t@;
                let mut u = units.pop().unwrap();
                assert(u == uv[n - 1]);
                assert(units@ =~= uv.drop_last());
                u.lessons.push(t);
                assert(strings_view(u.lessons@) =~= strings_view(uv[n - 1].lessons@).push(tv));
                units.push(u);
                assert(drafts_view(units@).last() == (before.last().0, before.last().1.push(tv)));
                assert forall|j: int| 0 <= j < n - 1 implies drafts_view(units@)[j] == before[j] by {
                    assert(units@[j] == uv[j]);
                }
                assert(drafts_view(units@) =~= before.update(before.len() - 1, (before.last().0, before.last().1.push(trim(ev[k as int])))));
            }
        }
        k = k + 1;
    }
    assert(ev.take(entries.len() as int) =~= ev);
    let ghost g = drafts_view(units@);
    let mut out: Vec<UnitInfo> = Vec::new();
    let mut i: usize = 0;
    while i < units.len()
        invariant
            i <= units.len(),
            g == drafts_view(units@),
            out@.len() == i,
            forall|j: int| 0 <= j < units@.len() ==> (#[trigger] units@[j]).id@ == unit_id(j),
            forall|j: int| #![trigger out@[j]] 0 <= j < i ==> {
                &&& out@[j].id@ == unit_id(j)
                &&& out@[j].name@ == g[j].0
                &&& strings_view(out@[j].lessons@) == g[j].1
                &&& strings_view(out@[j].points@) == unit_points(g[j].0, g[j].1)
            },
        decreases units.len() - i,
    {
        let u = &units[i];
        let pts = points_of(&u.name, &u.lessons);
        let mut lessons: Vec<String> = Vec::new();
        crate::templates::copy_strings(&mut lessons, &u.lessons);
        out.push(UnitInfo { id: u.id.clone(), name: u.name.clone(), lessons, points: pts });
        proof {
            assert(g[i as int] == (units@[i as int].name@, strings_view(units@[i as int].lessons@)));
            assert(strings_view(lessons@) =~= strings_view(units@[i as int].lessons@));
        }
        i = i + 1;
    }
    out
}


/// An address on a page resolved against the page's address: absolute
/// addresses kept, `//host` addresses given `http:`, `/path` addresses put
/// on the page's scheme and host; otherwise joined to the page's folder (a
/// last segment with a dot, not naming the site, is taken for a file).
pub open spec fn join_url_spec(base: Seq<char>, href: Seq<char>) -> Seq<char> {
    let b = trim_end_char(base, '/');
    if starts_with(href, "http://"@) || starts_with(href, "https://"@) {
        href
    } else if starts_with(href, "//"@) {
        "http:"@ + href
    } else if starts_with(href, "/"@) && first_index(b, "://"@) is Some {
        let pos = first_index(b, "://"@)->0;
        b.take(pos) + "://"@ + before_first(b.skip(pos + 3), '/') + href
    } else {
        let base_path = match last_index_of(b, '/') {
            Some(i) => {
                let last = b.skip(i + 1);
                if contains(last, "."@) && !contains(last, "dzkbw"@) {
                    b.take(i + 1)
                } else {
                    b.push('/')
                }
            },
            None => b,
        };
        trim_end_char(base_path, '/') + "/"@ + trim_start_char(href, '/')
    }
}

pub fn join_url(base: &str, href: &str) -> (r: String)
    ensures
        r@ == join_url_spec(base@, href@),
{
    let hv = chars_of(href);
    if starts_with_exec(&hv, &chars_of("http://")) || starts_with_exec(&hv, &chars_of("https://")) {
        return string_of(&hv);
    }
    if starts_with_exec(&hv, &chars_of("//")) {
        let mut v = chars_of("http:");
        extend_vec(&mut v, &hv);
        return string_of(&v);
    }
    let bv0 = chars_of(base);
    let e = crate::text::trim_end_char_bound(&bv0, 0, bv0.len(), '/');
    assert(bv0@.subrange(0, bv0@.len() as int) =~= bv0@);
    let b = copy_range(&bv0, 0, e);
    if starts_with_exec(&hv, &chars_of("/")) {
        let sep = chars_of("://");
        match find(&b, &sep) {
            Some(pos) => {
                proof {
                    reveal_strlit("://");
                    assert(sep@.len() == 3);
                }
                let rest = copy_range(&b, pos + 3, b.len());
                let host = before_first_of(&rest, '/');
                let mut v = copy_range(&b, 0, pos);
                extend_chars(&mut v, "://");
                extend_vec(&mut v, &host);
                extend_vec(&mut v, &hv);
                proof {
                    assert(rest@ =~= b@.skip(pos + 3));
                    assert(b@.subrange(0, pos as int) =~= b@.take(pos as int));
                }
                return string_of(&v);
            },
            None => {},
        }
    }
    let mut base_path = copy_range(&b, 0, b.len());
    assert(b@.subrange(0, b@.len() as int) =~= b@);
    match last_index_exec(&b, '/') {
        Some(i) => {
            let last = copy_range(&b, i + 1, b.len());
            assert(last@ =~= b@.skip(i + 1));
            if crate::text::contains_exec(&last, &chars_of(".")) && !crate::text::contains_exec(&last, &chars_of("dzkbw")) {
                base_path = copy_range(&b, 0, i + 1);
                assert(base_path@ =~= b@.take(i + 1));
            } else {
                base_path.push('/');
            }
        },
        None => {},
    }
    let be = crate::text::trim_end_char_bound(&base_path, 0, base_path.len(), '/');
    assert(base_path@.subrange(0, base_path@.len() as int) =~= base_path@);
    let mut out = copy_range(&base_path, 0, be);
    out.push('/');
    let hs = crate::text::trim_start_char_bound(&hv, 0, hv.len(), '/');
    assert(hv@.subrange(0, hv@.len() as int) =~= hv@);
    let tail = copy_range(&hv, hs, hv.len());
    extend_vec(&mut out, &tail);
    proof {
        reveal_strlit("/");
    }
    string_of(&out)
}


/// The grade a book title names (一年级 … 六年级, the first found).
pub open spec fn title_grade(t: Seq<char>) -> Option<u8> {
    if contains(t, "一年级"@) {
        Some(1u8)
    } else if contains(t, "二年级"@) {
        Some(2u8)
    } else if contains(t, "三年级"@) {
        Some(3u8)
    } else if contains(t, "四年级"@) {
        Some(4u8)
    } else if contains(t, "五年级"@) {
        Some(5u8)
    } else if contains(t, "六年级"@) {
        Some(6u8)
    } else {
        None
    }
}

/// The semester a book title names: `xia` for 下册, `shang` for 上册 or 全一册.
pub open spec fn title_semester(t: Seq<char>) -> Option<Seq<char>> {
    if contains(t, "下册"@) {
        Some("xia"@)
    } else if contains(t, "上册"@) || contains(t, "全一册"@) {
        Some("shang"@)
    } else {
        None
    }
}

pub open spec fn grade_sem_of_title(t: Seq<char>) -> Option<(u8, Seq<char>)> {
    match (title_grade(t), title_semester(t)) {
        (Some(g), Some(s)) => Some((g, s)),
        _ => None,
    }
}

/// The grade and semester a book title names, when it names both.
pub fn parse_grade_sem_from_title(title: &str) -> (r: Option<(u8, String)>)
    ensures
        match r {
            Some(p) => grade_sem_of_title(title@) == Some((p.0, p.1@)),
            None => grade_sem_of_title(title@) is None,
        },
{
    let g: u8 = if str_contains(title, "一年级") {
        1
    } else if str_contains(title, "二年级") {
        2
    } else if str_contains(title, "三年级") {
        3
    } else if str_contains(title, "四年级") {
        4
    } else if str_contains(title, "五年级") {
        5
    } else if str_contains(title, "六年级") {
        6
    } else {
        return None;
    };
    if str_contains(title, "下册") {
        Some((g, lit("xia")))
    } else if str_contains(title, "上册") || str_contains(title, "全一册") {
        Some((g, lit("shang")))
    } else {
        None
    }
}

/// Whether a title names a level or a kind of book outside primary pupils'
/// textbooks (senior or junior high grades, required or elective modules,
/// teachers' books).
pub open spec fn off_level(t: Seq<char>) -> bool {
    contains(t, "高一"@) || contains(t, "高二"@) || contains(t, "高三"@) || contains(t, "七年级"@) || contains(t, "八年级"@)
        || contains(t, "九年级"@) || contains(t, "必修"@) || contains(t, "选择性"@) || contains(t, "教师"@) || contains(t, "用书"@)
}

/// Whether the title holds one of `keys`.
pub open spec fn holds_any(t: Seq<char>, keys: Seq<Seq<char>>) -> bool {
    exists|i: int| 0 <= i < keys.len() && contains(t, #[trigger] keys[i])
}

/// Whether the title holds one of the non-empty `keys`.
pub open spec fn holds_any_nonempty(t: Seq<char>, keys: Seq<Seq<char>>) -> bool {
    exists|i: int| 0 <= i < keys.len() && keys[i].len() > 0 && contains(t, #[trigger] keys[i])
}

/// How many of `keys` the title holds.
pub open spec fn hits(t: Seq<char>, keys: Seq<Seq<char>>) -> nat
    decreases keys.len(),
{
    if keys.len() == 0 {
        0
    } else {
        hits(t, keys.drop_last()) + if contains(t, keys.last()) { 1nat } else { 0nat }
    }
}

pub open spec fn year_bonus(t: Seq<char>) -> int {
    if contains(t, "2026"@) {
        120
    } else if contains(t, "2025"@) {
        90
    } else if contains(t, "2024"@) {
        70
    } else {
        0
    }
}

/// The rating of a book title: -1000 when it is off level, excluded, of
/// another subject, or of none of the wanted editions (when some are
/// wanted); otherwise 10, more for a recent year, for autumn (8) and spring
/// (4) volumes, for the unified edition (25), and 20 for each wanted edition
/// named.
pub open spec fn title_score(t: Seq<char>, subject_keys: Seq<Seq<char>>, edition_keys: Seq<Seq<char>>, exclude_keys: Seq<Seq<char>>) -> int {
    if off_level(t) || holds_any_nonempty(t, exclude_keys) || !holds_any(t, subject_keys) || (edition_keys.len() > 0
        && !holds_any(t, edition_keys)) {
        -1000
    } else {
        10 + year_bonus(t) + (if contains(t, "秋"@) { 8int } else { 0int }) + (if contains(t, "春"@) { 4int } else { 0int }) + (
        if contains(t, "部编"@) || contains(t, "统编"@) {
            25int
        } else {
            0int
        }) + 20 * hits(t, edition_keys)
    }
}

fn holds_any_exec(t: &str, keys: &Vec<String>, skip_empty: bool) -> (r: bool)
    ensures
        !skip_empty ==> r == holds_any(t@, strings_view(keys@)),
        skip_empty ==> r == holds_any_nonempty(t@, strings_view(keys@)),
{
    let ghost kv = strings_view(keys@);
    let mut i: usize = 0;
    while i < keys.len()
        invariant
            i <= keys.len(),
            kv == strings_view(keys@),
            !skip_empty ==> forall|j: int| 0 <= j < i ==> !contains(t@, #[trigger] kv[j]),
            skip_empty ==> forall|j: int| 0 <= j < i ==> !(kv[j].len() > 0 && contains(t@, #[trigger] kv[j])),
        decreases keys.len() - i,
    {
        let nonempty = chars_of(keys[i].as_str()).len() > 0;
        proof {
            assert(kv[i as int] == keys@[i as int]@);
        }
        if (!skip_empty || nonempty) && str_contains(t, keys[i].as_str()) {
            return true;
        }
        i = i + 1;
    }
    false
}

proof fn lemma_hits_step(t: Seq<char>, keys: Seq<Seq<char>>, i: int)
    requires
        0 <= i < keys.len(),
    ensures
        hits(t, keys.take(i + 1)) == hits(t, keys.take(i)) + if contains(t, keys[i]) { 1nat } else { 0nat },
        hits(t, keys.take(i)) <= i,
    decreases i,
{
    assert(keys.take(i + 1).drop_last() =~= keys.take(i));
    if i > 0 {
        lemma_hits_step(t, keys, i - 1);
    } else {
        assert(keys.take(0) =~= Seq::<Seq<char>>::empty());
    }
}

/// Rates a book title (see `title_score`), in `i32` arithmetic that wraps
/// round as the rating sums up.
pub fn score_org_book_title(title: &str, subject_keys: &Vec<String>, edition_keys: &Vec<String>, exclude_keys: &Vec<String>) -> (r: i32)
    ensures
        r == title_score(title@, strings_view(subject_keys@), strings_view(edition_keys@), strings_view(exclude_keys@)) as i32,
{
    if str_contains(title, "高一") || str_contains(title, "高二") || str_contains(title, "高三") || str_contains(title, "七年级")
        || str_contains(title, "八年级") || str_contains(title, "九年级") || str_contains(title, "必修") || str_contains(title, "选择性")
        || str_contains(title, "教师") || str_contains(title, "用书") {
        return -1000;
    }
    if holds_any_exec(title, exclude_keys, true) {
        return -1000;
    }
    if !holds_any_exec(title, subject_keys, false) {
        return -1000;
    }
    if edition_keys.len() > 0 && !holds_any_exec(title, edition_keys, false) {
        return -1000;
    }
    let mut score: i32 = 10;
    if str_contains(title, "2026") {
        score = score + 120;
    } else if str_contains(title, "2025") {
        score = score + 90;
    } else if str_contains(title, "2024") {
        score = score + 70;
    }
    if str_contains(title, "秋") {
        score = score + 8;
    }
    if str_contains(title, "春") {
        score = score + 4;
    }
    if str_contains(title, "部编") || str_contains(title, "统编") {
        score = score + 25;
    }
    let ghost kv = strings_view(edition_keys@);
    assert(kv.take(0) =~= Seq::<Seq<char>>::empty());
    let mut i: usize = 0;
    let mut n: usize = 0;
    while i < edition_keys.len()
        invariant
            i <= edition_keys.len(),
            kv == strings_view(edition_keys@),
            n <= i,
            n == hits(title@, kv.take(i as int)),
        decreases edition_keys.len() - i,
    {
        proof {
            lemma_hits_step(title@, kv, i as int);
            assert(kv[i as int] == edition_keys@[i as int]@);
        }
        if str_contains(title, edition_keys[i].as_str()) {
            n = n + 1;
        }
        i = i + 1;
    }
    assert(kv.take(edition_keys.len() as int) =~= kv);
    let total: i128 = score as i128 + 20 * (n as i128);
    #[verifier::truncate]
    (total as i32)
}

/// The site the catalogues are read from.
pub open spec fn org_site() -> Seq<char> {
    "https://www.dzkbw.org"@
}

/// The knowledge pack made from a volume's catalogue.
pub open spec fn pack_ok(
    p: KnowledgePack,
    subject: Seq<char>,
    edition: Seq<char>,
    grade: u8,
    semester: Seq<char>,
    title: Seq<char>,
    units: Seq<UnitInfo>,
    catalog_url: Seq<char>,
    edition_label: Seq<char>,
    subject_label: Seq<char>,
    entry_count: usize,
) -> bool {
    let sem_label = if semester == "shang"@ { "上册"@ } else { "下册"@ };
    &&& p.subject@ == subject
    &&& p.edition@ == edition
    &&& p.grade == grade
    &&& p.semester@ == semester
    &&& p.title@ == title
    &&& p.source.platform@ == "国家中小学智慧教育平台 + 电子课本网目录"@
    &&& p.source.platform_url@ == "https://basic.smartedu.cn/"@
    &&& p.source.classroom_url@ == "https://basic.smartedu.cn/syncClassroom"@
    &&& p.source.material_url@ == "https://basic.smartedu.cn/tchMaterial"@
    &&& p.source.elec_edu_url@ == "https://basic.smartedu.cn/elecEdu"@
    &&& p.source.note@ == "单元/课时目录优先来自 dzkbw.org book 页 pre 目录（含分篇古诗）；失败时回退 dzkbw.com。不含教材正文。"@
    &&& p.source.edition_label@ == edition_label
    &&& p.source.subject_label@ == subject_label
    &&& p.source.smartedu_path_hint@ == "小学 → "@ + nat_to_seq(grade as nat) + "年级 → "@ + subject_label + " → "@ + edition_label
        + " → "@ + sem_label
    &&& p.source.catalog_site@ == org_site()
    &&& p.source.catalog_ref@ == catalog_url
    &&& p.source.entry_count == entry_count
    &&& p.source.unit_count == units.len()
    &&& p.units@ == units
    &&& strings_view(p.exam_hints@) == seq![
        "命题必须落在本册单元/课时范围内，禁止超纲"@,
        "单元测试只考所选单元课时"@,
        "期中覆盖前半册单元，期末覆盖全册"@,
        "目录来源（电子课本网）："@ + catalog_url,
        "风格可参考智慧教育平台同步课堂 https://basic.smartedu.cn/syncClassroom"@,
    ]
}

pub fn build_pack(
    subject: &str,
    edition: &str,
    grade: u8,
    semester: &str,
    title: &str,
    units: Vec<UnitInfo>,
    catalog_url: &str,
    edition_label: &str,
    subject_label: &str,
    entry_count: usize,
) -> (r: KnowledgePack)
    ensures
        pack_ok(r, subject@, edition@, grade, semester@, title@, units@, catalog_url@, edition_label@, subject_label@, entry_count),
{
    let sem_label = if str_eq(semester, "shang") { "上册" } else { "下册" };
    let mut hint = chars_of("小学 → ");
    push_nat_digits(&mut hint, grade as u128);
    extend_chars(&mut hint, "年级 → ");
    extend_chars(&mut hint, subject_label);
    extend_chars(&mut hint, " → ");
    extend_chars(&mut hint, edition_label);
    extend_chars(&mut hint, " → ");
    extend_chars(&mut hint, sem_label);
    let mut src_line = chars_of("目录来源（电子课本网）：");
    extend_chars(&mut src_line, catalog_url);
    let hints = vec![
        lit("命题必须落在本册单元/课时范围内，禁止超纲"),
        lit("单元测试只考所选单元课时"),
        lit("期中覆盖前半册单元，期末覆盖全册"),
        string_of(&src_line),
        lit("风格可参考智慧教育平台同步课堂 https://basic.smartedu.cn/syncClassroom"),
    ];
    let n = units.len();
    let r = KnowledgePack {
        subject: lit(subject),
        edition: lit(edition),
        grade,
        semester: lit(semester),
        title: lit(title),
        source: SourceInfo {
            platform: lit("国家中小学智慧教育平台 + 电子课本网目录"),
            platform_url: lit("https://basic.smartedu.cn/"),
            classroom_url: lit("https://basic.smartedu.cn/syncClassroom"),
            material_url: lit("https://basic.smartedu.cn/tchMaterial"),
            elec_edu_url: lit("https://basic.smartedu.cn/elecEdu"),
            catalog_site: lit("https://www.dzkbw.org"),
            catalog_ref: lit(catalog_url),
            note: lit("单元/课时目录优先来自 dzkbw.org book 页 pre 目录（含分篇古诗）；失败时回退 dzkbw.com。不含教材正文。"),
            edition_label: lit(edition_label),
            subject_label: lit(subject_label),
            smartedu_path_hint: string_of(&hint),
            entry_count,
            unit_count: n,
        },
        units,
        exam_hints: hints,
    };
    assert(strings_view(r.exam_hints@) =~= seq![
        "命题必须落在本册单元/课时范围内，禁止超纲"@,
        "单元测试只考所选单元课时"@,
        "期中覆盖前半册单元，期末覆盖全册"@,
        "目录来源（电子课本网）："@ + catalog_url@,
        "风格可参考智慧教育平台同步课堂 https://basic.smartedu.cn/syncClassroom"@,
    ]);
    r
}


/// The text a capture group matched, empty when it took no part.
pub open spec fn group_text(g: Seq<Option<Seq<char>>>, i: int) -> Seq<char> {
    if 0 <= i < g.len() {
        match g[i] {
            Some(t) => t,
            None => Seq::empty(),
        }
    } else {
        Seq::empty()
    }
}

pub(crate) fn group_string(g: &Vec<Option<String>>, i: usize) -> (r: String)
    ensures
        r@ == group_text(groups_view(g@), i as int),
{
    if i < g.len() {
        match &g[i] {
            Some(t) => t.clone(),
            None => String::new(),
        }
    } else {
        String::new()
    }
}

/// White space squeezed: the words of `s` with one space between two of
/// them (the second of the pair is whether a space is owed before the next word).
pub open spec fn squeeze_state(s: Seq<char>) -> (Seq<char>, bool)
    decreases s.len(),
{
    if s.len() == 0 {
        (Seq::empty(), false)
    } else {
        let prev = squeeze_state(s.drop_last());
        let c = s.last();
        if crate::text::is_ws(c) {
            (prev.0, prev.0.len() > 0)
        } else if prev.1 {
            (prev.0.push(' ').push(c), false)
        } else {
            (prev.0.push(c), false)
        }
    }
}

pub open spec fn squeeze_ws(s: Seq<char>) -> Seq<char> {
    squeeze_state(s).0
}

pub(crate) fn squeeze_exec(s: &str) -> (r: String)
    ensures
        r@ == squeeze_ws(s@),
{
    let v = chars_of(s);
    let mut out: Vec<char> = Vec::new();
    let mut pending = false;
    let mut i: usize = 0;
    assert(v@.take(0) =~= Seq::<char>::empty());
    while i < v.len()
        invariant
            i <= v.len(),
            v@ == s@,
            (out@, pending) == squeeze_state(v@.take(i as int)),
        decreases v.len() - i,
    {
        assert(v@.take(i + 1).drop_last() =~= v@.take(i as int));
        let c = v[i];
        if crate::text::is_ws_char(c) {
            pending = out.len() > 0;
        } else {
            if pending {
                out.push(' ');
            }
            out.push(c);
            pending = false;
        }
        i = i + 1;
    }
    assert(v@.take(v.len() as int) =~= v@);
    string_of(&out)
}

pub open spec fn script_pattern() -> Seq<char> {
    "(?is)<script[^>]*>.*?</script>"@
}

pub open spec fn style_pattern() -> Seq<char> {
    "(?is)<style[^>]*>.*?</style>"@
}

pub open spec fn tag_pattern() -> Seq<char> {
    "(?is)<[^>]+>"@
}

/// The text of an HTML fragment: scripts and styles blanked, tags removed,
/// character references decoded, white space squeezed.
pub open spec fn stripped(s: Seq<char>) -> Seq<char> {
    squeeze_ws(
        html_decoded(regex_replaced(tag_pattern(), regex_replaced(style_pattern(), regex_replaced(script_pattern(), s, " "@), " "@), ""@)),
    )
}

pub fn strip_tags(s: &str) -> (r: String)
    ensures
        r@ == stripped(s@),
{
    let a = regex_replace_all("(?is)<script[^>]*>.*?</script>", s, " ");
    let b = regex_replace_all("(?is)<style[^>]*>.*?</style>", a.as_str(), " ");
    let c = regex_replace_all("(?is)<[^>]+>", b.as_str(), "");
    let d = html_escape_decode(c.as_str());
    squeeze_exec(d.as_str())
}

pub open spec fn link_pattern() -> Seq<char> {
    "(?is)<a[^>]+href=[\"']([^\"']+)[\"'][^>]*>(.*?)</a>"@
}

pub type LinkView = (Seq<char>, Seq<char>);

pub open spec fn links_view(v: Seq<(String, String)>) -> Seq<LinkView> {
    v.map_values(|p: (String, String)| (p.0@, p.1@))
}

/// The links of successive anchor matches: the trimmed address and the text
/// of the anchor, where that text is not empty.
pub open spec fn links_from(caps: Seq<Seq<Option<Seq<char>>>>) -> Seq<LinkView>
    decreases caps.len(),
{
    if caps.len() == 0 {
        Seq::empty()
    } else {
        let prev = links_from(caps.drop_last());
        let g = caps.last();
        let text = stripped(group_text(g, 2));
        if text.len() > 0 {
            prev.push((trim(group_text(g, 1)), text))
        } else {
            prev
        }
    }
}

/// The links of an HTML page, in order.
pub open spec fn page_links(html: Seq<char>) -> Seq<LinkView> {
    links_from(regex_all(link_pattern(), html))
}

pub fn extract_links(html: &str) -> (r: Vec<(String, String)>)
    ensures
        links_view(r@) == page_links(html@),
{
    let caps = regex_captures_all("(?is)<a[^>]+href=[\"']([^\"']+)[\"'][^>]*>(.*?)</a>", html);
    let ghost cv = caps@.map_values(|g: Vec<Option<String>>| groups_view(g@));
    let mut out: Vec<(String, String)> = Vec::new();
    let mut i: usize = 0;
    assert(cv.take(0) =~= Seq::<Seq<Option<Seq<char>>>>::empty());
    assert(links_view(out@) =~= Seq::<LinkView>::empty());
    while i < caps.len()
        invariant
            i <= caps.len(),
            cv == caps@.map_values(|g: Vec<Option<String>>| groups_view(g@)),
            links_view(out@) == links_from(cv.take(i as int)),
        decreases caps.len() - i,
    {
        assert(cv.take(i + 1).drop_last() =~= cv.take(i as int));
        let href = group_string(&caps[i], 1);
        let text = strip_tags(group_string(&caps[i], 2).as_str());
        let tl = chars_of(text.as_str()).len();
        if tl > 0 {
            let ghost before = links_view(out@);
            out.push((trim_str(href.as_str()), text));
            assert(links_view(out@) =~= before.push((trim(href@), text@)));
        }
        i = i + 1;
    }
    assert(cv.take(caps.len() as int) =~= cv);
    out
}

/// The pieces of `s` between line feeds.
pub open spec fn split_nl(s: Seq<char>) -> Seq<Seq<char>>
    decreases s.len(),
{
    if s.len() == 0 {
        seq![Seq::empty()]
    } else {
        let p = split_nl(s.drop_last());
        if s.last() == '\n' {
            p.push(Seq::empty())
        } else {
            p.update(p.len() - 1, p.last().push(s.last()))
        }
    }
}

proof fn lemma_split_nl_len(s: Seq<char>)
    ensures
        split_nl(s).len() >= 1,
    decreases s.len(),
{
    if s.len() > 0 {
        lemma_split_nl_len(s.drop_last());
    }
}

/// The lines of `s` as `str::lines` gives them, but for a carriage return
/// before a line feed, which is left on the line (the lines are trimmed
/// before use, which removes it).
pub open spec fn lines_of(s: Seq<char>) -> Seq<Seq<char>> {
    let p = split_nl(s);
    if p.last().len() == 0 {
        p.drop_last()
    } else {
        p
    }
}

pub(crate) fn lines_exec(s: &str) -> (r: Vec<String>)
    ensures
        strings_view(r@) == lines_of(s@),
{
    let v = chars_of(s);
    let mut done: Vec<String> = Vec::new();
    let mut cur: Vec<char> = Vec::new();
    let mut i: usize = 0;
    assert(v@.take(0) =~= Seq::<char>::empty());
    assert(strings_view(done@).push(cur@) =~= split_nl(v@.take(0)));
    while i < v.len()
        invariant
            i <= v.len(),
            v@ == s@,
            strings_view(done@).push(cur@) == split_nl(v@.take(i as int)),
        decreases v.len() - i,
    {
        assert(v@.take(i + 1).drop_last() =~= v@.take(i as int));
        let ghost before = strings_view(done@).push(cur@);
        if v[i] == '\n' {
            done.push(string_of(&cur));
            cur = Vec::new();
            assert(strings_view(done@).push(cur@) =~= before.push(Seq::<char>::empty()));
        } else {
            cur.push(v[i]);
            assert(strings_view(done@).push(cur@) =~= before.update(before.len() - 1, before.last().push(v@[i as int])));
        }
        i = i + 1;
    }
    assert(v@.take(v.len() as int) =~= v@);
    if cur.len() > 0 {
        done.push(string_of(&cur));
        assert(strings_view(done@) =~= split_nl(s@));
    } else {
        assert(strings_view(done@) =~= split_nl(s@).drop_last());
    }
    done
}

/// A catalogue line cleaned: no-break spaces made spaces, curly-quote
/// references decoded, trimmed.
pub open spec fn clean_line(l: Seq<char>) -> Seq<char> {
    trim(replace_text(replace_text(replace_text(l, seq!['\u{00a0}'], " "@), "&ldquo;"@, "“"@), "&rdquo;"@, "”"@))
}

/// The cleaned lines that are not empty and shorter than 80 characters.
pub open spec fn kept_lines(ls: Seq<Seq<char>>) -> Seq<Seq<char>>
    decreases ls.len(),
{
    if ls.len() == 0 {
        Seq::empty()
    } else {
        let prev = kept_lines(ls.drop_last());
        let l = clean_line(ls.last());
        if l.len() > 0 && l.len() < 80 {
            prev.push(l)
        } else {
            prev
        }
    }
}

/// How many lines look like unit headings.
pub open spec fn unit_lines(ls: Seq<Seq<char>>) -> nat
    decreases ls.len(),
{
    if ls.len() == 0 {
        0
    } else {
        unit_lines(ls.drop_last()) + if contains(ls.last(), "单元"@) || unit_title(ls.last()) { 1nat } else { 0nat }
    }
}

/// The rating of a `<pre>` catalogue: 20 for each unit line, 1 for each line.
pub open spec fn pre_score(ls: Seq<Seq<char>>) -> nat {
    unit_lines(ls) * 20 + ls.len()
}

pub open spec fn pre_pattern() -> Seq<char> {
    "(?is)<pre[^>]*>(.*?)</pre>"@
}

pub open spec fn pre_lines(g: Seq<Option<Seq<char>>>) -> Seq<Seq<char>> {
    kept_lines(lines_of(html_decoded(group_text(g, 1))))
}

/// The best `<pre>` catalogue so far, and its rating: a block replaces the
/// best when it rates higher and has at least six lines.
pub open spec fn best_pre(caps: Seq<Seq<Option<Seq<char>>>>) -> (Seq<Seq<char>>, nat)
    decreases caps.len(),
{
    if caps.len() == 0 {
        (Seq::empty(), 0)
    } else {
        let prev = best_pre(caps.drop_last());
        let ls = pre_lines(caps.last());
        if pre_score(ls) > prev.1 && ls.len() >= 6 {
            (ls, pre_score(ls))
        } else {
            prev
        }
    }
}

/// The catalogue lines of a book page's best `<pre>` block.
pub open spec fn pre_catalog(html: Seq<char>) -> Seq<Seq<char>> {
    best_pre(regex_all(pre_pattern(), html)).0
}

fn clean_line_exec(l: &str) -> (r: String)
    ensures
        r@ == clean_line(l@),
{
    let a = replace_exec(l, "\u{00a0}", " ");
    proof {
        reveal_strlit("\u{00a0}");
        assert("\u{00a0}"@ =~= seq!['\u{00a0}']);
    }
    let b = replace_exec(a.as_str(), "&ldquo;", "“");
    let c = replace_exec(b.as_str(), "&rdquo;", "”");
    trim_str(c.as_str())
}

proof fn lemma_fold_step<A>(s: Seq<A>, i: int)
    requires
        0 <= i < s.len(),
    ensures
        s.take(i + 1).drop_last() == s.take(i),
        s.take(i + 1).last() == s[i],
{
    assert(s.take(i + 1).drop_last() =~= s.take(i));
}

fn kept_lines_exec(ls: &Vec<String>) -> (r: (Vec<String>, u128))
    ensures
        strings_view(r.0@) == kept_lines(strings_view(ls@)),
        r.1 == unit_lines(kept_lines(strings_view(ls@))),
        r.1 <= r.0@.len(),
{
    let ghost lv = strings_view(ls@);
    let mut out: Vec<String> = Vec::new();
    let mut units: u128 = 0;
    let mut i: usize = 0;
    assert(lv.take(0) =~= Seq::<Seq<char>>::empty());
    assert(strings_view(out@) =~= Seq::<Seq<char>>::empty());
    while i < ls.len()
        invariant
            i <= ls.len(),
            lv == strings_view(ls@),
            strings_view(out@) == kept_lines(lv.take(i as int)),
            units == unit_lines(strings_view(out@)),
            units <= out@.len(),
            out@.len() <= i,
        decreases ls.len() - i,
    {
        proof {
            lemma_fold_step(lv, i as int);
            assert(lv[i as int] == ls@[i as int]@);
        }
        let l = clean_line_exec(ls[i].as_str());
        let n = chars_of(l.as_str()).len();
        if n > 0 && n < 80 {
            let ghost before = strings_view(out@);
            let u = str_contains(l.as_str(), "单元") || is_unit_title(l.as_str());
            out.push(l);
            proof {
                assert(strings_view(out@) =~= before.push(l@));
                assert(strings_view(out@).drop_last() =~= before);
            }
            if u {
                units = units + 1;
            }
        }
        i = i + 1;
    }
    assert(lv.take(ls.len() as int) =~= lv);
    (out, units)
}

/// The catalogue lines of a book page's best `<pre>` block (see `pre_catalog`).
pub fn extract_pre_catalog(html: &str) -> (r: Vec<String>)
    ensures
        strings_view(r@) == pre_catalog(html@),
{
    let caps = regex_captures_all("(?is)<pre[^>]*>(.*?)</pre>", html);
    let ghost cv = caps@.map_values(|g: Vec<Option<String>>| groups_view(g@));
    let mut best: Vec<String> = Vec::new();
    let mut best_score: u128 = 0;
    let mut i: usize = 0;
    assert(cv.take(0) =~= Seq::<Seq<Option<Seq<char>>>>::empty());
    assert(strings_view(best@) =~= Seq::<Seq<char>>::empty());
    while i < caps.len()
        invariant
            i <= caps.len(),
            cv == caps@.map_values(|g: Vec<Option<String>>| groups_view(g@)),
            (strings_view(best@), best_score as nat) == best_pre(cv.take(i as int)),
            best_score <= 21 * (usize::MAX as nat),
        decreases caps.len() - i,
    {
        proof {
            lemma_fold_step(cv, i as int);
        }
        let body = html_escape_decode(group_string(&caps[i], 1).as_str());
        let raw = lines_exec(body.as_str());
        let (ls, un) = kept_lines_exec(&raw);
        let n = ls.len();
        let score: u128 = un * 20 + n as u128;
        if score > best_score && n >= 6 {
            best = ls;
            best_score = score;
        }
        i = i + 1;
    }
    assert(cv.take(caps.len() as int) =~= cv);
    best
}


/// `s` with every leading `pre` removed (`str::trim_start_matches`).
pub open spec fn strip_prefixes(s: Seq<char>, pre: Seq<char>) -> Seq<char>
    decreases s.len(),
{
    if pre.len() > 0 && starts_with(s, pre) {
        strip_prefixes(s.skip(pre.len() as int), pre)
    } else {
        s
    }
}

fn strip_prefixes_exec(v: &Vec<char>, pre: &str) -> (r: Vec<char>)
    ensures
        r@ == strip_prefixes(v@, pre@),
{
    let p = chars_of(pre);
    if p.len() == 0 {
        return copy_range(v, 0, v.len());
    }
    let mut a: usize = 0;
    assert(v@.skip(0) =~= v@);
    while a < v.len() && p.len() <= v.len() - a && occurs_at_exec(v, &p, a)
        invariant
            a <= v.len(),
            p@ == pre@,
            p@.len() > 0,
            strip_prefixes(v@, pre@) == strip_prefixes(v@.skip(a as int), pre@),
        decreases v.len() - a,
    {
        proof {
            let t = v@.skip(a as int);
            assert(t.subrange(0, p@.len() as int) =~= v@.subrange(a as int, a + p@.len()));
            assert(t.skip(p@.len() as int) =~= v@.skip(a + p@.len()));
        }
        a = a + p.len();
    }
    proof {
        let t = v@.skip(a as int);
        if starts_with(t, pre@) {
            assert(t.subrange(0, p@.len() as int) =~= v@.subrange(a as int, a + p@.len()));
            if a >= v.len() {
                assert(t.len() == 0);
            }
        }
    }
    let r = copy_range(v, a, v.len());
    assert(r@ =~= v@.skip(a as int));
    r
}

/// The path of an address: after the scheme and host, `/` when there is none.
pub open spec fn path_part(u: Seq<char>) -> Seq<char> {
    let p = strip_prefixes(strip_prefixes(u, "http://"@), "https://"@);
    match first_index(p, "/"@) {
        Some(i) => p.skip(i),
        None => "/"@,
    }
}

fn path_part_exec(u: &str) -> (r: Vec<char>)
    ensures
        r@ == path_part(u@),
{
    let v = chars_of(u);
    let a = strip_prefixes_exec(&v, "http://");
    let p = strip_prefixes_exec(&a, "https://");
    let slash = chars_of("/");
    match find(&p, &slash) {
        Some(i) => {
            let r = copy_range(&p, i, p.len());
            assert(r@ =~= p@.skip(i as int));
            r
        },
        None => chars_of("/"),
    }
}

/// The folder of a book page, without a trailing `/`.
pub open spec fn book_path(url: Seq<char>) -> Seq<char> {
    trim_end_char(path_part(url), '/')
}

pub open spec fn chunk_pattern() -> Seq<char> {
    "(?is)<div[^>]+class=[\"'][^\"']*bookmulu[^\"']*[\"'][^>]*>(.*?)</div>"@
}

pub open spec fn page_pattern() -> Seq<char> {
    "(?i)/\\d{2,4}\\.htm?$"@
}

/// The text of the catalogue blocks, each followed by a line feed.
pub open spec fn chunks_text(caps: Seq<Seq<Option<Seq<char>>>>) -> Seq<char>
    decreases caps.len(),
{
    if caps.len() == 0 {
        Seq::empty()
    } else {
        chunks_text(caps.drop_last()) + group_text(caps.last(), 1) + "\n"@
    }
}

/// Where the catalogue links are looked for: the catalogue blocks, or the
/// whole page when they hold only white space.
pub open spec fn mulu_region(html: Seq<char>) -> Seq<char> {
    let r = chunks_text(regex_all(chunk_pattern(), html));
    if trim(r).len() == 0 {
        html
    } else {
        r
    }
}

/// The part of an address after its last `/`.
pub open spec fn last_segment(href: Seq<char>) -> Seq<char> {
    match last_index_of(href, '/') {
        Some(i) => href.skip(i + 1),
        None => href,
    }
}

/// Whether a link of the catalogue region is a page of the book: its path
/// ends in a page number, and it lies under the book's folder, or is a bare
/// page file, or the region is a catalogue block, or it names the folder.
pub open spec fn mulu_link_kept(region: Seq<char>, bp: Seq<char>, book_url: Seq<char>, href: Seq<char>) -> bool {
    let path = path_part(join_url_spec(book_url, href));
    &&& regex_found(page_pattern(), path) == Some(true)
    &&& (contains(path, bp) || ends_with(last_segment(href), ".htm"@) || contains(region, "bookmulu"@) || contains(
        path,
        trim_start_char(bp, '/'),
    ))
}

/// Whether a link anywhere on the page is a page of the book.
pub open spec fn page_link_kept(bp: Seq<char>, book_url: Seq<char>, href: Seq<char>) -> bool {
    let full = join_url_spec(book_url, href);
    regex_found(page_pattern(), full) == Some(true) && contains(full, bp)
}

/// A title added to a list: trimmed, and skipped when empty or the same as the last one.
pub open spec fn add_title(titles: Seq<Seq<char>>, raw: Seq<char>) -> Seq<Seq<char>> {
    let t = trim(raw);
    if t.len() == 0 || (titles.len() > 0 && titles.last() == t) {
        titles
    } else {
        titles.push(t)
    }
}

/// The titles of the links of the catalogue region that are book pages.
pub open spec fn mulu_titles(region: Seq<char>, bp: Seq<char>, book_url: Seq<char>, links: Seq<LinkView>) -> Seq<Seq<char>>
    decreases links.len(),
{
    if links.len() == 0 {
        Seq::empty()
    } else {
        let prev = mulu_titles(region, bp, book_url, links.drop_last());
        if mulu_link_kept(region, bp, book_url, links.last().0) {
            add_title(prev, links.last().1)
        } else {
            prev
        }
    }
}

/// The titles of the links of the whole page that are book pages.
pub open spec fn page_titles(bp: Seq<char>, book_url: Seq<char>, links: Seq<LinkView>) -> Seq<Seq<char>>
    decreases links.len(),
{
    if links.len() == 0 {
        Seq::empty()
    } else {
        let prev = page_titles(bp, book_url, links.drop_last());
        if page_link_kept(bp, book_url, links.last().0) {
            add_title(prev, links.last().1)
        } else {
            prev
        }
    }
}

/// The catalogue of a book page read from its links: those of the
/// catalogue region, or, when fewer than five, those of the whole page.
pub open spec fn mulu_catalog(html: Seq<char>, book_url: Seq<char>) -> Seq<Seq<char>> {
    let region = mulu_region(html);
    let bp = book_path(book_url);
    let first = mulu_titles(region, bp, book_url, page_links(region));
    if first.len() < 5 {
        page_titles(bp, book_url, page_links(html))
    } else {
        first
    }
}

fn push_title(titles: &mut Vec<String>, raw: &String)
    ensures
        strings_view(final(titles)@) == add_title(strings_view(old(titles)@), raw@),
{
    let t = trim_str(raw.as_str());
    let n = chars_of(t.as_str()).len();
    if n == 0 {
        return;
    }
    let k = titles.len();
    if k > 0 && str_eq(titles[k - 1].as_str(), t.as_str()) {
        return;
    }
    let ghost before = strings_view(titles@);
    titles.push(t);
    assert(strings_view(titles@) =~= before.push(trim(raw@)));
}

fn region_of(html: &str) -> (r: String)
    ensures
        r@ == mulu_region(html@),
{
    let caps = regex_captures_all("(?is)<div[^>]+class=[\"'][^\"']*bookmulu[^\"']*[\"'][^>]*>(.*?)</div>", html);
    let ghost cv = caps@.map_values(|g: Vec<Option<String>>| groups_view(g@));
    let mut region: Vec<char> = Vec::new();
    let mut i: usize = 0;
    assert(cv.take(0) =~= Seq::<Seq<Option<Seq<char>>>>::empty());
    while i < caps.len()
        invariant
            i <= caps.len(),
            cv == caps@.map_values(|g: Vec<Option<String>>| groups_view(g@)),
            region@ == chunks_text(cv.take(i as int)),
        decreases caps.len() - i,
    {
        proof {
            lemma_fold_step(cv, i as int);
        }
        let g = group_string(&caps[i], 1);
        extend_chars(&mut region, g.as_str());
        extend_chars(&mut region, "\n");
        i = i + 1;
    }
    assert(cv.take(caps.len() as int) =~= cv);
    let rs = string_of(&region);
    let t = trim_str(rs.as_str());
    if chars_of(t.as_str()).len() == 0 {
        lit(html)
    } else {
        rs
    }
}

fn last_segment_of(href: &str) -> (r: Vec<char>)
    ensures
        r@ == last_segment(href@),
{
    let v = chars_of(href);
    match last_index_exec(&v, '/') {
        Some(i) => {
            let r = copy_range(&v, i + 1, v.len());
            assert(r@ =~= v@.skip(i + 1));
            r
        },
        None => v,
    }
}

/// The catalogue of a book page read from its links (see `mulu_catalog`).
pub fn extract_book_mulu(html: &str, book_url: &str) -> (r: Vec<String>)
    ensures
        strings_view(r@) == mulu_catalog(html@, book_url@),
{
    let pp = path_part_exec(book_url);
    let e = crate::text::trim_end_char_bound(&pp, 0, pp.len(), '/');
    assert(pp@.subrange(0, pp@.len() as int) =~= pp@);
    let bp = copy_range(&pp, 0, e);
    let bps = string_of(&bp);
    let bs = crate::text::trim_start_char_bound(&bp, 0, bp.len(), '/');
    assert(bp@.subrange(0, bp@.len() as int) =~= bp@);
    let bp_inner = string_of(&copy_range(&bp, bs, bp.len()));
    let region = region_of(html);
    let in_block = str_contains(region.as_str(), "bookmulu");
    let links = extract_links(region.as_str());
    let ghost lv = links_view(links@);
    let mut titles: Vec<String> = Vec::new();
    let mut i: usize = 0;
    assert(lv.take(0) =~= Seq::<LinkView>::empty());
    assert(strings_view(titles@) =~= Seq::<Seq<char>>::empty());
    while i < links.len()
        invariant
            i <= links.len(),
            lv == links_view(links@),
            bps@ == book_path(book_url@),
            bp_inner@ == trim_start_char(book_path(book_url@), '/'),
            region@ == mulu_region(html@),
            in_block == contains(region@, "bookmulu"@),
            strings_view(titles@) == mulu_titles(region@, bps@, book_url@, lv.take(i as int)),
        decreases links.len() - i,
    {
        proof {
            lemma_fold_step(lv, i as int);
        }
        let href = &links[i].0;
        let full = join_url(book_url, href.as_str());
        let path = string_of(&path_part_exec(full.as_str()));
        let page = regex_is_match("(?i)/\\d{2,4}\\.htm?$", path.as_str());
        let seg = string_of(&last_segment_of(href.as_str()));
        let near = str_contains(path.as_str(), bps.as_str()) || crate::text::ends_with_exec(&chars_of(seg.as_str()), &chars_of(".htm"))
            || in_block || str_contains(path.as_str(), bp_inner.as_str());
        if page == Some(true) && near {
            push_title(&mut titles, &links[i].1);
        }
        i = i + 1;
    }
    assert(lv.take(links.len() as int) =~= lv);
    if titles.len() >= 5 {
        return titles;
    }
    let all = extract_links(html);
    let ghost av = links_view(all@);
    let mut second: Vec<String> = Vec::new();
    let mut j: usize = 0;
    assert(av.take(0) =~= Seq::<LinkView>::empty());
    assert(strings_view(second@) =~= Seq::<Seq<char>>::empty());
    while j < all.len()
        invariant
            j <= all.len(),
            av == links_view(all@),
            bps@ == book_path(book_url@),
            strings_view(second@) == page_titles(bps@, book_url@, av.take(j as int)),
        decreases all.len() - j,
    {
        proof {
            lemma_fold_step(av, j as int);
        }
        let full = join_url(book_url, all[j].0.as_str());
        let page = regex_is_match("(?i)/\\d{2,4}\\.htm?$", full.as_str());
        if page == Some(true) && str_contains(full.as_str(), bps.as_str()) {
            push_title(&mut second, &all[j].1);
        }
        j = j + 1;
    }
    assert(av.take(all.len() as int) =~= av);
    second
}

/// A book page's catalogue: its `<pre>` block when that has at least eight
/// lines, else the longer of the link catalogue and the `<pre>` block (the
/// link catalogue on a tie).
pub open spec fn book_catalog(html: Seq<char>, book_url: Seq<char>) -> Seq<Seq<char>> {
    let pre = pre_catalog(html);
    if pre.len() >= 8 {
        pre
    } else if mulu_catalog(html, book_url).len() >= pre.len() {
        mulu_catalog(html, book_url)
    } else {
        pre
    }
}

pub fn extract_book_catalog(html: &str, book_url: &str) -> (r: Vec<String>)
    ensures
        strings_view(r@) == book_catalog(html@, book_url@),
{
    let pre = extract_pre_catalog(html);
    if pre.len() >= 8 {
        return pre;
    }
    let mulu = extract_book_mulu(html, book_url);
    if mulu.len() >= pre.len() {
        mulu
    } else {
        pre
    }
}


/// A byte written in decimal (`u8`'s `FromStr`: an optional `+`, then
/// decimal digits, at most 255).
pub open spec fn parse_u8_spec(t: Seq<char>) -> Option<u8> {
    let d = if t.len() > 0 && t[0] == '+' { t.drop_first() } else { t };
    if d.len() > 0 && all_digits(d) && digits_val(d) <= 255 {
        Some(digits_val(d) as u8)
    } else {
        None
    }
}

proof fn lemma_untrimmed_has_ws(s: Seq<char>)
    requires
        trim(s) != s,
    ensures
        s.len() > 0 && (crate::text::is_ws(s[0]) || crate::text::is_ws(s.last())),
{
    let a = crate::text::trim_start(s);
    if a == s {
        assert(crate::text::trim_end(s) != s);
    }
}

pub(crate) proof fn lemma_digits_nonneg(d: Seq<char>)
    requires
        all_digits(d),
    ensures
        digits_val(d) >= 0,
    decreases d.len(),
{
    if d.len() > 0 {
        assert(all_digits(d.drop_last()));
        lemma_digits_nonneg(d.drop_last());
        assert(crate::text::is_digit(d.last()));
    }
}

pub fn parse_u8(s: &str) -> (r: Option<u8>)
    ensures
        r == parse_u8_spec(s@),
{
    let t = trim_str(s);
    if !str_eq(t.as_str(), s) {
        proof {
            lemma_untrimmed_has_ws(s@);
            let d = if s@.len() > 0 && s@[0] == '+' { s@.drop_first() } else { s@ };
            if d.len() > 0 && all_digits(d) {
                if crate::text::is_ws(s@[0]) {
                    assert(d[0] == s@[0]);
                } else {
                    assert(d[d.len() - 1] == s@.last());
                }
            }
        }
        return None;
    }
    let ghost d = if s@.len() > 0 && s@[0] == '+' { s@.drop_first() } else { s@ };
    assert(trim(s@) == s@);
    match crate::ebook::parse_page_num(s) {
        Some(v) => {
            assert(crate::ebook::page_num_spec(s@) == Some(v));
            assert(d.len() > 0 && all_digits(d) && digits_val(d) <= u32::MAX);
            proof {
                lemma_digits_nonneg(d);
            }
            assert(v == digits_val(d));
            if v <= 255 {
                assert(digits_val(d) <= 255);
                Some(v as u8)
            } else {
                None
            }
        },
        None => None,
    }
}

/// The grade and semester in a group match: group 1 a byte, group 2 `s`
/// for 上册 (anything else for 下册).
pub open spec fn gs_from(g: Seq<Option<Seq<char>>>) -> Option<(u8, Seq<char>)> {
    if g.len() > 2 && g[1] is Some && g[2] is Some && parse_u8_spec(g[1]->0) is Some {
        Some((parse_u8_spec(g[1]->0)->0, if g[2]->0 == "s"@ { "shang"@ } else { "xia"@ }))
    } else {
        None
    }
}

pub open spec fn url_gs_pattern() -> Seq<char> {
    "/(?:xs|ws)?([1-6])([sx])(?:[_/]|$)"@
}

pub open spec fn url_gs_pattern2() -> Seq<char> {
    "/([1-6])([sx])(?:[_/]|$)"@
}

/// The grade and semester in a book address (`/3s/`, `/xs4x_` …).
pub open spec fn grade_sem_of_url(url: Seq<char>) -> Option<(u8, Seq<char>)> {
    match regex_first(url_gs_pattern(), url) {
        Some(g) => gs_from(g),
        None => match regex_first(url_gs_pattern2(), url) {
            Some(g) => gs_from(g),
            None => None,
        },
    }
}

fn gs_from_exec(g: &Vec<Option<String>>) -> (r: Option<(u8, String)>)
    ensures
        match r {
            Some(p) => gs_from(groups_view(g@)) == Some((p.0, p.1@)),
            None => gs_from(groups_view(g@)) is None,
        },
{
    if g.len() <= 2 {
        return None;
    }
    match (&g[1], &g[2]) {
        (Some(a), Some(b)) => {
            match parse_u8(a.as_str()) {
                Some(v) => {
                    if str_eq(b.as_str(), "s") {
                        Some((v, lit("shang")))
                    } else {
                        Some((v, lit("xia")))
                    }
                },
                None => None,
            }
        },
        _ => None,
    }
}

pub fn parse_grade_sem(url: &str) -> (r: Option<(u8, String)>)
    ensures
        match r {
            Some(p) => grade_sem_of_url(url@) == Some((p.0, p.1@)),
            None => grade_sem_of_url(url@) is None,
        },
{
    match regex_captures("/(?:xs|ws)?([1-6])([sx])(?:[_/]|$)", url) {
        Some(g) => gs_from_exec(&g),
        None => match regex_captures("/([1-6])([sx])(?:[_/]|$)", url) {
            Some(g) => gs_from_exec(&g),
            None => None,
        },
    }
}

pub open spec fn volume_pattern() -> Seq<char> {
    "([一二三四五六]年级).{0,8}(上册|下册)"@
}

pub open spec fn html_title_pattern() -> Seq<char> {
    "(?is)<title>(.*?)</title>"@
}

/// The title of a volume: the `N年级…上册/下册` in the link text, else in the
/// page title, else made from the grade and semester.
pub open spec fn guessed_title(hint: Seq<char>, html: Seq<char>, grade: u8, semester: Seq<char>) -> Seq<char> {
    let made = nat_to_seq(grade as nat) + "年级"@ + (if semester == "shang"@ { "上"@ } else { "下"@ }) + "册"@;
    match regex_first(volume_pattern(), hint) {
        Some(g) => group_text(g, 0),
        None => match regex_first(html_title_pattern(), html) {
            Some(cap) => match regex_first(volume_pattern(), stripped(group_text(cap, 1))) {
                Some(c) => group_text(c, 0),
                None => made,
            },
            None => made,
        },
    }
}

pub fn guess_title(hint: &str, html: &str, grade: u8, semester: &str) -> (r: String)
    ensures
        r@ == guessed_title(hint@, html@, grade, semester@),
{
    match regex_captures("([一二三四五六]年级).{0,8}(上册|下册)", hint) {
        Some(g) => return group_string(&g, 0),
        None => {},
    }
    match regex_captures("(?is)<title>(.*?)</title>", html) {
        Some(cap) => {
            let t = strip_tags(group_string(&cap, 1).as_str());
            match regex_captures("([一二三四五六]年级).{0,8}(上册|下册)", t.as_str()) {
                Some(c) => return group_string(&c, 0),
                None => {},
            }
        },
        None => {},
    }
    let mut v: Vec<char> = Vec::new();
    push_nat_digits(&mut v, grade as u128);
    extend_chars(&mut v, "年级");
    if str_eq(semester, "shang") {
        extend_chars(&mut v, "上");
    } else {
        extend_chars(&mut v, "下");
    }
    extend_chars(&mut v, "册");
    string_of(&v)
}


/// A book page found on an index page, with the volume it is for and its rating.
#[derive(Debug, Clone)]
pub struct BookLink {
    pub url: String,
    pub title: String,
    pub grade: u8,
    pub semester: String,
    pub score: i32,
}

pub type BookView = (Seq<char>, Seq<char>, u8, Seq<char>, i32);

pub open spec fn book_view(b: BookLink) -> BookView {
    (b.url@, b.title@, b.grade, b.semester@, b.score)
}

pub open spec fn books_view(v: Seq<BookLink>) -> Seq<BookView> {
    v.map_values(|b: BookLink| book_view(b))
}

fn copy_link(b: &BookLink) -> (r: BookLink)
    ensures
        book_view(r) == book_view(*b),
{
    BookLink { url: b.url.clone(), title: b.title.clone(), grade: b.grade, semester: b.semester.clone(), score: b.score }
}

pub open spec fn year_pattern() -> Seq<char> {
    "20\\d{2}"@
}

pub open spec fn numbered_page_pattern() -> Seq<char> {
    "/\\d{3}\\.htm"@
}

/// The rating of a book link of the older site: 100 for a current
/// edition (`/xs`), -50 for an old one (`/ws`), 30 for a year, 10 for a
/// title naming a volume or grade.
pub open spec fn com_link_score(full: Seq<char>, title: Seq<char>) -> int {
    (if contains(full, "/xs"@) { 100int } else { 0int }) - (if contains(full, "/ws"@) { 50int } else { 0int }) + (if regex_found(
        year_pattern(),
        full,
    ) == Some(true) || regex_found(year_pattern(), title) == Some(true) {
        30int
    } else {
        0int
    }) + (if contains(title, "上册"@) || contains(title, "下册"@) || contains(title, "年级"@) {
        10int
    } else {
        0int
    })
}

/// The book a link of the older site's index stands for: a `/books/` page
/// of the subject's folder (not a numbered page) whose address names a
/// grade and semester.
pub open spec fn com_link(index_url: Seq<char>, key: Seq<char>, l: LinkView) -> Option<BookView> {
    let full = join_url_spec(index_url, l.0);
    if !contains(full, key) || !contains(full, "/books/"@) || regex_found(numbered_page_pattern(), full) == Some(true) {
        None
    } else {
        match grade_sem_of_url(full) {
            Some(gs) => Some((trim_end_char(full, '/') + "/"@, l.1, gs.0, gs.1, com_link_score(full, l.1) as i32)),
            None => None,
        }
    }
}

pub open spec fn com_links(index_url: Seq<char>, key: Seq<char>, links: Seq<LinkView>) -> Seq<BookView>
    decreases links.len(),
{
    if links.len() == 0 {
        Seq::empty()
    } else {
        let prev = com_links(index_url, key, links.drop_last());
        match com_link(index_url, key, links.last()) {
            Some(b) => prev.push(b),
            None => prev,
        }
    }
}

fn matched(o: Option<bool>) -> (r: bool)
    ensures
        r == (o == Some(true)),
{
    match o {
        Some(b) => b,
        None => false,
    }
}

/// The book links of an index page of the older site (see `com_links`).
pub fn book_links_from_index(index_url: &str, subject_path_key: &str, html: &str) -> (r: Vec<BookLink>)
    ensures
        books_view(r@) == com_links(index_url@, subject_path_key@, page_links(html@)),
{
    let links = extract_links(html);
    let ghost lv = links_view(links@);
    let mut out: Vec<BookLink> = Vec::new();
    let mut i: usize = 0;
    assert(lv.take(0) =~= Seq::<LinkView>::empty());
    assert(books_view(out@) =~= Seq::<BookView>::empty());
    while i < links.len()
        invariant
            i <= links.len(),
            lv == links_view(links@),
            books_view(out@) == com_links(index_url@, subject_path_key@, lv.take(i as int)),
        decreases links.len() - i,
    {
        proof {
            lemma_fold_step(lv, i as int);
        }
        let full = join_url(index_url, links[i].0.as_str());
        let title = &links[i].1;
        if str_contains(full.as_str(), subject_path_key) && str_contains(full.as_str(), "/books/") && !matched(
            regex_is_match("/\\d{3}\\.htm", full.as_str()),
        ) {
            match parse_grade_sem(full.as_str()) {
                Some((g, sem)) => {
                    let mut score: i32 = 0;
                    if str_contains(full.as_str(), "/xs") {
                        score = score + 100;
                    }
                    if str_contains(full.as_str(), "/ws") {
                        score = score - 50;
                    }
                    if matched(regex_is_match("20\\d{2}", full.as_str())) || matched(regex_is_match("20\\d{2}", title.as_str())) {
                        score = score + 30;
                    }
                    if str_contains(title.as_str(), "上册") || str_contains(title.as_str(), "下册") || str_contains(title.as_str(), "年级") {
                        score = score + 10;
                    }
                    let fv = chars_of(full.as_str());
                    let e = crate::text::trim_end_char_bound(&fv, 0, fv.len(), '/');
                    assert(fv@.subrange(0, fv@.len() as int) =~= fv@);
                    let mut u = copy_range(&fv, 0, e);
                    u.push('/');
                    let ghost before = books_view(out@);
                    out.push(BookLink { url: string_of(&u), title: title.clone(), grade: g, semester: sem, score });
                    proof {
                        reveal_strlit("/");
                        assert(lv[i as int] == (links@[i as int].0@, links@[i as int].1@));
                        assert(u@ =~= trim_end_char(full@, '/') + "/"@);
                        assert(score as int == com_link_score(full@, title@));
                        assert(books_view(out@) =~= before.push(com_link(index_url@, subject_path_key@, lv[i as int])->0));
                    }
                },
                None => {},
            }
        }
        i = i + 1;
    }
    assert(lv.take(links.len() as int) =~= lv);
    out
}

pub open spec fn org_book_pattern() -> Seq<char> {
    "/book/\\d+\\.html"@
}

/// The book a link of the site's index stands for: a `book/N.html` page
/// whose trimmed title rates well and names a grade and semester.
pub open spec fn org_link(index_url: Seq<char>, subject_keys: Seq<Seq<char>>, edition_keys: Seq<Seq<char>>, exclude_keys: Seq<Seq<char>>, l: LinkView) -> Option<BookView> {
    let full = join_url_spec(index_url, l.0);
    let title = trim(l.1);
    let score = title_score(title, subject_keys, edition_keys, exclude_keys) as i32;
    if !contains(l.0, "/book/"@) || !contains(l.0, ".html"@) || regex_found(org_book_pattern(), full) != Some(true)
        || title.len() == 0 || score < 0 {
        None
    } else {
        match grade_sem_of_title(title) {
            Some(gs) => Some((full, title, gs.0, gs.1, score)),
            None => None,
        }
    }
}

pub open spec fn has_url(found: Seq<BookView>, url: Seq<char>) -> bool {
    exists|j: int| 0 <= j < found.len() && (#[trigger] found[j]).0 == url
}

/// The book links gathered so far, grown by those of one index page that
/// are not there yet (by address).
pub open spec fn org_links(found: Seq<BookView>, index_url: Seq<char>, subject_keys: Seq<Seq<char>>, edition_keys: Seq<Seq<char>>, exclude_keys: Seq<Seq<char>>, links: Seq<LinkView>) -> Seq<BookView>
    decreases links.len(),
{
    if links.len() == 0 {
        found
    } else {
        let prev = org_links(found, index_url, subject_keys, edition_keys, exclude_keys, links.drop_last());
        match org_link(index_url, subject_keys, edition_keys, exclude_keys, links.last()) {
            Some(b) => if has_url(prev, b.0) {
                prev
            } else {
                prev.push(b)
            },
            None => prev,
        }
    }
}

fn has_url_exec(v: &Vec<BookLink>, url: &String) -> (r: bool)
    ensures
        r == has_url(books_view(v@), url@),
{
    let ghost bv = books_view(v@);
    let mut k: usize = 0;
    while k < v.len()
        invariant
            k <= v.len(),
            bv == books_view(v@),
            forall|j: int| 0 <= j < k ==> bv[j].0 != url@,
        decreases v.len() - k,
    {
        if str_eq(v[k].url.as_str(), url.as_str()) {
            assert(bv[k as int].0 == url@);
            return true;
        }
        k = k + 1;
    }
    false
}

/// Adds the book links of one index page of the site (see `org_links`).
pub fn org_links_from_index(
    found: &mut Vec<BookLink>,
    index_url: &str,
    html: &str,
    subject_keys: &Vec<String>,
    edition_keys: &Vec<String>,
    exclude_keys: &Vec<String>,
)
    ensures
        books_view(final(found)@) == org_links(
            books_view(old(found)@),
            index_url@,
            strings_view(subject_keys@),
            strings_view(edition_keys@),
            strings_view(exclude_keys@),
            page_links(html@),
        ),
{
    let ghost f0 = books_view(found@);
    let ghost sk = strings_view(subject_keys@);
    let ghost ek = strings_view(edition_keys@);
    let ghost xk = strings_view(exclude_keys@);
    let links = extract_links(html);
    let ghost lv = links_view(links@);
    let mut i: usize = 0;
    assert(lv.take(0) =~= Seq::<LinkView>::empty());
    while i < links.len()
        invariant
            i <= links.len(),
            lv == links_view(links@),
            sk == strings_view(subject_keys@),
            ek == strings_view(edition_keys@),
            xk == strings_view(exclude_keys@),
            books_view(found@) == org_links(f0, index_url@, sk, ek, xk, lv.take(i as int)),
        decreases links.len() - i,
    {
        proof {
            lemma_fold_step(lv, i as int);
        }
        let href = &links[i].0;
        if str_contains(href.as_str(), "/book/") && str_contains(href.as_str(), ".html") {
            let full = join_url(index_url, href.as_str());
            if matched(regex_is_match("/book/\\d+\\.html", full.as_str())) {
                let title = trim_str(links[i].1.as_str());
                if chars_of(title.as_str()).len() > 0 {
                    let score = score_org_book_title(title.as_str(), subject_keys, edition_keys, exclude_keys);
                    if score >= 0 {
                        match parse_grade_sem_from_title(title.as_str()) {
                            Some((g, sem)) => {
                                if !has_url_exec(found, &full) {
                                    let ghost before = books_view(found@);
                                    found.push(BookLink { url: full, title, grade: g, semester: sem, score });
                                    assert(books_view(found@) =~= before.push(org_link(index_url@, sk, ek, xk, lv[i as int])->0));
                                }
                            },
                            None => {},
                        }
                    }
                }
            }
        }
        i = i + 1;
    }
    assert(lv.take(links.len() as int) =~= lv);
}

/// The book links found on the site, refused when there are none.
pub fn org_links_found(found: Vec<BookLink>) -> (r: Result<Vec<BookLink>, String>)
    ensures
        found@.len() == 0 ==> (r matches Err(e) && e@ == "未在 dzkbw.org 找到匹配的小学教材 book 页"@),
        found@.len() > 0 ==> r == Ok::<Vec<BookLink>, String>(found),
{
    if found.len() == 0 {
        Err(lit("未在 dzkbw.org 找到匹配的小学教材 book 页"))
    } else {
        Ok(found)
    }
}


/// Volumes in order: by grade, then by semester.
pub open spec fn key_lt(a: BookView, b: BookView) -> bool {
    a.2 < b.2 || (a.2 == b.2 && seq_lt(a.3, b.3))
}

pub open spec fn same_key(a: BookView, b: BookView) -> bool {
    a.2 == b.2 && a.3 == b.3
}

/// Whether link `i` is the one chosen for its volume: rated highest, and
/// first among those rated highest.
pub open spec fn is_pick(ls: Seq<BookView>, i: int) -> bool {
    &&& 0 <= i < ls.len()
    &&& forall|k: int| #![trigger ls[k]] 0 <= k < ls.len() && same_key(ls[k], ls[i]) ==> ls[k].4 <= ls[i].4 && (k < i ==> ls[k].4 < ls[i].4)
}

pub open spec fn picked(ls: Seq<BookView>, b: BookView) -> bool {
    exists|i: int| is_pick(ls, i) && #[trigger] ls[i] == b
}

pub open spec fn listed(r: Seq<BookView>, b: BookView) -> bool {
    exists|j: int| 0 <= j < r.len() && same_key(#[trigger] r[j], b)
}

/// The books chosen from links: one for each volume found, the one chosen
/// for it, in volume order.
pub open spec fn pick_best_ok(r: Seq<BookView>, ls: Seq<BookView>) -> bool {
    &&& forall|a: int, b: int| 0 <= a < b < r.len() ==> key_lt(#[trigger] r[a], #[trigger] r[b])
    &&& forall|j: int| 0 <= j < r.len() ==> picked(ls, #[trigger] r[j])
    &&& forall|i: int| 0 <= i < ls.len() ==> listed(r, #[trigger] ls[i])
}

proof fn lemma_key_lt_not_same(a: BookView, b: BookView)
    requires
        key_lt(a, b),
    ensures
        !same_key(a, b),
        !key_lt(b, a),
{
    if a.2 == b.2 && a.3 == b.3 {
        lemma_lt_irreflexive(a.3);
    }
    if key_lt(b, a) && a.2 == b.2 {
        lemma_lt_transitive(a.3, b.3, a.3);
        lemma_lt_irreflexive(a.3);
    }
}

proof fn lemma_key_lt_trans(a: BookView, b: BookView, c: BookView)
    requires
        key_lt(a, b),
        key_lt(b, c),
    ensures
        key_lt(a, c),
{
    if a.2 == b.2 && b.2 == c.2 {
        lemma_lt_transitive(a.3, b.3, c.3);
    }
}

proof fn lemma_key_total(a: BookView, b: BookView)
    requires
        !same_key(a, b),
    ensures
        key_lt(a, b) || key_lt(b, a),
{
    if a.2 == b.2 {
        lemma_lt_total(a.3, b.3);
    }
}

fn key_lt_exec(a: &BookLink, b: &BookLink) -> (r: bool)
    ensures
        r == key_lt(book_view(*a), book_view(*b)),
{
    a.grade < b.grade || (a.grade == b.grade && str_less(a.semester.as_str(), b.semester.as_str()))
}

fn same_key_exec(a: &BookLink, b: &BookLink) -> (r: bool)
    ensures
        r == same_key(book_view(*a), book_view(*b)),
{
    a.grade == b.grade && str_eq(a.semester.as_str(), b.semester.as_str())
}

/// What holds of the chosen indices after the first `i` links.
#[verifier::opaque]
pub open spec fn pick_inv(ls: Seq<BookView>, idx: Seq<usize>, i: int) -> bool {
    &&& 0 <= i <= ls.len()
    &&& forall|a: int| 0 <= a < idx.len() ==> #[trigger] idx[a] < i
    &&& forall|a: int, b: int| 0 <= a < b < idx.len() ==> key_lt(ls[#[trigger] idx[a] as int], ls[#[trigger] idx[b] as int])
    &&& forall|a: int| 0 <= a < idx.len() ==> is_pick(ls.take(i), #[trigger] idx[a] as int)
    &&& forall|k: int| 0 <= k < i ==> exists|a: int| 0 <= a < idx.len() && same_key(ls[#[trigger] idx[a] as int], #[trigger] ls[k])
}

proof fn lemma_pick_other(ls: Seq<BookView>, i: int, y: int)
    requires
        0 <= i < ls.len(),
        is_pick(ls.take(i), y),
        !same_key(ls[y], ls[i]) || ls[i].4 <= ls[y].4,
    ensures
        is_pick(ls.take(i + 1), y),
{
    let p0 = ls.take(i);
    let p1 = ls.take(i + 1);
    assert forall|k: int| 0 <= k < p1.len() && same_key(p1[k], p1[y]) implies p1[k].4 <= p1[y].4 && (k < y ==> p1[k].4 < p1[y].4) by {
        if k < i {
            assert(p1[k] == p0[k]);
            assert(same_key(p0[k], p0[y]));
        }
    }
}

proof fn lemma_others_differ(ls: Seq<BookView>, idx: Seq<usize>, i: usize, p: int)
    requires
        pick_inv(ls, idx, i as int),
        i < ls.len(),
        0 <= p < idx.len(),
        same_key(ls[idx[p] as int], ls[i as int]),
    ensures
        forall|x: int| 0 <= x < idx.len() && x != p ==> !same_key(ls[#[trigger] idx[x] as int], ls[i as int]),
{
    reveal(pick_inv);
    let cur = idx[p] as int;
    assert forall|x: int| 0 <= x < idx.len() && x != p implies !same_key(ls[#[trigger] idx[x] as int], ls[i as int]) by {
        if x < p {
            lemma_key_lt_not_same(ls[idx[x] as int], ls[cur]);
        } else {
            lemma_key_lt_not_same(ls[cur], ls[idx[x] as int]);
        }
    }
}

proof fn lemma_hit_keep(ls: Seq<BookView>, idx: Seq<usize>, i: usize, p: int)
    requires
        pick_inv(ls, idx, i as int),
        i < ls.len(),
        0 <= p < idx.len(),
        same_key(ls[idx[p] as int], ls[i as int]),
        ls[i as int].4 <= ls[idx[p] as int].4,
    ensures
        pick_inv(ls, idx, i + 1),
{
    lemma_others_differ(ls, idx, i, p);
    reveal(pick_inv);
    let ii = i as int;
    assert forall|x: int| 0 <= x < idx.len() implies is_pick(ls.take(ii + 1), #[trigger] idx[x] as int) by {
        lemma_pick_other(ls, ii, idx[x] as int);
    }
    assert forall|k: int| 0 <= k < ii + 1 implies exists|a: int| 0 <= a < idx.len() && same_key(ls[#[trigger] idx[a] as int], #[trigger] ls[k]) by {
        if k == ii {
            assert(same_key(ls[idx[p] as int], ls[k]));
        }
    }
}

proof fn lemma_new_best(ls: Seq<BookView>, i: int, cur: int)
    requires
        0 <= i < ls.len(),
        is_pick(ls.take(i), cur),
        same_key(ls[cur], ls[i]),
        ls[i].4 > ls[cur].4,
    ensures
        is_pick(ls.take(i + 1), i),
{
    let p0 = ls.take(i);
    let p1 = ls.take(i + 1);
    assert forall|k: int| 0 <= k < p1.len() && same_key(p1[k], p1[i]) implies p1[k].4 <= p1[i].4 && (k < i ==> p1[k].4 < p1[i].4) by {
        if k < i {
            assert(p1[k] == p0[k]);
            assert(same_key(p0[k], p0[cur]));
        }
    }
}

proof fn lemma_hit_replace_picks(ls: Seq<BookView>, idx: Seq<usize>, i: usize, p: int)
    requires
        i < ls.len(),
        0 <= p < idx.len(),
        forall|x: int| 0 <= x < idx.len() ==> is_pick(ls.take(i as int), #[trigger] idx[x] as int),
        same_key(ls[idx[p] as int], ls[i as int]),
        ls[i as int].4 > ls[idx[p] as int].4,
        forall|x: int| 0 <= x < idx.len() && x != p ==> !same_key(ls[#[trigger] idx[x] as int], ls[i as int]),
    ensures
        forall|x: int| 0 <= x < idx.len() ==> is_pick(ls.take(i + 1), #[trigger] idx.update(p, i)[x] as int),
{
    let ii = i as int;
    let n = idx.update(p, i);
    assert forall|x: int| 0 <= x < idx.len() implies is_pick(ls.take(ii + 1), #[trigger] n[x] as int) by {
        if x == p {
            assert(n[x] as int == ii);
            lemma_new_best(ls, ii, idx[p] as int);
        } else {
            assert(n[x] == idx[x]);
            lemma_pick_other(ls, ii, idx[x] as int);
        }
    }
}

proof fn lemma_hit_replace(ls: Seq<BookView>, idx: Seq<usize>, i: usize, p: int)
    requires
        pick_inv(ls, idx, i as int),
        i < ls.len(),
        0 <= p < idx.len(),
        same_key(ls[idx[p] as int], ls[i as int]),
        ls[i as int].4 > ls[idx[p] as int].4,
    ensures
        pick_inv(ls, idx.update(p, i), i + 1),
{
    lemma_others_differ(ls, idx, i, p);
    reveal(pick_inv);
    lemma_hit_replace_picks(ls, idx, i, p);
    let ii = i as int;
    let n = idx.update(p, i);
    assert forall|k: int| 0 <= k < ii + 1 implies exists|a: int| 0 <= a < n.len() && same_key(ls[#[trigger] n[a] as int], #[trigger] ls[k]) by {
        if k == ii {
            assert(n[p] as int == ii);
            assert(same_key(ls[n[p] as int], ls[k]));
        } else {
            let a0 = choose|a: int| 0 <= a < idx.len() && same_key(ls[#[trigger] idx[a] as int], #[trigger] ls[k]);
            if a0 == p {
                assert(n[p] as int == ii);
                assert(same_key(ls[idx[p] as int], ls[k]));
                assert(same_key(ls[n[p] as int], ls[k]));
            } else {
                assert(n[a0] == idx[a0]);
            }
        }
    }
    assert forall|x: int, y: int| 0 <= x < y < n.len() implies key_lt(ls[#[trigger] n[x] as int], ls[#[trigger] n[y] as int]) by {
        assert(key_lt(ls[idx[x] as int], ls[idx[y] as int]));
    }
    assert forall|a: int| 0 <= a < n.len() implies #[trigger] n[a] < i + 1 by {}
}

/// The facts of a list with one entry put at `q`.
pub open spec fn inserted_at(n: Seq<usize>, idx: Seq<usize>, q: int, v: usize) -> bool {
    &&& n.len() == idx.len() + 1
    &&& n[q] == v
    &&& forall|x: int| 0 <= x < q ==> #[trigger] n[x] == idx[x]
    &&& forall|x: int| q < x < n.len() ==> #[trigger] n[x] == idx[x - 1]
}

proof fn lemma_new_order(ls: Seq<BookView>, idx: Seq<usize>, n: Seq<usize>, i: usize, q: int)
    requires
        pick_inv(ls, idx, i as int),
        i < ls.len(),
        0 <= q <= idx.len(),
        inserted_at(n, idx, q, i),
        forall|x: int| 0 <= x < q ==> key_lt(ls[#[trigger] idx[x] as int], ls[i as int]),
        q < idx.len() ==> key_lt(ls[i as int], ls[idx[q] as int]),
    ensures
        forall|x: int, y: int| 0 <= x < y < n.len() ==> key_lt(ls[#[trigger] n[x] as int], ls[#[trigger] n[y] as int]),
        forall|a: int| 0 <= a < n.len() ==> #[trigger] n[a] < i + 1,
{
    reveal(pick_inv);
    let li = ls[i as int];
    assert forall|x: int| q <= x < idx.len() implies key_lt(li, ls[#[trigger] idx[x] as int]) by {
        if x > q {
            assert(key_lt(ls[idx[q] as int], ls[idx[x] as int]));
            lemma_key_lt_trans(li, ls[idx[q] as int], ls[idx[x] as int]);
        }
    }
    assert forall|x: int, y: int| 0 <= x < y < n.len() implies key_lt(ls[#[trigger] n[x] as int], ls[#[trigger] n[y] as int]) by {
        if y < q {
            assert(n[x] == idx[x] && n[y] == idx[y]);
        } else if y == q {
            assert(n[x] == idx[x]);
        } else if x == q {
            assert(n[y] == idx[y - 1]);
        } else if x < q {
            assert(n[x] == idx[x] && n[y] == idx[y - 1]);
            lemma_key_lt_trans(ls[idx[x] as int], li, ls[idx[y - 1] as int]);
        } else {
            assert(n[x] == idx[x - 1] && n[y] == idx[y - 1]);
        }
    }
    assert forall|a: int| 0 <= a < n.len() implies #[trigger] n[a] < i + 1 by {
        if a < q {
            assert(n[a] == idx[a]);
        } else if a > q {
            assert(n[a] == idx[a - 1]);
        }
    }
}

proof fn lemma_new_picks(ls: Seq<BookView>, idx: Seq<usize>, n: Seq<usize>, i: usize, q: int)
    requires
        pick_inv(ls, idx, i as int),
        i < ls.len(),
        0 <= q <= idx.len(),
        inserted_at(n, idx, q, i),
        forall|x: int| 0 <= x < idx.len() ==> !same_key(ls[#[trigger] idx[x] as int], ls[i as int]),
    ensures
        forall|x: int| 0 <= x < n.len() ==> is_pick(ls.take(i + 1), #[trigger] n[x] as int),
{
    reveal(pick_inv);
    let ii = i as int;
    let p1 = ls.take(ii + 1);
    let li = ls[ii];
    assert forall|x: int| 0 <= x < n.len() implies is_pick(p1, #[trigger] n[x] as int) by {
        if x == q {
            assert forall|k: int| 0 <= k < p1.len() && same_key(p1[k], p1[ii]) implies p1[k].4 <= p1[ii].4 && (k < ii ==> p1[k].4 < p1[ii].4) by {
                if k < ii {
                    assert(p1[k] == ls[k]);
                    let a0 = choose|a: int| 0 <= a < idx.len() && same_key(ls[#[trigger] idx[a] as int], #[trigger] ls[k]);
                    assert(!same_key(ls[idx[a0] as int], li));
                }
            }
        } else {
            let xo = if x < q { x } else { x - 1 };
            assert(n[x] == idx[xo]);
            lemma_pick_other(ls, ii, idx[xo] as int);
        }
    }
}

proof fn lemma_new_listed(ls: Seq<BookView>, idx: Seq<usize>, n: Seq<usize>, i: usize, q: int)
    requires
        pick_inv(ls, idx, i as int),
        i < ls.len(),
        0 <= q <= idx.len(),
        inserted_at(n, idx, q, i),
    ensures
        forall|k: int| 0 <= k < i + 1 ==> exists|a: int| 0 <= a < n.len() && same_key(ls[#[trigger] n[a] as int], #[trigger] ls[k]),
{
    reveal(pick_inv);
    assert forall|k: int| 0 <= k < i + 1 implies exists|a: int| 0 <= a < n.len() && same_key(ls[#[trigger] n[a] as int], #[trigger] ls[k]) by {
        if k == i {
            assert(same_key(ls[n[q] as int], ls[k]));
        } else {
            let a0 = choose|a: int| 0 <= a < idx.len() && same_key(ls[#[trigger] idx[a] as int], #[trigger] ls[k]);
            if a0 < q {
                assert(n[a0] == idx[a0]);
            } else {
                assert(n[a0 + 1] == idx[a0]);
            }
        }
    }
}

proof fn lemma_pick_step_new(ls: Seq<BookView>, idx: Seq<usize>, i: usize, q: int)
    requires
        pick_inv(ls, idx, i as int),
        i < ls.len(),
        0 <= q <= idx.len(),
        forall|x: int| 0 <= x < idx.len() ==> !same_key(ls[#[trigger] idx[x] as int], ls[i as int]),
        forall|x: int| 0 <= x < q ==> key_lt(ls[#[trigger] idx[x] as int], ls[i as int]),
        q < idx.len() ==> key_lt(ls[i as int], ls[idx[q] as int]),
    ensures
        pick_inv(ls, idx.insert(q, i), i + 1),
{
    let n = idx.insert(q, i);
    assert(inserted_at(n, idx, q, i));
    lemma_new_order(ls, idx, n, i, q);
    lemma_new_picks(ls, idx, n, i, q);
    lemma_new_listed(ls, idx, n, i, q);
    reveal(pick_inv);
}

/// Where the chosen book of link `i`'s volume stands, if one does.
fn find_key(links: &Vec<BookLink>, idx: &Vec<usize>, i: usize) -> (r: Option<usize>)
    requires
        i < links.len(),
        forall|a: int| 0 <= a < idx@.len() ==> #[trigger] idx@[a] < links.len(),
    ensures
        r matches Some(p) ==> p < idx@.len() && same_key(books_view(links@)[idx@[p as int] as int], books_view(links@)[i as int]),
        r is None ==> forall|x: int| 0 <= x < idx@.len() ==> !same_key(books_view(links@)[#[trigger] idx@[x] as int], books_view(links@)[i as int]),
{
    let ghost ls = books_view(links@);
    let mut a: usize = 0;
    while a < idx.len()
        invariant
            a <= idx@.len(),
            i < links.len(),
            ls == books_view(links@),
            forall|x: int| 0 <= x < idx@.len() ==> #[trigger] idx@[x] < links.len(),
            forall|x: int| 0 <= x < a ==> !same_key(ls[#[trigger] idx@[x] as int], ls[i as int]),
        decreases idx@.len() - a,
    {
        assert(ls[idx@[a as int] as int] == book_view(links@[idx@[a as int] as int]));
        assert(ls[i as int] == book_view(links@[i as int]));
        if same_key_exec(&links[idx[a]], &links[i]) {
            return Some(a);
        }
        a = a + 1;
    }
    None
}

/// Where link `i` goes among the chosen books, by volume.
fn find_slot(links: &Vec<BookLink>, idx: &Vec<usize>, i: usize) -> (q: usize)
    requires
        i < links.len(),
        forall|a: int| 0 <= a < idx@.len() ==> #[trigger] idx@[a] < links.len(),
        forall|x: int| 0 <= x < idx@.len() ==> !same_key(books_view(links@)[#[trigger] idx@[x] as int], books_view(links@)[i as int]),
    ensures
        q <= idx@.len(),
        forall|x: int| 0 <= x < q ==> key_lt(books_view(links@)[#[trigger] idx@[x] as int], books_view(links@)[i as int]),
        q < idx@.len() ==> key_lt(books_view(links@)[i as int], books_view(links@)[idx@[q as int] as int]),
{
    let ghost ls = books_view(links@);
    let mut q: usize = 0;
    while q < idx.len()
        invariant
            q <= idx@.len(),
            i < links.len(),
            ls == books_view(links@),
            forall|x: int| 0 <= x < idx@.len() ==> #[trigger] idx@[x] < links.len(),
            forall|x: int| 0 <= x < idx@.len() ==> !same_key(ls[#[trigger] idx@[x] as int], ls[i as int]),
            forall|x: int| 0 <= x < q ==> key_lt(ls[#[trigger] idx@[x] as int], ls[i as int]),
        decreases idx@.len() - q,
    {
        assert(ls[idx@[q as int] as int] == book_view(links@[idx@[q as int] as int]));
        assert(ls[i as int] == book_view(links@[i as int]));
        if key_lt_exec(&links[i], &links[idx[q]]) {
            return q;
        }
        proof {
            lemma_key_total(ls[idx@[q as int] as int], ls[i as int]);
        }
        q = q + 1;
    }
    q
}

/// Chooses one book for each volume (see `pick_best_ok`).
pub fn pick_best(links: &Vec<BookLink>) -> (r: Vec<BookLink>)
    ensures
        pick_best_ok(books_view(r@), books_view(links@)),
{
    let ghost ls = books_view(links@);
    let mut idx: Vec<usize> = Vec::new();
    let mut i: usize = 0;
    proof {
        reveal(pick_inv);
    }
    while i < links.len()
        invariant
            i <= links.len(),
            ls == books_view(links@),
            pick_inv(ls, idx@, i as int),
        decreases links.len() - i,
    {
        proof {
            reveal(pick_inv);
        }
        match find_key(links, &idx, i) {
            Some(p) => {
                let cur = idx[p];
                proof {
                    assert(ls[i as int] == book_view(links@[i as int]));
                    assert(ls[cur as int] == book_view(links@[cur as int]));
                }
                if links[i].score > links[cur].score {
                    proof {
                        lemma_hit_replace(ls, idx@, i, p as int);
                    }
                    idx.set(p, i);
                } else {
                    proof {
                        lemma_hit_keep(ls, idx@, i, p as int);
                    }
                }
            },
            None => {
                let q = find_slot(links, &idx, i);
                proof {
                    lemma_pick_step_new(ls, idx@, i, q as int);
                }
                idx.insert(q, i);
            },
        }
        i = i + 1;
    }
    assert(ls.take(links.len() as int) =~= ls);
    proof {
        reveal(pick_inv);
    }
    let mut out: Vec<BookLink> = Vec::new();
    let mut j: usize = 0;
    while j < idx.len()
        invariant
            j <= idx@.len(),
            ls == books_view(links@),
            forall|a: int| 0 <= a < idx@.len() ==> #[trigger] idx@[a] < links@.len(),
            out@.len() == j,
            forall|a: int| 0 <= a < j ==> book_view(#[trigger] out@[a]) == ls[idx@[a] as int],
        decreases idx@.len() - j,
    {
        out.push(copy_link(&links[idx[j]]));
        j = j + 1;
    }
    proof {
        let r = books_view(out@);
        assert forall|a: int| 0 <= a < r.len() implies r[a] == ls[idx@[a] as int] by {
            assert(book_view(out@[a]) == ls[idx@[a] as int]);
        }
        assert forall|j: int| 0 <= j < r.len() implies picked(ls, #[trigger] r[j]) by {
            assert(is_pick(ls.take(links.len() as int), idx@[j] as int));
            assert(ls[idx@[j] as int] == r[j]);
        }
        assert forall|k: int| 0 <= k < ls.len() implies listed(r, #[trigger] ls[k]) by {
            let a0 = choose|a: int| 0 <= a < idx@.len() && same_key(ls[#[trigger] idx@[a] as int], #[trigger] ls[k]);
            assert(r[a0] == ls[idx@[a0] as int]);
        }
        assert forall|a: int, b: int| 0 <= a < b < r.len() implies key_lt(#[trigger] r[a], #[trigger] r[b]) by {
            assert(r[a] == ls[idx@[a] as int]);
            assert(r[b] == ls[idx@[b] as int]);
        }
    }
    out
}


/// How one subject and edition is read from the site.
#[derive(Debug, Clone)]
pub struct OrgScrapeSpec {
    pub subject: String,
    pub edition: String,
    pub edition_label: String,
    pub subject_label: String,
    pub subject_keys: Vec<String>,
    pub edition_keys: Vec<String>,
    pub exclude_keys: Vec<String>,
    /// The grades read; none means all six.
    pub grades: Vec<u8>,
    pub index_urls: Vec<String>,
    /// The index page and folder key of the older site, tried when the site fails.
    pub fallback_com: Option<(String, String)>,
}

pub open spec fn spec_is(
    s: OrgScrapeSpec,
    subject: Seq<char>,
    edition: Seq<char>,
    edition_label: Seq<char>,
    subject_label: Seq<char>,
    subject_keys: Seq<Seq<char>>,
    edition_keys: Seq<Seq<char>>,
    exclude_keys: Seq<Seq<char>>,
    grades: Seq<u8>,
    index_urls: Seq<Seq<char>>,
    com_url: Seq<char>,
    com_key: Seq<char>,
) -> bool {
    &&& s.subject@ == subject
    &&& s.edition@ == edition
    &&& s.edition_label@ == edition_label
    &&& s.subject_label@ == subject_label
    &&& strings_view(s.subject_keys@) == subject_keys
    &&& strings_view(s.edition_keys@) == edition_keys
    &&& strings_view(s.exclude_keys@) == exclude_keys
    &&& s.grades@ == grades
    &&& strings_view(s.index_urls@) == index_urls
    &&& s.fallback_com matches Some(f) && f.0@ == com_url && f.1@ == com_key
}

/// The subjects and editions read: Chinese (unified edition), mathematics
/// (Beijing Normal University, People's Education and Jiangsu editions) and
/// English (People's Education edition, grades 3 to 6).
pub open spec fn org_specs_ok(v: Seq<OrgScrapeSpec>) -> bool {
    &&& v.len() == 5
    &&& spec_is(
        v[0],
        "chinese"@,
        "renjiao"@,
        "人教统编版"@,
        "语文"@,
        seq!["语文"@],
        seq!["人教"@, "部编"@, "统编"@],
        seq!["苏教"@, "北师大"@, "S版"@, "A版"@],
        seq![],
        seq!["https://www.dzkbw.org/subject/rjb/yuwen.html"@, "https://www.dzkbw.org/textbooks/bbb.html"@, "https://www.dzkbw.org/textbooks/rjb.html"@],
        "http://www.dzkbw.com/books/rjb/yuwen/"@,
        "/rjb/yuwen/"@,
    )
    &&& spec_is(
        v[1],
        "math"@,
        "beishida"@,
        "北师大版"@,
        "数学"@,
        seq!["数学"@],
        seq!["北师大"@],
        seq!["苏教"@, "人教版数学"@, "人教统编"@],
        seq![],
        seq!["https://www.dzkbw.org/subject/bsd/shuxue.html"@, "https://www.dzkbw.org/textbooks/bsd.html"@, "https://www.dzkbw.org/textbooks/rjb.html"@],
        "http://www.dzkbw.com/books/bsd/shuxue/"@,
        "/bsd/shuxue/"@,
    )
    &&& spec_is(
        v[2],
        "math"@,
        "renjiao"@,
        "人教版"@,
        "数学"@,
        seq!["数学"@],
        seq!["人教"@],
        seq!["北师大"@, "苏教"@, "语文"@, "英语"@],
        seq![],
        seq!["https://www.dzkbw.org/subject/rjb/shuxue.html"@, "https://www.dzkbw.org/textbooks/rjb.html"@],
        "http://www.dzkbw.com/books/rjb/shuxue/"@,
        "/rjb/shuxue/"@,
    )
    &&& spec_is(
        v[3],
        "math"@,
        "sujiao"@,
        "苏教版"@,
        "数学"@,
        seq!["数学"@],
        seq!["苏教"@],
        seq!["北师大"@, "人教"@],
        seq![],
        seq!["https://www.dzkbw.org/subject/sjb/shuxue.html"@, "https://www.dzkbw.org/textbooks/sjb.html"@, "https://www.dzkbw.org/textbooks/rjb.html"@],
        "http://www.dzkbw.com/books/sjb/shuxue/"@,
        "/sjb/shuxue/"@,
    )
    &&& spec_is(
        v[4],
        "english"@,
        "renjiao"@,
        "人教版"@,
        "英语"@,
        seq!["英语"@],
        seq!["人教"@, "PEP"@, "精通"@, "新起点"@],
        seq!["牛津"@, "外研"@, "苏教"@, "北师大"@],
        seq![3u8, 4u8, 5u8, 6u8],
        seq!["https://www.dzkbw.org/subject/rjb/yingyu.html"@, "https://www.dzkbw.org/textbooks/rjb.html"@],
        "http://www.dzkbw.com/books/rjb/yingyu/"@,
        "/rjb/yingyu/"@,
    )
}

fn l1(a: &str) -> (r: Vec<String>)
    ensures
        strings_view(r@) == seq![a@],
{
    let r = vec![lit(a)];
    assert(strings_view(r@) =~= seq![a@]);
    r
}

fn l2(a: &str, b: &str) -> (r: Vec<String>)
    ensures
        strings_view(r@) == seq![a@, b@],
{
    let r = vec![lit(a), lit(b)];
    assert(strings_view(r@) =~= seq![a@, b@]);
    r
}

fn l3(a: &str, b: &str, c: &str) -> (r: Vec<String>)
    ensures
        strings_view(r@) == seq![a@, b@, c@],
{
    let r = vec![lit(a), lit(b), lit(c)];
    assert(strings_view(r@) =~= seq![a@, b@, c@]);
    r
}

fn l4(a: &str, b: &str, c: &str, d: &str) -> (r: Vec<String>)
    ensures
        strings_view(r@) == seq![a@, b@, c@, d@],
{
    let r = vec![lit(a), lit(b), lit(c), lit(d)];
    assert(strings_view(r@) =~= seq![a@, b@, c@, d@]);
    r
}

fn make_spec(
    subject: &str,
    edition: &str,
    edition_label: &str,
    subject_label: &str,
    subject_keys: Vec<String>,
    edition_keys: Vec<String>,
    exclude_keys: Vec<String>,
    grades: Vec<u8>,
    index_urls: Vec<String>,
    com_url: &str,
    com_key: &str,
) -> (r: OrgScrapeSpec)
    ensures
        spec_is(
            r,
            subject@,
            edition@,
            edition_label@,
            subject_label@,
            strings_view(subject_keys@),
            strings_view(edition_keys@),
            strings_view(exclude_keys@),
            grades@,
            strings_view(index_urls@),
            com_url@,
            com_key@,
        ),
{
    OrgScrapeSpec {
        subject: lit(subject),
        edition: lit(edition),
        edition_label: lit(edition_label),
        subject_label: lit(subject_label),
        subject_keys,
        edition_keys,
        exclude_keys,
        grades,
        index_urls,
        fallback_com: Some((lit(com_url), lit(com_key))),
    }
}

/// The subjects and editions read (see `org_specs_ok`).
pub fn org_scrape_specs() -> (r: Vec<OrgScrapeSpec>)
    ensures
        org_specs_ok(r@),
{
    let a = make_spec(
        "chinese",
        "renjiao",
        "人教统编版",
        "语文",
        l1("语文"),
        l3("人教", "部编", "统编"),
        l4("苏教", "北师大", "S版", "A版"),
        vec![],
        l3("https://www.dzkbw.org/subject/rjb/yuwen.html", "https://www.dzkbw.org/textbooks/bbb.html", "https://www.dzkbw.org/textbooks/rjb.html"),
        "http://www.dzkbw.com/books/rjb/yuwen/",
        "/rjb/yuwen/",
    );
    let b = make_spec(
        "math",
        "beishida",
        "北师大版",
        "数学",
        l1("数学"),
        l1("北师大"),
        l3("苏教", "人教版数学", "人教统编"),
        vec![],
        l3("https://www.dzkbw.org/subject/bsd/shuxue.html", "https://www.dzkbw.org/textbooks/bsd.html", "https://www.dzkbw.org/textbooks/rjb.html"),
        "http://www.dzkbw.com/books/bsd/shuxue/",
        "/bsd/shuxue/",
    );
    let c = make_spec(
        "math",
        "renjiao",
        "人教版",
        "数学",
        l1("数学"),
        l1("人教"),
        l4("北师大", "苏教", "语文", "英语"),
        vec![],
        l2("https://www.dzkbw.org/subject/rjb/shuxue.html", "https://www.dzkbw.org/textbooks/rjb.html"),
        "http://www.dzkbw.com/books/rjb/shuxue/",
        "/rjb/shuxue/",
    );
    let d = make_spec(
        "math",
        "sujiao",
        "苏教版",
        "数学",
        l1("数学"),
        l1("苏教"),
        l2("北师大", "人教"),
        vec![],
        l3("https://www.dzkbw.org/subject/sjb/shuxue.html", "https://www.dzkbw.org/textbooks/sjb.html", "https://www.dzkbw.org/textbooks/rjb.html"),
        "http://www.dzkbw.com/books/sjb/shuxue/",
        "/sjb/shuxue/",
    );
    let e = make_spec(
        "english",
        "renjiao",
        "人教版",
        "英语",
        l1("英语"),
        l4("人教", "PEP", "精通", "新起点"),
        l4("牛津", "外研", "苏教", "北师大"),
        vec![3u8, 4, 5, 6],
        l2("https://www.dzkbw.org/subject/rjb/yingyu.html", "https://www.dzkbw.org/textbooks/rjb.html"),
        "http://www.dzkbw.com/books/rjb/yingyu/",
        "/rjb/yingyu/",
    );
    let r = vec![a, b, c, d, e];
    proof {
        assert(r@[4].grades@ =~= seq![3u8, 4u8, 5u8, 6u8]);
        assert(r@[0].grades@ =~= Seq::<u8>::empty());
        assert(r@[1].grades@ =~= Seq::<u8>::empty());
        assert(r@[2].grades@ =~= Seq::<u8>::empty());
        assert(r@[3].grades@ =~= Seq::<u8>::empty());
    }
    r
}


/// The links of the wanted grades (all of them when no grade is named).
pub open spec fn of_grades(ls: Seq<BookView>, grades: Seq<u8>) -> Seq<BookView>
    decreases ls.len(),
{
    if ls.len() == 0 {
        Seq::empty()
    } else {
        let prev = of_grades(ls.drop_last(), grades);
        if grades.len() == 0 || grades.contains(ls.last().2) {
            prev.push(ls.last())
        } else {
            prev
        }
    }
}

pub fn filter_grades(links: &Vec<BookLink>, grades: &Vec<u8>) -> (r: Vec<BookLink>)
    ensures
        books_view(r@) == of_grades(books_view(links@), grades@),
{
    let ghost lv = books_view(links@);
    let mut out: Vec<BookLink> = Vec::new();
    let mut i: usize = 0;
    assert(lv.take(0) =~= Seq::<BookView>::empty());
    assert(books_view(out@) =~= Seq::<BookView>::empty());
    while i < links.len()
        invariant
            i <= links.len(),
            lv == books_view(links@),
            books_view(out@) == of_grades(lv.take(i as int), grades@),
        decreases links.len() - i,
    {
        proof {
            lemma_fold_step(lv, i as int);
        }
        let g = links[i].grade;
        let mut wanted = grades.len() == 0;
        let mut k: usize = 0;
        while k < grades.len() && !wanted
            invariant
                k <= grades.len(),
                wanted ==> grades@.len() == 0 || grades@.contains(g),
                !wanted ==> grades@.len() > 0 && forall|j: int| 0 <= j < k ==> grades@[j] != g,
            decreases grades.len() - k,
        {
            if grades[k] == g {
                assert(grades@[k as int] == g);
                wanted = true;
            }
            k = k + 1;
        }
        assert(lv[i as int].2 == g);
        if wanted {
            let ghost before = books_view(out@);
            out.push(copy_link(&links[i]));
            assert(books_view(out@) =~= before.push(lv[i as int]));
        } else {
            assert(!grades@.contains(g));
        }
        i = i + 1;
    }
    assert(lv.take(links.len() as int) =~= lv);
    out
}

/// How a volume is named in the messages: `subject/edition/grade-G-S`.
pub open spec fn label_spec(subject: Seq<char>, edition: Seq<char>, grade: u8, semester: Seq<char>) -> Seq<char> {
    subject + "/"@ + edition + "/grade-"@ + nat_to_seq(grade as nat) + "-"@ + semester
}

pub fn book_label(subject: &str, edition: &str, grade: u8, semester: &str) -> (r: String)
    ensures
        r@ == label_spec(subject@, edition@, grade, semester@),
{
    let mut v = chars_of(subject);
    extend_chars(&mut v, "/");
    extend_chars(&mut v, edition);
    extend_chars(&mut v, "/grade-");
    push_nat_digits(&mut v, grade as u128);
    extend_chars(&mut v, "-");
    extend_chars(&mut v, semester);
    string_of(&v)
}

/// The file a volume's pack is written to.
pub open spec fn pack_file_spec(grade: u8, semester: Seq<char>) -> Seq<char> {
    "grade-"@ + nat_to_seq(grade as nat) + "-"@ + semester + ".json"@
}

pub fn pack_file_name(grade: u8, semester: &str) -> (r: String)
    ensures
        r@ == pack_file_spec(grade, semester@),
{
    let mut v = chars_of("grade-");
    push_nat_digits(&mut v, grade as u128);
    extend_chars(&mut v, "-");
    extend_chars(&mut v, semester);
    extend_chars(&mut v, ".json");
    string_of(&v)
}

/// The pack made from a fetched book page. On the site (`strict`), a page
/// with fewer than five catalogue lines or without units is refused.
pub open spec fn book_pack_ok(
    r: Result<(KnowledgePack, usize), String>,
    spec: OrgScrapeSpec,
    grade: u8,
    semester: Seq<char>,
    url: Seq<char>,
    title_hint: Seq<char>,
    html: Seq<char>,
    strict: bool,
) -> bool {
    let titles = book_catalog(html, url);
    let units = grouped(titles);
    let label = label_spec(spec.subject@, spec.edition@, grade, semester);
    if strict && titles.len() < 5 {
        r matches Err(e) && e@ == label + ": 目录条目过少（"@ + nat_to_seq(titles.len()) + "），跳过 "@ + url
    } else if strict && units.len() == 0 {
        r matches Err(e) && e@ == label + ": 未能识别单元结构"@
    } else {
        r matches Ok(p) && p.1 == titles.len() && group_catalog_ok(p.0.units@, titles) && pack_ok(
            p.0,
            spec.subject@,
            spec.edition@,
            grade,
            semester,
            guessed_title(title_hint, html, grade, semester),
            p.0.units@,
            url,
            spec.edition_label@,
            spec.subject_label@,
            titles.len() as usize,
        )
    }
}

pub fn book_pack(spec: &OrgScrapeSpec, grade: u8, semester: &str, url: &str, title_hint: &str, html: &str, strict: bool) -> (r: Result<(KnowledgePack, usize), String>)
    ensures
        book_pack_ok(r, *spec, grade, semester@, url@, title_hint@, html@, strict),
{
    let titles = extract_book_catalog(html, url);
    let n = titles.len();
    if strict && n < 5 {
        let mut v = chars_of(book_label(spec.subject.as_str(), spec.edition.as_str(), grade, semester).as_str());
        extend_chars(&mut v, ": 目录条目过少（");
        push_nat_digits(&mut v, n as u128);
        extend_chars(&mut v, "），跳过 ");
        extend_chars(&mut v, url);
        return Err(string_of(&v));
    }
    let units = group_catalog(&titles);
    if strict && units.len() == 0 {
        let mut v = chars_of(book_label(spec.subject.as_str(), spec.edition.as_str(), grade, semester).as_str());
        extend_chars(&mut v, ": 未能识别单元结构");
        return Err(string_of(&v));
    }
    let title = guess_title(title_hint, html, grade, semester);
    let pack = build_pack(
        spec.subject.as_str(),
        spec.edition.as_str(),
        grade,
        semester,
        title.as_str(),
        units,
        url,
        spec.edition_label.as_str(),
        spec.subject_label.as_str(),
        n,
    );
    Ok((pack, n))
}

/// The line reported for a volume written: its label, units and catalogue
/// lines, and the page it came from when given.
pub open spec fn updated_line_spec(label: Seq<char>, units: nat, entries: nat, url: Option<Seq<char>>) -> Seq<char> {
    label + " ("@ + nat_to_seq(units) + "单元/"@ + nat_to_seq(entries) + "条目)"@ + match url {
        Some(u) => " ← "@ + u,
        None => Seq::empty(),
    }
}

pub fn updated_line(label: &str, units: usize, entries: usize, url: Option<&str>) -> (r: String)
    ensures
        r@ == updated_line_spec(label@, units as nat, entries as nat, match url {
            Some(u) => Some(u@),
            None => None,
        }),
{
    let mut v = chars_of(label);
    extend_chars(&mut v, " (");
    push_nat_digits(&mut v, units as u128);
    extend_chars(&mut v, "单元/");
    push_nat_digits(&mut v, entries as u128);
    extend_chars(&mut v, "条目)");
    match url {
        Some(u) => {
            extend_chars(&mut v, " ← ");
            extend_chars(&mut v, u);
        },
        None => {},
    }
    string_of(&v)
}

/// How a subject and edition is listed in the catalogue index.
pub fn spec_label(spec: &OrgScrapeSpec) -> (r: String)
    ensures
        r@ == spec.subject_label@ + "·"@ + spec.edition_label@,
{
    let mut v = chars_of(spec.subject_label.as_str());
    extend_chars(&mut v, "·");
    extend_chars(&mut v, spec.edition_label.as_str());
    string_of(&v)
}

/// What a catalogue update reports.
#[derive(Debug, Clone)]
pub struct UpdateCurriculumResult {
    pub ok: bool,
    pub message: String,
    pub updated: Vec<String>,
    pub failed: Vec<String>,
    pub data_dir: String,
}

/// The message of a catalogue update: full success, partial success with
/// the counts, or failure with every failure joined.
pub open spec fn update_message(updated: Seq<Seq<char>>, failed: Seq<Seq<char>>) -> Seq<char> {
    if updated.len() > 0 && failed.len() == 0 {
        "课标全量同步成功（dzkbw.org），共 "@ + nat_to_seq(updated.len()) + " 册：语文人教、数学北师大/人教/苏教、英语人教"@
    } else if updated.len() > 0 {
        "课标全量同步部分成功："@ + nat_to_seq(updated.len()) + " 册完成，"@ + nat_to_seq(failed.len()) + " 项失败/跳过。全部按 dzkbw.org 优先。"@
    } else {
        "课标同步失败："@ + crate::text::join(failed, "；"@)
    }
}

pub fn update_result(updated: Vec<String>, failed: Vec<String>, data_dir: String) -> (r: UpdateCurriculumResult)
    ensures
        r.ok == (updated@.len() > 0),
        r.message@ == update_message(strings_view(updated@), strings_view(failed@)),
        r.updated == updated,
        r.failed == failed,
        r.data_dir == data_dir,
{
    let ok = updated.len() > 0;
    let mut v: Vec<char> = Vec::new();
    if ok && failed.len() == 0 {
        extend_chars(&mut v, "课标全量同步成功（dzkbw.org），共 ");
        push_nat_digits(&mut v, updated.len() as u128);
        extend_chars(&mut v, " 册：语文人教、数学北师大/人教/苏教、英语人教");
    } else if ok {
        extend_chars(&mut v, "课标全量同步部分成功：");
        push_nat_digits(&mut v, updated.len() as u128);
        extend_chars(&mut v, " 册完成，");
        push_nat_digits(&mut v, failed.len() as u128);
        extend_chars(&mut v, " 项失败/跳过。全部按 dzkbw.org 优先。");
    } else {
        extend_chars(&mut v, "课标同步失败：");
        crate::text::push_join(&mut v, &failed, "；");
    }
    UpdateCurriculumResult { ok, message: string_of(&v), updated, failed, data_dir }
}

/// The books read for each subject, one list after another.
pub open spec fn all_updated(outcomes: Seq<(Vec<String>, Vec<String>)>) -> Seq<Seq<char>>
    decreases outcomes.len(),
{
    if outcomes.len() == 0 {
        Seq::empty()
    } else {
        all_updated(outcomes.drop_last()) + strings_view(outcomes.last().0@)
    }
}

/// The failures of each subject, one list after another.
pub open spec fn all_failed(outcomes: Seq<(Vec<String>, Vec<String>)>) -> Seq<Seq<char>>
    decreases outcomes.len(),
{
    if outcomes.len() == 0 {
        Seq::empty()
    } else {
        all_failed(outcomes.drop_last()) + strings_view(outcomes.last().1@)
    }
}

/// The report of a catalogue update over all subjects, from what each
/// subject gave (the books read and the failures), in the order of the
/// subjects.
pub fn subjects_result(outcomes: &Vec<(Vec<String>, Vec<String>)>, data_dir: String) -> (r: UpdateCurriculumResult)
    ensures
        strings_view(r.updated@) == all_updated(outcomes@),
        strings_view(r.failed@) == all_failed(outcomes@),
        r.ok == (all_updated(outcomes@).len() > 0),
        r.message@ == update_message(all_updated(outcomes@), all_failed(outcomes@)),
        r.data_dir == data_dir,
{
    let mut updated: Vec<String> = Vec::new();
    let mut failed: Vec<String> = Vec::new();
    let mut k: usize = 0;
    while k < outcomes.len()
        invariant
            k <= outcomes.len(),
            strings_view(updated@) == all_updated(outcomes@.take(k as int)),
            strings_view(failed@) == all_failed(outcomes@.take(k as int)),
        decreases outcomes.len() - k,
    {
        proof {
            assert(outcomes@.take(k + 1).drop_last() =~= outcomes@.take(k as int));
            assert(outcomes@.take(k + 1).last() == outcomes@[k as int]);
        }
        crate::templates::copy_strings(&mut updated, &outcomes[k].0);
        crate::templates::copy_strings(&mut failed, &outcomes[k].1);
        k = k + 1;
    }
    assert(outcomes@.take(outcomes.len() as int) =~= outcomes@);
    update_result(updated, failed, data_dir)
}

/// The report's message opens with full success exactly when some book was
/// read and nothing failed, with partial success when some book was read and
/// something failed, and with failure when no book was read.
pub proof fn lemma_update_message_opening(updated: Seq<Seq<char>>, failed: Seq<Seq<char>>)
    ensures
        starts_with(update_message(updated, failed), "课标全量同步成功"@) <==> (updated.len() > 0 && failed.len() == 0),
        starts_with(update_message(updated, failed), "课标全量同步部分成功"@) <==> (updated.len() > 0 && failed.len() > 0),
        starts_with(update_message(updated, failed), "课标同步失败："@) <==> updated.len() == 0,
{
    reveal_strlit("课标全量同步成功");
    reveal_strlit("课标全量同步部分成功");
    reveal_strlit("课标同步失败：");
    reveal_strlit("课标全量同步成功（dzkbw.org），共 ");
    reveal_strlit("课标全量同步部分成功：");
    let m = update_message(updated, failed);
    let full = "课标全量同步成功"@;
    let part = "课标全量同步部分成功"@;
    let fail = "课标同步失败："@;
    if updated.len() > 0 && failed.len() == 0 {
        assert(m.subrange(0, full.len() as int) =~= full);
        assert(m[6] != part[6]);
        assert(m[2] != fail[2]);
    } else if updated.len() > 0 {
        assert(m.subrange(0, part.len() as int) =~= part);
        assert(m[6] != full[6]);
        assert(m[2] != fail[2]);
    } else {
        assert(m.subrange(0, fail.len() as int) =~= fail);
        assert(m[2] != full[2]);
        assert(m[2] != part[2]);
    }
}

/// The text encodings pages of the two sites come in.
#[derive(Debug, Clone, Copy)]
pub enum PageEncoding {
    Utf8,
    Gbk,
}

/// The text `encoding_rs` decodes from `bytes` in the given encoding
/// (a byte order mark removed, malformed sequences replaced).
pub uninterp spec fn decoded(encoding: PageEncoding, bytes: Seq<u8>) -> Seq<char>;

/// Decodes `bytes` with `encoding_rs::Encoding::decode` (`UTF_8` or
/// `GBK`). The contract names the text only.
#[verifier::external_body]
pub(crate) fn decode_bytes(encoding: PageEncoding, bytes: &Vec<u8>) -> (r: String)
    ensures
        r@ == decoded(encoding, bytes@),
{
    let enc = match encoding {
        PageEncoding::Utf8 => encoding_rs::UTF_8,
        PageEncoding::Gbk => encoding_rs::GBK,
    };
    enc.decode(bytes).0.into_owned()
}

/// Whether a page's text looks like a catalogue page in the right encoding.
pub open spec fn has_page_marker(t: Seq<char>) -> bool {
    contains(t, "单元"@) || contains(t, "年级"@) || contains(t, "<pre"@)
}

/// The text of a fetched page. Pages of the site (`dzkbw.org`) are UTF-8,
/// decoded leniently when not valid; pages of the older site are read as
/// UTF-8 when valid and showing a catalogue marker, else as GBK.
pub fn page_text(url: &str, bytes: Vec<u8>) -> (r: String)
    ensures
        contains(url@, "dzkbw.org"@) ==> ((exists|t: Seq<char>| crate::secret::utf8(t) == bytes@) ==> crate::secret::utf8(r@) == bytes@),
        contains(url@, "dzkbw.org"@) ==> (!(exists|t: Seq<char>| crate::secret::utf8(t) == bytes@) ==> r@ == decoded(PageEncoding::Utf8, bytes@)),
        !contains(url@, "dzkbw.org"@) ==> ((exists|t: Seq<char>| crate::secret::utf8(t) == bytes@ && has_page_marker(t)) ==> crate::secret::utf8(r@) == bytes@),
        !contains(url@, "dzkbw.org"@) ==> (!(exists|t: Seq<char>| crate::secret::utf8(t) == bytes@ && has_page_marker(t)) ==> r@ == decoded(PageEncoding::Gbk, bytes@)),
{
    let ghost b = bytes@;
    let org = str_contains(url, "dzkbw.org");
    let lenient = decode_bytes(PageEncoding::Utf8, &bytes);
    let gbk = decode_bytes(PageEncoding::Gbk, &bytes);
    let strict = crate::secret::string_from_utf8(bytes);
    if org {
        match strict {
            Some(s) => s,
            None => lenient,
        }
    } else {
        match strict {
            Some(s) => {
                if str_contains(s.as_str(), "单元") || str_contains(s.as_str(), "年级") || str_contains(s.as_str(), "<pre") {
                    s
                } else {
                    proof {
                        if exists|t: Seq<char>| crate::secret::utf8(t) == b && has_page_marker(t) {
                            let t = choose|t: Seq<char>| crate::secret::utf8(t) == b && has_page_marker(t);
                            crate::secret::lemma_utf8_injective(t, s@);
                        }
                    }
                    gbk
                }
            },
            None => gbk,
        }
    }
}

/// What follows the search of an index for a subject's books.
#[derive(Debug, Clone)]
pub enum ScrapePlan {
    /// Read these volumes, in order.
    Read(Vec<BookLink>),
    /// Read the older site instead: its index page and folder key.
    Fallback(String, String),
    /// Give up, with this failure line.
    Fail(String),
}

fn copy_pair(p: &(String, String)) -> (r: (String, String))
    ensures
        r.0@ == p.0@ && r.1@ == p.1@,
{
    (lit(p.0.as_str()), lit(p.1.as_str()))
}

/// What to do with the search of the site for a subject's books: when the
/// search fails, or no book of the wanted grades is found, the older site is
/// read where the subject has one (the line of the empty filter is dropped
/// then), else the subject gives up; otherwise the best book of each volume
/// is read.
pub fn org_plan(spec: &OrgScrapeSpec, links: Result<Vec<BookLink>, String>) -> (r: ScrapePlan)
    ensures
        ({
            match links {
                Err(e) => match spec.fallback_com {
                    Some(fb) => r matches ScrapePlan::Fallback(u, k) && u@ == fb.0@ && k@ == fb.1@,
                    None => r matches ScrapePlan::Fail(m) && m@ == spec.subject@ + "/"@ + spec.edition@ + " org 索引失败: "@ + e@,
                },
                Ok(ls) => {
                    let f = of_grades(books_view(ls@), spec.grades@);
                    if f.len() == 0 {
                        match spec.fallback_com {
                            Some(fb) => r matches ScrapePlan::Fallback(u, k) && u@ == fb.0@ && k@ == fb.1@,
                            None => r matches ScrapePlan::Fail(m) && m@ == spec.subject@ + "/"@ + spec.edition@ + ": 过滤后无可用书目"@,
                        }
                    } else {
                        r matches ScrapePlan::Read(v) && pick_best_ok(books_view(v@), f)
                    }
                },
            }
        }),
{
    match links {
        Err(e) => match &spec.fallback_com {
            Some(fb) => {
                let (u, k) = copy_pair(fb);
                ScrapePlan::Fallback(u, k)
            },
            None => {
                let mut v = chars_of(spec.subject.as_str());
                extend_chars(&mut v, "/");
                extend_chars(&mut v, spec.edition.as_str());
                extend_chars(&mut v, " org 索引失败: ");
                extend_chars(&mut v, e.as_str());
                ScrapePlan::Fail(string_of(&v))
            },
        },
        Ok(ls) => {
            let f = filter_grades(&ls, &spec.grades);
            if f.len() == 0 {
                match &spec.fallback_com {
                    Some(fb) => {
                        let (u, k) = copy_pair(fb);
                        ScrapePlan::Fallback(u, k)
                    },
                    None => {
                        let mut v = chars_of(spec.subject.as_str());
                        extend_chars(&mut v, "/");
                        extend_chars(&mut v, spec.edition.as_str());
                        extend_chars(&mut v, ": 过滤后无可用书目");
                        ScrapePlan::Fail(string_of(&v))
                    },
                }
            } else {
                ScrapePlan::Read(pick_best(&f))
            }
        },
    }
}

/// What to do with the search of the older site's index: give up with the
/// index's failure, or read the best book of each volume.
pub fn com_plan(subject: &str, edition: &str, links: Result<Vec<BookLink>, String>) -> (r: ScrapePlan)
    ensures
        links matches Err(e) ==> (r matches ScrapePlan::Fail(m) && m@ == subject@ + "/"@ + edition@ + " 索引失败: "@ + e@),
        links matches Ok(ls) ==> (r matches ScrapePlan::Read(v) && pick_best_ok(books_view(v@), books_view(ls@))),
{
    match links {
        Err(e) => {
            let mut v = chars_of(subject);
            extend_chars(&mut v, "/");
            extend_chars(&mut v, edition);
            extend_chars(&mut v, " 索引失败: ");
            extend_chars(&mut v, e.as_str());
            ScrapePlan::Fail(string_of(&v))
        },
        Ok(ls) => ScrapePlan::Read(pick_best(&ls)),
    }
}

/// Whether the older site is read after the site: when no volume of the
/// subject was updated and the subject has an older site.
pub fn retry_on_older_site(spec: &OrgScrapeSpec, any_updated: bool) -> (r: Option<(String, String)>)
    ensures
        (any_updated || spec.fallback_com is None) ==> r is None,
        !any_updated ==> (spec.fallback_com matches Some(fb) ==> (r matches Some(p) && p.0@ == fb.0@ && p.1@ == fb.1@)),
{
    if any_updated {
        return None;
    }
    match &spec.fallback_com {
        Some(fb) => Some(copy_pair(fb)),
        None => None,
    }
}

/// The failure line of a volume: its label, then the error.
pub fn volume_failure(label: &str, error: &str) -> (r: String)
    ensures
        r@ == label@ + ": "@ + error@,
{
    let mut v = chars_of(label);
    extend_chars(&mut v, ": ");
    extend_chars(&mut v, error);
    string_of(&v)
}

/// The failure line of a volume whose pack could not be written.
pub fn write_failure(label: &str, error: &str) -> (r: String)
    ensures
        r@ == label@ + " 写入失败: "@ + error@,
{
    let mut v = chars_of(label);
    extend_chars(&mut v, " 写入失败: ");
    extend_chars(&mut v, error);
    string_of(&v)
}

} // verus!
