//! The local library of public exam pages of a primary-school paper site:
//! which listing titles are wanted, what a stored page is good for, how a
//! synchronisation updates the store, and what is taken from it for a prompt.
use vstd::prelude::*;
use crate::expr::{nat_to_seq, push_nat_digits};
use crate::text::{
    chars_of, contains, occurs_at, extend_chars, extend_vec, replace_char, replace_char_exec, str_contains,
    str_eq, string_of, strings_view, trim, trim_start_char, trim_start_char_bound, trim_str,
};
use crate::verify::lit;
use crate::pattern::regex_all;

verus! {

/// One stored public page.
#[derive(Debug, Clone)]
pub struct AppSjResource {
    pub id: String,
    pub title: String,
    pub url: String,
    pub subject: String,
    pub grade: u8,
    pub semester: String,
    pub edition: String,
    pub exam_type: String,
    pub unit_name: String,
    pub content: String,
    pub download_url: String,
    pub download_code: String,
    pub source_name: String,
    pub source_home: String,
    pub synced_at: u64,
}

/// What to synchronise.
#[derive(Debug, Clone)]
pub struct AppSjSyncRequest {
    pub subject: String,
    pub grade: u8,
    pub semester: String,
    pub exam_type: String,
    pub unit_name: String,
    pub max_pages: Option<u8>,
    pub max_items: Option<usize>,
}

impl Default for AppSjSyncRequest {
    fn default() -> (r: AppSjSyncRequest)
        ensures
            r.subject@.len() == 0 && r.grade == 0 && r.semester@.len() == 0 && r.exam_type@.len() == 0
                && r.unit_name@.len() == 0 && r.max_pages is None && r.max_items is None,
    {
        AppSjSyncRequest {
            subject: String::new(),
            grade: 0,
            semester: String::new(),
            exam_type: String::new(),
            unit_name: String::new(),
            max_pages: None,
            max_items: None,
        }
    }
}

/// What a synchronisation did.
#[derive(Debug, Clone)]
pub struct AppSjSyncReport {
    pub ok: bool,
    pub message: String,
    pub discovered: usize,
    pub fetched: usize,
    pub added: usize,
    pub updated: usize,
    pub skipped: usize,
    pub failed: Vec<String>,
    pub total: usize,
    pub data_path: String,
}

/// The subject a title names (`math`, `chinese`, `english`), or none.
pub open spec fn subject_of_spec(title: Seq<char>) -> Seq<char> {
    if contains(title, "数学"@) {
        "math"@
    } else if contains(title, "语文"@) {
        "chinese"@
    } else if contains(title, "英语"@) {
        "english"@
    } else {
        ""@
    }
}

/// The textbook edition a title names, or none.
pub open spec fn edition_of_spec(title: Seq<char>) -> Seq<char> {
    if contains(title, "北师大"@) {
        "beishida"@
    } else if contains(title, "苏教"@) {
        "sujiao"@
    } else if contains(title, "统编"@) || contains(title, "部编"@) || contains(title, "人教"@) {
        "renjiao"@
    } else {
        ""@
    }
}

/// The exam type a title names, or none.
pub open spec fn exam_type_of_spec(title: Seq<char>) -> Seq<char> {
    if contains(title, "期中"@) {
        "midterm"@
    } else if contains(title, "期末"@) || contains(title, "升学"@) || contains(title, "毕业"@) {
        "final"@
    } else if contains(title, "单元"@) || contains(title, "阶段"@) {
        "unit"@
    } else if contains(title, "口算"@) || contains(title, "专项"@) {
        "oral"@
    } else if contains(title, "课时"@) || contains(title, "同步练习"@) {
        "lesson"@
    } else if contains(title, "作业"@) {
        "homework"@
    } else {
        ""@
    }
}

pub fn subject_of(title: &str) -> (r: &'static str)
    ensures
        r@ == subject_of_spec(title@),
{
    if str_contains(title, "数学") {
        "math"
    } else if str_contains(title, "语文") {
        "chinese"
    } else if str_contains(title, "英语") {
        "english"
    } else {
        ""
    }
}

pub fn edition_of(title: &str) -> (r: &'static str)
    ensures
        r@ == edition_of_spec(title@),
{
    if str_contains(title, "北师大") {
        "beishida"
    } else if str_contains(title, "苏教") {
        "sujiao"
    } else if str_contains(title, "统编") || str_contains(title, "部编") || str_contains(title, "人教") {
        "renjiao"
    } else {
        ""
    }
}

pub fn exam_type_of(title: &str) -> (r: &'static str)
    ensures
        r@ == exam_type_of_spec(title@),
{
    if str_contains(title, "期中") {
        "midterm"
    } else if str_contains(title, "期末") || str_contains(title, "升学") || str_contains(title, "毕业") {
        "final"
    } else if str_contains(title, "单元") || str_contains(title, "阶段") {
        "unit"
    } else if str_contains(title, "口算") || str_contains(title, "专项") {
        "oral"
    } else if str_contains(title, "课时") || str_contains(title, "同步练习") {
        "lesson"
    } else if str_contains(title, "作业") {
        "homework"
    } else {
        ""
    }
}

/// `s` without its spaces.
pub open spec fn compact(s: Seq<char>) -> Seq<char> {
    replace_char(s, ' ', Seq::empty())
}

fn compact_of(s: &str) -> (r: Vec<char>)
    ensures
        r@ == compact(s@),
{
    let v = chars_of(s);
    let e: Vec<char> = Vec::new();
    assert(e@ =~= Seq::<char>::empty());
    replace_char_exec(&v, ' ', &e)
}

/// The number of a unit name (`第四单元` gives `四`): after the leading `第`s,
/// before the first `单`.
pub open spec fn unit_number(unit: Seq<char>) -> Seq<char> {
    crate::ebook::before_first(trim_start_char(unit, '第'), '单')
}

/// Whether a listing title is wanted for the request: same subject; same exam
/// type when both name one; and, for a unit test of a named unit (`第…单元`),
/// a title that names that unit.
pub open spec fn title_matches_spec(
    title: Seq<char>,
    subject: Seq<char>,
    exam_type: Seq<char>,
    unit_name: Seq<char>,
) -> bool {
    let found = exam_type_of_spec(title);
    let unit = compact(unit_name);
    let c = compact(title);
    let number = unit_number(unit);
    &&& subject_of_spec(title) == subject
    &&& !(exam_type.len() > 0 && found.len() > 0 && found != exam_type)
    &&& !(exam_type == "unit"@ && trim(unit_name).len() > 0 && contains(unit, "第"@) && contains(unit, "单元"@)
        && !contains(c, unit) && number.len() > 0 && !contains(c, "第"@ + number + "单元"@))
}

pub fn title_matches(title: &str, request: &AppSjSyncRequest) -> (r: bool)
    ensures
        r == title_matches_spec(title@, request.subject@, request.exam_type@, request.unit_name@),
{
    if !str_eq(subject_of(title), request.subject.as_str()) {
        return false;
    }
    let found = exam_type_of(title);
    if request.exam_type.unicode_len() > 0 && found.unicode_len() > 0 && !str_eq(found, request.exam_type.as_str()) {
        return false;
    }
    if str_eq(request.exam_type.as_str(), "unit") && trim_str(request.unit_name.as_str()).unicode_len() > 0 {
        let unit = compact_of(request.unit_name.as_str());
        let c = compact_of(title);
        let unit_s = string_of(&unit);
        let c_s = string_of(&c);
        if str_contains(unit_s.as_str(), "第") && str_contains(unit_s.as_str(), "单元") && !str_contains(
            c_s.as_str(),
            unit_s.as_str(),
        ) {
            let a = trim_start_char_bound(&unit, 0, unit.len(), '第');
            assert(unit@.subrange(0, unit@.len() as int) =~= unit@);
            let rest = crate::text::copy_range(&unit, a, unit.len());
            let number = crate::ebook::before_first_of(&rest, '单');
            if number.len() > 0 {
                let mut want = chars_of("第");
                extend_vec(&mut want, &number);
                extend_chars(&mut want, "单元");
                let w = string_of(&want);
                if !str_contains(c_s.as_str(), w.as_str()) {
                    return false;
                }
            }
        }
    }
    true
}

/// Whether a stored page suits a paper: same subject, grade and semester; same
/// edition and exam type when both name one; and, for a unit test of a named
/// unit (`…单元`), a title or unit name that names it.
pub open spec fn resource_matches_spec(
    r: AppSjResource,
    subject: Seq<char>,
    edition: Seq<char>,
    grade: u8,
    semester: Seq<char>,
    exam_type: Seq<char>,
    unit_name: Seq<char>,
) -> bool {
    let unit = compact(unit_name);
    &&& r.subject@ == subject && r.grade == grade && r.semester@ == semester
    &&& !(edition.len() > 0 && r.edition@.len() > 0 && r.edition@ != edition)
    &&& !(exam_type.len() > 0 && r.exam_type@.len() > 0 && r.exam_type@ != exam_type)
    &&& !(exam_type == "unit"@ && trim(unit_name).len() > 0 && contains(unit, "单元"@) && !contains(
        compact(r.title@ + r.unit_name@),
        unit,
    ))
}

pub fn resource_matches(
    resource: &AppSjResource,
    subject: &str,
    edition: &str,
    grade: u8,
    semester: &str,
    exam_type: &str,
    unit_name: &str,
) -> (r: bool)
    ensures
        r == resource_matches_spec(*resource, subject@, edition@, grade, semester@, exam_type@, unit_name@),
{
    if !str_eq(resource.subject.as_str(), subject) || resource.grade != grade || !str_eq(
        resource.semester.as_str(),
        semester,
    ) {
        return false;
    }
    if edition.unicode_len() > 0 && resource.edition.unicode_len() > 0 && !str_eq(resource.edition.as_str(), edition) {
        return false;
    }
    if exam_type.unicode_len() > 0 && resource.exam_type.unicode_len() > 0 && !str_eq(
        resource.exam_type.as_str(),
        exam_type,
    ) {
        return false;
    }
    if str_eq(exam_type, "unit") && trim_str(unit_name).unicode_len() > 0 {
        let unit = string_of(&compact_of(unit_name));
        let mut both = chars_of(resource.title.as_str());
        extend_chars(&mut both, resource.unit_name.as_str());
        let hay = string_of(&compact_of(string_of(&both).as_str()));
        if str_contains(unit.as_str(), "单元") && !str_contains(hay.as_str(), unit.as_str()) {
            return false;
        }
    }
    true
}

/// The listing folder of a grade and semester on the site.
pub open spec fn slug_spec(grade: u8, semester: Seq<char>) -> Option<Seq<char>> {
    let s = semester == "shang"@;
    let x = semester == "xia"@;
    if !(s || x) || grade < 1 || grade > 6 {
        None
    } else {
        let name = if grade == 1 {
            "yinianji"@
        } else if grade == 2 {
            "ernianji"@
        } else if grade == 3 {
            "shannianji"@
        } else if grade == 4 {
            "shinianji"@
        } else if grade == 5 {
            "wunianji"@
        } else {
            "liunianji"@
        };
        Some(name + if s { "_s"@ } else { "_x"@ })
    }
}

pub fn grade_semester_slug(grade: u8, semester: &str) -> (r: Result<String, String>)
    ensures
        match slug_spec(grade, semester@) {
            Some(s) => r matches Ok(x) && x@ == s,
            None => r matches Err(m) && m@ == "仅支持 1-6 年级及上/下册"@,
        },
{
    let s = str_eq(semester, "shang");
    let x = str_eq(semester, "xia");
    if !(s || x) || grade < 1 || grade > 6 {
        return Err(lit("仅支持 1-6 年级及上/下册"));
    }
    let name = if grade == 1 {
        "yinianji"
    } else if grade == 2 {
        "ernianji"
    } else if grade == 3 {
        "shannianji"
    } else if grade == 4 {
        "shinianji"
    } else if grade == 5 {
        "wunianji"
    } else {
        "liunianji"
    };
    let mut v = chars_of(name);
    if s {
        extend_chars(&mut v, "_s");
    } else {
        extend_chars(&mut v, "_x");
    }
    Ok(string_of(&v))
}


/// The site the pages come from.
pub open spec fn base_url() -> Seq<char> {
    "https://appsj.szxuexiao.com"@
}

/// The most pages kept in the store.
pub open spec fn max_cache_items() -> nat {
    500
}

/// The checks of a synchronisation request, giving the listing folder.
pub fn check_sync_request(request: &AppSjSyncRequest) -> (r: Result<String, String>)
    ensures
        !(1 <= request.grade <= 6) ==> (r matches Err(m) && m@ == "题库同步仅支持小学 1-6 年级"@),
        1 <= request.grade <= 6 && !(request.subject@ == "math"@ || request.subject@ == "chinese"@
            || request.subject@ == "english"@) ==> (r matches Err(m) && m@ == "题库同步仅支持数学、语文和英语"@),
        1 <= request.grade <= 6 && (request.subject@ == "math"@ || request.subject@ == "chinese"@
            || request.subject@ == "english"@) ==> match slug_spec(request.grade, request.semester@) {
            Some(s) => r matches Ok(x) && x@ == s,
            None => r matches Err(m) && m@ == "仅支持 1-6 年级及上/下册"@,
        },
{
    if !(1 <= request.grade && request.grade <= 6) {
        return Err(lit("题库同步仅支持小学 1-6 年级"));
    }
    let s = request.subject.as_str();
    if !(str_eq(s, "math") || str_eq(s, "chinese") || str_eq(s, "english")) {
        return Err(lit("题库同步仅支持数学、语文和英语"));
    }
    grade_semester_slug(request.grade, request.semester.as_str())
}

/// The listing pages to read (1..=5, 3 by default) and the pages to keep
/// (1..=50, 20 by default).
pub fn sync_limits(request: &AppSjSyncRequest) -> (r: (u8, usize))
    ensures
        r.0 == (match request.max_pages {
            Some(p) => if p < 1 { 1 } else if p > 5 { 5 } else { p },
            None => 3,
        }),
        r.1 == (match request.max_items {
            Some(p) => if p < 1 { 1 } else if p > 50 { 50 } else { p },
            None => 20,
        }),
{
    let p: u8 = match request.max_pages {
        Some(p) => p,
        None => 3,
    };
    let i: usize = match request.max_items {
        Some(i) => i,
        None => 20,
    };
    (if p < 1 { 1 } else if p > 5 { 5 } else { p }, if i < 1 { 1 } else if i > 50 { 50 } else { i })
}

/// The address of listing page `page` (from 1) of a folder.
pub fn listing_url(slug: &str, page: u8) -> (r: String)
    ensures
        r@ == base_url() + "/"@ + slug@ + "/"@ + (if page == 1 {
            "index.html"@
        } else {
            "index_"@ + nat_to_seq(page as nat) + ".html"@
        }),
{
    let mut v = chars_of("https://appsj.szxuexiao.com");
    extend_chars(&mut v, "/");
    extend_chars(&mut v, slug);
    extend_chars(&mut v, "/");
    let ghost head = v@;
    if page == 1 {
        extend_chars(&mut v, "index.html");
    } else {
        extend_chars(&mut v, "index_");
        push_nat_digits(&mut v, page as u128);
        extend_chars(&mut v, ".html");
        assert(v@ =~= head + ("index_"@ + nat_to_seq(page as nat) + ".html"@));
    }
    string_of(&v)
}

/// Index of the last page with id `id`.
pub open spec fn last_with_id(s: Seq<AppSjResource>, id: Seq<char>) -> Option<int>
    decreases s.len(),
{
    if s.len() == 0 {
        None
    } else if s.last().id@ == id {
        Some(s.len() - 1)
    } else {
        last_with_id(s.drop_last(), id)
    }
}

/// The store after one fetched page: it replaces the page with its id, or is added.
pub open spec fn upsert(s: Seq<AppSjResource>, r: AppSjResource) -> Seq<AppSjResource> {
    match last_with_id(s, r.id@) {
        Some(i) => s.update(i, r),
        None => s.push(r),
    }
}

/// The store after the fetched pages, one after the other, with the number of
/// pages added and of pages replaced.
pub open spec fn upsert_all(s: Seq<AppSjResource>, ps: Seq<AppSjResource>) -> (Seq<AppSjResource>, nat, nat)
    decreases ps.len(),
{
    if ps.len() == 0 {
        (s, 0, 0)
    } else {
        let prev = upsert_all(s, ps.drop_last());
        let r = ps.last();
        match last_with_id(prev.0, r.id@) {
            Some(i) => (prev.0.update(i, r), prev.1, prev.2 + 1),
            None => (prev.0.push(r), prev.1 + 1, prev.2),
        }
    }
}

/// Where a page synchronised at `t` goes in a list newest first: after every
/// page that is not older.
pub open spec fn first_older(s: Seq<AppSjResource>, t: u64) -> int
    decreases s.len(),
{
    if s.len() == 0 {
        0
    } else if s[0].synced_at < t {
        0
    } else {
        1 + first_older(s.drop_first(), t)
    }
}

/// The pages newest first; pages synchronised at the same time keep their order.
pub open spec fn newest_first(s: Seq<AppSjResource>) -> Seq<AppSjResource>
    decreases s.len(),
{
    if s.len() == 0 {
        s
    } else {
        let sorted = newest_first(s.drop_last());
        sorted.insert(first_older(sorted, s.last().synced_at), s.last())
    }
}

proof fn lemma_first_older_bound(s: Seq<AppSjResource>, t: u64)
    ensures
        0 <= first_older(s, t) <= s.len(),
    decreases s.len(),
{
    if s.len() > 0 && s[0].synced_at >= t {
        lemma_first_older_bound(s.drop_first(), t);
    }
}

proof fn lemma_newest_len(s: Seq<AppSjResource>)
    ensures
        newest_first(s).len() == s.len(),
    decreases s.len(),
{
    if s.len() > 0 {
        lemma_newest_len(s.drop_last());
        lemma_first_older_bound(newest_first(s.drop_last()), s.last().synced_at);
    }
}

fn first_older_of(v: &Vec<AppSjResource>, t: u64) -> (r: usize)
    ensures
        r == first_older(v@, t),
{
    let mut k: usize = 0;
    assert(v@.subrange(0, v@.len() as int) =~= v@);
    while k < v.len() && v[k].synced_at >= t
        invariant
            k <= v.len(),
            first_older(v@, t) == k + first_older(v@.subrange(k as int, v@.len() as int), t),
        decreases v.len() - k,
    {
        proof {
            assert(v@.subrange(k as int, v@.len() as int).drop_first() =~= v@.subrange(k + 1, v@.len() as int));
        }
        k = k + 1;
    }
    proof {
        let rest = v@.subrange(k as int, v@.len() as int);
        if k < v.len() {
            assert(rest[0] == v@[k as int]);
        }
    }
    k
}

/// Sorts the pages newest first, keeping the order of pages synchronised at the same time.
pub fn sort_newest_first(v: Vec<AppSjResource>) -> (r: Vec<AppSjResource>)
    ensures
        r@ == newest_first(v@),
{
    let ghost s = v@;
    let mut r: Vec<AppSjResource> = Vec::new();
    for x in it: v
        invariant
            it.seq() == s,
            r@ == newest_first(s.take(it.index() as int)),
    {
        let ghost k = it.index();
        let p = first_older_of(&r, x.synced_at);
        proof {
            lemma_first_older_bound(r@, x.synced_at);
            assert(s.take(k + 1).drop_last() =~= s.take(k as int));
            assert(s.take(k + 1).last() == x);
        }
        r.insert(p, x);
    }
    proof {
        assert(s.take(s.len() as int) =~= s);
    }
    r
}

fn last_with_id_of(v: &Vec<AppSjResource>, id: &str) -> (r: Option<usize>)
    ensures
        r matches Some(i) ==> i < v@.len() && last_with_id(v@, id@) == Some(i as int),
        r is None ==> last_with_id(v@, id@) is None,
{
    let mut n: usize = v.len();
    assert(v@.take(v@.len() as int) =~= v@);
    while n > 0
        invariant
            n <= v.len(),
            last_with_id(v@, id@) == last_with_id(v@.take(n as int), id@),
        decreases n,
    {
        proof {
            assert(v@.take(n as int).drop_last() =~= v@.take(n - 1));
        }
        if str_eq(v[n - 1].id.as_str(), id) {
            return Some(n - 1);
        }
        n = n - 1;
    }
    proof {
        assert(v@.take(0) =~= Seq::<AppSjResource>::empty());
    }
    None
}

/// The store after a synchronisation: the fetched pages replace the pages with
/// their ids or are added, then the store is sorted newest first and cut to 500
/// pages. Also the numbers of pages added and replaced.
pub fn merge_resources(store: Vec<AppSjResource>, parsed: Vec<AppSjResource>) -> (r: (Vec<AppSjResource>, usize, usize))
    ensures
        ({
            let u = upsert_all(store@, parsed@);
            let sorted = newest_first(u.0);
            &&& r.0@ == sorted.take(if sorted.len() > max_cache_items() { max_cache_items() as int } else { sorted.len() as int })
            &&& r.1 == u.1
            &&& r.2 == u.2
        }),
{
    let ghost s0 = store@;
    let ghost ps = parsed@;
    let mut s = store;
    let mut added: usize = 0;
    let mut updated: usize = 0;
    let n = parsed.len();
    assert(ps.take(0) =~= Seq::<AppSjResource>::empty());
    for x in it: parsed
        invariant
            it.seq() == ps,
            ps.len() == n,
            upsert_all(s0, ps.take(it.index() as int)) == (s@, added as nat, updated as nat),
            added + updated <= it.index(),
    {
        let ghost k = it.index();
        proof {
            assert(ps.take(k + 1).drop_last() =~= ps.take(k as int));
            assert(ps.take(k + 1).last() == x);
        }
        match last_with_id_of(&s, x.id.as_str()) {
            Some(i) => {
                s.set(i, x);
                updated = updated + 1;
            },
            None => {
                s.push(x);
                added = added + 1;
            },
        }
    }
    proof {
        assert(ps.take(ps.len() as int) =~= ps);
    }
    let mut sorted = sort_newest_first(s);
    if sorted.len() > 500 {
        sorted.truncate(500);
    }
    (sorted, added, updated)
}

/// The message and the success of a synchronisation.
pub fn sync_message(fetched: usize, added: usize, updated: usize) -> (r: (bool, String))
    ensures
        r.0 == (fetched > 0),
        fetched > 0 ==> r.1@ == "已同步 "@ + nat_to_seq(fetched as nat) + " 份公开网页素材，新增 "@ + nat_to_seq(
            added as nat,
        ) + "，更新 "@ + nat_to_seq(updated as nat),
        fetched == 0 ==> r.1@ == "没有找到符合当前条件的公开网页素材，可放宽卷型或稍后重试"@,
{
    if fetched > 0 {
        let mut m = chars_of("已同步 ");
        push_nat_digits(&mut m, fetched as u128);
        extend_chars(&mut m, " 份公开网页素材，新增 ");
        push_nat_digits(&mut m, added as u128);
        extend_chars(&mut m, "，更新 ");
        push_nat_digits(&mut m, updated as u128);
        (true, string_of(&m))
    } else {
        (false, lit("没有找到符合当前条件的公开网页素材，可放宽卷型或稍后重试"))
    }
}

/// The reference text of a stored page for a prompt: its title and the first
/// 1500 characters of its text.
pub open spec fn snippet_spec(r: AppSjResource) -> Seq<char> {
    let c = r.content@;
    "来源《"@ + r.title@ + "》\n"@ + c.take(if c.len() < 1500 { c.len() as int } else { 1500 })
}

/// The matching pages, in order.
pub open spec fn matching(
    s: Seq<AppSjResource>,
    subject: Seq<char>,
    edition: Seq<char>,
    grade: u8,
    semester: Seq<char>,
    exam_type: Seq<char>,
    unit_name: Seq<char>,
) -> Seq<AppSjResource>
    decreases s.len(),
{
    if s.len() == 0 {
        s
    } else {
        matching(s.drop_last(), subject, edition, grade, semester, exam_type, unit_name) + if resource_matches_spec(
            s.last(),
            subject,
            edition,
            grade,
            semester,
            exam_type,
            unit_name,
        ) {
            seq![s.last()]
        } else {
            Seq::empty()
        }
    }
}

/// The reference texts for a prompt: the first `limit` stored pages (newest
/// first) that suit the paper.
pub fn pick_resource_snippets(
    resources: Vec<AppSjResource>,
    subject: &str,
    edition: &str,
    grade: u8,
    semester: &str,
    exam_type: &str,
    unit_name: &str,
    limit: usize,
) -> (r: Vec<String>)
    ensures
        ({
            let m = matching(newest_first(resources@), subject@, edition@, grade, semester@, exam_type@, unit_name@);
            let n = if m.len() < limit { m.len() as int } else { limit as int };
            &&& r@.len() == n
            &&& forall|i: int| 0 <= i < n ==> #[trigger] r@[i]@ == snippet_spec(m[i])
        }),
{
    let sorted = sort_newest_first(resources);
    let ghost s = sorted@;
    let mut r: Vec<String> = Vec::new();
    let mut k: usize = 0;
    while k < sorted.len()
        invariant
            s == sorted@,
            k <= sorted.len(),
            r@.len() == matching(s.take(k as int), subject@, edition@, grade, semester@, exam_type@, unit_name@).len(),
            forall|i: int| 0 <= i < r@.len() ==> #[trigger] r@[i]@ == snippet_spec(
                matching(s.take(k as int), subject@, edition@, grade, semester@, exam_type@, unit_name@)[i],
            ),
        decreases sorted.len() - k,
    {
        proof {
            assert(s.take(k + 1).drop_last() =~= s.take(k as int));
            assert(s.take(k + 1).last() == s[k as int]);
        }
        let x = &sorted[k];
        if resource_matches(x, subject, edition, grade, semester, exam_type, unit_name) {
            let mut v = chars_of("来源《");
            extend_chars(&mut v, x.title.as_str());
            extend_chars(&mut v, "》\n");
            let c = chars_of(x.content.as_str());
            let n = if c.len() < 1500 { c.len() } else { 1500 };
            extend_vec(&mut v, &crate::text::copy_range(&c, 0, n));
            assert(c@.subrange(0, n as int) =~= c@.take(n as int));
            r.push(string_of(&v));
        }
        k = k + 1;
    }
    proof {
        assert(s.take(s.len() as int) =~= s);
    }
    if r.len() > limit {
        r.truncate(limit);
    }
    r
}


/// A code point as a character (`char::from_u32`): `None` for surrogates
/// and values past U+10FFFF, as std documents.
#[verifier::external_body]
fn char_from_u32(n: u32) -> (r: Option<char>)
    ensures
        r matches Some(c) ==> c as u32 == n,
        r is None <==> !(n <= 0x10ffff && !(0xd800 <= n && n <= 0xdfff)),
{
    char::from_u32(n)
}

/// A `u32` written in decimal (`u32`'s `FromStr`: an optional `+`, then
/// decimal digits, within `u32`).
pub open spec fn parse_u32_spec(t: Seq<char>) -> Option<u32> {
    let d = if t.len() > 0 && t[0] == '+' { t.drop_first() } else { t };
    if d.len() > 0 && crate::expr::all_digits(d) && crate::expr::digits_val(d) <= u32::MAX {
        Some(crate::expr::digits_val(d) as u32)
    } else {
        None
    }
}

pub open spec fn code_of(c: char) -> u32 {
    c as u32
}

/// What a numeric character reference `&#N;` stands for: the character
/// with code point N, or nothing when N is not one.
pub open spec fn entity_text_spec(digits: Seq<char>) -> Seq<char> {
    match parse_u32_spec(digits) {
        Some(n) => if n <= 0x10ffff && !(0xd800 <= n && n <= 0xdfff) {
            seq![choose|c: char| #[trigger] code_of(c) == n]
        } else {
            Seq::empty()
        },
        None => Seq::empty(),
    }
}

proof fn lemma_untrimmed(s: Seq<char>)
    requires
        trim(s) != s,
    ensures
        s.len() > 0 && (crate::text::is_ws(s[0]) || crate::text::is_ws(s.last())),
{
    let a = crate::text::trim_start(s);
    if a == s {
        assert(crate::text::trim_end(s) != s);
    }
}

/// The text a numeric character reference stands for (see `entity_text_spec`).
pub fn entity_text(digits: &str) -> (r: String)
    ensures
        r@ == entity_text_spec(digits@),
{
    let t = crate::text::trim_str(digits);
    if !str_eq(t.as_str(), digits) {
        proof {
            lemma_untrimmed(digits@);
            let d = if digits@.len() > 0 && digits@[0] == '+' { digits@.drop_first() } else { digits@ };
            if d.len() > 0 && crate::expr::all_digits(d) {
                if crate::text::is_ws(digits@[0]) {
                    assert(d[0] == digits@[0]);
                } else {
                    assert(d[d.len() - 1] == digits@.last());
                }
            }
        }
        return String::new();
    }
    let ghost d = if digits@.len() > 0 && digits@[0] == '+' { digits@.drop_first() } else { digits@ };
    assert(trim(digits@) == digits@);
    match crate::ebook::parse_page_num(digits) {
        Some(n) => {
            assert(crate::ebook::page_num_spec(digits@) == Some(n));
            proof {
                crate::dzkbw::lemma_digits_nonneg(d);
            }
            assert(parse_u32_spec(digits@) == Some(n));
            match char_from_u32(n) {
                Some(c) => {
                    let mut s = String::new();
                    crate::text::push_char(&mut s, c);
                    proof {
                        assert(code_of(c) == n);
                        let w = choose|x: char| #[trigger] code_of(x) == n;
                        vstd::utf8::char_u32_cast(w, n);
                        vstd::utf8::char_u32_cast(c, n);
                        assert(s@ =~= seq![w]);
                    }
                    s
                },
                None => String::new(),
            }
        },
        None => String::new(),
    }
}

/// The pattern of a numeric character reference `&#N;`.
pub open spec fn numeric_ref_pattern() -> Seq<char> {
    "&#(\\d+);"@
}

/// Whether `i` is the first position at or after `from` where `needle`
/// occurs in `hay`.
pub open spec fn first_at(hay: Seq<char>, needle: Seq<char>, from: int, i: int) -> bool {
    from <= i && occurs_at(hay, needle, i) && forall|j: int| from <= j < i ==> !occurs_at(hay, needle, j)
}

/// The first position at or after `from` where `needle` occurs in `hay`.
pub open spec fn next_occurrence(hay: Seq<char>, needle: Seq<char>, from: int) -> Option<int> {
    if exists|i: int| first_at(hay, needle, from, i) {
        Some(choose|i: int| first_at(hay, needle, from, i))
    } else {
        None
    }
}

/// `text[cur..]` with the matches `caps` of the reference pattern, taken in
/// order, each replaced by what its digits stand for (`entity_text_spec` of
/// group 1); each match is found at the first place its text occurs after
/// the previous one.
pub open spec fn refs_from(text: Seq<char>, caps: Seq<Seq<Option<Seq<char>>>>, cur: int) -> Seq<char>
    decreases caps.len(),
{
    if caps.len() == 0 || cur < 0 || cur > text.len() {
        text.subrange(cur, text.len() as int)
    } else {
        let m = crate::dzkbw::group_text(caps[0], 0);
        match next_occurrence(text, m, cur) {
            Some(p) => text.subrange(cur, p) + entity_text_spec(crate::dzkbw::group_text(caps[0], 1))
                + refs_from(text, caps.drop_first(), p + m.len()),
            None => text.subrange(cur, text.len() as int),
        }
    }
}

/// `text` with each numeric character reference `&#N;` replaced by the
/// character `N` stands for (or by nothing when `N` is no character).
pub open spec fn numeric_refs_decoded(text: Seq<char>) -> Seq<char> {
    refs_from(text, regex_all(numeric_ref_pattern(), text), 0)
}

proof fn lemma_first_at_unique(hay: Seq<char>, needle: Seq<char>, from: int, i: int)
    requires
        first_at(hay, needle, from, i),
    ensures
        next_occurrence(hay, needle, from) == Some(i),
{
    let k = choose|k: int| first_at(hay, needle, from, k);
    assert(first_at(hay, needle, from, k));
    if k < i {
        assert(!occurs_at(hay, needle, k));
    } else if i < k {
        assert(!occurs_at(hay, needle, i));
    }
}

/// Replaces the numeric character references of `text` (see
/// `numeric_refs_decoded`).
fn replace_numeric_refs(text: &str) -> (r: String)
    ensures
        r@ == numeric_refs_decoded(text@),
{
    let caps = crate::pattern::regex_captures_all("&#(\\d+);", text);
    let ghost cv = caps@.map_values(|g: Vec<Option<String>>| crate::pattern::groups_view(g@));
    let t = chars_of(text);
    let mut out: Vec<char> = Vec::new();
    let mut cur: usize = 0;
    let mut k: usize = 0;
    let mut done = false;
    assert(cv.skip(0) =~= cv);
    while k < caps.len() && !done
        invariant
            k <= caps.len(),
            cur <= t.len(),
            t@ == text@,
            cv == caps@.map_values(|g: Vec<Option<String>>| crate::pattern::groups_view(g@)),
            cv == regex_all(numeric_ref_pattern(), text@),
            done ==> out@ + t@.subrange(cur as int, t@.len() as int) == refs_from(t@, cv, 0),
            !done ==> out@ + refs_from(t@, cv.skip(k as int), cur as int) == refs_from(t@, cv, 0),
        decreases caps.len() - k + if done { 0int } else { 1int },
    {
        let ghost rest = cv.skip(k as int);
        assert(rest[0] == crate::pattern::groups_view(caps@[k as int]@));
        let m = chars_of(crate::dzkbw::group_string(&caps[k], 0).as_str());
        match crate::text::find_from(&t, &m, cur) {
            None => {
                proof {
                    if exists|i: int| first_at(t@, m@, cur as int, i) {
                        let i = choose|i: int| first_at(t@, m@, cur as int, i);
                        assert(occurs_at(t@, m@, i));
                    }
                }
                done = true;
            },
            Some(p) => {
                proof {
                    lemma_first_at_unique(t@, m@, cur as int, p as int);
                    assert(rest.drop_first() =~= cv.skip(k + 1));
                }
                let ghost before = out@;
                let piece = crate::text::copy_range(&t, cur, p);
                crate::text::extend_vec(&mut out, &piece);
                let e = entity_text(crate::dzkbw::group_string(&caps[k], 1).as_str());
                let ev = chars_of(e.as_str());
                crate::text::extend_vec(&mut out, &ev);
                proof {
                    assert(out@ =~= before + (t@.subrange(cur as int, p as int) + entity_text_spec(crate::dzkbw::group_text(rest[0], 1))));
                }
                cur = p + m.len();
                k = k + 1;
            },
        }
    }
    if !done {
        assert(cv.skip(k as int).len() == 0);
    }
    let tail = crate::text::copy_range(&t, cur, t.len());
    crate::text::extend_vec(&mut out, &tail);
    string_of(&out)
}

/// The common and the numeric character references decoded.
pub open spec fn entities_decoded(s: Seq<char>) -> Seq<char> {
    numeric_refs_decoded(crate::dzkbw::html_decoded(s))
}

pub fn decode_entities(input: &str) -> (r: String)
    ensures
        r@ == entities_decoded(input@),
{
    let t = crate::dzkbw::html_escape_decode(input);
    replace_numeric_refs(t.as_str())
}

/// The lines kept of a page's text: white space squeezed in each, empty
/// lines and repeats of the line before dropped.
pub open spec fn text_lines(ls: Seq<Seq<char>>) -> Seq<Seq<char>>
    decreases ls.len(),
{
    if ls.len() == 0 {
        Seq::empty()
    } else {
        let prev = text_lines(ls.drop_last());
        let line = crate::dzkbw::squeeze_ws(ls.last());
        if line.len() > 0 && !(prev.len() > 0 && prev.last() == line) {
            prev.push(line)
        } else {
            prev
        }
    }
}

/// The text of an HTML fragment: scripts, styles, pictures and drawings
/// removed, cells as tabs, blocks as line breaks, other tags as spaces,
/// references decoded, then the kept lines joined by line breaks.
pub open spec fn html_text(html: Seq<char>) -> Seq<char> {
    let t1 = crate::pattern::regex_replaced("(?is)<(?:script|style|svg)[^>]*>.*?</(?:script|style|svg)>"@, html, " "@);
    let t2 = crate::pattern::regex_replaced("(?is)<img[^>]*>"@, t1, " "@);
    let t3 = crate::pattern::regex_replaced("(?is)</?(?:td|th)[^>]*>"@, t2, "\t"@);
    let t4 = crate::pattern::regex_replaced("(?is)</?(?:p|div|section|article|h[1-6]|li|tr|table|br|hr)[^>]*>"@, t3, "\n"@);
    let t5 = crate::pattern::regex_replaced("(?is)<[^>]+>"@, t4, " "@);
    crate::text::join(text_lines(crate::dzkbw::lines_of(entities_decoded(t5))), "\n"@)
}

pub fn html_to_text(html: &str) -> (r: String)
    ensures
        r@ == html_text(html@),
{
    let t1 = crate::pattern::regex_replace_all("(?is)<(?:script|style|svg)[^>]*>.*?</(?:script|style|svg)>", html, " ");
    let t2 = crate::pattern::regex_replace_all("(?is)<img[^>]*>", t1.as_str(), " ");
    let t3 = crate::pattern::regex_replace_all("(?is)</?(?:td|th)[^>]*>", t2.as_str(), "\t");
    let t4 = crate::pattern::regex_replace_all("(?is)</?(?:p|div|section|article|h[1-6]|li|tr|table|br|hr)[^>]*>", t3.as_str(), "\n");
    let t5 = crate::pattern::regex_replace_all("(?is)<[^>]+>", t4.as_str(), " ");
    let t6 = decode_entities(t5.as_str());
    let raw = crate::dzkbw::lines_exec(t6.as_str());
    let ghost rv = strings_view(raw@);
    let mut lines: Vec<String> = Vec::new();
    let mut i: usize = 0;
    assert(rv.take(0) =~= Seq::<Seq<char>>::empty());
    assert(strings_view(lines@) =~= Seq::<Seq<char>>::empty());
    while i < raw.len()
        invariant
            i <= raw.len(),
            rv == strings_view(raw@),
            strings_view(lines@) == text_lines(rv.take(i as int)),
        decreases raw.len() - i,
    {
        assert(rv.take(i + 1).drop_last() =~= rv.take(i as int));
        assert(rv[i as int] == raw@[i as int]@);
        let line = crate::dzkbw::squeeze_exec(raw[i].as_str());
        let n = lines.len();
        let fresh = chars_of(line.as_str()).len() > 0 && !(n > 0 && str_eq(lines[n - 1].as_str(), line.as_str()));
        if fresh {
            let ghost before = strings_view(lines@);
            lines.push(line);
            assert(strings_view(lines@) =~= before.push(crate::dzkbw::squeeze_ws(rv[i as int])));
        }
        i = i + 1;
    }
    assert(rv.take(raw.len() as int) =~= rv);
    let mut out: Vec<char> = Vec::new();
    crate::text::push_join(&mut out, &lines, "\n");
    assert(out@ =~= Seq::<char>::empty() + crate::text::join(strings_view(lines@), "\n"@));
    string_of(&out)
}

pub open spec fn listing_pattern() -> Seq<char> {
    "(?is)<a[^>]+class=[\\\"'][^\\\"']*list-group-item[^\\\"']*[\\\"'][^>]+href=[\\\"'](/html/(\\d+)\\.html)[\\\"'][^>]*>(.*?)</a>"@
}

/// The detail pages listed on a listing page: address and title, the first
/// of each page id, where the title is not empty.
pub open spec fn listing_links(caps: Seq<Seq<Option<Seq<char>>>>) -> (Seq<(Seq<char>, Seq<char>)>, Seq<Seq<char>>)
    decreases caps.len(),
{
    if caps.len() == 0 {
        (Seq::empty(), Seq::empty())
    } else {
        let prev = listing_links(caps.drop_last());
        let g = caps.last();
        let id = crate::dzkbw::group_text(g, 2);
        if id.len() == 0 || prev.1.contains(id) {
            prev
        } else {
            let title = html_text(crate::dzkbw::group_text(g, 3));
            if title.len() > 0 {
                (prev.0.push((base_url() + crate::dzkbw::group_text(g, 1), title)), prev.1.push(id))
            } else {
                (prev.0, prev.1.push(id))
            }
        }
    }
}

pub fn extract_listing_links(html: &str) -> (r: Vec<(String, String)>)
    ensures
        r@.map_values(|p: (String, String)| (p.0@, p.1@)) == listing_links(regex_all(listing_pattern(), html@)).0,
{
    let caps = crate::pattern::regex_captures_all("(?is)<a[^>]+class=[\\\"'][^\\\"']*list-group-item[^\\\"']*[\\\"'][^>]+href=[\\\"'](/html/(\\d+)\\.html)[\\\"'][^>]*>(.*?)</a>", html);
    let ghost cv = caps@.map_values(|g: Vec<Option<String>>| crate::pattern::groups_view(g@));
    let mut out: Vec<(String, String)> = Vec::new();
    let mut seen: Vec<String> = Vec::new();
    let mut i: usize = 0;
    assert(cv.take(0) =~= Seq::<Seq<Option<Seq<char>>>>::empty());
    assert(out@.map_values(|p: (String, String)| (p.0@, p.1@)) =~= Seq::<(Seq<char>, Seq<char>)>::empty());
    assert(strings_view(seen@) =~= Seq::<Seq<char>>::empty());
    while i < caps.len()
        invariant
            i <= caps.len(),
            cv == caps@.map_values(|g: Vec<Option<String>>| crate::pattern::groups_view(g@)),
            out@.map_values(|p: (String, String)| (p.0@, p.1@)) == listing_links(cv.take(i as int)).0,
            strings_view(seen@) == listing_links(cv.take(i as int)).1,
        decreases caps.len() - i,
    {
        assert(cv.take(i + 1).drop_last() =~= cv.take(i as int));
        let id = crate::dzkbw::group_string(&caps[i], 2);
        let fresh = chars_of(id.as_str()).len() > 0 && !crate::dzkbw::holds(&seen, &id);
        if fresh {
            let title = html_to_text(crate::dzkbw::group_string(&caps[i], 3).as_str());
            let ghost sb = strings_view(seen@);
            seen.push(id);
            assert(strings_view(seen@) =~= sb.push(crate::dzkbw::group_text(cv[i as int], 2)));
            if chars_of(title.as_str()).len() > 0 {
                let mut u = chars_of("https://appsj.szxuexiao.com");
                let path = crate::dzkbw::group_string(&caps[i], 1);
                crate::text::extend_chars(&mut u, path.as_str());
                let ghost ob = out@.map_values(|p: (String, String)| (p.0@, p.1@));
                out.push((string_of(&u), title));
                assert(out@.map_values(|p: (String, String)| (p.0@, p.1@)) =~= ob.push((base_url() + path@, title@)));
            }
        }
        i = i + 1;
    }
    assert(cv.take(caps.len() as int) =~= cv);
    out
}


/// The first group of the first match of `pattern` in `text`, empty when
/// there is none.
pub open spec fn capture_first_spec(text: Seq<char>, pattern: Seq<char>) -> Seq<char> {
    match crate::pattern::regex_first(pattern, text) {
        Some(g) => crate::dzkbw::group_text(g, 1),
        None => Seq::empty(),
    }
}

pub fn capture_first(text: &str, pattern: &str) -> (r: String)
    ensures
        r@ == capture_first_spec(text@, pattern@),
{
    match crate::pattern::regex_captures(pattern, text) {
        Some(g) => crate::dzkbw::group_string(&g, 1),
        None => String::new(),
    }
}

pub open spec fn prefix_chars(s: Seq<char>, n: nat) -> Seq<char> {
    if s.len() <= n {
        s
    } else {
        s.take(n as int)
    }
}

/// A detail page read: its title (the page's, else the listing's), its
/// text without the download block (at most 20000 characters, and at least
/// 20), the cloud-drive address and code, the page id from the address.
pub open spec fn resource_ok(r: AppSjResource, html: Seq<char>, fallback: Seq<char>, url: Seq<char>, req: AppSjSyncRequest, now: u64) -> bool {
    let parsed = html_text(capture_first_spec(html, "(?is)<h2[^>]*class=[\\\"'][^\\\"']*post-title[^\\\"']*[\\\"'][^>]*>(.*?)</h2>"@));
    let title = if parsed.len() == 0 { fallback } else { parsed };
    let entry = capture_first_spec(html, "(?is)<div[^>]*class=[\\\"'][^\\\"']*entry-content[^\\\"']*[\\\"'][^>]*>(.*?)<div[^>]*class=[\\\"'][^\\\"']*share-block"@);
    let content = prefix_chars(html_text(crate::pattern::regex_replaced("(?is)<div[^>]*class=[\\\"'][^\\\"']*download-section[^\\\"']*[\\\"'][^>]*>.*?</div>"@, entry, " "@)), 20000);
    &&& r.id@ == match crate::pattern::regex_first("/html/(\\d+)\\.html"@, url) {
        Some(g) => if g.len() > 1 && g[1] is Some { g[1]->0 } else { url },
        None => url,
    }
    &&& r.title@ == title
    &&& r.url@ == url
    &&& r.subject@ == subject_of_spec(title)
    &&& r.grade == req.grade
    &&& r.semester@ == req.semester@
    &&& r.edition@ == edition_of_spec(title)
    &&& r.exam_type@ == exam_type_of_spec(title)
    &&& r.unit_name@ == req.unit_name@
    &&& r.content@ == content
    &&& r.download_url@ == capture_first_spec(entry, "(?is)href=[\\\"'](https?://pan\\.baidu\\.com/[^\\\"']+)[\\\"']"@)
    &&& r.download_code@ == trim(capture_first_spec(entry, "(?is)提取码[^<]{0,20}<[^>]*>([^<]+)</"@))
    &&& r.source_name@ == "小学试卷网"@
    &&& r.source_home@ == base_url()
    &&& r.synced_at == now
}

/// Reads a detail page: refused without a text area, or with less than 20
/// characters of text.
pub fn parse_resource(html: &str, fallback_title: &str, url: &str, request: &AppSjSyncRequest, now: u64) -> (r: Result<AppSjResource, String>)
    ensures
        capture_first_spec(html@, "(?is)<div[^>]*class=[\\\"'][^\\\"']*entry-content[^\\\"']*[\\\"'][^>]*>(.*?)<div[^>]*class=[\\\"'][^\\\"']*share-block"@).len() == 0 ==> (r matches Err(e) && e@ == "详情页缺少正文区域"@),
        capture_first_spec(html@, "(?is)<div[^>]*class=[\\\"'][^\\\"']*entry-content[^\\\"']*[\\\"'][^>]*>(.*?)<div[^>]*class=[\\\"'][^\\\"']*share-block"@).len() > 0 && prefix_chars(html_text(crate::pattern::regex_replaced("(?is)<div[^>]*class=[\\\"'][^\\\"']*download-section[^\\\"']*[\\\"'][^>]*>.*?</div>"@, capture_first_spec(html@, "(?is)<div[^>]*class=[\\\"'][^\\\"']*entry-content[^\\\"']*[\\\"'][^>]*>(.*?)<div[^>]*class=[\\\"'][^\\\"']*share-block"@), " "@)), 20000).len() < 20
            ==> (r matches Err(e) && e@ == "详情页没有足够的公开文字素材"@),
        r matches Ok(res) ==> resource_ok(res, html@, fallback_title@, url@, *request, now),
        capture_first_spec(html@, "(?is)<div[^>]*class=[\\\"'][^\\\"']*entry-content[^\\\"']*[\\\"'][^>]*>(.*?)<div[^>]*class=[\\\"'][^\\\"']*share-block"@).len() > 0 && prefix_chars(html_text(crate::pattern::regex_replaced("(?is)<div[^>]*class=[\\\"'][^\\\"']*download-section[^\\\"']*[\\\"'][^>]*>.*?</div>"@, capture_first_spec(html@, "(?is)<div[^>]*class=[\\\"'][^\\\"']*entry-content[^\\\"']*[\\\"'][^>]*>(.*?)<div[^>]*class=[\\\"'][^\\\"']*share-block"@), " "@)), 20000).len() >= 20
            ==> r is Ok,
{
    let title_html = capture_first(html, "(?is)<h2[^>]*class=[\\\"'][^\\\"']*post-title[^\\\"']*[\\\"'][^>]*>(.*?)</h2>");
    let parsed = html_to_text(title_html.as_str());
    let title = if chars_of(parsed.as_str()).len() == 0 { lit(fallback_title) } else { parsed };
    let entry = capture_first(html, "(?is)<div[^>]*class=[\\\"'][^\\\"']*entry-content[^\\\"']*[\\\"'][^>]*>(.*?)<div[^>]*class=[\\\"'][^\\\"']*share-block");
    if chars_of(entry.as_str()).len() == 0 {
        return Err(lit("详情页缺少正文区域"));
    }
    let download_url = capture_first(entry.as_str(), "(?is)href=[\\\"'](https?://pan\\.baidu\\.com/[^\\\"']+)[\\\"']");
    let download_code = trim_str(capture_first(entry.as_str(), "(?is)提取码[^<]{0,20}<[^>]*>([^<]+)</").as_str());
    let without = crate::pattern::regex_replace_all("(?is)<div[^>]*class=[\\\"'][^\\\"']*download-section[^\\\"']*[\\\"'][^>]*>.*?</div>", entry.as_str(), " ");
    let text = chars_of(html_to_text(without.as_str()).as_str());
    let content = if text.len() <= 20000 {
        string_of(&text)
    } else {
        let head = crate::text::copy_range(&text, 0, 20000);
        assert(head@ =~= text@.take(20000));
        string_of(&head)
    };
    if chars_of(content.as_str()).len() < 20 {
        return Err(lit("详情页没有足够的公开文字素材"));
    }
    let id = match crate::pattern::regex_captures("/html/(\\d+)\\.html", url) {
        Some(g) => {
            if g.len() > 1 {
                match &g[1] {
                    Some(x) => x.clone(),
                    None => lit(url),
                }
            } else {
                lit(url)
            }
        },
        None => lit(url),
    };
    Ok(AppSjResource {
        id,
        title: title.clone(),
        url: lit(url),
        subject: lit(subject_of(title.as_str())),
        grade: request.grade,
        semester: request.semester.clone(),
        edition: lit(edition_of(title.as_str())),
        exam_type: lit(exam_type_of(title.as_str())),
        unit_name: request.unit_name.clone(),
        content,
        download_url,
        download_code,
        source_name: lit("小学试卷网"),
        source_home: lit("https://appsj.szxuexiao.com"),
        synced_at: now,
    })
}


/// A page's text with the full-width and typographic operators and
/// brackets made ASCII.
pub open spec fn expr_normalized(s: Seq<char>) -> Seq<char> {
    replace_char(
        replace_char(
            replace_char(
                replace_char(
                    replace_char(replace_char(replace_char(s, '×', seq!['*']), '÷', seq!['/']), '＋', seq!['+']),
                    '−',
                    seq!['-'],
                ),
                '－',
                seq!['-'],
            ),
            '（',
            seq!['('],
        ),
        '）',
        seq![')'],
    )
}

pub open spec fn is_paren(c: char) -> bool {
    c == '(' || c == ')'
}

/// `s` without the brackets at either end.
pub open spec fn trim_parens_start(s: Seq<char>) -> Seq<char>
    decreases s.len(),
{
    if s.len() > 0 && is_paren(s[0]) {
        trim_parens_start(s.drop_first())
    } else {
        s
    }
}

pub open spec fn trim_parens_end(s: Seq<char>) -> Seq<char>
    decreases s.len(),
{
    if s.len() > 0 && is_paren(s.last()) {
        trim_parens_end(s.drop_last())
    } else {
        s
    }
}

pub open spec fn trim_parens(s: Seq<char>) -> Seq<char> {
    trim_parens_end(trim_parens_start(s))
}

/// How an expression is shown: `×` and `÷` for `*` and `/`.
pub open spec fn expr_display(s: Seq<char>) -> Seq<char> {
    replace_char(replace_char(s, '*', seq!['×']), '/', seq!['÷'])
}

pub type Found = (Seq<char>, Seq<char>, Seq<char>);

/// The expressions found in the matches of one page, with the texts met so
/// far: each new expression of at least 3 bytes that evaluates is kept
/// (shown form, answer, page title).
pub open spec fn found_in(state: (Seq<Found>, Seq<Seq<char>>), caps: Seq<Seq<Option<Seq<char>>>>, title: Seq<char>) -> (Seq<Found>, Seq<Seq<char>>)
    decreases caps.len(),
{
    if caps.len() == 0 {
        state
    } else {
        let prev = found_in(state, caps.drop_last(), title);
        let raw = trim_parens(crate::dzkbw::group_text(caps.last(), 0));
        if crate::secret::utf8(raw).len() < 3 || prev.1.contains(raw) {
            prev
        } else {
            match crate::verify::evaluate_spec(raw) {
                Ok(a) => (prev.0.push((expr_display(raw), a, title)), prev.1.push(raw)),
                Err(_) => (prev.0, prev.1.push(raw)),
            }
        }
    }
}

pub open spec fn expr_pattern() -> Seq<char> {
    "\\d[\\d\\.\\+\\-\\*/\\(\\)]{2,30}"@
}

/// The expressions found over the pages that match the request.
pub open spec fn found_over(rs: Seq<AppSjResource>, edition: Seq<char>, grade: u8, semester: Seq<char>, exam_type: Seq<char>, unit_name: Seq<char>) -> (Seq<Found>, Seq<Seq<char>>)
    decreases rs.len(),
{
    if rs.len() == 0 {
        (Seq::empty(), Seq::empty())
    } else {
        let prev = found_over(rs.drop_last(), edition, grade, semester, exam_type, unit_name);
        let r = rs.last();
        if resource_matches_spec(r, "math"@, edition, grade, semester, exam_type, unit_name) {
            found_in(prev, regex_all(expr_pattern(), expr_normalized(r.content@)), r.title@)
        } else {
            prev
        }
    }
}

fn trim_parens_exec(v: &Vec<char>) -> (r: Vec<char>)
    ensures
        r@ == trim_parens(v@),
{
    let mut a: usize = 0;
    assert(v@.subrange(0, v@.len() as int) =~= v@);
    while a < v.len() && (v[a] == '(' || v[a] == ')')
        invariant
            a <= v.len(),
            trim_parens_start(v@) == trim_parens_start(v@.subrange(a as int, v@.len() as int)),
        decreases v.len() - a,
    {
        assert(v@.subrange(a as int, v@.len() as int).drop_first() =~= v@.subrange(a + 1, v@.len() as int));
        a = a + 1;
    }
    proof {
        let t = v@.subrange(a as int, v@.len() as int);
        if t.len() > 0 {
            assert(t[0] == v@[a as int]);
        }
    }
    let mut b: usize = v.len();
    while b > a && (v[b - 1] == '(' || v[b - 1] == ')')
        invariant
            a <= b <= v.len(),
            trim_parens_end(v@.subrange(a as int, v@.len() as int)) == trim_parens_end(v@.subrange(a as int, b as int)),
        decreases b - a,
    {
        assert(v@.subrange(a as int, b as int).drop_last() =~= v@.subrange(a as int, b - 1));
        b = b - 1;
    }
    proof {
        let t = v@.subrange(a as int, b as int);
        if t.len() > 0 {
            assert(t.last() == v@[b - 1]);
        }
    }
    crate::text::copy_range(v, a, b)
}

proof fn lemma_utf8_char_len(c: char)
    ensures
        crate::secret::utf8_char(c).len() == if (c as u32) < 0x80 { 1nat } else if (c as u32) < 0x800 { 2nat } else if (c as u32) < 0x10000 { 3nat } else { 4nat },
{
}

/// The number of bytes of the UTF-8 encoding of `v`.
fn utf8_len(v: &Vec<char>) -> (r: u128)
    ensures
        r == crate::secret::utf8(v@).len(),
{
    let mut n: u128 = 0;
    let mut i: usize = 0;
    assert(v@.take(0) =~= Seq::<char>::empty());
    while i < v.len()
        invariant
            i <= v.len(),
            n == crate::secret::utf8(v@.take(i as int)).len(),
            n <= 4 * i,
        decreases v.len() - i,
    {
        assert(v@.take(i + 1).drop_last() =~= v@.take(i as int));
        assert(v@.take(i + 1).last() == v@[i as int]);
        proof {
            lemma_utf8_char_len(v@[i as int]);
        }
        let u = v[i] as u32;
        let k: u128 = if u < 0x80 { 1 } else if u < 0x800 { 2 } else if u < 0x10000 { 3 } else { 4 };
        n = n + k;
        i = i + 1;
    }
    assert(v@.take(v.len() as int) =~= v@);
    n
}

pub type FoundText = (String, String, String);

pub open spec fn found_view(v: Seq<FoundText>) -> Seq<Found> {
    v.map_values(|f: FoundText| (f.0@, f.1@, f.2@))
}

fn found_in_exec(items: &mut Vec<FoundText>, seen: &mut Vec<String>, caps: &Vec<Vec<Option<String>>>, title: &String)
    ensures
        (found_view(final(items)@), strings_view(final(seen)@)) == found_in(
            (found_view(old(items)@), strings_view(old(seen)@)),
            caps@.map_values(|g: Vec<Option<String>>| crate::pattern::groups_view(g@)),
            title@,
        ),
{
    let ghost cv = caps@.map_values(|g: Vec<Option<String>>| crate::pattern::groups_view(g@));
    let ghost st = (found_view(items@), strings_view(seen@));
    let mut i: usize = 0;
    assert(cv.take(0) =~= Seq::<Seq<Option<Seq<char>>>>::empty());
    while i < caps.len()
        invariant
            i <= caps.len(),
            cv == caps@.map_values(|g: Vec<Option<String>>| crate::pattern::groups_view(g@)),
            (found_view(items@), strings_view(seen@)) == found_in(st, cv.take(i as int), title@),
        decreases caps.len() - i,
    {
        assert(cv.take(i + 1).drop_last() =~= cv.take(i as int));
        let whole = chars_of(crate::dzkbw::group_string(&caps[i], 0).as_str());
        let raw = trim_parens_exec(&whole);
        let raw_s = string_of(&raw);
        if utf8_len(&raw) >= 3 && !crate::dzkbw::holds(seen, &raw_s) {
            let ghost sb = strings_view(seen@);
            let ghost ib = found_view(items@);
            match crate::verify::evaluate_simple_expression(raw_s.as_str()) {
                Ok(a) => {
                    let times = chars_of("×");
                    let divide = chars_of("÷");
                    let star = replace_char_exec(&raw, '*', &times);
                    let shown = replace_char_exec(&star, '/', &divide);
                    proof {
                        reveal_strlit("×");
                        reveal_strlit("÷");
                        assert(times@ =~= seq!['×']);
                        assert(divide@ =~= seq!['÷']);
                    }
                    items.push((string_of(&shown), a, title.clone()));
                    assert(found_view(items@) =~= ib.push((expr_display(raw@), a@, title@)));
                },
                Err(_) => {},
            }
            seen.push(raw_s);
            assert(strings_view(seen@) =~= sb.push(raw@));
        }
        i = i + 1;
    }
    assert(cv.take(caps.len() as int) =~= cv);
}

proof fn lemma_found_in_distinct(state: (Seq<Found>, Seq<Seq<char>>), caps: Seq<Seq<Option<Seq<char>>>>, title: Seq<char>)
    requires
        state.1.no_duplicates(),
        state.0.len() <= state.1.len(),
    ensures
        found_in(state, caps, title).1.no_duplicates(),
        found_in(state, caps, title).0.len() <= found_in(state, caps, title).1.len(),
    decreases caps.len(),
{
    if caps.len() > 0 {
        lemma_found_in_distinct(state, caps.drop_last(), title);
        let prev = found_in(state, caps.drop_last(), title);
        let raw = trim_parens(crate::dzkbw::group_text(caps.last(), 0));
        if !(crate::secret::utf8(raw).len() < 3 || prev.1.contains(raw)) {
            assert forall|a: int, b: int| 0 <= a < b < prev.1.push(raw).len() implies prev.1.push(raw)[a] != prev.1.push(raw)[b] by {
                if b == prev.1.len() {
                    assert(prev.1[a] == prev.1.push(raw)[a]);
                }
            }
        }
    }
}

/// The expressions met over the matching math pages are each tried once: the
/// texts met hold no repeat, and no more expressions are kept than texts met,
/// so at most `limit` (at least one) are picked.
pub proof fn lemma_found_texts_distinct(rs: Seq<AppSjResource>, edition: Seq<char>, grade: u8, semester: Seq<char>, exam_type: Seq<char>, unit_name: Seq<char>, limit: usize)
    ensures
        found_over(rs, edition, grade, semester, exam_type, unit_name).1.no_duplicates(),
        found_over(rs, edition, grade, semester, exam_type, unit_name).0.len() <= found_over(rs, edition, grade, semester, exam_type, unit_name).1.len(),
        ({
            let all = found_over(rs, edition, grade, semester, exam_type, unit_name).0;
            let n = if limit == 0 { 1 } else { limit as int };
            (if all.len() <= n { all } else { all.take(n) }).len() <= n
        }),
    decreases rs.len(),
{
    if rs.len() > 0 {
        lemma_found_texts_distinct(rs.drop_last(), edition, grade, semester, exam_type, unit_name, limit);
        let prev = found_over(rs.drop_last(), edition, grade, semester, exam_type, unit_name);
        let r = rs.last();
        if resource_matches_spec(r, "math"@, edition, grade, semester, exam_type, unit_name) {
            lemma_found_in_distinct(prev, regex_all(expr_pattern(), expr_normalized(r.content@)), r.title@);
        }
    }
}

/// A kept expression `f` stands for the text `raw`: it shows `raw` with `×`
/// and `÷`, and its answer is what `raw` evaluates to.
pub open spec fn shows_raw(f: Found, raw: Seq<char>) -> bool {
    f.0 == expr_display(raw) && crate::verify::evaluate_spec(raw) == Ok::<Seq<char>, Seq<char>>(f.1)
}

/// Kept expression `k` stands for one of the texts met.
pub open spec fn has_raw(found: Seq<Found>, seen: Seq<Seq<char>>, k: int) -> bool {
    exists|j: int| 0 <= j < seen.len() && shows_raw(found[k], #[trigger] seen[j])
}

/// Kept expressions `k1` and `k2` stand for texts met in the same order.
pub open spec fn raws_in_order(found: Seq<Found>, seen: Seq<Seq<char>>, k1: int, k2: int) -> bool {
    exists|j1: int, j2: int|
        0 <= j1 < j2 < seen.len() && shows_raw(found[k1], #[trigger] seen[j1]) && shows_raw(found[k2], #[trigger] seen[j2])
}

pub open spec fn found_raws_ok(found: Seq<Found>, seen: Seq<Seq<char>>) -> bool {
    &&& forall|k: int| 0 <= k < found.len() ==> #[trigger] has_raw(found, seen, k)
    &&& forall|k1: int, k2: int| 0 <= k1 < k2 < found.len() ==> #[trigger] raws_in_order(found, seen, k1, k2)
}

proof fn lemma_raws_seen_grows(found: Seq<Found>, seen: Seq<Seq<char>>, x: Seq<char>)
    requires
        found_raws_ok(found, seen),
    ensures
        found_raws_ok(found, seen.push(x)),
{
    let s2 = seen.push(x);
    assert forall|k: int| 0 <= k < found.len() implies #[trigger] has_raw(found, s2, k) by {
        assert(has_raw(found, seen, k));
        let j = choose|j: int| 0 <= j < seen.len() && shows_raw(found[k], #[trigger] seen[j]);
        assert(s2[j] == seen[j]);
    }
    assert forall|k1: int, k2: int| 0 <= k1 < k2 < found.len() implies #[trigger] raws_in_order(found, s2, k1, k2) by {
        assert(raws_in_order(found, seen, k1, k2));
        let (j1, j2) = choose|j1: int, j2: int|
            0 <= j1 < j2 < seen.len() && shows_raw(found[k1], #[trigger] seen[j1]) && shows_raw(found[k2], #[trigger] seen[j2]);
        assert(s2[j1] == seen[j1]);
        assert(s2[j2] == seen[j2]);
    }
}

proof fn lemma_raws_push(found: Seq<Found>, seen: Seq<Seq<char>>, f: Found, raw: Seq<char>)
    requires
        found_raws_ok(found, seen),
        shows_raw(f, raw),
    ensures
        found_raws_ok(found.push(f), seen.push(raw)),
{
    lemma_raws_seen_grows(found, seen, raw);
    let f2 = found.push(f);
    let s2 = seen.push(raw);
    let n = found.len() as int;
    let m = seen.len() as int;
    assert(s2[m] == raw);
    assert forall|k: int| 0 <= k < f2.len() implies #[trigger] has_raw(f2, s2, k) by {
        if k < n {
            assert(has_raw(found, s2, k));
            assert(f2[k] == found[k]);
        } else {
            assert(shows_raw(f2[k], s2[m]));
        }
    }
    assert forall|k1: int, k2: int| 0 <= k1 < k2 < f2.len() implies #[trigger] raws_in_order(f2, s2, k1, k2) by {
        assert(f2[k1] == found[k1]);
        if k2 < n {
            assert(raws_in_order(found, s2, k1, k2));
            assert(f2[k2] == found[k2]);
        } else {
            assert(has_raw(found, seen, k1));
            let j1 = choose|j: int| 0 <= j < seen.len() && shows_raw(found[k1], #[trigger] seen[j]);
            assert(s2[j1] == seen[j1]);
            assert(shows_raw(f2[k2], s2[m]));
        }
    }
}

proof fn lemma_found_in_raws(state: (Seq<Found>, Seq<Seq<char>>), caps: Seq<Seq<Option<Seq<char>>>>, title: Seq<char>)
    requires
        found_raws_ok(state.0, state.1),
    ensures
        found_raws_ok(found_in(state, caps, title).0, found_in(state, caps, title).1),
        found_in(state, caps, title).0.len() >= state.0.len(),
        forall|k: int| 0 <= k < state.0.len() ==> found_in(state, caps, title).0[k] == state.0[k],
        forall|k: int| state.0.len() <= k < found_in(state, caps, title).0.len() ==> (#[trigger] found_in(state, caps, title).0[k]).2 == title,
    decreases caps.len(),
{
    if caps.len() > 0 {
        lemma_found_in_raws(state, caps.drop_last(), title);
        let prev = found_in(state, caps.drop_last(), title);
        let raw = trim_parens(crate::dzkbw::group_text(caps.last(), 0));
        if !(crate::secret::utf8(raw).len() < 3 || prev.1.contains(raw)) {
            match crate::verify::evaluate_spec(raw) {
                Ok(a) => {
                    lemma_raws_push(prev.0, prev.1, (expr_display(raw), a, title), raw);
                },
                Err(_) => {
                    lemma_raws_seen_grows(prev.0, prev.1, raw);
                },
            }
        }
    }
}

/// `title` is the title of a matching math resource of `rs`.
pub open spec fn page_title_ok(title: Seq<char>, rs: Seq<AppSjResource>, edition: Seq<char>, grade: u8, semester: Seq<char>, exam_type: Seq<char>, unit_name: Seq<char>) -> bool {
    exists|t: int| 0 <= t < rs.len() && resource_matches_spec(#[trigger] rs[t], "math"@, edition, grade, semester, exam_type, unit_name) && title == rs[t].title@
}

/// Each expression kept over the pages stands for a text met on the page of
/// a matching math resource: it shows that text with `×` and `÷`, its answer
/// is what the text evaluates to, and its title is that page's; two kept
/// expressions stand for two different texts.
pub proof fn lemma_found_expressions(rs: Seq<AppSjResource>, edition: Seq<char>, grade: u8, semester: Seq<char>, exam_type: Seq<char>, unit_name: Seq<char>)
    ensures
        found_raws_ok(found_over(rs, edition, grade, semester, exam_type, unit_name).0, found_over(rs, edition, grade, semester, exam_type, unit_name).1),
        found_over(rs, edition, grade, semester, exam_type, unit_name).1.no_duplicates(),
        forall|k: int| 0 <= k < found_over(rs, edition, grade, semester, exam_type, unit_name).0.len() ==> page_title_ok(
            (#[trigger] found_over(rs, edition, grade, semester, exam_type, unit_name).0[k]).2, rs, edition, grade, semester, exam_type, unit_name),
    decreases rs.len(),
{
    lemma_found_texts_distinct(rs, edition, grade, semester, exam_type, unit_name, 1);
    if rs.len() > 0 {
        let init = rs.drop_last();
        lemma_found_expressions(init, edition, grade, semester, exam_type, unit_name);
        let prev = found_over(init, edition, grade, semester, exam_type, unit_name);
        let r = rs.last();
        let cur = found_over(rs, edition, grade, semester, exam_type, unit_name);
        let n = rs.len() - 1;
        if resource_matches_spec(r, "math"@, edition, grade, semester, exam_type, unit_name) {
            lemma_found_in_raws(prev, regex_all(expr_pattern(), expr_normalized(r.content@)), r.title@);
        }
        assert forall|k: int| 0 <= k < cur.0.len() implies page_title_ok(#[trigger] cur.0[k].2, rs, edition, grade, semester, exam_type, unit_name) by {
            if k < prev.0.len() {
                assert(page_title_ok(prev.0[k].2, init, edition, grade, semester, exam_type, unit_name));
                let t = choose|t: int| 0 <= t < init.len() && resource_matches_spec(#[trigger] init[t], "math"@, edition, grade, semester, exam_type, unit_name)
                    && prev.0[k].2 == init[t].title@;
                assert(rs[t] == init[t]);
            } else {
                assert(rs[n] == r);
                assert(cur.0[k].2 == r.title@);
            }
        }
    }
}

/// The checked expressions of the matching math pages (see `found_over`):
/// the first of them, at most `limit` (at least one is returned when one is
/// found, as the search stops after a push once the limit is reached).
pub fn pick_verified_math_expressions(
    resources: &Vec<AppSjResource>,
    edition: &str,
    grade: u8,
    semester: &str,
    exam_type: &str,
    unit_name: &str,
    limit: usize,
) -> (r: Vec<FoundText>)
    ensures
        ({
            let all = found_over(resources@, edition@, grade, semester@, exam_type@, unit_name@).0;
            let n = if limit == 0 { 1 } else { limit as int };
            found_view(r@) == if all.len() <= n { all } else { all.take(n) }
        }),
{
    let ghost rs = resources@;
    let mut items: Vec<FoundText> = Vec::new();
    let mut seen: Vec<String> = Vec::new();
    let mut i: usize = 0;
    assert(rs.take(0) =~= Seq::<AppSjResource>::empty());
    assert(found_view(items@) =~= Seq::<Found>::empty());
    assert(strings_view(seen@) =~= Seq::<Seq<char>>::empty());
    while i < resources.len()
        invariant
            i <= resources.len(),
            rs == resources@,
            (found_view(items@), strings_view(seen@)) == found_over(rs.take(i as int), edition@, grade, semester@, exam_type@, unit_name@),
        decreases resources.len() - i,
    {
        assert(rs.take(i + 1).drop_last() =~= rs.take(i as int));
        let res = &resources[i];
        if resource_matches(res, "math", edition, grade, semester, exam_type, unit_name) {
            let c = chars_of(res.content.as_str());
            let star = chars_of("*");
            let slash = chars_of("/");
            let plus = chars_of("+");
            let minus = chars_of("-");
            let open = chars_of("(");
            let close = chars_of(")");
            proof {
                reveal_strlit("*");
                reveal_strlit("/");
                reveal_strlit("+");
                reveal_strlit("-");
                reveal_strlit("(");
                reveal_strlit(")");
                assert(star@ =~= seq!['*']);
                assert(slash@ =~= seq!['/']);
                assert(plus@ =~= seq!['+']);
                assert(minus@ =~= seq!['-']);
                assert(open@ =~= seq!['(']);
                assert(close@ =~= seq![')']);
            }
            let a1 = replace_char_exec(&c, '×', &star);
            let a2 = replace_char_exec(&a1, '÷', &slash);
            let a3 = replace_char_exec(&a2, '＋', &plus);
            let a4 = replace_char_exec(&a3, '−', &minus);
            let a5 = replace_char_exec(&a4, '－', &minus);
            let a6 = replace_char_exec(&a5, '（', &open);
            let a7 = replace_char_exec(&a6, '）', &close);
            assert(a7@ =~= expr_normalized(res.content@));
            let text = string_of(&a7);
            let caps = crate::pattern::regex_captures_all("\\d[\\d\\.\\+\\-\\*/\\(\\)]{2,30}", text.as_str());
            found_in_exec(&mut items, &mut seen, &caps, &res.title);
        }
        i = i + 1;
    }
    assert(rs.take(resources.len() as int) =~= rs);
    let n: usize = if limit == 0 { 1 } else { limit };
    items.truncate(n);
    items
}

pub type LinkView = (Seq<char>, Seq<char>);

pub open spec fn links_view(v: Seq<(String, String)>) -> Seq<LinkView> {
    v.map_values(|p: (String, String)| (p.0@, p.1@))
}

/// The detail links kept after the links of one listing page: each address
/// not met before is marked as met, and kept when its title matches the
/// request.
pub open spec fn listing_step(state: (Seq<LinkView>, Seq<Seq<char>>), found: Seq<LinkView>, req: AppSjSyncRequest) -> (Seq<LinkView>, Seq<Seq<char>>)
    decreases found.len(),
{
    if found.len() == 0 {
        state
    } else {
        let prev = listing_step(state, found.drop_last(), req);
        let l = found.last();
        if prev.1.contains(l.0) {
            prev
        } else if title_matches_spec(l.1, req.subject@, req.exam_type@, req.unit_name@) {
            (prev.0.push(l), prev.1.push(l.0))
        } else {
            (prev.0, prev.1.push(l.0))
        }
    }
}

/// Adds the links of one listing page (see `listing_step`); tells whether
/// enough links are kept to stop reading listing pages.
pub fn add_listing_links(
    links: &mut Vec<(String, String)>,
    seen: &mut Vec<String>,
    found: Vec<(String, String)>,
    request: &AppSjSyncRequest,
    max_items: usize,
) -> (enough: bool)
    ensures
        (links_view(final(links)@), strings_view(final(seen)@)) == listing_step(
            (links_view(old(links)@), strings_view(old(seen)@)),
            links_view(found@),
            *request,
        ),
        enough == (final(links)@.len() >= max_items),
{
    let ghost fv = links_view(found@);
    let ghost st = (links_view(links@), strings_view(seen@));
    assert(fv.take(0) =~= Seq::<LinkView>::empty());
    for x in it: found
        invariant
            fv == links_view(it.seq()),
            (links_view(links@), strings_view(seen@)) == listing_step(st, fv.take(it.index() as int), *request),
    {
        let ghost k = it.index();
        proof {
            assert(fv.take(k + 1).drop_last() =~= fv.take(k as int));
            assert(fv.take(k + 1).last() == (x.0@, x.1@));
        }
        if !crate::dzkbw::holds(seen, &x.0) {
            let ghost ls = links_view(links@);
            let ghost ss = strings_view(seen@);
            seen.push(lit(x.0.as_str()));
            assert(strings_view(seen@) =~= ss.push(x.0@));
            if title_matches(x.1.as_str(), request) {
                let ghost xv = (x.0@, x.1@);
                links.push(x);
                assert(links_view(links@) =~= ls.push(xv));
            }
        }
    }
    proof {
        assert(fv.take(fv.len() as int) =~= fv);
    }
    links.len() >= max_items
}

/// The failure line of a detail page that could not be read or parsed.
pub fn detail_failure(title: &str, error: &str) -> (r: String)
    ensures
        r@ == title@ + ": "@ + error@,
{
    let mut v = chars_of(title);
    extend_chars(&mut v, ": ");
    extend_chars(&mut v, error);
    string_of(&v)
}

/// The text of a page of the paper site: the bytes read as UTF-8 when they
/// are valid UTF-8, else decoded as GBK.
pub fn paper_page_text(bytes: Vec<u8>) -> (r: String)
    ensures
        (exists|t: Seq<char>| crate::secret::utf8(t) == bytes@) ==> crate::secret::utf8(r@) == bytes@,
        !(exists|t: Seq<char>| crate::secret::utf8(t) == bytes@) ==> r@ == crate::dzkbw::decoded(crate::dzkbw::PageEncoding::Gbk, bytes@),
{
    let gbk = crate::dzkbw::decode_bytes(crate::dzkbw::PageEncoding::Gbk, &bytes);
    match crate::secret::string_from_utf8(bytes) {
        Some(s) => s,
        None => gbk,
    }
}

} // verus!
