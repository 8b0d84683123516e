//! The e-book pages of a resource site: reading its link, its catalog reply
//! and its page-picture reply, and choosing the pages of one unit.
use vstd::prelude::*;
use crate::text::strings_view;
use crate::expr::{all_digits, digits_val, int_to_seq, nat_to_seq, push_int_digits, push_nat_digits};
use crate::text::{
    chars_of, copy_range, extend_chars, first_index, find, str_eq, string_of, string_of_range, trim,
    trim_end_char, trim_end_char_bound, trim_start_char, trim_start_char_bound, trim_str,
};
use crate::verify::lit;

verus! {

/// The parts of an e-book link (`eBookAndTeacher.html?resId=&bookId=&firstNum=&contributeId=`).
#[derive(Debug, Clone)]
pub struct EbookLinkParts {
    pub base_url: String,
    pub res_id: String,
    pub book_id: String,
    pub contribute_id: String,
    pub first_num: String,
}

/// One entry of a book's catalog.
#[derive(Debug, Clone)]
pub struct EbookCatalogItem {
    pub book_id: String,
    pub cata_name: String,
    pub deep: String,
    pub parent_id: String,
}

/// A book's catalog.
#[derive(Debug, Clone)]
pub struct EbookCatalog {
    pub book_name: String,
    pub subject_name: String,
    pub subject_id: String,
    pub section_id: String,
    pub version_id: String,
    pub cover: String,
    pub items: Vec<EbookCatalogItem>,
}

/// The page pictures of one unit.
#[derive(Debug, Clone)]
pub struct EbookUnitPages {
    pub book_name: String,
    pub subject_name: String,
    pub unit_name: String,
    pub book_id: String,
    pub start_page: u32,
    pub end_page: u32,
    pub total_book_pages: u32,
    pub pages: Vec<EbookPage>,
}

/// One page picture.
#[derive(Debug, Clone)]
pub struct EbookPage {
    pub index: u32,
    pub url: String,
}

/// A JSON value where a string or an integer is expected: the string, the
/// integer (when it is one that JSON reads as `i64` or `u64`), or anything else.
#[derive(Debug, Clone)]
pub enum JsonScalar {
    Text(String),
    Int(i128),
    Other,
}

/// One raw entry of the catalog reply (`catalogList`).
#[derive(Debug, Clone)]
pub struct CatalogEntry {
    pub book_id: Option<String>,
    pub cata_name: Option<String>,
    pub deep: Option<JsonScalar>,
    pub parent_id: Option<String>,
}

/// The first `data` row of the catalog reply.
#[derive(Debug, Clone)]
pub struct CatalogRow {
    pub book_name: Option<String>,
    pub subject_name: Option<String>,
    pub subject_id: Option<String>,
    pub section_id: Option<String>,
    pub version_id: Option<String>,
    pub picture: Option<String>,
    pub catalog_list: Option<Vec<CatalogEntry>>,
}

/// The first `data` row of the page-picture reply.
#[derive(Debug, Clone)]
pub struct PictureRow {
    pub picture: Option<String>,
    pub index_num: Option<JsonScalar>,
    pub total_num: Option<JsonScalar>,
}

/// Where a unit's pages start: the first page, the pages of the book, the
/// first page's picture and the folder of the pictures.
#[derive(Debug, Clone)]
pub struct PageAnchor {
    pub index: u32,
    pub total: u32,
    pub picture: String,
    pub folder_rel: String,
}

pub open spec fn text_or_empty(o: Option<String>) -> Seq<char> {
    match o {
        Some(s) => s@,
        None => Seq::empty(),
    }
}

/// The site's address: the given one trimmed and without trailing `/`, or the
/// default site when that is empty.
pub open spec fn normalize_base_spec(base: Seq<char>) -> Seq<char> {
    let b = trim_end_char(trim(base), '/');
    if b.len() == 0 {
        "https://www.100875.com.cn"@
    } else {
        b
    }
}

pub fn normalize_base(base: &str) -> (r: String)
    ensures
        r@ == normalize_base_spec(base@),
{
    let t = chars_of(trim_str(base).as_str());
    let e = trim_end_char_bound(&t, 0, t.len(), '/');
    assert(t@.subrange(0, t.len() as int) =~= t@);
    if e == 0 {
        lit("https://www.100875.com.cn")
    } else {
        string_of_range(&t, 0, e)
    }
}

/// The address of an endpoint of the site.
pub fn endpoint_url(base: &str, path: &str) -> (r: String)
    ensures
        r@ == normalize_base_spec(base@) + path@,
{
    let b = normalize_base(base);
    let mut v = chars_of(b.as_str());
    extend_chars(&mut v, path);
    string_of(&v)
}

/// A reply is used only when its `status` is `success`; otherwise its
/// `message` (or a default) is the error.
pub fn check_reply(status: &Option<String>, message: &Option<String>) -> (r: Result<(), String>)
    ensures
        text_or_empty(*status) == "success"@ ==> r is Ok,
        text_or_empty(*status) != "success"@ ==> (r matches Err(m) && m@ == "接口返回失败: "@ + (match message {
            Some(s) => s@,
            None => "未知错误"@,
        })),
{
    let st = match status {
        Some(s) => lit(s.as_str()),
        None => String::new(),
    };
    if str_eq(st.as_str(), "success") {
        return Ok(());
    }
    let mut m = chars_of("接口返回失败: ");
    match message {
        Some(s) => extend_chars(&mut m, s.as_str()),
        None => extend_chars(&mut m, "未知错误"),
    }
    Err(string_of(&m))
}

/// The depth of a catalog entry as text: a string as it is, an integer that
/// JSON reads as `i64` in decimal, anything else empty.
pub open spec fn deep_text(d: Option<JsonScalar>) -> Seq<char> {
    match d {
        Some(JsonScalar::Text(s)) => s@,
        Some(JsonScalar::Int(n)) => if i64::MIN <= n <= i64::MAX {
            int_to_seq(n as int)
        } else {
            Seq::empty()
        },
        _ => Seq::empty(),
    }
}

pub open spec fn catalog_item_of(e: CatalogEntry, it: EbookCatalogItem) -> bool {
    &&& it.book_id@ == text_or_empty(e.book_id)
    &&& it.cata_name@ == text_or_empty(e.cata_name)
    &&& it.deep@ == deep_text(e.deep)
    &&& it.parent_id@ == text_or_empty(e.parent_id)
}

/// The entries that have a book id, in order.
pub open spec fn entries_with_book(es: Seq<CatalogEntry>) -> Seq<CatalogEntry>
    decreases es.len(),
{
    if es.len() == 0 {
        Seq::empty()
    } else {
        entries_with_book(es.drop_last()) + if text_or_empty(es.last().book_id).len() > 0 {
            seq![es.last()]
        } else {
            Seq::empty()
        }
    }
}

fn opt_text(o: &Option<String>) -> (r: String)
    ensures
        r@ == text_or_empty(*o),
{
    match o {
        Some(s) => lit(s.as_str()),
        None => String::new(),
    }
}

fn deep_of(d: &Option<JsonScalar>) -> (r: String)
    ensures
        r@ == deep_text(*d),
{
    match d {
        Some(JsonScalar::Text(s)) => lit(s.as_str()),
        Some(JsonScalar::Int(n)) => {
            if i64::MIN as i128 <= *n && *n <= i64::MAX as i128 {
                let mut v: Vec<char> = Vec::new();
                push_int_digits(&mut v, *n);
                assert(v@ =~= int_to_seq(*n as int));
                string_of(&v)
            } else {
                String::new()
            }
        },
        _ => String::new(),
    }
}

/// The catalog of a book read from the first row of the catalog reply.
pub fn fetch_catalog(data0: &Option<CatalogRow>) -> (r: Result<EbookCatalog, String>)
    ensures
        data0 is None ==> (r matches Err(m) && m@ == "目录 data 为空"@),
        data0 matches Some(row) ==> (r matches Ok(c) && {
            let es = entries_with_book(match row.catalog_list {
                Some(v) => v@,
                None => Seq::empty(),
            });
            &&& c.book_name@ == text_or_empty(row.book_name)
            &&& c.subject_name@ == text_or_empty(row.subject_name)
            &&& c.subject_id@ == text_or_empty(row.subject_id)
            &&& c.section_id@ == text_or_empty(row.section_id)
            &&& c.version_id@ == text_or_empty(row.version_id)
            &&& c.cover@ == text_or_empty(row.picture)
            &&& c.items@.len() == es.len()
            &&& forall|i: int| 0 <= i < es.len() ==> #[trigger] catalog_item_of(es[i], c.items@[i])
        }),
{
    let row = match data0 {
        Some(r) => r,
        None => return Err(lit("目录 data 为空")),
    };
    let empty: Vec<CatalogEntry> = Vec::new();
    let list = match &row.catalog_list {
        Some(v) => v,
        None => &empty,
    };
    let ghost ls = list@;
    let mut items: Vec<EbookCatalogItem> = Vec::new();
    let mut k: usize = 0;
    while k < list.len()
        invariant
            ls == list@,
            k <= list.len(),
            items@.len() == entries_with_book(ls.take(k as int)).len(),
            forall|i: int|
                0 <= i < items@.len() ==> #[trigger] catalog_item_of(
                    entries_with_book(ls.take(k as int))[i],
                    items@[i],
                ),
        decreases list.len() - k,
    {
        proof {
            assert(ls.take(k + 1).drop_last() =~= ls.take(k as int));
        }
        let e = &list[k];
        let book_id = opt_text(&e.book_id);
        if book_id.unicode_len() > 0 {
            let it = EbookCatalogItem {
                book_id,
                cata_name: opt_text(&e.cata_name),
                deep: deep_of(&e.deep),
                parent_id: opt_text(&e.parent_id),
            };
            items.push(it);
        }
        k = k + 1;
    }
    proof {
        assert(ls.take(ls.len() as int) =~= ls);
    }
    Ok(EbookCatalog {
        book_name: opt_text(&row.book_name),
        subject_name: opt_text(&row.subject_name),
        subject_id: opt_text(&row.subject_id),
        section_id: opt_text(&row.section_id),
        version_id: opt_text(&row.version_id),
        cover: opt_text(&row.picture),
        items,
    })
}

/// The value of a page number written as text (`u32`'s `FromStr` on the
/// trimmed text: an optional `+`, then decimal digits, within `u32`).
pub open spec fn page_num_spec(s: Seq<char>) -> Option<u32> {
    let t = trim(s);
    let d = if t.len() > 0 && t[0] == '+' { t.drop_first() } else { t };
    if d.len() > 0 && all_digits(d) && digits_val(d) <= u32::MAX {
        Some(digits_val(d) as u32)
    } else {
        None
    }
}

proof fn lemma_digits_step(t: Seq<char>, k: int)
    requires
        0 <= k < t.len(),
        all_digits(t.take(k + 1)),
    ensures
        digits_val(t.take(k + 1)) == digits_val(t.take(k)) * 10 + crate::text::digit_value(t[k]),
        all_digits(t.take(k)),
{
    assert(t.take(k + 1).drop_last() =~= t.take(k));
    reveal_with_fuel(digits_val, 2);
}

pub fn parse_page_num(s: &str) -> (r: Option<u32>)
    ensures
        r == page_num_spec(s@),
{
    let t = chars_of(trim_str(s).as_str());
    let start: usize = if t.len() > 0 && t[0] == '+' { 1 } else { 0 };
    let ghost d = if t@.len() > 0 && t@[0] == '+' { t@.drop_first() } else { t@ };
    assert(d =~= t@.subrange(start as int, t@.len() as int));
    if start >= t.len() {
        return None;
    }
    let mut v: u64 = 0;
    let mut k: usize = start;
    while k < t.len()
        invariant
            t@ == trim(s@),
            d == (if t@.len() > 0 && t@[0] == '+' { t@.drop_first() } else { t@ }),
            start <= k <= t.len(),
            d == t@.subrange(start as int, t@.len() as int),
            all_digits(d.take(k - start)),
            v == digits_val(d.take(k - start)),
            v <= u32::MAX,
        decreases t.len() - k,
    {
        let c = t[k];
        if !('0' <= c && c <= '9') {
            proof {
                assert(d[k - start] == c);
                assert(!crate::text::is_digit(d[k - start]));
                assert(!all_digits(d));
            }
            return None;
        }
        proof {
            assert(d.take(k - start + 1) =~= d.take(k - start).push(c));
            lemma_digits_push(d.take(k - start), c);
        }
        v = v * 10 + (c as u64 - '0' as u64);
        k = k + 1;
        if v > u32::MAX as u64 {
            proof {
                assert(all_digits(d.take(k - start)));
                assert(digits_val(d.take(k - start)) > u32::MAX);
                lemma_digits_prefix_bound(d, k - start);
                assert(!(all_digits(d) && digits_val(d) <= u32::MAX));
            }
            return None;
        }
    }
    proof {
        assert(d.take(d.len() as int) =~= d);
    }
    Some(v as u32)
}

proof fn lemma_digits_push(t: Seq<char>, c: char)
    requires
        all_digits(t),
        '0' <= c <= '9',
    ensures
        all_digits(t.push(c)),
        digits_val(t.push(c)) == digits_val(t) * 10 + crate::text::digit_value(c),
{
    assert(t.push(c).drop_last() =~= t);
}

proof fn lemma_digits_prefix_bound(d: Seq<char>, k: int)
    requires
        0 <= k <= d.len(),
        all_digits(d.take(k)),
        digits_val(d.take(k)) > u32::MAX,
    ensures
        !(all_digits(d) && digits_val(d) <= u32::MAX),
    decreases d.len() - k,
{
    if k < d.len() && all_digits(d) {
        assert(d.take(k + 1) =~= d.take(k).push(d[k]));
        lemma_digits_push(d.take(k), d[k]);
        lemma_digits_prefix_bound(d, k + 1);
    } else if k == d.len() {
        assert(d.take(k) =~= d);
    }
}


/// The part of `s` before its first `c`.
pub open spec fn before_first(s: Seq<char>, c: char) -> Seq<char> {
    match first_index(s, seq![c]) {
        Some(i) => s.subrange(0, i),
        None => s,
    }
}

/// The path of a picture address after its host (`https://cdn/x/y/016.jpg` gives `x/y/016.jpg`).
pub open spec fn after_host(s: Seq<char>) -> Seq<char> {
    match first_index(s, "://"@) {
        Some(i) => {
            let rest = s.subrange(i + 3, s.len() as int);
            match first_index(rest, seq!['/']) {
                Some(j) => rest.subrange(j + 1, rest.len() as int),
                None => Seq::empty(),
            }
        },
        None => trim_start_char(s, '/'),
    }
}

/// The folder of the page pictures: the picture's path without its query and
/// without its last seven characters (`NNN.jpg`).
pub open spec fn folder_spec(picture: Seq<char>) -> Result<Seq<char>, Seq<char>> {
    let a = after_host(before_first(picture, '?'));
    if a.len() >= 7 {
        Ok(a.subrange(0, a.len() - 7))
    } else {
        Err("无法从图片 URL 解析目录: "@ + picture)
    }
}

pub(crate) fn before_first_of(v: &Vec<char>, c: char) -> (r: Vec<char>)
    ensures
        r@ == before_first(v@, c),
{
    let needle = vec![c];
    assert(needle@ =~= seq![c]);
    match find(v, &needle) {
        Some(i) => copy_range(v, 0, i),
        None => {
            assert(v@.subrange(0, v.len() as int) =~= v@);
            copy_range(v, 0, v.len())
        },
    }
}

fn after_host_of(s: &Vec<char>) -> (r: Vec<char>)
    ensures
        r@ == after_host(s@),
{
    let sep = chars_of("://");
    let n = s.len();
    let f = find(s, &sep);
    match f {
        Some(i) => {
            proof {
                reveal_strlit("://");
                assert(sep@.len() == 3);
                assert(crate::text::occurs_at(s@, sep@, i as int));
                assert(i + 3 <= s@.len());
            }
            let rest = copy_range(s, i + 3, n);
            let slash = vec!['/'];
            assert(slash@ =~= seq!['/']);
            match find(&rest, &slash) {
                Some(j) => copy_range(&rest, j + 1, rest.len()),
                None => Vec::new(),
            }
        },
        None => {
            let a = trim_start_char_bound(s, 0, s.len(), '/');
            assert(s@.subrange(0, s.len() as int) =~= s@);
            copy_range(s, a, s.len())
        },
    }
}

/// The folder of the page pictures of `picture`.
pub fn folder_from_picture_url(picture: &str) -> (r: Result<String, String>)
    ensures
        match folder_spec(picture@) {
            Ok(f) => r matches Ok(s) && s@ == f,
            Err(m) => r matches Err(e) && e@ == m,
        },
{
    let p = chars_of(picture);
    let no_q = before_first_of(&p, '?');
    let a = after_host_of(&no_q);
    if a.len() >= 7 {
        Ok(string_of_range(&a, 0, a.len() - 7))
    } else {
        let mut m = chars_of("无法从图片 URL 解析目录: ");
        extend_chars(&mut m, picture);
        Err(string_of(&m))
    }
}

/// `k` zeros.
pub open spec fn zeros(k: int) -> Seq<char> {
    Seq::new(if k < 0 { 0 } else { k as nat }, |i: int| '0')
}

/// The file name of page `n`: its number on three digits at least, and `.jpg`.
pub open spec fn page_file_spec(n: u32) -> Seq<char> {
    let d = nat_to_seq(n as nat);
    zeros(3 - d.len()) + d + ".jpg"@
}

pub fn page_file_name(n: u32) -> (r: String)
    ensures
        r@ == page_file_spec(n),
{
    let mut d: Vec<char> = Vec::new();
    push_nat_digits(&mut d, n as u128);
    assert(d@ =~= nat_to_seq(n as nat));
    let mut v: Vec<char> = Vec::new();
    let mut k: usize = d.len();
    while k < 3
        invariant
            d.len() <= k <= 3 || (k == d.len() && k >= 3),
            v@ == zeros(k - d.len()),
        decreases 3 - k,
    {
        v.push('0');
        k = k + 1;
        assert(v@ =~= zeros(k - d.len()));
    }
    assert(v@ =~= zeros(3 - d.len()));
    crate::text::extend_vec(&mut v, &d);
    extend_chars(&mut v, ".jpg");
    string_of(&v)
}

/// A page number given as text or as a JSON integer: text is read as `u32`;
/// a non-negative integer is cut to its low 32 bits.
pub open spec fn scalar_page(x: Option<JsonScalar>) -> Option<u32> {
    match x {
        Some(JsonScalar::Text(s)) => page_num_spec(s@),
        Some(JsonScalar::Int(n)) => if 0 <= n <= u64::MAX {
            Some((n % 0x1_0000_0000) as u32)
        } else {
            None
        },
        _ => None,
    }
}

fn scalar_page_of(x: &Option<JsonScalar>) -> (r: Option<u32>)
    ensures
        r == scalar_page(*x),
{
    match x {
        Some(JsonScalar::Text(s)) => parse_page_num(s.as_str()),
        Some(JsonScalar::Int(n)) => {
            if 0 <= *n && *n <= u64::MAX as i128 {
                Some((*n % 0x1_0000_0000) as u32)
            } else {
                None
            }
        },
        _ => None,
    }
}

/// Where a unit's pages start, read from the first row of the page-picture reply.
pub open spec fn anchor_spec(row: Option<PictureRow>) -> Result<(u32, u32, Seq<char>, Seq<char>), Seq<char>> {
    match row {
        None => Err("bookPictureList data 为空"@),
        Some(r) => {
            let pic = text_or_empty(r.picture);
            if pic.len() == 0 || pic == "wu"@ {
                Err("该单元暂无页图资源"@)
            } else {
                match scalar_page(r.index_num) {
                    None => Err("无法解析 indexNum"@),
                    Some(index) => {
                        let total = match scalar_page(r.total_num) {
                            Some(t) => t,
                            None => index,
                        };
                        match folder_spec(pic) {
                            Ok(f) => Ok((index, total, pic, f)),
                            Err(m) => Err(m),
                        }
                    },
                }
            }
        },
    }
}

pub fn page_anchor(row: &Option<PictureRow>) -> (r: Result<PageAnchor, String>)
    ensures
        match anchor_spec(*row) {
            Ok(a) => r matches Ok(p) && p.index == a.0 && p.total == a.1 && p.picture@ == a.2
                && p.folder_rel@ == a.3,
            Err(m) => r matches Err(e) && e@ == m,
        },
{
    let r = match row {
        Some(r) => r,
        None => return Err(lit("bookPictureList data 为空")),
    };
    let picture = opt_text(&r.picture);
    if picture.unicode_len() == 0 || str_eq(picture.as_str(), "wu") {
        return Err(lit("该单元暂无页图资源"));
    }
    let index = match scalar_page_of(&r.index_num) {
        Some(i) => i,
        None => return Err(lit("无法解析 indexNum")),
    };
    let total = match scalar_page_of(&r.total_num) {
        Some(t) => t,
        None => index,
    };
    match folder_from_picture_url(picture.as_str()) {
        Ok(folder_rel) => Ok(PageAnchor { index, total, picture, folder_rel }),
        Err(m) => Err(m),
    }
}

/// The checks made before a unit's pages are fetched.
pub fn check_unit_request(book_id: &str, contribute_id: &str) -> (r: Result<(), String>)
    ensures
        book_id@.len() == 0 ==> (r matches Err(m) && m@ == "bookId 为空"@),
        book_id@.len() > 0 && contribute_id@.len() == 0 ==> (r matches Err(m) && m@
            == "contributeId 为空（链接里 contributeId 参数）"@),
        book_id@.len() > 0 && contribute_id@.len() > 0 ==> r is Ok,
{
    if book_id.unicode_len() == 0 {
        return Err(lit("bookId 为空"));
    }
    if contribute_id.unicode_len() == 0 {
        return Err(lit("contributeId 为空（链接里 contributeId 参数）"));
    }
    Ok(())
}

/// The number of pages asked for, kept within 1..=80.
pub fn clamp_max_pages(m: u32) -> (r: u32)
    ensures
        r == (if m < 1 { 1 } else if m > 80 { 80 } else { m }),
{
    if m < 1 {
        1
    } else if m > 80 {
        80
    } else {
        m
    }
}

/// Whether a catalog entry is a unit of the main catalog (depth 5, or no depth).
pub open spec fn is_main_unit(it: EbookCatalogItem) -> bool {
    it.deep@ == "5"@ || it.deep@.len() == 0
}

/// The positions of the main catalog's units; all entries when there are none.
pub open spec fn unit_positions(items: Seq<EbookCatalogItem>) -> Seq<int> {
    let m = main_positions(items, items.len() as int);
    if m.len() > 0 {
        m
    } else {
        Seq::new(items.len(), |i: int| i)
    }
}

pub open spec fn main_positions(items: Seq<EbookCatalogItem>, n: int) -> Seq<int>
    decreases n,
{
    if n <= 0 {
        Seq::empty()
    } else {
        main_positions(items, n - 1) + if is_main_unit(items[n - 1]) {
            seq![n - 1]
        } else {
            Seq::empty()
        }
    }
}

fn positions_of(items: &Vec<EbookCatalogItem>) -> (r: Vec<usize>)
    ensures
        r@.map_values(|x: usize| x as int) == unit_positions(items@),
{
    let mut m: Vec<usize> = Vec::new();
    let mut k: usize = 0;
    while k < items.len()
        invariant
            k <= items.len(),
            m@.map_values(|x: usize| x as int) == main_positions(items@, k as int),
        decreases items.len() - k,
    {
        let d = items[k].deep.as_str();
        if str_eq(d, "5") || d.unicode_len() == 0 {
            m.push(k);
        }
        k = k + 1;
        assert(m@.map_values(|x: usize| x as int) =~= main_positions(items@, k as int));
    }
    if m.len() > 0 {
        return m;
    }
    let mut all: Vec<usize> = Vec::new();
    let mut k: usize = 0;
    while k < items.len()
        invariant
            k <= items.len(),
            all@.len() == k,
            forall|j: int| 0 <= j < k ==> all@[j] as int == j,
        decreases items.len() - k,
    {
        all.push(k);
        k = k + 1;
    }
    assert(all@.map_values(|x: usize| x as int) =~= unit_positions(items@));
    all
}

/// The unit with book id `book_id` among the units, and the unit after it.
pub open spec fn unit_choice_ok(
    r: Result<(usize, Option<usize>), String>,
    items: Seq<EbookCatalogItem>,
    book_id: Seq<char>,
) -> bool {
    let ps = unit_positions(items);
    match r {
        Ok((i, next)) => exists|j: int|
            0 <= j < ps.len() && ps[j] == i && items[ps[j]].book_id@ == book_id && (forall|k: int|
                0 <= k < j ==> items[ps[k]].book_id@ != book_id) && next == (if j + 1 < ps.len() {
                Some(ps[j + 1] as usize)
            } else {
                None
            }),
        Err(m) => m@ == "目录中未找到该 bookId，请确认链接与 resId 是否同一本书"@ && forall|k: int|
            0 <= k < ps.len() ==> items[ps[k]].book_id@ != book_id,
    }
}

/// Finds the unit of `book_id` in the catalog: its position, and the position
/// of the next unit (whose first page ends this one).
pub fn find_unit_entry(items: &Vec<EbookCatalogItem>, book_id: &str) -> (r: Result<(usize, Option<usize>), String>)
    ensures
        unit_choice_ok(r, items@, book_id@),
{
    let ps = positions_of(items);
    let ghost pv = ps@.map_values(|x: usize| x as int);
    assert(forall|j: int| 0 <= j < ps@.len() ==> pv[j] == ps@[j] as int);
    assert(forall|j: int| 0 <= j < pv.len() ==> 0 <= #[trigger] pv[j] < items@.len()) by {
        assert forall|j: int| 0 <= j < pv.len() implies 0 <= #[trigger] pv[j] < items@.len() by {
            lemma_positions_bound(items@, j);
        }
    }
    let mut j: usize = 0;
    while j < ps.len()
        invariant
            pv == ps@.map_values(|x: usize| x as int),
            pv == unit_positions(items@),
            forall|q: int| 0 <= q < pv.len() ==> 0 <= #[trigger] pv[q] < items@.len(),
            j <= ps.len(),
            forall|k: int| 0 <= k < j ==> items@[pv[k]].book_id@ != book_id@,
        decreases ps.len() - j,
    {
        assert(pv[j as int] == ps@[j as int] as int);
        if str_eq(items[ps[j]].book_id.as_str(), book_id) {
            let next = if j + 1 < ps.len() { Some(ps[j + 1]) } else { None };
            proof {
                if j + 1 < ps.len() {
                    assert(pv[j + 1] == ps@[j + 1] as int);
                }
            }
            return Ok((ps[j], next));
        }
        j = j + 1;
    }
    Err(lit("目录中未找到该 bookId，请确认链接与 resId 是否同一本书"))
}

proof fn lemma_main_bound(items: Seq<EbookCatalogItem>, n: int, j: int)
    requires
        0 <= n <= items.len(),
        0 <= j < main_positions(items, n).len(),
    ensures
        0 <= main_positions(items, n)[j] < n,
    decreases n,
{
    if n > 0 {
        if j < main_positions(items, n - 1).len() {
            lemma_main_bound(items, n - 1, j);
        }
    }
}

proof fn lemma_positions_bound(items: Seq<EbookCatalogItem>, j: int)
    requires
        0 <= j < unit_positions(items).len(),
    ensures
        0 <= unit_positions(items)[j] < items.len(),
{
    if main_positions(items, items.len() as int).len() > 0 {
        lemma_main_bound(items, items.len() as int, j);
    }
}

/// The last page of a unit: the page before the next unit's first page (when
/// that is known and comes later), else the book's last page; at least the
/// first page, at most `max_pages` pages, never past the book's last page.
pub open spec fn page_end_spec(index: u32, total: u32, next: Option<u32>, max_pages: u32) -> int {
    let end_excl: int = match next {
        Some(n) if n > index => n as int,
        _ => if total + 1 > index + 1 { total + 1 } else { index + 1 },
    };
    let e1: int = if end_excl - 1 < index { index as int } else { end_excl - 1 };
    let e2: int = if e1 + 1 - index > max_pages { index + max_pages - 1 } else { e1 };
    if e2 > total { total as int } else { e2 }
}

pub fn page_end(index: u32, total: u32, next: Option<u32>, max_pages: u32) -> (r: u32)
    requires
        1 <= max_pages,
    ensures
        r == page_end_spec(index, total, next, max_pages),
{
    let end_excl: u64 = match next {
        Some(n) if n > index => n as u64,
        _ => if total as u64 + 1 > index as u64 + 1 { total as u64 + 1 } else { index as u64 + 1 },
    };
    let e1: u64 = if end_excl - 1 < index as u64 { index as u64 } else { end_excl - 1 };
    let e2: u64 = if e1 + 1 - index as u64 > max_pages as u64 { index as u64 + max_pages as u64 - 1 } else { e1 };
    if e2 > total as u64 {
        total
    } else {
        e2 as u32
    }
}


/// What parsing an address gives: its scheme, its host if it has one, and its
/// query pairs decoded, or the parser's error message.
pub uninterp spec fn url_parts_of(url: Seq<char>) -> Result<(Seq<char>, Option<Seq<char>>, Seq<(Seq<char>, Seq<char>)>), Seq<char>>;

pub type UrlParts = Result<(String, Option<String>, Vec<(String, String)>), String>;

pub open spec fn pairs_view(q: Seq<(String, String)>) -> Seq<(Seq<char>, Seq<char>)> {
    q.map_values(|p: (String, String)| (p.0@, p.1@))
}

pub open spec fn parts_view(r: UrlParts) -> Result<(Seq<char>, Option<Seq<char>>, Seq<(Seq<char>, Seq<char>)>), Seq<char>> {
    match r {
        Ok((s, h, q)) => Ok((
            s@,
            match h {
                Some(x) => Some(x@),
                None => None,
            },
            pairs_view(q@),
        )),
        Err(e) => Err(e@),
    }
}

/// `url::Url::parse` (as `reqwest::Url`), handing back the scheme, the host and
/// the decoded query pairs, or the text of the parse error. What they are for a
/// given address is named, not stated: it depends on the address alone.
#[verifier::external_body]
fn url_parts(url: &str) -> (r: UrlParts)
    ensures
        parts_view(r) == url_parts_of(url@),
{
    match reqwest::Url::parse(url) {
        Ok(p) => Ok((
            p.scheme().to_string(),
            p.host_str().map(|h| h.to_string()),
            p.query_pairs().map(|(k, v)| (k.into_owned(), v.into_owned())).collect(),
        )),
        Err(e) => Err(e.to_string()),
    }
}

/// The value of the last query pair named `key`, empty when there is none.
pub open spec fn query_value(q: Seq<(Seq<char>, Seq<char>)>, key: Seq<char>) -> Seq<char>
    decreases q.len(),
{
    if q.len() == 0 {
        Seq::empty()
    } else if q.last().0 == key {
        q.last().1
    } else {
        query_value(q.drop_last(), key)
    }
}

/// The link parts read from a parsed address.
pub open spec fn link_parts_spec(
    p: Result<(Seq<char>, Option<Seq<char>>, Seq<(Seq<char>, Seq<char>)>), Seq<char>>,
) -> Result<(Seq<char>, Seq<char>, Seq<char>, Seq<char>, Seq<char>), Seq<char>> {
    match p {
        Err(e) => Err("链接无法解析: "@ + e),
        Ok((scheme, host, q)) => {
            let base = scheme + "://"@ + match host {
                Some(h) => h,
                None => "www.100875.com.cn"@,
            };
            let res_id = query_value(q, "resId"@);
            if res_id.len() == 0 {
                Err("链接中缺少 resId"@)
            } else {
                Ok((
                    base,
                    res_id,
                    query_value(q, "bookId"@),
                    query_value(q, "contributeId"@),
                    query_value(q, "firstNum"@),
                ))
            }
        },
    }
}

pub open spec fn link_view(l: EbookLinkParts) -> (Seq<char>, Seq<char>, Seq<char>, Seq<char>, Seq<char>) {
    (l.base_url@, l.res_id@, l.book_id@, l.contribute_id@, l.first_num@)
}

fn query_value_of(q: &Vec<(String, String)>, key: &str) -> (r: String)
    ensures
        r@ == query_value(pairs_view(q@), key@),
{
    let mut k: usize = q.len();
    let ghost pv = pairs_view(q@);
    assert(pv.take(pv.len() as int) =~= pv);
    while k > 0
        invariant
            k <= q.len(),
            pv == pairs_view(q@),
            query_value(pv, key@) == query_value(pv.take(k as int), key@),
        decreases k,
    {
        proof {
            assert(pv.take(k as int).drop_last() =~= pv.take(k - 1));
        }
        if str_eq(q[k - 1].0.as_str(), key) {
            return lit(q[k - 1].1.as_str());
        }
        k = k - 1;
    }
    String::new()
}

/// The parts of an e-book link, from the parsed address.
pub fn link_parts_from(parsed: UrlParts) -> (r: Result<EbookLinkParts, String>)
    ensures
        match link_parts_spec(parts_view(parsed)) {
            Ok(v) => r matches Ok(l) && link_view(l) == v,
            Err(m) => r matches Err(e) && e@ == m,
        },
{
    match parsed {
        Err(e) => {
            let mut m = chars_of("链接无法解析: ");
            extend_chars(&mut m, e.as_str());
            Err(string_of(&m))
        },
        Ok((scheme, host, q)) => {
            let mut base = chars_of(scheme.as_str());
            extend_chars(&mut base, "://");
            match &host {
                Some(h) => extend_chars(&mut base, h.as_str()),
                None => extend_chars(&mut base, "www.100875.com.cn"),
            }
            let res_id = query_value_of(&q, "resId");
            if res_id.unicode_len() == 0 {
                return Err(lit("链接中缺少 resId"));
            }
            Ok(EbookLinkParts {
                base_url: string_of(&base),
                res_id,
                book_id: query_value_of(&q, "bookId"),
                contribute_id: query_value_of(&q, "contributeId"),
                first_num: query_value_of(&q, "firstNum"),
            })
        },
    }
}

/// Reads an e-book link: refused when blank; otherwise the parts of the
/// trimmed address as `link_parts_from` reads them.
pub fn parse_ebook_url(url: &str) -> (r: Result<EbookLinkParts, String>)
    ensures
        trim(url@).len() == 0 ==> (r matches Err(m) && m@ == "链接为空"@),
        trim(url@).len() > 0 ==> match link_parts_spec(url_parts_of(trim(url@))) {
            Ok(v) => r matches Ok(l) && link_view(l) == v,
            Err(m) => r matches Err(e) && e@ == m,
        },
{
    let t = trim_str(url);
    if t.unicode_len() == 0 {
        return Err(lit("链接为空"));
    }
    let parsed = url_parts(t.as_str());
    link_parts_from(parsed)
}

/// The address handed to the signing service for page `page` of the pictures
/// in `folder_rel`.
pub fn page_input_url(folder_rel: &str, page: u32) -> (r: String)
    ensures
        r@ == folder_rel@ + page_file_spec(page),
{
    let mut v = chars_of(folder_rel);
    let f = page_file_name(page);
    extend_chars(&mut v, f.as_str());
    string_of(&v)
}

/// The signed address in the signing service's reply (`data`, when it is a
/// string), or the error when there is none.
pub fn signed_url(data: Option<String>) -> (r: Result<String, String>)
    ensures
        data matches Some(u) ==> (r matches Ok(x) && x@ == u@),
        data is None ==> (r matches Err(m) && m@ == "generateUrl 未返回 URL"@),
{
    match data {
        Some(u) => Ok(u),
        None => Err(lit("generateUrl 未返回 URL")),
    }
}

/// The pages of a unit, numbered from `start.index` to `end`: the first is
/// the anchor's own picture, the others have the signed addresses, in order.
pub open spec fn unit_pages_ok(r: EbookUnitPages, book_name: Seq<char>, subject_name: Seq<char>, unit_name: Seq<char>, book_id: Seq<char>, start: PageAnchor, end: u32, later: Seq<Seq<char>>) -> bool {
    &&& r.book_name@ == book_name
    &&& r.subject_name@ == subject_name
    &&& r.unit_name@ == unit_name
    &&& r.book_id@ == book_id
    &&& r.start_page == start.index
    &&& r.end_page == end
    &&& r.total_book_pages == start.total
    &&& r.pages@.len() == if start.index <= end { end - start.index + 1 } else { 0 }
    &&& forall|i: int| 0 <= i < r.pages@.len() ==> (#[trigger] r.pages@[i]).index == start.index + i
        && r.pages@[i].url@ == if i == 0 { start.picture@ } else { later[i - 1] }
}

/// Puts together a unit's pages: `later` holds the signed addresses of the
/// pages after the first, in order (no page when `end` comes before the
/// first page).
pub fn unit_pages(
    book_name: String,
    subject_name: String,
    unit_name: String,
    book_id: &str,
    start: PageAnchor,
    end: u32,
    later: Vec<String>,
) -> (r: EbookUnitPages)
    requires
        later.len() == if start.index <= end { end - start.index } else { 0 },
    ensures
        unit_pages_ok(r, book_name@, subject_name@, unit_name@, book_id@, start, end, strings_view(later@)),
{
    let ghost lv = strings_view(later@);
    let mut pages: Vec<EbookPage> = Vec::new();
    if start.index > end {
        return EbookUnitPages {
            book_name,
            subject_name,
            unit_name,
            book_id: lit(book_id),
            start_page: start.index,
            end_page: end,
            total_book_pages: start.total,
            pages,
        };
    }
    pages.push(EbookPage { index: start.index, url: lit(start.picture.as_str()) });
    let mut i: usize = 0;
    while i < later.len()
        invariant
            i <= later.len(),
            later.len() == end - start.index,
            start.index <= end,
            lv == strings_view(later@),
            pages@.len() == i + 1,
            forall|j: int| 0 <= j < pages@.len() ==> (#[trigger] pages@[j]).index == start.index + j
                && pages@[j].url@ == if j == 0 { start.picture@ } else { lv[j - 1] },
        decreases later.len() - i,
    {
        let ix: u32 = start.index + (i as u32) + 1;
        pages.push(EbookPage { index: ix, url: lit(later[i].as_str()) });
        i = i + 1;
    }
    EbookUnitPages {
        book_name,
        subject_name,
        unit_name,
        book_id: lit(book_id),
        start_page: start.index,
        end_page: end,
        total_book_pages: start.total,
        pages,
    }
}

} // verus!
