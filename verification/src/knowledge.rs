//! Knowledge packs (the units, lessons and points of one textbook volume) and
//! the catalog of packs shown to the user.
use vstd::prelude::*;
use crate::expr::{nat_to_seq, push_nat_digits};
use crate::strset::{lemma_lt_irreflexive, lemma_lt_total, lemma_lt_transitive, seq_lt, str_less};
use crate::text::{chars_of, extend_chars, replace_char, replace_char_exec, str_eq, string_of, strings_view};
use crate::verify::lit;

verus! {

/// One unit of a textbook: its lessons and knowledge points.
#[derive(Debug, Clone)]
pub struct UnitInfo {
    pub id: String,
    pub name: String,
    pub lessons: Vec<String>,
    pub points: Vec<String>,
}

/// Where a pack's content was aligned from.
#[derive(Debug, Clone)]
pub struct SourceInfo {
    pub platform: String,
    pub platform_url: String,
    pub classroom_url: String,
    pub material_url: String,
    pub elec_edu_url: String,
    pub catalog_site: String,
    pub catalog_ref: String,
    pub note: String,
    pub edition_label: String,
    pub subject_label: String,
    pub smartedu_path_hint: String,
    pub entry_count: usize,
    pub unit_count: usize,
}

/// The knowledge of one textbook volume (subject, edition, grade, semester).
#[derive(Debug, Clone)]
pub struct KnowledgePack {
    pub subject: String,
    pub edition: String,
    pub grade: u8,
    pub semester: String,
    pub title: String,
    pub source: SourceInfo,
    pub units: Vec<UnitInfo>,
    pub exam_hints: Vec<String>,
}

/// A pack as listed in the catalog.
#[derive(Debug, Clone)]
pub struct CatalogItem {
    pub subject: String,
    pub subject_label: String,
    pub edition: String,
    pub edition_label: String,
    pub grade: u8,
    pub semester: String,
    pub semester_label: String,
    pub title: String,
    pub path: String,
    pub units: Vec<UnitInfo>,
    pub source: SourceInfo,
    /// bundled | user
    pub origin: String,
}

/// The Chinese name of a subject code; an unknown code is shown as it is.
pub open spec fn subject_label_spec(s: Seq<char>) -> Seq<char> {
    if s == "math"@ {
        "数学"@
    } else if s == "chinese"@ {
        "语文"@
    } else if s == "english"@ {
        "英语"@
    } else {
        s
    }
}

/// The Chinese name of a textbook edition code; an unknown code is shown as it is.
pub open spec fn edition_label_spec(s: Seq<char>) -> Seq<char> {
    if s == "beishida"@ {
        "北师大版"@
    } else if s == "renjiao"@ {
        "人教版"@
    } else if s == "sujiao"@ {
        "苏教版"@
    } else {
        s
    }
}

/// The volume name of a semester code: `shang` is the first volume, anything
/// else the second.
pub open spec fn semester_label_spec(s: Seq<char>) -> Seq<char> {
    if s == "shang"@ {
        "上册"@
    } else {
        "下册"@
    }
}

pub fn subject_label(s: &str) -> (r: String)
    ensures
        r@ == subject_label_spec(s@),
{
    if str_eq(s, "math") {
        lit("数学")
    } else if str_eq(s, "chinese") {
        lit("语文")
    } else if str_eq(s, "english") {
        lit("英语")
    } else {
        lit(s)
    }
}

pub fn edition_label(s: &str) -> (r: String)
    ensures
        r@ == edition_label_spec(s@),
{
    if str_eq(s, "beishida") {
        lit("北师大版")
    } else if str_eq(s, "renjiao") {
        lit("人教版")
    } else if str_eq(s, "sujiao") {
        lit("苏教版")
    } else {
        lit(s)
    }
}

pub fn semester_label(s: &str) -> (r: String)
    ensures
        r@ == semester_label_spec(s@),
{
    if str_eq(s, "shang") {
        lit("上册")
    } else {
        lit("下册")
    }
}

/// The catalog entry of a pack read from the file at `path` (relative to its
/// data root, with `/` separators) under a root of the given origin: the
/// labels recorded in the pack's source win over the ones derived from the codes.
pub open spec fn catalog_entry_ok(r: CatalogItem, pack: KnowledgePack, path: Seq<char>, origin: Seq<char>) -> bool {
    &&& r.subject@ == pack.subject@
    &&& r.subject_label@ == (if pack.source.subject_label@.len() > 0 {
        pack.source.subject_label@
    } else {
        subject_label_spec(pack.subject@)
    })
    &&& r.edition@ == pack.edition@
    &&& r.edition_label@ == (if pack.source.edition_label@.len() > 0 {
        pack.source.edition_label@
    } else {
        edition_label_spec(pack.edition@)
    })
    &&& r.grade == pack.grade
    &&& r.semester@ == pack.semester@
    &&& r.semester_label@ == semester_label_spec(pack.semester@)
    &&& r.title@ == pack.title@
    &&& r.path@ == path
    &&& r.units == pack.units
    &&& r.source == pack.source
    &&& r.origin@ == origin
}

pub fn catalog_entry(pack: KnowledgePack, path: String, origin: &str) -> (r: CatalogItem)
    ensures
        catalog_entry_ok(r, pack, path@, origin@),
{
    let subject_label = if pack.source.subject_label.unicode_len() > 0 {
        copy_string(&pack.source.subject_label)
    } else {
        subject_label(pack.subject.as_str())
    };
    let edition_label = if pack.source.edition_label.unicode_len() > 0 {
        copy_string(&pack.source.edition_label)
    } else {
        edition_label(pack.edition.as_str())
    };
    let semester_label = semester_label(pack.semester.as_str());
    CatalogItem {
        subject: pack.subject,
        subject_label,
        edition: pack.edition,
        edition_label,
        grade: pack.grade,
        semester: pack.semester,
        semester_label,
        title: pack.title,
        path,
        units: pack.units,
        source: pack.source,
        origin: lit(origin),
    }
}

fn copy_string(s: &String) -> (r: String)
    ensures
        r@ == s@,
{
    s.clone()
}

/// Whether a file name is that of a pack: its extension is `json` (as a
/// path's extension is read: what follows the last dot, where that dot is not
/// the name's first character), and it is neither `index.json` nor a name
/// that starts with `_`.
pub open spec fn is_pack_file_spec(name: Seq<char>) -> bool {
    &&& name.len() > 5
    &&& name.subrange(name.len() - 5, name.len() as int) == ".json"@
    &&& name != "index.json"@
    &&& name[0] != '_'
}

pub fn is_pack_file(name: &str) -> (r: bool)
    ensures
        r == is_pack_file_spec(name@),
{
    let v = chars_of(name);
    let n = v.len();
    if n <= 5 {
        return false;
    }
    let tail = crate::text::copy_range(&v, n - 5, n);
    let tail_s = string_of(&tail);
    str_eq(tail_s.as_str(), ".json") && !str_eq(name, "index.json") && v[0] != '_'
}

/// A pack's path relative to its data root, with `/` between its parts.
pub fn catalog_path(relative: &str) -> (r: String)
    ensures
        r@ == replace_char(relative@, '\\', "/"@),
{
    let slash = chars_of("/");
    string_of(&replace_char_exec(&chars_of(relative), '\\', &slash))
}

/// The key a catalog entry is known by: its subject, edition, grade and
/// semester, joined by `|`.
pub open spec fn catalog_key(it: CatalogItem) -> Seq<char> {
    it.subject@ + "|"@ + it.edition@ + "|"@ + nat_to_seq(it.grade as nat) + "|"@ + it.semester@
}

pub open spec fn keys_of(s: Seq<CatalogItem>) -> Seq<Seq<char>> {
    s.map_values(|c: CatalogItem| catalog_key(c))
}

/// The entries of a scan that come first with their key, in scan order: the
/// roots are scanned user first, so a pack the user updated hides the bundled
/// one of the same volume.
pub open spec fn first_of_keys(s: Seq<CatalogItem>) -> Seq<CatalogItem>
    decreases s.len(),
{
    if s.len() == 0 {
        Seq::empty()
    } else {
        let prev = first_of_keys(s.drop_last());
        if keys_of(prev).contains(catalog_key(s.last())) {
            prev
        } else {
            prev.push(s.last())
        }
    }
}

/// Catalog order: by subject, then edition, then grade, then semester.
pub open spec fn catalog_lt(a: CatalogItem, b: CatalogItem) -> bool {
    ||| seq_lt(a.subject@, b.subject@)
    ||| a.subject@ == b.subject@ && seq_lt(a.edition@, b.edition@)
    ||| a.subject@ == b.subject@ && a.edition@ == b.edition@ && a.grade < b.grade
    ||| a.subject@ == b.subject@ && a.edition@ == b.edition@ && a.grade == b.grade && seq_lt(a.semester@, b.semester@)
}

/// Where `x` goes in a list in catalog order: before the first entry that
/// comes after it.
pub open spec fn catalog_slot(s: Seq<CatalogItem>, x: CatalogItem) -> int
    decreases s.len(),
{
    if s.len() == 0 {
        0
    } else if catalog_lt(x, s[0]) {
        0
    } else {
        1 + catalog_slot(s.drop_first(), x)
    }
}

/// The entries put in catalog order, one at a time.
pub open spec fn catalog_order(s: Seq<CatalogItem>) -> Seq<CatalogItem>
    decreases s.len(),
{
    if s.len() == 0 {
        s
    } else {
        let sorted = catalog_order(s.drop_last());
        sorted.insert(catalog_slot(sorted, s.last()), s.last())
    }
}

proof fn lemma_catalog_lt_irreflexive(a: CatalogItem)
    ensures
        !catalog_lt(a, a),
{
    lemma_lt_irreflexive(a.subject@);
    lemma_lt_irreflexive(a.edition@);
    lemma_lt_irreflexive(a.semester@);
}

proof fn lemma_catalog_lt_transitive(a: CatalogItem, b: CatalogItem, c: CatalogItem)
    requires
        catalog_lt(a, b),
        catalog_lt(b, c),
    ensures
        catalog_lt(a, c),
{
    if seq_lt(a.subject@, b.subject@) && seq_lt(b.subject@, c.subject@) {
        lemma_lt_transitive(a.subject@, b.subject@, c.subject@);
    }
    if seq_lt(a.edition@, b.edition@) && seq_lt(b.edition@, c.edition@) {
        lemma_lt_transitive(a.edition@, b.edition@, c.edition@);
    }
    if seq_lt(a.semester@, b.semester@) && seq_lt(b.semester@, c.semester@) {
        lemma_lt_transitive(a.semester@, b.semester@, c.semester@);
    }
}

proof fn lemma_catalog_lt_total(a: CatalogItem, b: CatalogItem)
    requires
        catalog_key(a) != catalog_key(b),
    ensures
        catalog_lt(a, b) || catalog_lt(b, a),
{
    if a.subject@ != b.subject@ {
        lemma_lt_total(a.subject@, b.subject@);
    } else if a.edition@ != b.edition@ {
        lemma_lt_total(a.edition@, b.edition@);
    } else if a.grade == b.grade {
        if a.semester@ == b.semester@ {
            assert(catalog_key(a) == catalog_key(b));
        }
        lemma_lt_total(a.semester@, b.semester@);
    }
}

proof fn lemma_catalog_slot(s: Seq<CatalogItem>, x: CatalogItem)
    ensures
        0 <= catalog_slot(s, x) <= s.len(),
        forall|i: int| 0 <= i < catalog_slot(s, x) ==> !catalog_lt(x, #[trigger] s[i]),
        catalog_slot(s, x) < s.len() ==> catalog_lt(x, s[catalog_slot(s, x)]),
    decreases s.len(),
{
    if s.len() > 0 && !catalog_lt(x, s[0]) {
        lemma_catalog_slot(s.drop_first(), x);
        assert forall|i: int| 0 <= i < catalog_slot(s, x) implies !catalog_lt(x, #[trigger] s[i]) by {
            if i > 0 {
                assert(s[i] == s.drop_first()[i - 1]);
            }
        }
    }
}

/// Whether no two entries share a key.
pub open spec fn keys_distinct(s: Seq<CatalogItem>) -> bool {
    forall|i: int, j: int| 0 <= i < j < s.len() ==> catalog_key(#[trigger] s[i]) != catalog_key(#[trigger] s[j])
}

/// Whether the entries are in strictly increasing catalog order.
pub open spec fn catalog_ascending(s: Seq<CatalogItem>) -> bool {
    forall|i: int, j: int| 0 <= i < j < s.len() ==> catalog_lt(#[trigger] s[i], #[trigger] s[j])
}

proof fn lemma_catalog_order(s: Seq<CatalogItem>)
    requires
        keys_distinct(s),
    ensures
        catalog_order(s).len() == s.len(),
        catalog_order(s).to_multiset() == s.to_multiset(),
        catalog_ascending(catalog_order(s)),
    decreases s.len(),
{
    if s.len() > 0 {
        let prev = catalog_order(s.drop_last());
        assert(keys_distinct(s.drop_last())) by {
            assert forall|i: int, j: int| 0 <= i < j < s.drop_last().len() implies catalog_key(#[trigger] s.drop_last()[i]) != catalog_key(#[trigger] s.drop_last()[j]) by {
                assert(s.drop_last()[i] == s[i] && s.drop_last()[j] == s[j]);
            }
        }
        lemma_catalog_order(s.drop_last());
        let x = s.last();
        let p = catalog_slot(prev, x);
        lemma_catalog_slot(prev, x);
        let r = prev.insert(p, x);
        assert(r == catalog_order(s));
        assert(s =~= s.drop_last() + seq![x]);
        vstd::seq_lib::lemma_multiset_commutative(s.drop_last(), seq![x]);
        assert(r =~= prev.subrange(0, p) + seq![x] + prev.subrange(p, prev.len() as int));
        assert(prev =~= prev.subrange(0, p) + prev.subrange(p, prev.len() as int));
        vstd::seq_lib::lemma_multiset_commutative(prev.subrange(0, p), prev.subrange(p, prev.len() as int));
        vstd::seq_lib::lemma_multiset_commutative(prev.subrange(0, p) + seq![x], prev.subrange(p, prev.len() as int));
        vstd::seq_lib::lemma_multiset_commutative(prev.subrange(0, p), seq![x]);
        // every entry already placed has a key other than x's
        assert forall|i: int| 0 <= i < prev.len() implies catalog_key(#[trigger] prev[i]) != catalog_key(x) by {
            assert(prev.to_multiset().count(prev[i]) > 0) by {
                assert(prev.contains(prev[i]));
                prev.to_multiset_ensures();
            }
            s.drop_last().to_multiset_ensures();
            assert(s.drop_last().contains(prev[i]));
            let k = choose|k: int| 0 <= k < s.drop_last().len() && s.drop_last()[k] == prev[i];
            assert(s[k] == prev[i]);
            assert(catalog_key(s[k]) != catalog_key(s[s.len() - 1]));
        }
        assert forall|i: int, j: int| 0 <= i < j < r.len() implies catalog_lt(#[trigger] r[i], #[trigger] r[j]) by {
            if i < p && j < p {
                assert(r[i] == prev[i] && r[j] == prev[j]);
            } else if i < p && j == p {
                assert(r[i] == prev[i]);
                assert(!catalog_lt(x, prev[i]));
                lemma_catalog_lt_total(prev[i], x);
            } else if i < p {
                assert(r[i] == prev[i] && r[j] == prev[j - 1]);
            } else if i == p {
                assert(r[j] == prev[j - 1]);
                if j - 1 > p {
                    assert(catalog_lt(prev[p], prev[j - 1]));
                    lemma_catalog_lt_transitive(x, prev[p], prev[j - 1]);
                }
            } else {
                assert(r[i] == prev[i - 1] && r[j] == prev[j - 1]);
            }
        }
    }
}

proof fn lemma_first_of_keys(s: Seq<CatalogItem>)
    ensures
        keys_distinct(first_of_keys(s)),
        forall|k: int| 0 <= k < s.len() ==> keys_of(first_of_keys(s)).contains(catalog_key(#[trigger] s[k])),
        forall|i: int| 0 <= i < first_of_keys(s).len() ==> exists|k: int| 0 <= k < s.len() && #[trigger] first_of_keys(s)[i] == s[k]
            && forall|j: int| 0 <= j < k ==> catalog_key(#[trigger] s[j]) != catalog_key(s[k]),
    decreases s.len(),
{
    if s.len() > 0 {
        let d = s.drop_last();
        let prev = first_of_keys(d);
        lemma_first_of_keys(d);
        let x = s.last();
        let r = first_of_keys(s);
        assert forall|k: int| 0 <= k < d.len() implies s[k] == #[trigger] d[k] by {}
        if keys_of(prev).contains(catalog_key(x)) {
            assert forall|k: int| 0 <= k < s.len() implies keys_of(r).contains(catalog_key(#[trigger] s[k])) by {
                if k < d.len() {
                    assert(s[k] == d[k]);
                }
            }
            assert forall|i: int| 0 <= i < r.len() implies exists|k: int| 0 <= k < s.len() && #[trigger] r[i] == s[k]
                && forall|j: int| 0 <= j < k ==> catalog_key(#[trigger] s[j]) != catalog_key(s[k]) by {
                let k = choose|k: int| 0 <= k < d.len() && #[trigger] prev[i] == d[k]
                    && forall|j: int| 0 <= j < k ==> catalog_key(#[trigger] d[j]) != catalog_key(d[k]);
                assert(r[i] == s[k]);
                assert forall|j: int| 0 <= j < k implies catalog_key(#[trigger] s[j]) != catalog_key(s[k]) by {
                    assert(s[j] == d[j]);
                }
            }
        } else {
            assert(keys_of(r) =~= keys_of(prev).push(catalog_key(x)));
            assert forall|i: int, j: int| 0 <= i < j < r.len() implies catalog_key(#[trigger] r[i]) != catalog_key(#[trigger] r[j]) by {
                if j == r.len() - 1 {
                    assert(r[j] == x);
                    assert(r[i] == prev[i]);
                    assert(keys_of(prev)[i] == catalog_key(prev[i]));
                } else {
                    assert(r[i] == prev[i] && r[j] == prev[j]);
                }
            }
            assert forall|k: int| 0 <= k < s.len() implies keys_of(r).contains(catalog_key(#[trigger] s[k])) by {
                if k < d.len() {
                    assert(s[k] == d[k]);
                    assert(keys_of(prev).contains(catalog_key(d[k])));
                    let i = choose|i: int| 0 <= i < keys_of(prev).len() && keys_of(prev)[i] == catalog_key(d[k]);
                    assert(keys_of(r)[i] == keys_of(prev)[i]);
                } else {
                    assert(keys_of(r)[r.len() - 1] == catalog_key(x));
                }
            }
            assert forall|i: int| 0 <= i < r.len() implies exists|k: int| 0 <= k < s.len() && #[trigger] r[i] == s[k]
                && forall|j: int| 0 <= j < k ==> catalog_key(#[trigger] s[j]) != catalog_key(s[k]) by {
                if i < prev.len() {
                    let k = choose|k: int| 0 <= k < d.len() && #[trigger] prev[i] == d[k]
                        && forall|j: int| 0 <= j < k ==> catalog_key(#[trigger] d[j]) != catalog_key(d[k]);
                    assert(r[i] == s[k]);
                    assert forall|j: int| 0 <= j < k implies catalog_key(#[trigger] s[j]) != catalog_key(s[k]) by {
                        assert(s[j] == d[j]);
                    }
                } else {
                    let k = s.len() - 1;
                    assert(r[i] == s[k]);
                    assert forall|j: int| 0 <= j < k implies catalog_key(#[trigger] s[j]) != catalog_key(s[k]) by {
                        assert(s[j] == d[j]);
                        assert(keys_of(prev).contains(catalog_key(d[j])));
                    }
                }
            }
        }
    }
}

/// The catalog listed from a scan of the data roots (user root first):
/// it is in strictly increasing order of subject, edition, grade and
/// semester; no key is listed twice; every volume scanned is listed; and
/// each entry listed is the first one scanned with its key, so a volume the
/// user updated is listed from the user's copy.
pub proof fn lemma_catalog_listing(s: Seq<CatalogItem>)
    ensures
        ({
            let r = catalog_order(first_of_keys(s));
            &&& catalog_ascending(r)
            &&& keys_distinct(r)
            &&& forall|k: int| 0 <= k < s.len() ==> keys_of(r).contains(catalog_key(#[trigger] s[k]))
            &&& forall|i: int| 0 <= i < r.len() ==> exists|k: int| 0 <= k < s.len() && #[trigger] r[i] == s[k]
                && forall|j: int| 0 <= j < k ==> catalog_key(#[trigger] s[j]) != catalog_key(s[k])
        }),
{
    let f = first_of_keys(s);
    lemma_first_of_keys(s);
    lemma_catalog_order(f);
    let r = catalog_order(f);
    f.to_multiset_ensures();
    r.to_multiset_ensures();
    assert forall|i: int| 0 <= i < r.len() implies f.contains(#[trigger] r[i]) by {
        assert(r.contains(r[i]));
        assert(r.to_multiset().count(r[i]) > 0);
        assert(f.to_multiset().count(r[i]) > 0);
    }
    assert forall|i: int| 0 <= i < f.len() implies r.contains(#[trigger] f[i]) by {
        assert(f.contains(f[i]));
        assert(f.to_multiset().count(f[i]) > 0);
        assert(r.to_multiset().count(f[i]) > 0);
    }
    assert forall|i: int, j: int| 0 <= i < j < r.len() implies catalog_key(#[trigger] r[i]) != catalog_key(#[trigger] r[j]) by {
        lemma_catalog_lt_irreflexive(r[i]);
        if catalog_key(r[i]) == catalog_key(r[j]) {
            let a = choose|a: int| 0 <= a < f.len() && f[a] == r[i];
            let b = choose|b: int| 0 <= b < f.len() && f[b] == r[j];
            if a == b {
                assert(r[i] == r[j]);
            } else if a < b {
                assert(catalog_key(f[a]) != catalog_key(f[b]));
            } else {
                assert(catalog_key(f[b]) != catalog_key(f[a]));
            }
        }
    }
    assert forall|k: int| 0 <= k < s.len() implies keys_of(r).contains(catalog_key(#[trigger] s[k])) by {
        assert(keys_of(f).contains(catalog_key(s[k])));
        let i = choose|i: int| 0 <= i < keys_of(f).len() && keys_of(f)[i] == catalog_key(s[k]);
        assert(r.contains(f[i]));
        let m = choose|m: int| 0 <= m < r.len() && r[m] == f[i];
        assert(keys_of(r)[m] == catalog_key(s[k]));
    }
    assert forall|i: int| 0 <= i < r.len() implies exists|k: int| 0 <= k < s.len() && #[trigger] r[i] == s[k]
        && forall|j: int| 0 <= j < k ==> catalog_key(#[trigger] s[j]) != catalog_key(s[k]) by {
        let a = choose|a: int| 0 <= a < f.len() && f[a] == r[i];
        assert(f[a] == r[i]);
    }
}

/// The key of an entry (see `catalog_key`).
fn key_of(it: &CatalogItem) -> (r: String)
    ensures
        r@ == catalog_key(*it),
{
    let mut v = chars_of(it.subject.as_str());
    extend_chars(&mut v, "|");
    extend_chars(&mut v, it.edition.as_str());
    extend_chars(&mut v, "|");
    push_nat_digits(&mut v, it.grade as u128);
    extend_chars(&mut v, "|");
    extend_chars(&mut v, it.semester.as_str());
    string_of(&v)
}

fn catalog_less(a: &CatalogItem, b: &CatalogItem) -> (r: bool)
    ensures
        r == catalog_lt(*a, *b),
{
    if str_less(a.subject.as_str(), b.subject.as_str()) {
        return true;
    }
    if !str_eq(a.subject.as_str(), b.subject.as_str()) {
        return false;
    }
    if str_less(a.edition.as_str(), b.edition.as_str()) {
        return true;
    }
    if !str_eq(a.edition.as_str(), b.edition.as_str()) {
        return false;
    }
    if a.grade != b.grade {
        return a.grade < b.grade;
    }
    str_less(a.semester.as_str(), b.semester.as_str())
}

fn slot_in(v: &Vec<CatalogItem>, x: &CatalogItem) -> (r: usize)
    ensures
        r == catalog_slot(v@, *x),
{
    let mut k: usize = 0;
    assert(v@.subrange(0, v@.len() as int) =~= v@);
    while k < v.len() && !catalog_less(x, &v[k])
        invariant
            k <= v.len(),
            catalog_slot(v@, *x) == k + catalog_slot(v@.subrange(k as int, v@.len() as int), *x),
        decreases v.len() - k,
    {
        assert(v@.subrange(k as int, v@.len() as int).drop_first() =~= v@.subrange(k + 1, v@.len() as int));
        k = k + 1;
    }
    proof {
        let rest = v@.subrange(k as int, v@.len() as int);
        if k < v.len() {
            assert(rest[0] == v@[k as int]);
        }
    }
    k
}

/// The catalog from the entries found under the data roots, in scan order
/// (the user's root first): the first entry of each key, in catalog order
/// (see `lemma_catalog_listing`).
pub fn merge_catalog(items: Vec<CatalogItem>) -> (r: Vec<CatalogItem>)
    ensures
        r@ == catalog_order(first_of_keys(items@)),
{
    let ghost s = items@;
    let mut kept: Vec<CatalogItem> = Vec::new();
    let mut seen: Vec<String> = Vec::new();
    for x in it: items
        invariant
            it.seq() == s,
            kept@ == first_of_keys(s.take(it.index() as int)),
            strings_view(seen@) == keys_of(kept@),
    {
        let ghost k = it.index();
        proof {
            assert(s.take(k + 1).drop_last() =~= s.take(k as int));
            assert(s.take(k + 1).last() == x);
        }
        let key = key_of(&x);
        if !crate::dzkbw::holds(&seen, &key) {
            let ghost old_seen = seen@;
            let ghost old_kept = kept@;
            let ghost kx = catalog_key(x);
            seen.push(key);
            kept.push(x);
            assert(strings_view(seen@) =~= strings_view(old_seen).push(kx));
            assert(keys_of(kept@) =~= keys_of(old_kept).push(kx));
        }
    }
    proof {
        assert(s.take(s.len() as int) =~= s);
    }
    let ghost f = kept@;
    let mut r: Vec<CatalogItem> = Vec::new();
    for x in it: kept
        invariant
            it.seq() == f,
            r@ == catalog_order(f.take(it.index() as int)),
    {
        let ghost k = it.index();
        let p = slot_in(&r, &x);
        proof {
            lemma_catalog_slot(r@, x);
            assert(f.take(k + 1).drop_last() =~= f.take(k as int));
            assert(f.take(k + 1).last() == x);
        }
        r.insert(p, x);
    }
    proof {
        assert(f.take(f.len() as int) =~= f);
    }
    r
}

} // verus!
