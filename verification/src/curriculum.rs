//! Comparing the bundled knowledge pack of a textbook volume with the one the
//! user synchronised: which units and lessons were added or removed.
use vstd::prelude::*;
use crate::expr::{nat_to_seq, push_nat_digits};
use crate::knowledge::{KnowledgePack, UnitInfo};
use crate::strset::{insert_sorted, lemma_lt_irreflexive, lemma_lt_transitive, seq_lt, set_contains, strictly_sorted};
use crate::text::{
    chars_of, extend_chars, str_eq, string_of, strings_view, trim, trim_start_char,
    trim_start_char_bound, trim_str,
};
use crate::verify::lit;

verus! {

/// How one unit differs between the two packs.
#[derive(Debug, Clone)]
pub struct UnitDiff {
    pub unit_id: String,
    pub unit_name: String,
    /// same | onlyBundled | onlyUser | changed
    pub status: String,
    pub bundled_lessons: Vec<String>,
    pub user_lessons: Vec<String>,
    pub added: Vec<String>,
    pub removed: Vec<String>,
}

/// How the two packs of one volume differ.
#[derive(Debug, Clone)]
pub struct CurriculumDiffReport {
    pub path: String,
    pub subject: String,
    pub edition: String,
    pub grade: u8,
    pub semester: String,
    pub has_bundled: bool,
    pub has_user: bool,
    pub summary: String,
    pub units: Vec<UnitDiff>,
    pub added_units: Vec<String>,
    pub removed_units: Vec<String>,
}

/// The key a unit is matched by: its id, or its name when it has no id.
pub open spec fn unit_key(u: UnitInfo) -> Seq<char> {
    if u.id@.len() > 0 {
        u.id@
    } else {
        u.name@
    }
}

/// The lessons of a unit, trimmed, blank ones left out.
pub open spec fn lesson_set(u: UnitInfo) -> Set<Seq<char>> {
    Set::new(
        |t: Seq<char>|
            exists|j: int| 0 <= j < u.lessons@.len() && t == trim(#[trigger] u.lessons@[j]@) && t.len() > 0,
    )
}

/// The keys of the units.
pub open spec fn key_set(units: Seq<UnitInfo>) -> Set<Seq<char>> {
    units.map_values(|u: UnitInfo| unit_key(u)).to_set()
}

/// The last unit with key `k` (a later unit with the same key replaces an earlier one).
pub open spec fn unit_for(units: Seq<UnitInfo>, k: Seq<char>) -> Option<UnitInfo>
    decreases units.len(),
{
    if units.len() == 0 {
        None
    } else if unit_key(units.last()) == k {
        Some(units.last())
    } else {
        unit_for(units.drop_last(), k)
    }
}

/// `v` is the set `s`, sorted.
pub open spec fn sorted_set_is(v: Seq<Seq<char>>, s: Set<Seq<char>>) -> bool {
    strictly_sorted(v) && v.to_set() == s
}

/// What the comparison says of the unit with key `k`.
pub open spec fn unit_diff_ok(d: UnitDiff, k: Seq<char>, b: Seq<UnitInfo>, u: Seq<UnitInfo>) -> bool {
    &&& d.unit_id@ == k
    &&& match (unit_for(b, k), unit_for(u, k)) {
        (Some(bu), Some(uu)) => {
            let bl = lesson_set(bu);
            let ul = lesson_set(uu);
            &&& d.unit_name@ == uu.name@
            &&& sorted_set_is(strings_view(d.bundled_lessons@), bl)
            &&& sorted_set_is(strings_view(d.user_lessons@), ul)
            &&& sorted_set_is(strings_view(d.added@), ul.difference(bl))
            &&& sorted_set_is(strings_view(d.removed@), bl.difference(ul))
            &&& d.status@ == (if ul.difference(bl).is_empty() && bl.difference(ul).is_empty() && bu.name@
                == uu.name@ {
                "same"@
            } else {
                "changed"@
            })
        },
        (Some(bu), None) => {
            &&& d.unit_name@ == bu.name@
            &&& d.status@ == "onlyBundled"@
            &&& sorted_set_is(strings_view(d.bundled_lessons@), lesson_set(bu))
            &&& d.user_lessons@.len() == 0 && d.added@.len() == 0 && d.removed@.len() == 0
        },
        (None, Some(uu)) => {
            &&& d.unit_name@ == uu.name@
            &&& d.status@ == "onlyUser"@
            &&& sorted_set_is(strings_view(d.user_lessons@), lesson_set(uu))
            &&& d.bundled_lessons@.len() == 0 && d.added@.len() == 0 && d.removed@.len() == 0
        },
        (None, None) => false,
    }
}

/// The names of the units with the given status, in order.
pub open spec fn names_with_status(ds: Seq<UnitDiff>, st: Seq<char>) -> Seq<Seq<char>>
    decreases ds.len(),
{
    if ds.len() == 0 {
        Seq::empty()
    } else {
        names_with_status(ds.drop_last(), st) + if ds.last().status@ == st {
            seq![ds.last().unit_name@]
        } else {
            Seq::empty()
        }
    }
}

pub open spec fn count_with_status(ds: Seq<UnitDiff>, st: Seq<char>) -> nat {
    names_with_status(ds, st).len()
}

pub open spec fn diff_summary(has_bundled: bool, has_user: bool, changed: nat, added: nat, removed: nat) -> Seq<char> {
    if has_bundled && has_user {
        "对照完成："@ + nat_to_seq(changed) + " 个单元有差异，同步多 "@ + nat_to_seq(added) + " 个单元，内置多 "@
            + nat_to_seq(removed) + " 个单元"@
    } else if has_bundled {
        "仅有内置课标，尚未同步本机包（同步后可对照）"@
    } else if has_user {
        "仅有同步课标，无对应内置包可对照"@
    } else {
        "无数据"@
    }
}

/// The path of a pack as it is looked up: trimmed, without leading `/` or `\`.
pub open spec fn rel_path_spec(p: Seq<char>) -> Seq<char> {
    trim_start_char(trim_start_char(trim(p), '/'), '\\')
}

pub fn curriculum_rel_path(p: &str) -> (r: String)
    ensures
        r@ == rel_path_spec(p@),
{
    let t = chars_of(trim_str(p).as_str());
    let a = trim_start_char_bound(&t, 0, t.len(), '/');
    let b = trim_start_char_bound(&t, a, t.len(), '\\');
    assert(t@.subrange(0, t.len() as int) =~= t@);
    crate::text::string_of_range(&t, b, t.len())
}


fn copy_str(s: &String) -> (r: String)
    ensures
        r@ == s@,
{
    s.clone()
}

/// The lessons of a unit as a sorted set.
fn lessons_of(u: &UnitInfo) -> (r: Vec<String>)
    ensures
        sorted_set_is(strings_view(r@), lesson_set(*u)),
{
    let mut r: Vec<String> = Vec::new();
    let mut k: usize = 0;
    while k < u.lessons.len()
        invariant
            k <= u.lessons.len(),
            strictly_sorted(strings_view(r@)),
            strings_view(r@).to_set() == Set::new(
                |t: Seq<char>|
                    exists|j: int| 0 <= j < k && t == trim(#[trigger] u.lessons@[j]@) && t.len() > 0,
            ),
        decreases u.lessons.len() - k,
    {
        let t = trim_str(u.lessons[k].as_str());
        let ghost old_set = strings_view(r@).to_set();
        if t.unicode_len() > 0 {
            insert_sorted(&mut r, t);
        }
        proof {
            let next = Set::new(
                |s: Seq<char>|
                    exists|j: int| 0 <= j < k + 1 && s == trim(#[trigger] u.lessons@[j]@) && s.len() > 0,
            );
            assert forall|s: Seq<char>| strings_view(r@).to_set().contains(s) <==> next.contains(s) by {
                if next.contains(s) {
                    let j = choose|j: int| 0 <= j < k + 1 && s == trim(#[trigger] u.lessons@[j]@) && s.len() > 0;
                    if j < k {
                        assert(old_set.contains(s));
                    }
                }
            }
            assert(strings_view(r@).to_set() =~= next);
        }
        k = k + 1;
    }
    proof {
        assert(strings_view(r@).to_set() =~= lesson_set(*u));
    }
    r
}

/// The strings of the sorted set `a` that are not in `b`, as a sorted set.
fn set_difference(a: &Vec<String>, b: &Vec<String>) -> (r: Vec<String>)
    requires
        strictly_sorted(strings_view(a@)),
    ensures
        sorted_set_is(strings_view(r@), strings_view(a@).to_set().difference(strings_view(b@).to_set())),
{
    let ghost av = strings_view(a@);
    let ghost bs = strings_view(b@).to_set();
    let mut r: Vec<String> = Vec::new();
    let mut k: usize = 0;
    while k < a.len()
        invariant
            av == strings_view(a@),
            bs == strings_view(b@).to_set(),
            strictly_sorted(av),
            k <= a.len(),
            strictly_sorted(strings_view(r@)),
            forall|i: int, j: int| 0 <= i < r@.len() && k <= j < av.len() ==> seq_lt(
                #[trigger] strings_view(r@)[i],
                #[trigger] av[j],
            ),
            strings_view(r@).to_set() == av.take(k as int).to_set().difference(bs),
        decreases a.len() - k,
    {
        let ghost before = strings_view(r@);
        if !set_contains(b, a[k].as_str()) {
            r.push(copy_str(&a[k]));
            proof {
                let rv = strings_view(r@);
                assert(rv =~= before.push(av[k as int]));
                assert forall|i: int, j: int| 0 <= i < j < rv.len() implies seq_lt(#[trigger] rv[i], #[trigger] rv[j]) by {
                    if j == rv.len() - 1 {
                        assert(rv[i] == before[i]);
                    } else {
                        assert(rv[i] == before[i] && rv[j] == before[j]);
                    }
                }
                assert forall|i: int, j: int| 0 <= i < rv.len() && k + 1 <= j < av.len() implies seq_lt(
                    #[trigger] rv[i],
                    #[trigger] av[j],
                ) by {
                    if i == rv.len() - 1 {
                        assert(seq_lt(av[k as int], av[j]));
                    } else {
                        assert(rv[i] == before[i]);
                    }
                }
            }
        }
        proof {
            let rv = strings_view(r@);
            let nxt = av.take(k + 1).to_set().difference(bs);
            assert forall|s: Seq<char>| rv.to_set().contains(s) <==> nxt.contains(s) by {
                if rv.to_set().contains(s) {
                    let i = choose|i: int| 0 <= i < rv.len() && #[trigger] rv[i] == s;
                    if i < before.len() {
                        assert(before[i] == s);
                        assert(before.to_set().contains(s));
                        let j = choose|j: int| 0 <= j < k && #[trigger] av.take(k as int)[j] == s;
                        assert(av.take(k + 1)[j] == s);
                    } else {
                        assert(av.take(k + 1)[k as int] == s);
                    }
                }
                if nxt.contains(s) {
                    let j = choose|j: int| 0 <= j < k + 1 && #[trigger] av.take(k + 1)[j] == s;
                    if j < k {
                        assert(av.take(k as int)[j] == s);
                        assert(before.to_set().contains(s));
                        let i = choose|i: int| 0 <= i < before.len() && #[trigger] before[i] == s;
                        assert(rv[i] == s);
                    } else {
                        assert(rv[rv.len() - 1] == s);
                    }
                }
            }
            assert(rv.to_set() =~= nxt);
        }
        k = k + 1;
    }
    proof {
        assert(av.take(a@.len() as int) =~= av);
    }
    r
}

/// The last unit with key `k`.
fn find_unit_by_key(units: &Vec<UnitInfo>, k: &str) -> (r: Option<usize>)
    ensures
        match unit_for(units@, k@) {
            Some(u) => r matches Some(i) && i < units.len() && units@[i as int] == u,
            None => r is None,
        },
{
    let mut n: usize = units.len();
    assert(units@.take(units.len() as int) =~= units@);
    while n > 0
        invariant
            n <= units.len(),
            unit_for(units@, k@) == unit_for(units@.take(n as int), k@),
        decreases n,
    {
        let key = if units[n - 1].id.unicode_len() > 0 {
            copy_str(&units[n - 1].id)
        } else {
            copy_str(&units[n - 1].name)
        };
        proof {
            assert(units@.take(n as int).drop_last() =~= units@.take(n - 1));
            assert(units@.take(n as int).last() == units@[n - 1]);
        }
        if str_eq(key.as_str(), k) {
            return Some(n - 1);
        }
        n = n - 1;
    }
    None
}

fn unit_key_of(u: &UnitInfo) -> (r: String)
    ensures
        r@ == unit_key(*u),
{
    if u.id.unicode_len() > 0 {
        copy_str(&u.id)
    } else {
        copy_str(&u.name)
    }
}

/// The keys of both lists of units, as a sorted set.
fn all_keys(b: &Vec<UnitInfo>, u: &Vec<UnitInfo>) -> (r: Vec<String>)
    ensures
        sorted_set_is(strings_view(r@), key_set(b@).union(key_set(u@))),
{
    let mut r: Vec<String> = Vec::new();
    let mut k: usize = 0;
    while k < b.len()
        invariant
            k <= b.len(),
            strictly_sorted(strings_view(r@)),
            strings_view(r@).to_set() == key_set(b@.take(k as int)),
        decreases b.len() - k,
    {
        insert_sorted(&mut r, unit_key_of(&b[k]));
        proof {
            assert(b@.take(k + 1).map_values(|x: UnitInfo| unit_key(x)) =~= b@.take(k as int).map_values(
                |x: UnitInfo| unit_key(x),
            ).push(unit_key(b@[k as int])));
            lemma_push_to_set(b@.take(k as int).map_values(|x: UnitInfo| unit_key(x)), unit_key(b@[k as int]));
            assert(strings_view(r@).to_set() =~= key_set(b@.take(k + 1)));
        }
        k = k + 1;
    }
    assert(b@.take(b.len() as int) =~= b@);
    let mut k: usize = 0;
    while k < u.len()
        invariant
            k <= u.len(),
            strictly_sorted(strings_view(r@)),
            strings_view(r@).to_set() == key_set(b@).union(key_set(u@.take(k as int))),
        decreases u.len() - k,
    {
        insert_sorted(&mut r, unit_key_of(&u[k]));
        proof {
            assert(u@.take(k + 1).map_values(|x: UnitInfo| unit_key(x)) =~= u@.take(k as int).map_values(
                |x: UnitInfo| unit_key(x),
            ).push(unit_key(u@[k as int])));
            lemma_push_to_set(u@.take(k as int).map_values(|x: UnitInfo| unit_key(x)), unit_key(u@[k as int]));
            assert(strings_view(r@).to_set() =~= key_set(b@).union(key_set(u@.take(k + 1))));
        }
        k = k + 1;
    }
    assert(u@.take(u.len() as int) =~= u@);
    r
}

fn diff_for_key(key: &String, b: &Vec<UnitInfo>, u: &Vec<UnitInfo>) -> (r: UnitDiff)
    requires
        key_set(b@).contains(key@) || key_set(u@).contains(key@),
    ensures
        unit_diff_ok(r, key@, b@, u@),
{
    let bi = find_unit_by_key(b, key.as_str());
    let ui = find_unit_by_key(u, key.as_str());
    proof {
        lemma_unit_for_some(b@, key@);
        lemma_unit_for_some(u@, key@);
    }
    match (bi, ui) {
        (Some(i), Some(j)) => {
            let bl = lessons_of(&b[i]);
            let ul = lessons_of(&u[j]);
            let added = set_difference(&ul, &bl);
            let removed = set_difference(&bl, &ul);
            let same = added.len() == 0 && removed.len() == 0 && str_eq(b[i].name.as_str(), u[j].name.as_str());
            proof {
                lemma_empty_set(strings_view(added@), lesson_set(u@[j as int]).difference(lesson_set(b@[i as int])));
                lemma_empty_set(strings_view(removed@), lesson_set(b@[i as int]).difference(lesson_set(u@[j as int])));
            }
            UnitDiff {
                unit_id: copy_str(key),
                unit_name: copy_str(&u[j].name),
                status: if same { lit("same") } else { lit("changed") },
                bundled_lessons: bl,
                user_lessons: ul,
                added,
                removed,
            }
        },
        (Some(i), None) => UnitDiff {
            unit_id: copy_str(key),
            unit_name: copy_str(&b[i].name),
            status: lit("onlyBundled"),
            bundled_lessons: lessons_of(&b[i]),
            user_lessons: Vec::new(),
            added: Vec::new(),
            removed: Vec::new(),
        },
        (None, Some(j)) => UnitDiff {
            unit_id: copy_str(key),
            unit_name: copy_str(&u[j].name),
            status: lit("onlyUser"),
            bundled_lessons: Vec::new(),
            user_lessons: lessons_of(&u[j]),
            added: Vec::new(),
            removed: Vec::new(),
        },
        (None, None) => {
            proof {
                assert(false);
            }
            UnitDiff {
                unit_id: copy_str(key),
                unit_name: String::new(),
                status: String::new(),
                bundled_lessons: Vec::new(),
                user_lessons: Vec::new(),
                added: Vec::new(),
                removed: Vec::new(),
            }
        },
    }
}

proof fn lemma_push_to_set(s: Seq<Seq<char>>, x: Seq<char>)
    ensures
        s.push(x).to_set() == s.to_set().insert(x),
{
    let t = s.push(x);
    assert forall|y: Seq<char>| t.to_set().contains(y) <==> s.to_set().insert(x).contains(y) by {
        if t.to_set().contains(y) {
            let i = choose|i: int| 0 <= i < t.len() && #[trigger] t[i] == y;
            if i < s.len() {
                assert(s[i] == y);
            }
        }
        if s.to_set().contains(y) {
            let i = choose|i: int| 0 <= i < s.len() && #[trigger] s[i] == y;
            assert(t[i] == y);
        }
        if y == x {
            assert(t[s.len() as int] == y);
        }
    }
    assert(t.to_set() =~= s.to_set().insert(x));
}

proof fn lemma_empty_set(v: Seq<Seq<char>>, s: Set<Seq<char>>)
    requires
        v.to_set() == s,
    ensures
        (v.len() == 0) == s.is_empty(),
{
    if v.len() > 0 {
        assert(s.contains(v[0]));
    } else {
        assert(s =~= Set::<Seq<char>>::empty());
    }
}

proof fn lemma_unit_for_some(units: Seq<UnitInfo>, k: Seq<char>)
    ensures
        key_set(units).contains(k) ==> unit_for(units, k) is Some,
        unit_for(units, k) matches Some(x) ==> unit_key(x) == k,
    decreases units.len(),
{
    if units.len() > 0 {
        lemma_unit_for_some(units.drop_last(), k);
        if key_set(units).contains(k) && unit_key(units.last()) != k {
            let ks = units.map_values(|u: UnitInfo| unit_key(u));
            let i = choose|i: int| 0 <= i < ks.len() && #[trigger] ks[i] == k;
            assert(i < units.len() - 1);
            assert(units.drop_last().map_values(|u: UnitInfo| unit_key(u))[i] == k);
        }
    }
}


pub open spec fn pack_units(p: Option<&KnowledgePack>) -> Seq<UnitInfo> {
    match p {
        Some(k) => k.units@,
        None => Seq::empty(),
    }
}

pub open spec fn unit_ids(ds: Seq<UnitDiff>) -> Seq<Seq<char>> {
    ds.map_values(|d: UnitDiff| d.unit_id@)
}

/// The comparison of the bundled and the synchronised pack of the volume at
/// `rel` (either may be missing; both missing is an error).
pub open spec fn diff_ok(
    r: CurriculumDiffReport,
    rel: Seq<char>,
    bundled: Option<&KnowledgePack>,
    user: Option<&KnowledgePack>,
) -> bool {
    let b = pack_units(bundled);
    let u = pack_units(user);
    let meta = if user is Some { user->0 } else { bundled->0 };
    &&& r.path@ == rel
    &&& r.has_bundled == bundled is Some
    &&& r.has_user == user is Some
    &&& r.subject@ == meta.subject@
    &&& r.edition@ == meta.edition@
    &&& r.grade == meta.grade
    &&& r.semester@ == meta.semester@
    &&& sorted_set_is(unit_ids(r.units@), key_set(b).union(key_set(u)))
    &&& forall|i: int| 0 <= i < r.units@.len() ==> #[trigger] unit_diff_ok(r.units@[i], r.units@[i].unit_id@, b, u)
    &&& strings_view(r.added_units@) == names_with_status(r.units@, "onlyUser"@)
    &&& strings_view(r.removed_units@) == names_with_status(r.units@, "onlyBundled"@)
    &&& r.summary@ == diff_summary(
        bundled is Some,
        user is Some,
        count_with_status(r.units@, "changed"@),
        r.added_units@.len(),
        r.removed_units@.len(),
    )
}

fn push_name_if(out: &mut Vec<String>, d: &UnitDiff, st: &str, ds: Ghost<Seq<UnitDiff>>)
    requires
        strings_view(old(out)@) == names_with_status(ds@, st@),
    ensures
        strings_view(final(out)@) == names_with_status(ds@.push(*d), st@),
{
    assert(ds@.push(*d).drop_last() =~= ds@);
    if str_eq(d.status.as_str(), st) {
        out.push(copy_str(&d.unit_name));
        assert(strings_view(out@) =~= names_with_status(ds@.push(*d), st@));
    }
}

pub fn diff_curriculum_pack(
    rel: &str,
    bundled: Option<&KnowledgePack>,
    user: Option<&KnowledgePack>,
) -> (r: Result<CurriculumDiffReport, String>)
    ensures
        bundled is None && user is None ==> (r matches Err(m) && m@ == "找不到课标包: "@ + rel@),
        bundled is Some || user is Some ==> (r matches Ok(rep) && diff_ok(rep, rel@, bundled, user)),
{
    if bundled.is_none() && user.is_none() {
        let mut m = chars_of("找不到课标包: ");
        extend_chars(&mut m, rel);
        return Err(string_of(&m));
    }
    let empty: Vec<UnitInfo> = Vec::new();
    let b = match bundled {
        Some(p) => &p.units,
        None => &empty,
    };
    let u = match user {
        Some(p) => &p.units,
        None => &empty,
    };
    assert(b@ == pack_units(bundled) && u@ == pack_units(user));
    let keys = all_keys(b, u);
    let mut units: Vec<UnitDiff> = Vec::new();
    let mut added_units: Vec<String> = Vec::new();
    let mut removed_units: Vec<String> = Vec::new();
    let mut changed: Vec<String> = Vec::new();
    let mut k: usize = 0;
    while k < keys.len()
        invariant
            b@ == pack_units(bundled),
            u@ == pack_units(user),
            sorted_set_is(strings_view(keys@), key_set(b@).union(key_set(u@))),
            k <= keys.len(),
            unit_ids(units@) == strings_view(keys@).take(k as int),
            forall|i: int| 0 <= i < units@.len() ==> #[trigger] unit_diff_ok(units@[i], units@[i].unit_id@, b@, u@),
            strings_view(added_units@) == names_with_status(units@, "onlyUser"@),
            strings_view(removed_units@) == names_with_status(units@, "onlyBundled"@),
            strings_view(changed@) == names_with_status(units@, "changed"@),
        decreases keys.len() - k,
    {
        proof {
            assert(strings_view(keys@).to_set().contains(strings_view(keys@)[k as int]));
        }
        let d = diff_for_key(&keys[k], b, u);
        let ghost ds = units@;
        let ghost dv = d;
        assert(dv.unit_id@ == strings_view(keys@)[k as int]);
        push_name_if(&mut added_units, &d, "onlyUser", Ghost(ds));
        push_name_if(&mut removed_units, &d, "onlyBundled", Ghost(ds));
        push_name_if(&mut changed, &d, "changed", Ghost(ds));
        units.push(d);
        proof {
            assert(units@ =~= ds.push(dv));
            assert(unit_ids(units@) =~= unit_ids(ds).push(dv.unit_id@));
            assert(unit_ids(units@) =~= strings_view(keys@).take(k + 1));
        }
        k = k + 1;
    }
    proof {
        assert(strings_view(keys@).take(keys@.len() as int) =~= strings_view(keys@));
    }
    let has_bundled = bundled.is_some();
    let has_user = user.is_some();
    let summary = if has_bundled && has_user {
        let mut m = chars_of("对照完成：");
        push_nat_digits(&mut m, changed.len() as u128);
        extend_chars(&mut m, " 个单元有差异，同步多 ");
        push_nat_digits(&mut m, added_units.len() as u128);
        extend_chars(&mut m, " 个单元，内置多 ");
        push_nat_digits(&mut m, removed_units.len() as u128);
        extend_chars(&mut m, " 个单元");
        string_of(&m)
    } else if has_bundled {
        lit("仅有内置课标，尚未同步本机包（同步后可对照）")
    } else {
        lit("仅有同步课标，无对应内置包可对照")
    };
    let meta = match user {
        Some(p) => p,
        None => match bundled {
            Some(p) => p,
            None => {
                proof {
                    assert(false);
                }
                return Err(String::new());
            },
        },
    };
    Ok(CurriculumDiffReport {
        path: lit(rel),
        subject: copy_str(&meta.subject),
        edition: copy_str(&meta.edition),
        grade: meta.grade,
        semester: copy_str(&meta.semester),
        has_bundled,
        has_user,
        summary,
        units,
        added_units,
        removed_units,
    })
}

} // verus!
