//! Going over homework: which wrong answers and knowledge points a review
//! lesson or a short re-drill paper is built from, the review outline laid
//! out without a model, the re-drill paper laid out without a model, and the
//! prompts sent to a model otherwise.
use vstd::prelude::*;
use crate::paper::{ExamPaper, ExamSection, ExamItem, JsonNumber, items_of, sections_of, text_or_empty, number_unsigned};
use crate::text::{trim, contains, strings_view, trim_str, str_contains};
use crate::verify::lit;
use crate::draft::{DraftPaper, DraftMeta, DraftSection, DraftItem, new_item, item_is};
use crate::expr::{nat_to_seq, push_nat_digits};

verus! {

/// A question picked as answered wrongly: its section and its place there.
#[derive(Debug, Clone, Copy)]
pub struct WrongItemRef {
    pub section_index: usize,
    pub item_index: usize,
}

/// What a review outline is asked for.
#[derive(Debug, Clone)]
pub struct ReviewRequest {
    pub paper: ExamPaper,
    /// The questions picked as wrong; when none, the knowledge points lead.
    pub wrong_items: Vec<WrongItemRef>,
    /// Knowledge points written in by hand.
    pub knowledge_points: Vec<String>,
    pub subject: String,
    pub grade: u8,
    /// Whether a model is asked; otherwise the outline is laid out locally.
    pub use_ai: bool,
}

/// What a re-drill paper is asked for.
#[derive(Debug, Clone)]
pub struct RedrillRequest {
    pub paper: ExamPaper,
    pub wrong_items: Vec<WrongItemRef>,
    pub knowledge_points: Vec<String>,
    pub subject: String,
    pub grade: u8,
    pub total_score: u32,
    pub duration_min: u32,
}

/// Whether a review request asks a model when nothing says otherwise.
pub fn default_use_ai() -> (r: bool)
    ensures
        r,
{
    true
}

/// The full marks of a re-drill paper when nothing says otherwise.
pub fn default_score() -> (r: u32)
    ensures
        r == 50,
{
    50
}

/// The minutes of a re-drill paper when nothing says otherwise.
pub fn default_duration() -> (r: u32)
    ensures
        r == 20,
{
    20
}

/// One wrong question as it is shown to the teacher or sent to a model.
#[derive(Debug, Clone)]
pub struct WrongSample {
    pub section_title: String,
    pub stem: String,
    pub answer: String,
    pub analysis: String,
    pub knowledge_points: Vec<String>,
}

pub type SampleView = (Seq<char>, Seq<char>, Seq<char>, Seq<char>, Seq<Seq<char>>);

pub open spec fn sample_view(s: WrongSample) -> SampleView {
    (s.section_title@, s.stem@, s.answer@, s.analysis@, strings_view(s.knowledge_points@))
}

pub open spec fn samples_view(v: Seq<WrongSample>) -> Seq<SampleView> {
    v.map_values(|s: WrongSample| sample_view(s))
}

/// The text entries of a list of JSON values, in order.
pub open spec fn string_entries(s: Seq<Option<String>>) -> Seq<Seq<char>>
    decreases s.len(),
{
    if s.len() == 0 {
        Seq::empty()
    } else {
        string_entries(s.drop_last()) + match s.last() {
            Some(x) => seq![x@],
            None => Seq::empty(),
        }
    }
}

/// The entries of an optional list, none when it is missing.
pub open spec fn entries_of(o: Option<Vec<Option<String>>>) -> Seq<Option<String>> {
    match o {
        Some(v) => v@,
        None => Seq::empty(),
    }
}

/// The text knowledge points of a question.
pub open spec fn item_kps(it: ExamItem) -> Seq<Seq<char>> {
    string_entries(entries_of(it.knowledge_points))
}

/// A section's title, `大题` when it has none.
pub open spec fn section_title(sec: ExamSection) -> Seq<char> {
    match sec.title {
        Some(t) => t@,
        None => "大题"@,
    }
}

pub open spec fn sample_of(sec: ExamSection, it: ExamItem) -> SampleView {
    (section_title(sec), text_or_empty(it.stem), text_or_empty(it.answer), text_or_empty(it.analysis), item_kps(it))
}

/// The knowledge points after those of a question are added: each text entry
/// trimmed, when it is not empty and not there yet.
pub open spec fn add_kps(kps: Seq<Seq<char>>, entries: Seq<Option<String>>) -> Seq<Seq<char>>
    decreases entries.len(),
{
    if entries.len() == 0 {
        kps
    } else {
        let k = add_kps(kps, entries.drop_last());
        match entries.last() {
            Some(s) => if trim(s@).len() > 0 && !k.contains(trim(s@)) {
                k.push(trim(s@))
            } else {
                k
            },
            None => k,
        }
    }
}

/// Whether a picked question is there: the section, and the question in it.
pub open spec fn picks(secs: Seq<ExamSection>, r: WrongItemRef) -> bool {
    r.section_index < secs.len() && r.item_index < items_of(secs[r.section_index as int]).len()
}

/// The wrong questions that are there, and the knowledge points grown by theirs.
pub open spec fn wrong_pass(secs: Seq<ExamSection>, refs: Seq<WrongItemRef>, kps: Seq<Seq<char>>) -> (Seq<SampleView>, Seq<Seq<char>>)
    decreases refs.len(),
{
    if refs.len() == 0 {
        (Seq::empty(), kps)
    } else {
        let prev = wrong_pass(secs, refs.drop_last(), kps);
        let r = refs.last();
        if picks(secs, r) {
            let sec = secs[r.section_index as int];
            let it = items_of(sec)[r.item_index as int];
            (prev.0.push(sample_of(sec, it)), add_kps(prev.1, entries_of(it.knowledge_points)))
        } else {
            prev
        }
    }
}

/// Whether one of a question's knowledge points holds one of `kps`, or is
/// held by one.
pub open spec fn kp_hit(its: Seq<Seq<char>>, kps: Seq<Seq<char>>) -> bool {
    exists|a: int, b: int| #![trigger its[a], kps[b]]
        0 <= a < its.len() && 0 <= b < kps.len() && (contains(its[a], kps[b]) || contains(kps[b], its[a]))
}

/// The questions of a section whose knowledge points meet `kps`, in order.
pub open spec fn section_hits(sec: ExamSection, items: Seq<ExamItem>, kps: Seq<Seq<char>>) -> Seq<SampleView>
    decreases items.len(),
{
    if items.len() == 0 {
        Seq::empty()
    } else {
        section_hits(sec, items.drop_last(), kps) + if kp_hit(item_kps(items.last()), kps) {
            seq![sample_of(sec, items.last())]
        } else {
            Seq::empty()
        }
    }
}

/// The questions of the whole paper whose knowledge points meet `kps`.
pub open spec fn all_hits(secs: Seq<ExamSection>, kps: Seq<Seq<char>>) -> Seq<SampleView>
    decreases secs.len(),
{
    if secs.len() == 0 {
        Seq::empty()
    } else {
        all_hits(secs.drop_last(), kps) + section_hits(secs.last(), items_of(secs.last()), kps)
    }
}

/// At most the first eight.
pub open spec fn first_eight(s: Seq<SampleView>) -> Seq<SampleView> {
    if s.len() <= 8 {
        s
    } else {
        s.take(8)
    }
}

/// The wrong questions and knowledge points a review is built from: the
/// picked questions that are there, with the knowledge points written in and
/// theirs; when no picked question is there but there are knowledge points,
/// the first eight questions of the paper that meet them.
pub open spec fn collected(paper: ExamPaper, refs: Seq<WrongItemRef>, kps: Seq<Seq<char>>) -> (Seq<SampleView>, Seq<Seq<char>>) {
    let secs = sections_of(paper);
    let w = wrong_pass(secs, refs, kps);
    if w.0.len() == 0 && w.1.len() > 0 {
        (first_eight(all_hits(secs, w.1)), w.1)
    } else {
        w
    }
}

fn opt_text(o: &Option<String>) -> (r: String)
    ensures
        r@ == text_or_empty(*o),
{
    match o {
        Some(s) => s.clone(),
        None => String::new(),
    }
}

fn title_of(sec: &ExamSection) -> (r: String)
    ensures
        r@ == section_title(*sec),
{
    match &sec.title {
        Some(t) => t.clone(),
        None => lit("大题"),
    }
}

proof fn lemma_entries_step(s: Seq<Option<String>>, j: int)
    requires
        0 <= j < s.len(),
    ensures
        string_entries(s.take(j + 1)) == string_entries(s.take(j)) + match s[j] {
            Some(x) => seq![x@],
            None => Seq::<Seq<char>>::empty(),
        },
{
    assert(s.take(j + 1).drop_last() =~= s.take(j));
}

/// The text entries of an optional list of JSON values.
pub(crate) fn text_entries(o: &Option<Vec<Option<String>>>) -> (r: Vec<String>)
    ensures
        strings_view(r@) == string_entries(entries_of(*o)),
{
    let mut r: Vec<String> = Vec::new();
    match o {
        None => {
            assert(strings_view(r@) =~= Seq::<Seq<char>>::empty());
        },
        Some(v) => {
            let mut j: usize = 0;
            assert(v@.take(0) =~= Seq::<Option<String>>::empty());
            assert(strings_view(r@) =~= Seq::<Seq<char>>::empty());
            while j < v.len()
                invariant
                    j <= v.len(),
                    strings_view(r@) == string_entries(v@.take(j as int)),
                decreases v.len() - j,
            {
                proof {
                    lemma_entries_step(v@, j as int);
                }
                match &v[j] {
                    Some(x) => {
                        r.push(x.clone());
                        assert(strings_view(r@) =~= string_entries(v@.take(j + 1)));
                    },
                    None => {
                        assert(strings_view(r@) =~= string_entries(v@.take(j + 1)));
                    },
                }
                j = j + 1;
            }
            assert(v@.take(v.len() as int) =~= v@);
        },
    }
    r
}

fn sample_from(sec: &ExamSection, it: &ExamItem) -> (r: WrongSample)
    ensures
        sample_view(r) == sample_of(*sec, *it),
{
    WrongSample {
        section_title: title_of(sec),
        stem: opt_text(&it.stem),
        answer: opt_text(&it.answer),
        analysis: opt_text(&it.analysis),
        knowledge_points: text_entries(&it.knowledge_points),
    }
}

/// Whether `v` holds the text `x`.
fn has_text(v: &Vec<String>, x: &String) -> (r: bool)
    ensures
        r == strings_view(v@).contains(x@),
{
    let mut k: usize = 0;
    while k < v.len()
        invariant
            k <= v.len(),
            forall|j: int| 0 <= j < k ==> v@[j]@ != x@,
        decreases v.len() - k,
    {
        if crate::text::str_eq(v[k].as_str(), x.as_str()) {
            assert(strings_view(v@)[k as int] == x@);
            return true;
        }
        k = k + 1;
    }
    proof {
        if strings_view(v@).contains(x@) {
            let i = choose|i: int| 0 <= i < strings_view(v@).len() && strings_view(v@)[i] == x@;
            assert(v@[i]@ == x@);
        }
    }
    false
}

proof fn lemma_add_kps_step(kps: Seq<Seq<char>>, e: Seq<Option<String>>, j: int)
    requires
        0 <= j < e.len(),
    ensures
        add_kps(kps, e.take(j + 1)) == ({
            let k = add_kps(kps, e.take(j));
            match e[j] {
                Some(s) => if trim(s@).len() > 0 && !k.contains(trim(s@)) {
                    k.push(trim(s@))
                } else {
                    k
                },
                None => k,
            }
        }),
{
    assert(e.take(j + 1).drop_last() =~= e.take(j));
}

/// Adds the knowledge points of a question (see `add_kps`).
fn add_item_kps(kps: &mut Vec<String>, o: &Option<Vec<Option<String>>>)
    ensures
        strings_view(final(kps)@) == add_kps(strings_view(old(kps)@), entries_of(*o)),
{
    let ghost k0 = strings_view(kps@);
    match o {
        None => {},
        Some(v) => {
            let mut j: usize = 0;
            assert(v@.take(0) =~= Seq::<Option<String>>::empty());
            while j < v.len()
                invariant
                    j <= v.len(),
                    strings_view(kps@) == add_kps(k0, v@.take(j as int)),
                decreases v.len() - j,
            {
                proof {
                    lemma_add_kps_step(k0, v@, j as int);
                }
                match &v[j] {
                    Some(s) => {
                        let t = trim_str(s.as_str());
                        let tv = crate::text::chars_of(t.as_str());
                        if tv.len() > 0 && !has_text(kps, &t) {
                            kps.push(t);
                            assert(strings_view(kps@) =~= add_kps(k0, v@.take(j as int)).push(trim(s@)));
                        }
                    },
                    None => {},
                }
                j = j + 1;
            }
            assert(v@.take(v.len() as int) =~= v@);
        },
    }
}

proof fn lemma_wrong_pass_step(secs: Seq<ExamSection>, refs: Seq<WrongItemRef>, kps: Seq<Seq<char>>, k: int)
    requires
        0 <= k < refs.len(),
    ensures
        wrong_pass(secs, refs.take(k + 1), kps) == ({
            let prev = wrong_pass(secs, refs.take(k), kps);
            let r = refs[k];
            if picks(secs, r) {
                let sec = secs[r.section_index as int];
                let it = items_of(sec)[r.item_index as int];
                (prev.0.push(sample_of(sec, it)), add_kps(prev.1, entries_of(it.knowledge_points)))
            } else {
                prev
            }
        }),
{
    assert(refs.take(k + 1).drop_last() =~= refs.take(k));
}

/// The picked questions that are there, and the knowledge points grown by theirs.
fn wrong_pass_exec(paper: &ExamPaper, refs: &Vec<WrongItemRef>, kps0: &Vec<String>) -> (r: (Vec<WrongSample>, Vec<String>))
    ensures
        samples_view(r.0@) == wrong_pass(sections_of(*paper), refs@, strings_view(kps0@)).0,
        strings_view(r.1@) == wrong_pass(sections_of(*paper), refs@, strings_view(kps0@)).1,
{
    let ghost secs = sections_of(*paper);
    let ghost k0 = strings_view(kps0@);
    let mut out: Vec<WrongSample> = Vec::new();
    let mut kps: Vec<String> = Vec::new();
    crate::templates::copy_strings(&mut kps, kps0);
    assert(strings_view(kps@) =~= k0);
    assert(samples_view(out@) =~= Seq::<SampleView>::empty());
    assert(refs@.take(0) =~= Seq::<WrongItemRef>::empty());
    let mut k: usize = 0;
    while k < refs.len()
        invariant
            k <= refs.len(),
            secs == sections_of(*paper),
            samples_view(out@) == wrong_pass(secs, refs@.take(k as int), k0).0,
            strings_view(kps@) == wrong_pass(secs, refs@.take(k as int), k0).1,
        decreases refs.len() - k,
    {
        proof {
            lemma_wrong_pass_step(secs, refs@, k0, k as int);
        }
        let r = refs[k];
        if let Some(sv) = &paper.sections {
            if r.section_index < sv.len() {
                let sec = &sv[r.section_index];
                if let Some(items) = &sec.items {
                    if r.item_index < items.len() {
                        let it = &items[r.item_index];
                        let smp = sample_from(sec, it);
                        out.push(smp);
                        add_item_kps(&mut kps, &it.knowledge_points);
                        assert(samples_view(out@) =~= wrong_pass(secs, refs@.take(k as int), k0).0.push(sample_of(*sec, *it)));
                    }
                }
            }
        }
        k = k + 1;
    }
    assert(refs@.take(refs.len() as int) =~= refs@);
    (out, kps)
}

/// Whether one of `its` holds one of `kps` or is held by one.
fn kp_hit_exec(its: &Vec<String>, kps: &Vec<String>) -> (r: bool)
    ensures
        r == kp_hit(strings_view(its@), strings_view(kps@)),
{
    let ghost a_s = strings_view(its@);
    let ghost b_s = strings_view(kps@);
    let mut a: usize = 0;
    while a < its.len()
        invariant
            a <= its.len(),
            a_s == strings_view(its@),
            b_s == strings_view(kps@),
            forall|x: int, y: int| 0 <= x < a && 0 <= y < kps.len() ==> !(contains(a_s[x], b_s[y]) || contains(b_s[y], a_s[x])),
        decreases its.len() - a,
    {
        let mut b: usize = 0;
        while b < kps.len()
            invariant
                a < its.len(),
                b <= kps.len(),
                a_s == strings_view(its@),
                b_s == strings_view(kps@),
                forall|x: int, y: int| 0 <= x < a && 0 <= y < kps.len() ==> !(contains(a_s[x], b_s[y]) || contains(b_s[y], a_s[x])),
                forall|y: int| 0 <= y < b ==> !(contains(a_s[a as int], b_s[y]) || contains(b_s[y], a_s[a as int])),
            decreases kps.len() - b,
        {
            if str_contains(its[a].as_str(), kps[b].as_str()) || str_contains(kps[b].as_str(), its[a].as_str()) {
                proof {
                    assert(a_s[a as int] == its@[a as int]@);
                    assert(b_s[b as int] == kps@[b as int]@);
                    assert(kp_hit(a_s, b_s));
                }
                return true;
            }
            proof {
                assert(a_s[a as int] == its@[a as int]@);
                assert(b_s[b as int] == kps@[b as int]@);
            }
            b = b + 1;
        }
        a = a + 1;
    }
    proof {
        if kp_hit(a_s, b_s) {
            let (x, y) = choose|x: int, y: int| #![trigger a_s[x], b_s[y]]
                0 <= x < a_s.len() && 0 <= y < b_s.len() && (contains(a_s[x], b_s[y]) || contains(b_s[y], a_s[x]));
            assert(!(contains(a_s[x], b_s[y]) || contains(b_s[y], a_s[x])));
        }
    }
    false
}

proof fn lemma_section_hits_step(sec: ExamSection, items: Seq<ExamItem>, kps: Seq<Seq<char>>, j: int)
    requires
        0 <= j < items.len(),
    ensures
        section_hits(sec, items.take(j + 1), kps) == section_hits(sec, items.take(j), kps) + if kp_hit(item_kps(items[j]), kps) {
            seq![sample_of(sec, items[j])]
        } else {
            Seq::<SampleView>::empty()
        },
{
    assert(items.take(j + 1).drop_last() =~= items.take(j));
}

/// Appends the questions of a section whose knowledge points meet `kps`.
fn push_section_hits(out: &mut Vec<WrongSample>, sec: &ExamSection, kps: &Vec<String>)
    ensures
        samples_view(final(out)@) == samples_view(old(out)@) + section_hits(*sec, items_of(*sec), strings_view(kps@)),
{
    let ghost before = samples_view(out@);
    let ghost kv = strings_view(kps@);
    match &sec.items {
        None => {
            assert(section_hits(*sec, Seq::<ExamItem>::empty(), kv) =~= Seq::<SampleView>::empty());
            assert(samples_view(out@) =~= before + Seq::<SampleView>::empty());
        },
        Some(items) => {
            assert(items@.take(0) =~= Seq::<ExamItem>::empty());
            assert(samples_view(out@) =~= before + section_hits(*sec, items@.take(0), kv));
            let mut j: usize = 0;
            while j < items.len()
                invariant
                    j <= items.len(),
                    kv == strings_view(kps@),
                    samples_view(out@) == before + section_hits(*sec, items@.take(j as int), kv),
                decreases items.len() - j,
            {
                proof {
                    lemma_section_hits_step(*sec, items@, kv, j as int);
                }
                let it = &items[j];
                let its = text_entries(&it.knowledge_points);
                assert(*it == items@[j as int]);
                assert(strings_view(its@) == item_kps(items@[j as int]));
                if kp_hit_exec(&its, kps) {
                    let smp = sample_from(sec, it);
                    let ghost mid = samples_view(out@);
                    out.push(smp);
                    assert(kp_hit(item_kps(items@[j as int]), kv));
                    assert(samples_view(out@) =~= mid.push(sample_of(*sec, items@[j as int])));
                    assert(section_hits(*sec, items@.take(j + 1), kv) =~= section_hits(*sec, items@.take(j as int), kv).push(sample_of(*sec, items@[j as int])));
                    assert(samples_view(out@) =~= before + section_hits(*sec, items@.take(j + 1), kv));
                } else {
                    assert(samples_view(out@) =~= before + section_hits(*sec, items@.take(j + 1), kv));
                }
                j = j + 1;
            }
            assert(items@.take(items.len() as int) =~= items@);
        },
    }
}

proof fn lemma_all_hits_step(secs: Seq<ExamSection>, kps: Seq<Seq<char>>, j: int)
    requires
        0 <= j < secs.len(),
    ensures
        all_hits(secs.take(j + 1), kps) == all_hits(secs.take(j), kps) + section_hits(secs[j], items_of(secs[j]), kps),
{
    assert(secs.take(j + 1).drop_last() =~= secs.take(j));
}

/// The first eight questions of the paper whose knowledge points meet `kps`.
fn first_hits(paper: &ExamPaper, kps: &Vec<String>) -> (r: Vec<WrongSample>)
    ensures
        samples_view(r@) == first_eight(all_hits(sections_of(*paper), strings_view(kps@))),
{
    let ghost kv = strings_view(kps@);
    let mut out: Vec<WrongSample> = Vec::new();
    match &paper.sections {
        None => {
            assert(samples_view(out@) =~= Seq::<SampleView>::empty());
        },
        Some(secs) => {
            assert(secs@.take(0) =~= Seq::<ExamSection>::empty());
            assert(samples_view(out@) =~= all_hits(secs@.take(0), kv));
            let mut j: usize = 0;
            while j < secs.len()
                invariant
                    j <= secs.len(),
                    kv == strings_view(kps@),
                    samples_view(out@) == all_hits(secs@.take(j as int), kv),
                decreases secs.len() - j,
            {
                proof {
                    lemma_all_hits_step(secs@, kv, j as int);
                }
                push_section_hits(&mut out, &secs[j], kps);
                j = j + 1;
            }
            assert(secs@.take(secs.len() as int) =~= secs@);
        },
    }
    let ghost all = samples_view(out@);
    out.truncate(8);
    assert(samples_view(out@) =~= first_eight(all));
    out
}

/// The wrong questions and knowledge points a review or a re-drill is built
/// from (see `collected`).
pub fn collect_wrong_payload(paper: &ExamPaper, wrong_items: &Vec<WrongItemRef>, knowledge_points: &Vec<String>) -> (r: (Vec<WrongSample>, Vec<String>))
    ensures
        samples_view(r.0@) == collected(*paper, wrong_items@, strings_view(knowledge_points@)).0,
        strings_view(r.1@) == collected(*paper, wrong_items@, strings_view(knowledge_points@)).1,
{
    let (out, kps) = wrong_pass_exec(paper, wrong_items, knowledge_points);
    if out.len() == 0 && kps.len() > 0 {
        let hits = first_hits(paper, &kps);
        (hits, kps)
    } else {
        (out, kps)
    }
}

/// One stage of a review lesson.
#[derive(Debug, Clone)]
pub struct ReviewStage {
    pub stage: String,
    pub minutes: u32,
    pub content: String,
    pub teacher_activity: String,
    pub student_activity: String,
}

/// What a review lesson says about one knowledge point.
#[derive(Debug, Clone)]
pub struct ReviewPoint {
    pub knowledge_point: String,
    pub error_pattern: String,
    pub key_explain: String,
    pub board_note: String,
    pub practice: Vec<String>,
    pub minutes: u32,
}

/// The heading of a review outline.
#[derive(Debug, Clone)]
pub struct ReviewMeta {
    pub title: String,
    pub subject: String,
    pub grade: u8,
    pub source: String,
    pub duration_min: u32,
}

/// A review outline (讲评提纲).
#[derive(Debug, Clone)]
pub struct ReviewOutline {
    pub kind: String,
    pub meta: ReviewMeta,
    pub overview: String,
    pub knowledge_focus: Vec<String>,
    pub wrong_samples: Vec<String>,
    pub process: Vec<ReviewStage>,
    pub points: Vec<ReviewPoint>,
    pub homework: Vec<String>,
    pub reflection: String,
}

/// The first `n` characters of `s` (all of them when it is shorter).
pub open spec fn prefix_chars(s: Seq<char>, n: nat) -> Seq<char> {
    if s.len() <= n {
        s
    } else {
        s.take(n as int)
    }
}

/// What a review or a re-drill is said to focus on.
pub open spec fn focus_text(kps: Seq<Seq<char>>) -> Seq<char> {
    if kps.len() == 0 {
        "错题共性问题"@
    } else {
        crate::text::join(kps, "、"@)
    }
}

pub open spec fn stage_is(s: ReviewStage, stage: Seq<char>, minutes: u32, content: Seq<char>, teacher: Seq<char>, student: Seq<char>) -> bool {
    s.stage@ == stage && s.minutes == minutes && s.content@ == content && s.teacher_activity@ == teacher && s.student_activity@ == student
}

pub open spec fn point_is(p: ReviewPoint, kp: Seq<char>, error: Seq<char>, explain: Seq<char>, board: Seq<char>, practice: Seq<Seq<char>>, minutes: u32) -> bool {
    p.knowledge_point@ == kp && p.error_pattern@ == error && p.key_explain@ == explain && p.board_note@ == board
        && strings_view(p.practice@) == practice && p.minutes == minutes
}

/// The point a local outline gives a knowledge point.
pub open spec fn kp_point(p: ReviewPoint, kp: Seq<char>) -> bool {
    point_is(
        p,
        kp,
        "学生对「"@ + kp + "」掌握不牢固，易出现概念混淆或步骤遗漏。"@,
        "回扣定义/算理，板书示范「"@ + kp + "」的标准过程。"@,
        "重点："@ + kp,
        seq!["再练 2 道与「"@ + kp + "」同类变式题"@, "口述解题步骤，同伴互查"@],
        8,
    )
}

/// The one point of a local outline without knowledge points.
pub open spec fn general_point(p: ReviewPoint) -> bool {
    point_is(
        p,
        "综合错题"@,
        "审题不清、步骤不完整、计算失误。"@,
        "先读题找关键词，再列式/列步骤，最后检验。"@,
        "审题 → 列式 → 检验"@,
        seq!["同型再练 1 题"@, "错题订正并写一句反思"@],
        10,
    )
}

/// The review outline laid out without a model.
pub open spec fn local_outline_ok(r: ReviewOutline, title: Seq<char>, subject: Seq<char>, grade: u8, kps: Seq<Seq<char>>, items: Seq<SampleView>) -> bool {
    &&& r.kind@ == "reviewOutline"@
    &&& r.meta.title@ == title + " · 作业讲评提纲"@
    &&& r.meta.subject@ == subject
    &&& r.meta.grade == grade
    &&& r.meta.source@ == "local-template"@
    &&& r.meta.duration_min == 40
    &&& r.overview@ == "本节针对 "@ + focus_text(kps) + " 等知识点进行集中讲评，建议用时约 40 分钟。"@
    &&& strings_view(r.knowledge_focus@) == kps
    &&& r.wrong_samples@.len() == if items.len() <= 5 { items.len() } else { 5 }
    &&& forall|i: int| 0 <= i < r.wrong_samples@.len() ==> #[trigger] r.wrong_samples@[i]@ == prefix_chars(items[i].1, 40)
    &&& r.process@.len() == 4
    &&& stage_is(r.process@[0], "导入回顾"@, 5, "公布共性问题与目标，明确本节要突破的 2～3 个点。"@, "展示错因统计（或口述高频错点）"@, "对照自己错题，标记同类错误"@)
    &&& stage_is(r.process@[1], "逐点讲评"@, 20, "按知识点拆解错因，示范规范解法，学生口述复述。"@, "板书关键步骤，对比正确与错误样例"@, "订正错题，补写步骤"@)
    &&& stage_is(r.process@[2], "变式巩固"@, 10, "每点 1～2 道变式，当堂反馈。"@, "巡视、点拨"@, "限时完成并互批"@)
    &&& stage_is(r.process@[3], "小结与作业"@, 5, "归纳易错清单；布置订正与少量巩固题。"@, "总结三句话"@, "整理错题本"@)
    &&& if kps.len() == 0 {
        r.points@.len() == 1 && general_point(r.points@[0])
    } else {
        r.points@.len() == kps.len() && forall|i: int| 0 <= i < kps.len() ==> kp_point(#[trigger] r.points@[i], kps[i])
    }
    &&& strings_view(r.homework@) == seq!["错题完整订正（写清步骤与错因）"@, "每类知识点再练 1～2 道"@, "家长/同桌抽查口述算理或关键词"@]
    &&& r.reflection@ == "记录仍未掌握的学生名单，下节课前 5 分钟再测。"@
}

/// The first `n` characters of `s`.
fn prefix_of(s: &String, n: usize) -> (r: String)
    ensures
        r@ == prefix_chars(s@, n as nat),
{
    let v = crate::text::chars_of(s.as_str());
    if v.len() <= n {
        crate::text::string_of(&v)
    } else {
        crate::text::string_of_range(&v, 0, n)
    }
}

fn focus_chars(kps: &Vec<String>) -> (r: Vec<char>)
    ensures
        r@ == focus_text(strings_view(kps@)),
{
    if kps.len() == 0 {
        crate::text::chars_of("错题共性问题")
    } else {
        let mut v: Vec<char> = Vec::new();
        crate::text::push_join(&mut v, kps, "、");
        v
    }
}

fn framed(pre: &str, mid: &str, post: &str) -> (r: String)
    ensures
        r@ == pre@ + mid@ + post@,
{
    let mut v = crate::text::chars_of(pre);
    crate::text::extend_chars(&mut v, mid);
    crate::text::extend_chars(&mut v, post);
    crate::text::string_of(&v)
}

fn new_stage(stage: &str, minutes: u32, content: &str, teacher: &str, student: &str) -> (r: ReviewStage)
    ensures
        stage_is(r, stage@, minutes, content@, teacher@, student@),
{
    ReviewStage {
        stage: lit(stage),
        minutes,
        content: lit(content),
        teacher_activity: lit(teacher),
        student_activity: lit(student),
    }
}

fn lits2(a: String, b: &str) -> (r: Vec<String>)
    ensures
        strings_view(r@) == seq![a@, b@],
{
    let r = vec![a, lit(b)];
    assert(strings_view(r@) =~= seq![a@, b@]);
    r
}

fn point_of(kp: &String) -> (r: ReviewPoint)
    ensures
        kp_point(r, kp@),
{
    let mut board = crate::text::chars_of("重点：");
    crate::text::extend_chars(&mut board, kp.as_str());
    ReviewPoint {
        knowledge_point: kp.clone(),
        error_pattern: framed("学生对「", kp.as_str(), "」掌握不牢固，易出现概念混淆或步骤遗漏。"),
        key_explain: framed("回扣定义/算理，板书示范「", kp.as_str(), "」的标准过程。"),
        board_note: crate::text::string_of(&board),
        practice: lits2(framed("再练 2 道与「", kp.as_str(), "」同类变式题"), "口述解题步骤，同伴互查"),
        minutes: 8,
    }
}

/// The review outline laid out without a model (see `local_outline_ok`).
pub fn local_template(title: &str, subject: &str, grade: u8, kps: &Vec<String>, items: &Vec<WrongSample>) -> (r: ReviewOutline)
    ensures
        local_outline_ok(r, title@, subject@, grade, strings_view(kps@), samples_view(items@)),
{
    let mut points: Vec<ReviewPoint> = Vec::new();
    let mut i: usize = 0;
    while i < kps.len()
        invariant
            i <= kps.len(),
            points@.len() == i,
            forall|j: int| 0 <= j < i ==> kp_point(#[trigger] points@[j], kps@[j]@),
        decreases kps.len() - i,
    {
        points.push(point_of(&kps[i]));
        i = i + 1;
    }
    if points.len() == 0 {
        points.push(ReviewPoint {
            knowledge_point: lit("综合错题"),
            error_pattern: lit("审题不清、步骤不完整、计算失误。"),
            key_explain: lit("先读题找关键词，再列式/列步骤，最后检验。"),
            board_note: lit("审题 → 列式 → 检验"),
            practice: lits2(lit("同型再练 1 题"), "错题订正并写一句反思"),
            minutes: 10,
        });
    }
    let mut samples: Vec<String> = Vec::new();
    let mut k: usize = 0;
    while k < items.len() && k < 5
        invariant
            k <= items.len(),
            k <= 5,
            samples@.len() == k,
            forall|j: int| 0 <= j < k ==> #[trigger] samples@[j]@ == prefix_chars(samples_view(items@)[j].1, 40),
        decreases items.len() - k,
    {
        samples.push(prefix_of(&items[k].stem, 40));
        k = k + 1;
    }
    let focus = focus_chars(kps);
    let mut overview = crate::text::chars_of("本节针对 ");
    crate::text::extend_vec(&mut overview, &focus);
    crate::text::extend_chars(&mut overview, " 等知识点进行集中讲评，建议用时约 40 分钟。");
    let mut t = crate::text::chars_of(title);
    crate::text::extend_chars(&mut t, " · 作业讲评提纲");
    let mut focus_list: Vec<String> = Vec::new();
    crate::templates::copy_strings(&mut focus_list, kps);
    let homework = vec![
        lit("错题完整订正（写清步骤与错因）"),
        lit("每类知识点再练 1～2 道"),
        lit("家长/同桌抽查口述算理或关键词"),
    ];
    let r = ReviewOutline {
        kind: lit("reviewOutline"),
        meta: ReviewMeta {
            title: crate::text::string_of(&t),
            subject: lit(subject),
            grade,
            source: lit("local-template"),
            duration_min: 40,
        },
        overview: crate::text::string_of(&overview),
        knowledge_focus: focus_list,
        wrong_samples: samples,
        process: vec![
            new_stage("导入回顾", 5, "公布共性问题与目标，明确本节要突破的 2～3 个点。", "展示错因统计（或口述高频错点）", "对照自己错题，标记同类错误"),
            new_stage("逐点讲评", 20, "按知识点拆解错因，示范规范解法，学生口述复述。", "板书关键步骤，对比正确与错误样例", "订正错题，补写步骤"),
            new_stage("变式巩固", 10, "每点 1～2 道变式，当堂反馈。", "巡视、点拨", "限时完成并互批"),
            new_stage("小结与作业", 5, "归纳易错清单；布置订正与少量巩固题。", "总结三句话", "整理错题本"),
        ],
        points,
        homework,
        reflection: lit("记录仍未掌握的学生名单，下节课前 5 分钟再测。"),
    };
    assert(strings_view(r.homework@) =~= seq!["错题完整订正（写清步骤与错因）"@, "每类知识点再练 1～2 道"@, "家长/同桌抽查口述算理或关键词"@]);
    assert(strings_view(r.knowledge_focus@) =~= strings_view(kps@));
    r
}

/// What a re-drill paper is built from, once the paper has been read.
#[derive(Debug, Clone)]
pub struct RedrillContext {
    pub title: String,
    pub subject: String,
    pub edition: String,
    pub semester: String,
    pub grade: u8,
    pub total_score: u32,
    pub duration_min: u32,
    pub knowledge_points: Vec<String>,
    pub samples: Vec<WrongSample>,
}

/// How many practice questions a local re-drill paper has.
pub open spec fn drill_count(kps_len: nat, items_len: nat) -> nat {
    if items_len > 0 {
        if items_len <= 6 { items_len } else { 6 }
    } else {
        if kps_len <= 5 { kps_len } else { 5 }
    }
}

/// The marks of each practice question: half the full marks shared out,
/// and at least 2.
pub open spec fn each_score(total: u32, m: nat) -> nat {
    let n: nat = if m == 0 { 1 } else { m };
    let each: nat = ((total / 2) as nat) / n;
    if each < 2 { 2 } else { each }
}

/// The marks of the practice section.
pub open spec fn first_section_score(total: u32, m: nat) -> nat {
    each_score(total, m) * if m == 0 { 1nat } else { m }
}

/// The marks of the closing question: what is left, or 0.
pub open spec fn second_section_score(total: u32, m: nat) -> nat {
    if total >= first_section_score(total, m) {
        (total - first_section_score(total, m)) as nat
    } else {
        0
    }
}

pub open spec fn ordinal(i: int) -> Seq<char> {
    nat_to_seq((i + 1) as nat)
}

/// The `i`-th practice question of a local re-drill paper.
pub open spec fn drill_item_ok(it: DraftItem, i: int, focus: Seq<char>, kps: Seq<Seq<char>>, items: Seq<SampleView>, each: nat) -> bool {
    if items.len() > 0 {
        item_is(
            it,
            "1-"@ + ordinal(i),
            ordinal(i) + ". 变式巩固：针对「"@ + focus + "」再练一题（原题参考："@ + prefix_chars(items[i].1, 80) + "…）。请独立完成。"@,
            Seq::empty(),
            "（教师按知识点自拟标准答案，或改用 AI 生成完整再练卷）"@,
            "本地模板：建议配置 API 后重新生成完整变式题"@,
            each as u32,
            items[i].4,
        )
    } else {
        item_is(
            it,
            "1-"@ + ordinal(i),
            ordinal(i) + ". 关于「"@ + kps[i] + "」：请完成一道同类基础题并写出步骤。"@,
            Seq::empty(),
            "略"@,
            Seq::empty(),
            each as u32,
            seq![kps[i]],
        )
    }
}

/// The re-drill paper laid out without a model.
pub open spec fn local_redrill_ok(r: DraftPaper, c: RedrillContext) -> bool {
    let kps = strings_view(c.knowledge_points@);
    let items = samples_view(c.samples@);
    let focus = focus_text(kps);
    let m = drill_count(kps.len(), items.len());
    let s1 = first_section_score(c.total_score, m);
    let s2 = second_section_score(c.total_score, m);
    &&& r.meta.edition@ == c.edition@
    &&& r.meta.subject@ == c.subject@
    &&& r.meta.grade == c.grade
    &&& r.meta.semester@ == c.semester@
    &&& r.meta.exam_type@ == "错题再练"@
    &&& r.meta.title@ == c.title@ + " · 错题再练"@
    &&& r.meta.total_score == c.total_score
    &&& r.meta.duration_min == c.duration_min
    &&& r.meta.source@ == "local-redrill"@
    &&& r.meta.template_id is None
    &&& r.meta.template_name is None
    &&& r.sections@.len() == 2
    &&& r.sections@[0].section_type@ == "mixed"@
    &&& r.sections@[0].title@ == "一、变式巩固（共"@ + nat_to_seq(s1) + "分）"@
    &&& r.sections@[0].score == s1
    &&& r.sections@[0].items@.len() == m
    &&& forall|i: int| 0 <= i < m ==> drill_item_ok(#[trigger] r.sections@[0].items@[i], i, focus, kps, items, each_score(c.total_score, m))
    &&& r.sections@[1].section_type@ == "problem"@
    &&& r.sections@[1].title@ == "二、综合一题（共"@ + nat_to_seq(s2) + "分）"@
    &&& r.sections@[1].score == s2
    &&& r.sections@[1].items@.len() == 1
    &&& item_is(
        r.sections@[1].items@[0],
        "2-1"@,
        "结合「"@ + focus + "」，独立完成一道稍综合的题，写出完整过程。"@,
        Seq::empty(),
        "略"@,
        Seq::empty(),
        s2 as u32,
        kps,
    )
}

fn numbered(pre: &str, n: u32, post: &str) -> (r: String)
    ensures
        r@ == pre@ + nat_to_seq(n as nat) + post@,
{
    let mut v = crate::text::chars_of(pre);
    push_nat_digits(&mut v, n as u128);
    crate::text::extend_chars(&mut v, post);
    crate::text::string_of(&v)
}

fn no_strings() -> (r: Vec<String>)
    ensures
        strings_view(r@) == Seq::<Seq<char>>::empty(),
{
    let r: Vec<String> = Vec::new();
    assert(strings_view(r@) =~= Seq::<Seq<char>>::empty());
    r
}

fn drill_item(i: usize, focus: &Vec<char>, kps: &Vec<String>, items: &Vec<WrongSample>, each: u32) -> (r: DraftItem)
    requires
        i < 6,
        items.len() > 0 ==> i < items.len(),
        items.len() == 0 ==> i < kps.len(),
    ensures
        drill_item_ok(r, i as int, focus@, strings_view(kps@), samples_view(items@), each as nat),
{
    let k: u32 = (i + 1) as u32;
    let id = numbered("1-", k, "");
    let mut stem = crate::text::chars_of("");
    push_nat_digits(&mut stem, k as u128);
    if items.len() > 0 {
        crate::text::extend_chars(&mut stem, ". 变式巩固：针对「");
        crate::text::extend_vec(&mut stem, focus);
        crate::text::extend_chars(&mut stem, "」再练一题（原题参考：");
        let p = prefix_of(&items[i].stem, 80);
        crate::text::extend_chars(&mut stem, p.as_str());
        crate::text::extend_chars(&mut stem, "…）。请独立完成。");
        let mut kp: Vec<String> = Vec::new();
        crate::templates::copy_strings(&mut kp, &items[i].knowledge_points);
        proof {
            reveal_strlit("");
            assert(strings_view(kp@) =~= strings_view(items@[i as int].knowledge_points@));
            assert(id@ =~= "1-"@ + ordinal(i as int));
        }
        new_item(
            id,
            crate::text::string_of(&stem),
            no_strings(),
            lit("（教师按知识点自拟标准答案，或改用 AI 生成完整再练卷）"),
            lit("本地模板：建议配置 API 后重新生成完整变式题"),
            each,
            kp,
        )
    } else {
        crate::text::extend_chars(&mut stem, ". 关于「");
        crate::text::extend_chars(&mut stem, kps[i].as_str());
        crate::text::extend_chars(&mut stem, "」：请完成一道同类基础题并写出步骤。");
        let kp = vec![kps[i].clone()];
        proof {
            reveal_strlit("");
            assert(strings_view(kp@) =~= seq![strings_view(kps@)[i as int]]);
            assert(id@ =~= "1-"@ + ordinal(i as int));
        }
        new_item(
            id,
            crate::text::string_of(&stem),
            no_strings(),
            lit("略"),
            String::new(),
            each,
            kp,
        )
    }
}

/// The re-drill paper laid out without a model (see `local_redrill_ok`).
pub fn local_redrill(c: &RedrillContext) -> (r: DraftPaper)
    ensures
        local_redrill_ok(r, *c),
{
    let ghost kps = strings_view(c.knowledge_points@);
    let ghost items = samples_view(c.samples@);
    let focus = focus_chars(&c.knowledge_points);
    let m: usize = if c.samples.len() > 0 {
        if c.samples.len() <= 6 { c.samples.len() } else { 6 }
    } else {
        if c.knowledge_points.len() <= 5 { c.knowledge_points.len() } else { 5 }
    };
    let n: u32 = if m == 0 { 1 } else { m as u32 };
    let each0: u32 = (c.total_score / 2) / n;
    let each: u32 = if each0 < 2 { 2 } else { each0 };
    proof {
        let t: int = (c.total_score / 2) as int;
        let ni: int = n as int;
        assert(t / ni * ni <= t) by (nonlinear_arith)
            requires ni >= 1, t >= 0;
        assert(each0 * n <= t) by (nonlinear_arith)
            requires each0 == t / ni, ni == n, ni >= 1, t >= 0, t / ni * ni <= t;
        assert(each * n <= 0xffff_ffff) by (nonlinear_arith)
            requires each == (if each0 < 2 { 2 } else { each0 }), each0 * n <= t, t <= 0xffff_ffff, n <= 6;
    }
    let s1: u32 = each * n;
    let s2: u32 = if c.total_score >= s1 { c.total_score - s1 } else { 0 };
    let mut drill: Vec<DraftItem> = Vec::new();
    let mut i: usize = 0;
    while i < m
        invariant
            i <= m,
            m <= 6,
            c.samples.len() > 0 ==> m <= c.samples.len(),
            c.samples.len() == 0 ==> m <= c.knowledge_points.len(),
            drill@.len() == i,
            kps == strings_view(c.knowledge_points@),
            items == samples_view(c.samples@),
            forall|j: int| 0 <= j < i ==> drill_item_ok(#[trigger] drill@[j], j, focus@, kps, items, each as nat),
        decreases m - i,
    {
        drill.push(drill_item(i, &focus, &c.knowledge_points, &c.samples, each));
        i = i + 1;
    }
    let focus_s = crate::text::string_of(&focus);
    let mut all_kps: Vec<String> = Vec::new();
    crate::templates::copy_strings(&mut all_kps, &c.knowledge_points);
    proof {
        assert(strings_view(all_kps@) =~= kps);
    }
    let last = new_item(
        lit("2-1"),
        framed("结合「", focus_s.as_str(), "」，独立完成一道稍综合的题，写出完整过程。"),
        no_strings(),
        lit("略"),
        String::new(),
        s2,
        all_kps,
    );
    let mut title = crate::text::chars_of(c.title.as_str());
    crate::text::extend_chars(&mut title, " · 错题再练");
    let r = DraftPaper {
        meta: DraftMeta {
            edition: c.edition.clone(),
            subject: c.subject.clone(),
            grade: c.grade,
            semester: c.semester.clone(),
            exam_type: lit("错题再练"),
            title: crate::text::string_of(&title),
            total_score: c.total_score,
            duration_min: c.duration_min,
            source: lit("local-redrill"),
            template_id: None,
            template_name: None,
        },
        sections: vec![
            DraftSection {
                section_type: lit("mixed"),
                title: numbered("一、变式巩固（共", s1, "分）"),
                score: s1,
                items: drill,
            },
            DraftSection {
                section_type: lit("problem"),
                title: numbered("二、综合一题（共", s2, "分）"),
                score: s2,
                items: vec![last],
            },
        ],
    };
    proof {
        assert(m == drill_count(kps.len(), items.len()));
        assert(each == each_score(c.total_score, m as nat));
        assert(s1 == first_section_score(c.total_score, m as nat));
        assert(s2 == second_section_score(c.total_score, m as nat));
    }
    r
}

/// A text field of the paper, or `d` when it is missing.
pub open spec fn or_default(o: Option<String>, d: Seq<char>) -> Seq<char> {
    match o {
        Some(s) => s@,
        None => d,
    }
}

/// The grade the paper gives, cut to a byte as the original reads it (0 when missing).
pub open spec fn paper_grade(o: Option<JsonNumber>) -> u8 {
    match number_unsigned(o) {
        Some(g) => (g % 256) as u8,
        None => 0,
    }
}

pub open spec fn used_title(paper: ExamPaper) -> Seq<char> {
    or_default(paper.meta.title, "本套试卷"@)
}

/// The subject asked for, or the paper's, or `学科`.
pub open spec fn used_subject(paper: ExamPaper, subject: Seq<char>) -> Seq<char> {
    if subject.len() == 0 {
        or_default(paper.meta.subject, "学科"@)
    } else {
        subject
    }
}

/// The grade asked for, or the paper's when none (0) is asked for.
pub open spec fn used_grade(paper: ExamPaper, grade: u8) -> u8 {
    if grade == 0 {
        paper_grade(paper.meta.grade)
    } else {
        grade
    }
}

fn or_default_of(o: &Option<String>, d: &str) -> (r: String)
    ensures
        r@ == or_default(*o, d@),
{
    match o {
        Some(s) => s.clone(),
        None => lit(d),
    }
}

fn paper_grade_of(o: &Option<JsonNumber>) -> (r: u8)
    ensures
        r == paper_grade(*o),
{
    match o {
        Some(n) => match n.unsigned {
            Some(g) => (g % 256) as u8,
            None => 0,
        },
        None => 0,
    }
}

/// The title, subject and grade a review or re-drill is written for.
fn heading(paper: &ExamPaper, subject: &String, grade: u8) -> (r: (String, String, u8))
    ensures
        r.0@ == used_title(*paper),
        r.1@ == used_subject(*paper, subject@),
        r.2 == used_grade(*paper, grade),
{
    let title = or_default_of(&paper.meta.title, "本套试卷");
    let sv = crate::text::chars_of(subject.as_str());
    let sub = if sv.len() == 0 { or_default_of(&paper.meta.subject, "学科") } else { subject.clone() };
    let g = if grade == 0 { paper_grade_of(&paper.meta.grade) } else { grade };
    (title, sub, g)
}

/// What a review outline is built from, once the paper has been read.
#[derive(Debug, Clone)]
pub struct ReviewContext {
    pub title: String,
    pub subject: String,
    pub grade: u8,
    pub knowledge_points: Vec<String>,
    pub samples: Vec<WrongSample>,
}

pub open spec fn review_ctx_ok(c: ReviewContext, req: ReviewRequest) -> bool {
    let got = collected(req.paper, req.wrong_items@, strings_view(req.knowledge_points@));
    &&& c.title@ == used_title(req.paper)
    &&& c.subject@ == used_subject(req.paper, req.subject@)
    &&& c.grade == used_grade(req.paper, req.grade)
    &&& strings_view(c.knowledge_points@) == got.1
    &&& samples_view(c.samples@) == got.0
}

pub open spec fn redrill_ctx_ok(c: RedrillContext, req: RedrillRequest) -> bool {
    let got = collected(req.paper, req.wrong_items@, strings_view(req.knowledge_points@));
    &&& c.title@ == used_title(req.paper)
    &&& c.subject@ == used_subject(req.paper, req.subject@)
    &&& c.grade == used_grade(req.paper, req.grade)
    &&& c.edition@ == text_or_empty(req.paper.meta.edition)
    &&& c.semester@ == text_or_empty(req.paper.meta.semester)
    &&& c.total_score == req.total_score
    &&& c.duration_min == req.duration_min
    &&& strings_view(c.knowledge_points@) == got.1
    &&& samples_view(c.samples@) == got.0
}

/// Where a review outline comes from: laid out locally, or asked of a model.
#[derive(Debug, Clone)]
pub enum ReviewStep {
    Local(ReviewOutline),
    Ask(ReviewContext),
}

/// Where a re-drill paper comes from: laid out locally, or asked of a model.
#[derive(Debug, Clone)]
pub enum RedrillStep {
    Local(DraftPaper),
    Ask(RedrillContext),
}

/// Whether nothing was picked and no knowledge point is known.
pub open spec fn nothing_to_review(req_paper: ExamPaper, refs: Seq<WrongItemRef>, kps: Seq<Seq<char>>) -> bool {
    collected(req_paper, refs, kps).0.len() == 0 && collected(req_paper, refs, kps).1.len() == 0
}

/// Starts a review outline: refused when there is nothing to review; laid out
/// locally when no model is to be asked (not wanted, or no API key); otherwise
/// what the model is to be asked about.
pub fn generate_review_outline(api_key: &str, req: &ReviewRequest) -> (r: Result<ReviewStep, String>)
    ensures
        nothing_to_review(req.paper, req.wrong_items@, strings_view(req.knowledge_points@)) <==> r is Err,
        r matches Err(e) ==> e@ == "请先勾选错题，或填写要讲评的知识点"@,
        r matches Ok(ReviewStep::Local(o)) ==> (!req.use_ai || trim(api_key@).len() == 0) && local_outline_ok(
            o,
            used_title(req.paper),
            used_subject(req.paper, req.subject@),
            used_grade(req.paper, req.grade),
            collected(req.paper, req.wrong_items@, strings_view(req.knowledge_points@)).1,
            collected(req.paper, req.wrong_items@, strings_view(req.knowledge_points@)).0,
        ),
        r matches Ok(ReviewStep::Ask(c)) ==> req.use_ai && trim(api_key@).len() > 0 && review_ctx_ok(c, *req),
{
    let (items, kps) = collect_wrong_payload(&req.paper, &req.wrong_items, &req.knowledge_points);
    if items.len() == 0 && kps.len() == 0 {
        return Err(lit("请先勾选错题，或填写要讲评的知识点"));
    }
    let (title, subject, grade) = heading(&req.paper, &req.subject, req.grade);
    let key = crate::text::chars_of(trim_str(api_key).as_str());
    if !req.use_ai || key.len() == 0 {
        return Ok(ReviewStep::Local(local_template(title.as_str(), subject.as_str(), grade, &kps, &items)));
    }
    Ok(ReviewStep::Ask(ReviewContext { title, subject, grade, knowledge_points: kps, samples: items }))
}

/// Starts a re-drill paper: refused when there is nothing to drill; laid out
/// locally when there is no API key; otherwise what the model is to be asked
/// about.
pub fn generate_redrill_paper(api_key: &str, req: &RedrillRequest) -> (r: Result<RedrillStep, String>)
    ensures
        nothing_to_review(req.paper, req.wrong_items@, strings_view(req.knowledge_points@)) <==> r is Err,
        r matches Err(e) ==> e@ == "请先勾选错题或填写知识点，再生成再练卷"@,
        r matches Ok(RedrillStep::Local(p)) ==> trim(api_key@).len() == 0 && exists|c: RedrillContext| #[trigger] redrill_ctx_ok(c, *req) && local_redrill_ok(p, c),
        r matches Ok(RedrillStep::Ask(c)) ==> trim(api_key@).len() > 0 && redrill_ctx_ok(c, *req),
{
    let (items, kps) = collect_wrong_payload(&req.paper, &req.wrong_items, &req.knowledge_points);
    if items.len() == 0 && kps.len() == 0 {
        return Err(lit("请先勾选错题或填写知识点，再生成再练卷"));
    }
    let (title, subject, grade) = heading(&req.paper, &req.subject, req.grade);
    let c = RedrillContext {
        title,
        subject,
        edition: opt_text(&req.paper.meta.edition),
        semester: opt_text(&req.paper.meta.semester),
        grade,
        total_score: req.total_score,
        duration_min: req.duration_min,
        knowledge_points: kps,
        samples: items,
    };
    let key = crate::text::chars_of(trim_str(api_key).as_str());
    if key.len() == 0 {
        let p = local_redrill(&c);
        assert(redrill_ctx_ok(c, *req));
        return Ok(RedrillStep::Local(p));
    }
    Ok(RedrillStep::Ask(c))
}

/// Whether a model's review outline is kept: it has a process or points.
pub fn keep_model_outline(has_process: bool, has_points: bool) -> (r: bool)
    ensures
        r == (has_process || has_points),
{
    has_process || has_points
}

/// Whether a model's re-drill paper is kept: it has a heading and sections.
pub fn keep_model_paper(has_meta: bool, has_sections: bool) -> (r: bool)
    ensures
        r == (has_meta && has_sections),
{
    has_meta && has_sections
}

/// The knowledge points as a prompt states them.
pub open spec fn kp_line(kps: Seq<Seq<char>>) -> Seq<char> {
    if kps.len() == 0 {
        "（见错题）"@
    } else {
        crate::text::join(kps, "、"@)
    }
}

fn kp_line_chars(kps: &Vec<String>) -> (r: Vec<char>)
    ensures
        r@ == kp_line(strings_view(kps@)),
{
    if kps.len() == 0 {
        crate::text::chars_of("（见错题）")
    } else {
        let mut v: Vec<char> = Vec::new();
        crate::text::push_join(&mut v, kps, "、");
        v
    }
}

pub open spec fn review_system_prompt() -> Seq<char> {
    "你是小学一线教师，擅长作业讲评。请只输出一份 JSON（不要 markdown）：\n{\n  \"kind\": \"reviewOutline\",\n  \"meta\": {\n    \"title\": \"讲评稿标题\",\n    \"subject\": \"学科\",\n    \"grade\": 年级数字,\n    \"durationMin\": 40,\n    \"source\": \"ai\"\n  },\n  \"overview\": \"本节讲评总述（2～4 句）\",\n  \"knowledgeFocus\": [\"知识点1\"],\n  \"wrongSamples\": [\"错题摘要1\"],\n  \"process\": [\n    {\n      \"stage\": \"环节名\",\n      \"minutes\": 8,\n      \"content\": \"环节内容\",\n      \"teacherActivity\": \"教师活动\",\n      \"studentActivity\": \"学生活动\"\n    }\n  ],\n  \"points\": [\n    {\n      \"knowledgePoint\": \"知识点\",\n      \"errorPattern\": \"典型错因\",\n      \"keyExplain\": \"讲解要点\",\n      \"boardNote\": \"板书要点\",\n      \"practice\": [\"变式建议1\"],\n      \"minutes\": 8\n    }\n  ],\n  \"homework\": [\"作业1\"],\n  \"reflection\": \"教后反思提示\"\n}\n要求：贴合小学课堂；过程合计约 40 分钟；每个知识点给出错因+讲法+变式；语言简洁可直接上课用。"@
}

pub open spec fn redrill_system_prompt() -> Seq<char> {
    "你是小学命题教师。请根据错题样本与知识点，生成一份「错题再练」短卷 JSON（仅 JSON）：\n{\n  \"meta\": {\n    \"edition\": \"版本\",\n    \"subject\": \"学科\",\n    \"grade\": 年级,\n    \"semester\": \"上册或下册\",\n    \"examType\": \"错题再练\",\n    \"title\": \"完整卷名（含再练）\",\n    \"totalScore\": 分值,\n    \"durationMin\": 分钟\n  },\n  \"sections\": [ /* 2～3 个大题，结构同普通试卷 */ ]\n}\n规则：\n1. 考查点紧扣给定知识点与错题，必须变式（换数/换情境），禁止原题照搬\n2. 题量适合 15～25 分钟；答案明确可批改\n3. 计算题答案为可验算数值；每题带 knowledgePoints\n4. sections 分值之和 = totalScore"@
}

/// What a model is asked for a review outline; `items_json` is the JSON
/// array of the wrong samples.
pub open spec fn review_user_prompt(c: ReviewContext, items_json: Seq<char>) -> Seq<char> {
    "年级："@ + nat_to_seq(c.grade as nat) + "\n学科："@ + c.subject@ + "\n原卷："@ + c.title@ + "\n聚焦知识点："@
        + kp_line(strings_view(c.knowledge_points@)) + "\n错题样本 JSON：\n"@ + items_json
}

/// What a model is asked for a re-drill paper.
pub open spec fn redrill_user_prompt(c: RedrillContext, items_json: Seq<char>) -> Seq<char> {
    "年级："@ + nat_to_seq(c.grade as nat) + "\n学科："@ + c.subject@ + "\n版本："@ + c.edition@ + "\n原卷："@ + c.title@
        + "\n满分："@ + nat_to_seq(c.total_score as nat) + "\n时长："@ + nat_to_seq(c.duration_min as nat) + " 分钟\n知识点："@
        + kp_line(strings_view(c.knowledge_points@)) + "\n错题样本：\n"@ + items_json + "\n请直接输出再练卷 JSON。"@
}

/// The system and user prompts for a review outline.
pub fn review_prompts(c: &ReviewContext, items_json: &str) -> (r: (String, String))
    ensures
        r.0@ == review_system_prompt(),
        r.1@ == review_user_prompt(*c, items_json@),
{
    let mut u = crate::text::chars_of("年级：");
    push_nat_digits(&mut u, c.grade as u128);
    crate::text::extend_chars(&mut u, "\n学科：");
    crate::text::extend_chars(&mut u, c.subject.as_str());
    crate::text::extend_chars(&mut u, "\n原卷：");
    crate::text::extend_chars(&mut u, c.title.as_str());
    crate::text::extend_chars(&mut u, "\n聚焦知识点：");
    let kl = kp_line_chars(&c.knowledge_points);
    crate::text::extend_vec(&mut u, &kl);
    crate::text::extend_chars(&mut u, "\n错题样本 JSON：\n");
    crate::text::extend_chars(&mut u, items_json);
    (lit("你是小学一线教师，擅长作业讲评。请只输出一份 JSON（不要 markdown）：\n{\n  \"kind\": \"reviewOutline\",\n  \"meta\": {\n    \"title\": \"讲评稿标题\",\n    \"subject\": \"学科\",\n    \"grade\": 年级数字,\n    \"durationMin\": 40,\n    \"source\": \"ai\"\n  },\n  \"overview\": \"本节讲评总述（2～4 句）\",\n  \"knowledgeFocus\": [\"知识点1\"],\n  \"wrongSamples\": [\"错题摘要1\"],\n  \"process\": [\n    {\n      \"stage\": \"环节名\",\n      \"minutes\": 8,\n      \"content\": \"环节内容\",\n      \"teacherActivity\": \"教师活动\",\n      \"studentActivity\": \"学生活动\"\n    }\n  ],\n  \"points\": [\n    {\n      \"knowledgePoint\": \"知识点\",\n      \"errorPattern\": \"典型错因\",\n      \"keyExplain\": \"讲解要点\",\n      \"boardNote\": \"板书要点\",\n      \"practice\": [\"变式建议1\"],\n      \"minutes\": 8\n    }\n  ],\n  \"homework\": [\"作业1\"],\n  \"reflection\": \"教后反思提示\"\n}\n要求：贴合小学课堂；过程合计约 40 分钟；每个知识点给出错因+讲法+变式；语言简洁可直接上课用。"), crate::text::string_of(&u))
}

/// The system and user prompts for a re-drill paper.
pub fn redrill_prompts(c: &RedrillContext, items_json: &str) -> (r: (String, String))
    ensures
        r.0@ == redrill_system_prompt(),
        r.1@ == redrill_user_prompt(*c, items_json@),
{
    let mut u = crate::text::chars_of("年级：");
    push_nat_digits(&mut u, c.grade as u128);
    crate::text::extend_chars(&mut u, "\n学科：");
    crate::text::extend_chars(&mut u, c.subject.as_str());
    crate::text::extend_chars(&mut u, "\n版本：");
    crate::text::extend_chars(&mut u, c.edition.as_str());
    crate::text::extend_chars(&mut u, "\n原卷：");
    crate::text::extend_chars(&mut u, c.title.as_str());
    crate::text::extend_chars(&mut u, "\n满分：");
    push_nat_digits(&mut u, c.total_score as u128);
    crate::text::extend_chars(&mut u, "\n时长：");
    push_nat_digits(&mut u, c.duration_min as u128);
    crate::text::extend_chars(&mut u, " 分钟\n知识点：");
    let kl = kp_line_chars(&c.knowledge_points);
    crate::text::extend_vec(&mut u, &kl);
    crate::text::extend_chars(&mut u, "\n错题样本：\n");
    crate::text::extend_chars(&mut u, items_json);
    crate::text::extend_chars(&mut u, "\n请直接输出再练卷 JSON。");
    (lit("你是小学命题教师。请根据错题样本与知识点，生成一份「错题再练」短卷 JSON（仅 JSON）：\n{\n  \"meta\": {\n    \"edition\": \"版本\",\n    \"subject\": \"学科\",\n    \"grade\": 年级,\n    \"semester\": \"上册或下册\",\n    \"examType\": \"错题再练\",\n    \"title\": \"完整卷名（含再练）\",\n    \"totalScore\": 分值,\n    \"durationMin\": 分钟\n  },\n  \"sections\": [ /* 2～3 个大题，结构同普通试卷 */ ]\n}\n规则：\n1. 考查点紧扣给定知识点与错题，必须变式（换数/换情境），禁止原题照搬\n2. 题量适合 15～25 分钟；答案明确可批改\n3. 计算题答案为可验算数值；每题带 knowledgePoints\n4. sections 分值之和 = totalScore"), crate::text::string_of(&u))
}

} // verus!
