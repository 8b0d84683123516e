//! The history of the documents made (papers, lesson plans, review
//! outlines): what kind a document is, the title and summary it is listed
//! under, and the capped list kept newest first.
use vstd::prelude::*;
use crate::paper::{ExamPaper, items_of, sections_of, number_unsigned};
use crate::text::{contains, str_eq, str_contains, chars_of, extend_chars, string_of};
use crate::expr::{nat_to_seq, push_nat_digits};
use crate::verify::lit;
use crate::store::{Kept, pushed_front, push_front_capped, without_id, has_id, remove_with_id, index_of_id, newest, sort_newest};

verus! {

/// What the listing of a saved document reads of it: its heading and
/// sections as a paper reads them, and the members that tell its kind.
#[derive(Debug, Clone)]
pub struct DocShape {
    pub paper: ExamPaper,
    /// Whether the document has a `sections` member at all.
    pub has_sections: bool,
    /// The `kind` member, when it is text.
    pub kind: Option<String>,
    /// The number of entries of the `plans` member, when it is a list.
    pub plans: Option<usize>,
    pub has_points: bool,
    pub has_process: bool,
    pub has_knowledge_focus: bool,
    pub has_objectives: bool,
    /// `meta.examType`, `meta.unitName`, `meta.lessonName`, when text.
    pub exam_type: Option<String>,
    pub unit_name: Option<String>,
    pub lesson_name: Option<String>,
}

/// One saved document.
#[derive(Debug, Clone)]
pub struct HistoryEntry {
    pub id: String,
    pub created_at: u64,
    pub title: String,
    pub summary: String,
    /// exam | lessonPlan | lessonPlanBundle | reviewOutline | parallelSet
    pub kind: String,
    /// The document, as JSON text.
    pub paper_json: String,
    /// The form it was made from, as JSON text, if kept.
    pub form_snapshot_json: Option<String>,
}

impl Kept for HistoryEntry {
    open spec fn kept_id(&self) -> Seq<char> {
        self.id@
    }

    open spec fn kept_time(&self) -> u64 {
        self.created_at
    }

    fn id_of(&self) -> (r: &str) {
        self.id.as_str()
    }

    fn time_of(&self) -> (r: u64) {
        self.created_at
    }
}

/// The kind an entry has when nothing says otherwise.
pub fn default_kind() -> (r: String)
    ensures
        r@ == "exam"@,
{
    lit("exam")
}

pub open spec fn opt_text_is(o: Option<String>, t: Seq<char>) -> bool {
    o matches Some(s) && s@ == t
}

/// What kind a document is: the kind it names, when a known one; a bundle
/// of plans; a review outline; a lesson plan; otherwise a paper.
pub open spec fn kind_of(d: DocShape) -> Seq<char> {
    if opt_text_is(d.kind, "lessonPlan"@) || opt_text_is(d.kind, "lessonPlanBundle"@) || opt_text_is(d.kind, "reviewOutline"@)
        || opt_text_is(d.kind, "parallelSet"@) {
        d.kind->0@
    } else if d.plans is Some && (d.paper.meta.title matches Some(t) && (contains(t@, "教案"@) || contains(t@, "全课时"@))) {
        "lessonPlanBundle"@
    } else if d.plans is Some && !d.has_sections {
        "lessonPlanBundle"@
    } else if d.has_points && d.has_process && !d.has_sections && opt_text_is(d.kind, "reviewOutline"@) {
        "reviewOutline"@
    } else if d.has_knowledge_focus && !d.has_sections {
        "reviewOutline"@
    } else if d.has_process && d.has_objectives {
        "lessonPlan"@
    } else {
        "exam"@
    }
}

fn is_text(o: &Option<String>, t: &str) -> (r: bool)
    ensures
        r == opt_text_is(*o, t@),
{
    match o {
        Some(s) => str_eq(s.as_str(), t),
        None => false,
    }
}

pub fn detect_kind(d: &DocShape) -> (r: String)
    ensures
        r@ == kind_of(*d),
{
    if is_text(&d.kind, "lessonPlan") || is_text(&d.kind, "lessonPlanBundle") || is_text(&d.kind, "reviewOutline")
        || is_text(&d.kind, "parallelSet") {
        match &d.kind {
            Some(k) => return k.clone(),
            None => {},
        }
    }
    let bundle_title = match &d.paper.meta.title {
        Some(t) => str_contains(t.as_str(), "教案") || str_contains(t.as_str(), "全课时"),
        None => false,
    };
    if d.plans.is_some() && bundle_title {
        return lit("lessonPlanBundle");
    }
    if d.plans.is_some() && !d.has_sections {
        return lit("lessonPlanBundle");
    }
    if d.has_points && d.has_process && !d.has_sections && is_text(&d.kind, "reviewOutline") {
        return lit("reviewOutline");
    }
    if d.has_knowledge_focus && !d.has_sections {
        return lit("reviewOutline");
    }
    if d.has_process && d.has_objectives {
        return lit("lessonPlan");
    }
    lit("exam")
}

/// The title a document is listed under: its own, else a default by kind.
pub open spec fn entry_title(d: DocShape, kind: Seq<char>) -> Seq<char> {
    match d.paper.meta.title {
        Some(t) => t@,
        None => if kind == "lessonPlan"@ || kind == "lessonPlanBundle"@ {
            "未命名教案"@
        } else if kind == "reviewOutline"@ {
            "未命名讲评稿"@
        } else {
            "未命名试卷"@
        },
    }
}

pub open spec fn opt_or_empty(o: Option<String>) -> Seq<char> {
    match o {
        Some(s) => s@,
        None => Seq::empty(),
    }
}

/// The number of questions over the sections.
pub open spec fn item_total(secs: Seq<crate::paper::ExamSection>) -> nat
    decreases secs.len(),
{
    if secs.len() == 0 {
        0
    } else {
        item_total(secs.drop_last()) + items_of(secs.last()).len()
    }
}

/// The summary a document is listed under, by kind.
pub open spec fn entry_summary(d: DocShape, kind: Seq<char>) -> Seq<char> {
    let grade = nat_to_seq(match number_unsigned(d.paper.meta.grade) {
        Some(g) => g as nat,
        None => 0,
    });
    let subject = opt_or_empty(d.paper.meta.subject);
    if kind == "lessonPlanBundle"@ {
        grade + "年级 · "@ + subject + " · 全课时教案 · "@ + opt_or_empty(d.unit_name) + " · "@ + nat_to_seq(match d.plans {
            Some(n) => n as nat,
            None => 0,
        }) + " 课"@
    } else if kind == "lessonPlan"@ {
        grade + "年级 · "@ + subject + " · 教案 · "@ + opt_or_empty(d.unit_name) + " · "@ + opt_or_empty(d.lesson_name)
    } else if kind == "reviewOutline"@ {
        grade + "年级 · "@ + subject + " · 作业讲评提纲"@
    } else {
        grade + "年级 · "@ + subject + " · "@ + opt_or_empty(d.exam_type) + " · "@ + nat_to_seq(sections_of(d.paper).len())
            + "大题/"@ + nat_to_seq(item_total(sections_of(d.paper))) + "小题"@
    }
}

fn opt_chars(o: &Option<String>) -> (r: Vec<char>)
    ensures
        r@ == opt_or_empty(*o),
{
    match o {
        Some(s) => chars_of(s.as_str()),
        None => Vec::new(),
    }
}

/// The numbers of sections and questions of a paper.
pub fn paper_counts(p: &ExamPaper) -> (r: (usize, u128))
    ensures
        r.0 == sections_of(*p).len(),
        r.1 == item_total(sections_of(*p)),
{
    match &p.sections {
        None => (0, 0),
        Some(secs) => {
            let mut total: u128 = 0;
            let mut i: usize = 0;
            assert(secs@.take(0) =~= Seq::<crate::paper::ExamSection>::empty());
            while i < secs.len()
                invariant
                    i <= secs.len(),
                    total == item_total(secs@.take(i as int)),
                    total <= i * (usize::MAX as nat),
                decreases secs.len() - i,
            {
                assert(secs@.take(i + 1).drop_last() =~= secs@.take(i as int));
                let n: usize = match &secs[i].items {
                    Some(v) => v.len(),
                    None => 0,
                };
                assert(n == items_of(secs@[i as int]).len());
                total = total + n as u128;
                i = i + 1;
            }
            assert(secs@.take(secs.len() as int) =~= secs@);
            (secs.len(), total)
        },
    }
}

pub fn entry_summary_of(d: &DocShape, kind: &str) -> (r: String)
    ensures
        r@ == entry_summary(*d, kind@),
{
    let mut v: Vec<char> = Vec::new();
    let g: u64 = match &d.paper.meta.grade {
        Some(n) => match n.unsigned {
            Some(x) => x,
            None => 0,
        },
        None => 0,
    };
    push_nat_digits(&mut v, g as u128);
    extend_chars(&mut v, "年级 · ");
    let subject = opt_chars(&d.paper.meta.subject);
    crate::text::extend_vec(&mut v, &subject);
    if str_eq(kind, "lessonPlanBundle") {
        extend_chars(&mut v, " · 全课时教案 · ");
        crate::text::extend_vec(&mut v, &opt_chars(&d.unit_name));
        extend_chars(&mut v, " · ");
        let n: usize = match d.plans {
            Some(n) => n,
            None => 0,
        };
        push_nat_digits(&mut v, n as u128);
        extend_chars(&mut v, " 课");
    } else if str_eq(kind, "lessonPlan") {
        extend_chars(&mut v, " · 教案 · ");
        crate::text::extend_vec(&mut v, &opt_chars(&d.unit_name));
        extend_chars(&mut v, " · ");
        crate::text::extend_vec(&mut v, &opt_chars(&d.lesson_name));
    } else if str_eq(kind, "reviewOutline") {
        extend_chars(&mut v, " · 作业讲评提纲");
    } else {
        extend_chars(&mut v, " · ");
        crate::text::extend_vec(&mut v, &opt_chars(&d.exam_type));
        extend_chars(&mut v, " · ");
        let (s, n) = paper_counts(&d.paper);
        push_nat_digits(&mut v, s as u128);
        extend_chars(&mut v, "大题/");
        push_nat_digits(&mut v, n);
        extend_chars(&mut v, "小题");
    }
    string_of(&v)
}

/// The history entry made for a document.
pub open spec fn entry_ok(e: HistoryEntry, d: DocShape, paper_json: Seq<char>, form: Option<String>, id: Seq<char>, created_at: u64) -> bool {
    &&& e.id@ == id
    &&& e.created_at == created_at
    &&& e.kind@ == kind_of(d)
    &&& e.title@ == entry_title(d, kind_of(d))
    &&& e.summary@ == entry_summary(d, kind_of(d))
    &&& e.paper_json@ == paper_json
    &&& e.form_snapshot_json == form
}

pub fn new_history_entry(d: &DocShape, paper_json: String, form_snapshot_json: Option<String>, id: String, created_at: u64) -> (r: HistoryEntry)
    ensures
        entry_ok(r, *d, paper_json@, form_snapshot_json, id@, created_at),
{
    let kind = detect_kind(d);
    let title = match &d.paper.meta.title {
        Some(t) => t.clone(),
        None => {
            if str_eq(kind.as_str(), "lessonPlan") || str_eq(kind.as_str(), "lessonPlanBundle") {
                lit("未命名教案")
            } else if str_eq(kind.as_str(), "reviewOutline") {
                lit("未命名讲评稿")
            } else {
                lit("未命名试卷")
            }
        },
    };
    let summary = entry_summary_of(d, kind.as_str());
    HistoryEntry { id, created_at, title, summary, kind, paper_json, form_snapshot_json }
}

/// How many entries the history keeps: `max_keep`, or 30 when it is 0.
pub open spec fn keep_count(max_keep: usize) -> nat {
    if max_keep == 0 {
        30
    } else {
        max_keep as nat
    }
}

/// Adds an entry first, keeping at most `max_keep` entries (30 when 0).
pub fn add_history(list: &mut Vec<HistoryEntry>, entry: HistoryEntry, max_keep: usize)
    ensures
        final(list)@ == pushed_front(old(list)@, entry, keep_count(max_keep)),
{
    let keep: usize = if max_keep == 0 { 30 } else { max_keep };
    push_front_capped(list, entry, keep);
}

/// Removes the entries with an id; refused when there is none.
pub fn delete_history(list: &mut Vec<HistoryEntry>, id: &str) -> (r: Result<(), String>)
    ensures
        final(list)@ == without_id(old(list)@, id@),
        r is Ok <==> has_id(old(list)@, id@),
        r matches Err(e) ==> e@ == "历史记录不存在"@,
{
    if remove_with_id(list, id) {
        Ok(())
    } else {
        Err(lit("历史记录不存在"))
    }
}

/// The place of the entry with an id; refused when there is none.
pub fn find_history(list: &Vec<HistoryEntry>, id: &str) -> (r: Result<usize, String>)
    ensures
        match r {
            Ok(i) => i < list@.len() && list@[i as int].id@ == id@ && forall|j: int| 0 <= j < i ==> (#[trigger] list@[j]).id@ != id@,
            Err(e) => !has_id(list@, id@) && e@ == "历史记录不存在"@,
        },
{
    match index_of_id(list, id) {
        Some(i) => Ok(i),
        None => Err(lit("历史记录不存在")),
    }
}


/// The history, newest first.
pub fn list_history(list: Vec<HistoryEntry>) -> (r: Vec<HistoryEntry>)
    ensures
        r@ == newest(list@),
{
    sort_newest(list)
}

} // verus!
