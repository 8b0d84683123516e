//! The school bank: favourite questions and school papers kept on this
//! machine, and the snippets of favourites offered to a model as examples.
use vstd::prelude::*;
use crate::paper::{ExamPaper, ExamItem, ExamSection, items_of, sections_of, text_or_empty, number_unsigned};
use crate::text::{trim, trim_str, str_eq, str_contains, chars_of, extend_chars, string_of, strings_view, contains};
use crate::expr::{nat_to_seq, push_nat_digits};
use crate::verify::lit;
use crate::review::{string_entries, entries_of, text_entries};
use crate::store::{Kept, pushed_front, push_front_capped, without_id, has_id, remove_with_id, index_of_id, newest, sort_newest};
use crate::history::{item_total, paper_counts};

verus! {

/// A favourite question.
#[derive(Debug, Clone)]
pub struct FavoriteItem {
    pub id: String,
    pub created_at: u64,
    pub stem: String,
    pub options: Vec<String>,
    pub answer: String,
    pub analysis: String,
    /// The score, as the bit pattern of the double it was read as; carried
    /// through unread.
    pub score_bits: u64,
    pub knowledge_points: Vec<String>,
    pub section_type: String,
    pub subject: String,
    pub grade: u8,
    pub edition: String,
    pub source_title: String,
    pub tags: Vec<String>,
}

/// A school paper.
#[derive(Debug, Clone)]
pub struct BankPaper {
    pub id: String,
    pub created_at: u64,
    pub title: String,
    pub summary: String,
    pub subject: String,
    pub grade: u8,
    /// The paper, as JSON text.
    pub paper_json: String,
}

impl Kept for FavoriteItem {
    open spec fn kept_id(&self) -> Seq<char> {
        self.id@
    }

    open spec fn kept_time(&self) -> u64 {
        self.created_at
    }

    fn id_of(&self) -> (r: &str) {
        self.id.as_str()
    }

    fn time_of(&self) -> (r: u64) {
        self.created_at
    }
}

impl Kept for BankPaper {
    open spec fn kept_id(&self) -> Seq<char> {
        self.id@
    }

    open spec fn kept_time(&self) -> u64 {
        self.created_at
    }

    fn id_of(&self) -> (r: &str) {
        self.id.as_str()
    }

    fn time_of(&self) -> (r: u64) {
        self.created_at
    }
}

/// The bank file: favourites and papers.
#[derive(Debug, Clone)]
pub struct BankStore {
    pub schema_version: u32,
    pub items: Vec<FavoriteItem>,
    pub papers: Vec<BankPaper>,
}

pub open spec fn max_items() -> nat {
    500
}

pub open spec fn max_papers() -> nat {
    80
}

/// The version of the bank file written.
pub fn schema_version() -> (r: u32)
    ensures
        r == 1,
{
    1
}

impl BankStore {
    /// An empty bank.
    pub fn empty() -> (r: BankStore)
        ensures
            r.schema_version == 1,
            r.items@.len() == 0,
            r.papers@.len() == 0,
    {
        BankStore { schema_version: 1, items: Vec::new(), papers: Vec::new() }
    }
}

/// A question asked to be kept, with where it came from.
#[derive(Debug, Clone)]
pub struct AddFavoriteRequest {
    pub item: ExamItem,
    /// The bits of the double the question's score reads as (0.0 when none).
    pub score_bits: u64,
    pub section_type: String,
    pub subject: String,
    pub grade: u8,
    pub edition: String,
    pub source_title: String,
    pub tags: Vec<String>,
}

/// The favourite made from a request: the trimmed stem, the text options
/// and knowledge points, the answer and analysis, and the request's data.
pub open spec fn favorite_ok(f: FavoriteItem, req: AddFavoriteRequest, id: Seq<char>, created_at: u64) -> bool {
    &&& f.id@ == id
    &&& f.created_at == created_at
    &&& f.stem@ == trim(text_or_empty(req.item.stem))
    &&& strings_view(f.options@) == string_entries(entries_of(req.item.options))
    &&& f.answer@ == text_or_empty(req.item.answer)
    &&& f.analysis@ == text_or_empty(req.item.analysis)
    &&& f.score_bits == req.score_bits
    &&& strings_view(f.knowledge_points@) == string_entries(entries_of(req.item.knowledge_points))
    &&& f.section_type@ == req.section_type@
    &&& f.subject@ == req.subject@
    &&& f.grade == req.grade
    &&& f.edition@ == req.edition@
    &&& f.source_title@ == req.source_title@
    &&& strings_view(f.tags@) == strings_view(req.tags@)
}

fn opt_text(o: &Option<String>) -> (r: String)
    ensures
        r@ == text_or_empty(*o),
{
    match o {
        Some(s) => s.clone(),
        None => String::new(),
    }
}

fn copy_strs(v: &Vec<String>) -> (r: Vec<String>)
    ensures
        strings_view(r@) == strings_view(v@),
{
    let mut r: Vec<String> = Vec::new();
    crate::templates::copy_strings(&mut r, v);
    assert(strings_view(r@) =~= strings_view(v@));
    r
}

/// The favourite made from a request; refused when the stem is blank.
pub fn new_favorite(req: &AddFavoriteRequest, id: String, created_at: u64) -> (r: Result<FavoriteItem, String>)
    ensures
        trim(text_or_empty(req.item.stem)).len() == 0 <==> r is Err,
        r matches Err(e) ==> e@ == "题目内容为空，无法收藏"@,
        r matches Ok(f) ==> favorite_ok(f, *req, id@, created_at),
{
    let stem = trim_str(opt_text(&req.item.stem).as_str());
    if chars_of(stem.as_str()).len() == 0 {
        return Err(lit("题目内容为空，无法收藏"));
    }
    Ok(FavoriteItem {
        id,
        created_at,
        stem,
        options: text_entries(&req.item.options),
        answer: opt_text(&req.item.answer),
        analysis: opt_text(&req.item.analysis),
        score_bits: req.score_bits,
        knowledge_points: text_entries(&req.item.knowledge_points),
        section_type: req.section_type.clone(),
        subject: req.subject.clone(),
        grade: req.grade,
        edition: req.edition.clone(),
        source_title: req.source_title.clone(),
        tags: copy_strs(&req.tags),
    })
}

pub open spec fn fav_same(a: FavoriteItem, b: FavoriteItem) -> bool {
    &&& a.id@ == b.id@
    &&& a.created_at == b.created_at
    &&& a.stem@ == b.stem@
    &&& strings_view(a.options@) == strings_view(b.options@)
    &&& a.answer@ == b.answer@
    &&& a.analysis@ == b.analysis@
    &&& a.score_bits == b.score_bits
    &&& strings_view(a.knowledge_points@) == strings_view(b.knowledge_points@)
    &&& a.section_type@ == b.section_type@
    &&& a.subject@ == b.subject@
    &&& a.grade == b.grade
    &&& a.edition@ == b.edition@
    &&& a.source_title@ == b.source_title@
    &&& strings_view(a.tags@) == strings_view(b.tags@)
}

/// A copy of a favourite.
pub fn copy_favorite(f: &FavoriteItem) -> (r: FavoriteItem)
    ensures
        fav_same(r, *f),
{
    FavoriteItem {
        id: f.id.clone(),
        created_at: f.created_at,
        stem: f.stem.clone(),
        options: copy_strs(&f.options),
        answer: f.answer.clone(),
        analysis: f.analysis.clone(),
        score_bits: f.score_bits,
        knowledge_points: copy_strs(&f.knowledge_points),
        section_type: f.section_type.clone(),
        subject: f.subject.clone(),
        grade: f.grade,
        edition: f.edition.clone(),
        source_title: f.source_title.clone(),
        tags: copy_strs(&f.tags),
    }
}

/// Whether a favourite with the same stem and answer is kept.
pub open spec fn has_same_question(items: Seq<FavoriteItem>, f: FavoriteItem) -> bool {
    exists|i: int| 0 <= i < items.len() && (#[trigger] items[i]).stem@ == f.stem@ && items[i].answer@ == f.answer@
}

impl BankStore {
    /// Keeps a favourite first (at most 500 are kept); refused when a
    /// favourite with the same stem and answer is kept already.
    pub fn add_favorite(&mut self, fav: FavoriteItem) -> (r: Result<FavoriteItem, String>)
        ensures
            has_same_question(old(self).items@, fav) <==> r is Err,
            r matches Err(e) ==> e@ == "该题已在校本收藏中"@ && final(self).items@ == old(self).items@,
            r matches Ok(f) ==> fav_same(f, fav) && final(self).items@ == pushed_front(old(self).items@, fav, max_items()),
            final(self).papers@ == old(self).papers@,
            final(self).schema_version == old(self).schema_version,
    {
        let mut k: usize = 0;
        while k < self.items.len()
            invariant
                k <= self.items@.len(),
                forall|j: int| 0 <= j < k ==> !((#[trigger] self.items@[j]).stem@ == fav.stem@ && self.items@[j].answer@ == fav.answer@),
            decreases self.items@.len() - k,
        {
            if str_eq(self.items[k].stem.as_str(), fav.stem.as_str()) && str_eq(self.items[k].answer.as_str(), fav.answer.as_str()) {
                return Err(lit("该题已在校本收藏中"));
            }
            k = k + 1;
        }
        let out = copy_favorite(&fav);
        push_front_capped(&mut self.items, fav, 500);
        Ok(out)
    }

    /// Removes the favourites with an id; refused when there is none.
    pub fn delete_favorite(&mut self, id: &str) -> (r: Result<(), String>)
        ensures
            final(self).items@ == without_id(old(self).items@, id@),
            r is Ok <==> has_id(old(self).items@, id@),
            r matches Err(e) ==> e@ == "收藏不存在"@,
            final(self).papers@ == old(self).papers@,
            final(self).schema_version == old(self).schema_version,
    {
        if remove_with_id(&mut self.items, id) {
            Ok(())
        } else {
            Err(lit("收藏不存在"))
        }
    }

    /// Removes every favourite.
    pub fn clear_favorites(&mut self)
        ensures
            final(self).items@.len() == 0,
            final(self).papers@ == old(self).papers@,
            final(self).schema_version == old(self).schema_version,
    {
        self.items.clear();
    }

    /// Keeps a school paper first (at most 80 are kept).
    pub fn add_paper(&mut self, p: BankPaper)
        ensures
            final(self).papers@ == pushed_front(old(self).papers@, p, max_papers()),
            final(self).items@ == old(self).items@,
            final(self).schema_version == old(self).schema_version,
    {
        push_front_capped(&mut self.papers, p, 80);
    }

    /// Removes the school papers with an id; refused when there is none.
    pub fn delete_bank_paper(&mut self, id: &str) -> (r: Result<(), String>)
        ensures
            final(self).papers@ == without_id(old(self).papers@, id@),
            r is Ok <==> has_id(old(self).papers@, id@),
            r matches Err(e) ==> e@ == "校本卷不存在"@,
            final(self).items@ == old(self).items@,
            final(self).schema_version == old(self).schema_version,
    {
        if remove_with_id(&mut self.papers, id) {
            Ok(())
        } else {
            Err(lit("校本卷不存在"))
        }
    }

    /// The place of the school paper with an id; refused when there is none.
    pub fn find_bank_paper(&self, id: &str) -> (r: Result<usize, String>)
        ensures
            match r {
                Ok(i) => i < self.papers@.len() && self.papers@[i as int].id@ == id@ && forall|j: int| 0 <= j < i ==> (#[trigger] self.papers@[j]).id@ != id@,
                Err(e) => !has_id(self.papers@, id@) && e@ == "校本卷不存在"@,
            },
    {
        match index_of_id(&self.papers, id) {
            Some(i) => Ok(i),
            None => Err(lit("校本卷不存在")),
        }
    }
}

/// The school paper made from a paper document: refused without a
/// `sections` member; titled by its title (`导入试卷` when none) and
/// summarised by grade, subject and counts.
pub open spec fn bank_paper_ok(b: BankPaper, p: ExamPaper, paper_json: Seq<char>, id: Seq<char>, created_at: u64) -> bool {
    let grade = match number_unsigned(p.meta.grade) {
        Some(g) => (g % 256) as u8,
        None => 0u8,
    };
    &&& b.id@ == id
    &&& b.created_at == created_at
    &&& b.title@ == match p.meta.title {
        Some(t) => t@,
        None => "导入试卷"@,
    }
    &&& b.subject@ == text_or_empty(p.meta.subject)
    &&& b.grade == grade
    &&& b.summary@ == nat_to_seq(grade as nat) + "年级 · "@ + text_or_empty(p.meta.subject) + " · "@ + nat_to_seq(sections_of(p).len())
        + "大题/"@ + nat_to_seq(item_total(sections_of(p))) + "小题"@
    &&& b.paper_json@ == paper_json
}

pub fn import_bank_paper(p: &ExamPaper, has_sections: bool, paper_json: String, id: String, created_at: u64) -> (r: Result<BankPaper, String>)
    ensures
        !has_sections <==> r is Err,
        r matches Err(e) ==> e@ == "不是有效试卷 JSON（缺少 sections）"@,
        r matches Ok(b) ==> bank_paper_ok(b, *p, paper_json@, id@, created_at),
{
    if !has_sections {
        return Err(lit("不是有效试卷 JSON（缺少 sections）"));
    }
    let title = match &p.meta.title {
        Some(t) => t.clone(),
        None => lit("导入试卷"),
    };
    let subject = opt_text(&p.meta.subject);
    let grade: u8 = match &p.meta.grade {
        Some(n) => match n.unsigned {
            Some(g) => (g % 256) as u8,
            None => 0,
        },
        None => 0,
    };
    let (s, n) = paper_counts(p);
    let mut v: Vec<char> = Vec::new();
    push_nat_digits(&mut v, grade as u128);
    extend_chars(&mut v, "年级 · ");
    extend_chars(&mut v, subject.as_str());
    extend_chars(&mut v, " · ");
    push_nat_digits(&mut v, s as u128);
    extend_chars(&mut v, "大题/");
    push_nat_digits(&mut v, n);
    extend_chars(&mut v, "小题");
    Ok(BankPaper { id, created_at, title, summary: string_of(&v), subject, grade, paper_json })
}


/// The favourites, newest first.
pub fn list_favorites(store: BankStore) -> (r: Vec<FavoriteItem>)
    ensures
        r@ == newest(store.items@),
{
    sort_newest(store.items)
}

/// The school papers, newest first.
pub fn list_bank_papers(store: BankStore) -> (r: Vec<BankPaper>)
    ensures
        r@ == newest(store.papers@),
{
    sort_newest(store.papers)
}

pub open spec fn opt_view(o: Option<String>) -> Option<Seq<char>> {
    match o {
        Some(s) => Some(s@),
        None => None,
    }
}

pub open spec fn opt_list_view(o: Option<Vec<Option<String>>>) -> Option<Seq<Option<Seq<char>>>> {
    match o {
        Some(v) => Some(v@.map_values(|x: Option<String>| opt_view(x))),
        None => None,
    }
}

/// Whether two questions hold the same fields.
pub open spec fn same_item(a: ExamItem, b: ExamItem) -> bool {
    &&& opt_view(a.id) == opt_view(b.id)
    &&& opt_view(a.stem) == opt_view(b.stem)
    &&& opt_view(a.answer) == opt_view(b.answer)
    &&& a.answer_text@ == b.answer_text@
    &&& opt_view(a.analysis) == opt_view(b.analysis)
    &&& opt_list_view(a.options) == opt_list_view(b.options)
    &&& opt_list_view(a.knowledge_points) == opt_list_view(b.knowledge_points)
    &&& a.score == b.score
}

fn copy_opt(o: &Option<String>) -> (r: Option<String>)
    ensures
        opt_view(r) == opt_view(*o),
{
    match o {
        Some(s) => Some(s.clone()),
        None => None,
    }
}

fn copy_opt_list(o: &Option<Vec<Option<String>>>) -> (r: Option<Vec<Option<String>>>)
    ensures
        opt_list_view(r) == opt_list_view(*o),
{
    match o {
        None => None,
        Some(v) => {
            let mut out: Vec<Option<String>> = Vec::new();
            let mut i: usize = 0;
            while i < v.len()
                invariant
                    i <= v.len(),
                    out@.len() == i,
                    forall|j: int| 0 <= j < i ==> opt_view(#[trigger] out@[j]) == opt_view(v@[j]),
                decreases v.len() - i,
            {
                out.push(copy_opt(&v[i]));
                i = i + 1;
            }
            assert(out@.map_values(|x: Option<String>| opt_view(x)) =~= v@.map_values(|x: Option<String>| opt_view(x)));
            Some(out)
        },
    }
}

/// A copy of a question.
pub fn copy_item(it: &ExamItem) -> (r: ExamItem)
    ensures
        same_item(r, *it),
{
    ExamItem {
        id: copy_opt(&it.id),
        stem: copy_opt(&it.stem),
        answer: copy_opt(&it.answer),
        answer_text: it.answer_text.clone(),
        analysis: copy_opt(&it.analysis),
        options: copy_opt_list(&it.options),
        knowledge_points: copy_opt_list(&it.knowledge_points),
        score: it.score,
    }
}

/// The request made for question `ii` of section `si` when a paper's
/// questions are kept as favourites: the section's type, the paper's subject,
/// grade and edition, the school paper's title, and the tag `导入`.
pub open spec fn item_request_ok(r: AddFavoriteRequest, p: ExamPaper, si: int, ii: int, source_title: Seq<char>, score_bits: u64) -> bool {
    let sec = sections_of(p)[si];
    &&& same_item(r.item, items_of(sec)[ii])
    &&& r.score_bits == score_bits
    &&& r.section_type@ == text_or_empty(sec.section_type)
    &&& r.subject@ == text_or_empty(p.meta.subject)
    &&& r.grade == match number_unsigned(p.meta.grade) {
        Some(g) => (g % 256) as u8,
        None => 0u8,
    }
    &&& r.edition@ == text_or_empty(p.meta.edition)
    &&& r.source_title@ == source_title
    &&& strings_view(r.tags@) == seq!["导入"@]
}

/// A question with no field filled in.
fn blank_item() -> (r: ExamItem)
    ensures
        r.id is None,
        r.stem is None,
        r.answer is None,
        r.answer_text@.len() == 0,
        r.analysis is None,
        r.options is None,
        r.knowledge_points is None,
        r.score is None,
{
    ExamItem {
        id: None,
        stem: None,
        answer: None,
        answer_text: String::new(),
        analysis: None,
        options: None,
        knowledge_points: None,
        score: None,
    }
}

pub fn paper_item_request(p: &ExamPaper, si: usize, ii: usize, source_title: &str, score_bits: u64) -> (r: AddFavoriteRequest)
    requires
        si < sections_of(*p).len(),
        ii < items_of(sections_of(*p)[si as int]).len(),
    ensures
        item_request_ok(r, *p, si as int, ii as int, source_title@, score_bits),
{
    let (item, section_type) = match &p.sections {
        Some(secs) => {
            let sec = &secs[si];
            let t = opt_text(&sec.section_type);
            match &sec.items {
                Some(v) => (copy_item(&v[ii]), t),
                None => (blank_item(), t),
            }
        },
        None => (blank_item(), String::new()),
    };
    let grade: u8 = match &p.meta.grade {
        Some(n) => match n.unsigned {
            Some(g) => (g % 256) as u8,
            None => 0,
        },
        None => 0,
    };
    let tags = vec![lit("导入")];
    assert(strings_view(tags@) =~= seq!["导入"@]);
    AddFavoriteRequest {
        item,
        score_bits,
        section_type,
        subject: opt_text(&p.meta.subject),
        grade,
        edition: opt_text(&p.meta.edition),
        source_title: lit(source_title),
        tags,
    }
}

/// The subject's Chinese name, for the three school subjects.
pub open spec fn subject_cn(s: Seq<char>) -> Seq<char> {
    if s == "math"@ {
        "数学"@
    } else if s == "chinese"@ {
        "语文"@
    } else if s == "english"@ {
        "英语"@
    } else {
        s
    }
}

/// Whether a favourite suits a paper of `subject` and `grade`: its subject
/// is unset or matches, and its grade is unset, the same or next to it.
pub open spec fn suits(f: FavoriteItem, subject: Seq<char>, grade: u8) -> bool {
    let cn = subject_cn(subject);
    &&& (f.subject@.len() == 0 || f.subject@ == subject || f.subject@ == cn || contains(f.subject@, cn))
    &&& (f.grade == 0 || grade == 0 || f.grade == grade || (f.grade as int - grade as int) <= 1 && (grade as int - f.grade as int) <= 1)
}

pub open spec fn suiting(items: Seq<FavoriteItem>, subject: Seq<char>, grade: u8) -> Seq<FavoriteItem>
    decreases items.len(),
{
    if items.len() == 0 {
        Seq::empty()
    } else {
        let prev = suiting(items.drop_last(), subject, grade);
        if suits(items.last(), subject, grade) {
            prev.push(items.last())
        } else {
            prev
        }
    }
}

pub open spec fn prefix_chars(s: Seq<char>, n: nat) -> Seq<char> {
    if s.len() <= n {
        s
    } else {
        s.take(n as int)
    }
}

/// The snippet of a favourite: its stem (120 characters at most), its
/// knowledge points, its answer (40 characters at most).
pub open spec fn snippet(f: FavoriteItem) -> Seq<char> {
    prefix_chars(f.stem@, 120) + (if f.knowledge_points@.len() == 0 {
        Seq::empty()
    } else {
        " [知识点:"@ + crate::text::join(strings_view(f.knowledge_points@), "、"@) + "]"@
    }) + (if f.answer@.len() == 0 {
        Seq::empty()
    } else {
        " → "@ + prefix_chars(f.answer@, 40)
    })
}

/// The snippets offered as examples: of the favourites (newest first) that
/// suit the paper, or of all of them when none does, at most `limit`
/// (between 1 and 20).
pub open spec fn snippets_ok(r: Seq<Seq<char>>, items: Seq<FavoriteItem>, subject: Seq<char>, grade: u8, limit: usize) -> bool {
    let pool = if suiting(items, subject, grade).len() == 0 { items } else { suiting(items, subject, grade) };
    let n = if limit < 1 { 1nat } else if limit > 20 { 20nat } else { limit as nat };
    let m = if pool.len() <= n { pool.len() } else { n };
    &&& r.len() == m
    &&& forall|i: int| 0 <= i < m ==> #[trigger] r[i] == snippet(pool[i])
}

fn prefix_of(s: &String, n: usize) -> (r: Vec<char>)
    ensures
        r@ == prefix_chars(s@, n as nat),
{
    let v = chars_of(s.as_str());
    if v.len() <= n {
        v
    } else {
        let r = crate::text::copy_range(&v, 0, n);
        assert(r@ =~= v@.take(n as int));
        r
    }
}

fn snippet_of(f: &FavoriteItem) -> (r: String)
    ensures
        r@ == snippet(*f),
{
    let mut v = prefix_of(&f.stem, 120);
    if f.knowledge_points.len() > 0 {
        extend_chars(&mut v, " [知识点:");
        crate::text::push_join(&mut v, &f.knowledge_points, "、");
        extend_chars(&mut v, "]");
    }
    if chars_of(f.answer.as_str()).len() > 0 {
        extend_chars(&mut v, " → ");
        let a = prefix_of(&f.answer, 40);
        crate::text::extend_vec(&mut v, &a);
    }
    proof {
        assert(Seq::<char>::empty() + Seq::<char>::empty() =~= Seq::<char>::empty());
    }
    string_of(&v)
}

fn suits_exec(f: &FavoriteItem, subject: &str, grade: u8) -> (r: bool)
    ensures
        r == suits(*f, subject@, grade),
{
    let cn: &str = if str_eq(subject, "math") {
        "数学"
    } else if str_eq(subject, "chinese") {
        "语文"
    } else if str_eq(subject, "english") {
        "英语"
    } else {
        subject
    };
    let fs = f.subject.as_str();
    let sub_ok = chars_of(fs).len() == 0 || str_eq(fs, subject) || str_eq(fs, cn) || str_contains(fs, cn);
    let near = (f.grade <= grade && grade - f.grade <= 1) || (grade <= f.grade && f.grade - grade <= 1);
    let grade_ok = f.grade == 0 || grade == 0 || f.grade == grade || near;
    sub_ok && grade_ok
}

/// The snippets of favourites offered as examples (see `snippets_ok`);
/// `items` are the favourites newest first.
pub fn pick_favorite_snippets(items: &Vec<FavoriteItem>, subject: &str, grade: u8, limit: usize) -> (r: Vec<String>)
    ensures
        snippets_ok(strings_view(r@), items@, subject@, grade, limit),
{
    let ghost iv = items@;
    let mut idx: Vec<usize> = Vec::new();
    let mut i: usize = 0;
    assert(iv.take(0) =~= Seq::<FavoriteItem>::empty());
    while i < items.len()
        invariant
            i <= items.len(),
            iv == items@,
            idx@.len() == suiting(iv.take(i as int), subject@, grade).len(),
            forall|a: int| 0 <= a < idx@.len() ==> #[trigger] idx@[a] < i && suiting(iv.take(i as int), subject@, grade)[a] == iv[idx@[a] as int],
        decreases items.len() - i,
    {
        assert(iv.take(i + 1).drop_last() =~= iv.take(i as int));
        if suits_exec(&items[i], subject, grade) {
            idx.push(i);
        }
        i = i + 1;
    }
    assert(iv.take(items.len() as int) =~= iv);
    let n: usize = if limit < 1 { 1 } else if limit > 20 { 20 } else { limit };
    let ghost pool = if suiting(iv, subject@, grade).len() == 0 { iv } else { suiting(iv, subject@, grade) };
    let use_all = idx.len() == 0;
    let total = if use_all { items.len() } else { idx.len() };
    let m = if total <= n { total } else { n };
    let mut out: Vec<String> = Vec::new();
    let mut j: usize = 0;
    while j < m
        invariant
            j <= m,
            m <= total,
            iv == items@,
            use_all == (idx@.len() == 0),
            total == pool.len(),
            use_all ==> total == items@.len(),
            !use_all ==> total == idx@.len(),
            use_all ==> pool == iv,
            !use_all ==> pool == suiting(iv, subject@, grade),
            forall|a: int| 0 <= a < idx@.len() ==> #[trigger] idx@[a] < items@.len() && suiting(iv, subject@, grade)[a] == iv[idx@[a] as int],
            strings_view(out@).len() == j,
            forall|a: int| 0 <= a < j ==> #[trigger] strings_view(out@)[a] == snippet(pool[a]),
        decreases m - j,
    {
        let k = if use_all { j } else { idx[j] };
        let ghost before = strings_view(out@);
        out.push(snippet_of(&items[k]));
        assert(strings_view(out@) =~= before.push(snippet(pool[j as int])));
        j = j + 1;
    }
    out
}

} // verus!
