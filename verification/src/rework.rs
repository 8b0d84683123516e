//! What is asked of a model once a paper exists, and what is done with the
//! answer: the quality gate of a paper from a model, the one-question
//! replacement, the parallel papers (B, C) and the A/B/C set, and how a
//! generation request takes in a chosen template.
use vstd::prelude::*;
use crate::paper::{ExamPaper, ExamSection, ExamItem, items_of, sections_of, text_or_empty};
use crate::text::{trim, trim_str, str_eq, str_contains, contains, chars_of, extend_chars, string_of, strings_view, join};
use crate::expr::{nat_to_seq, push_nat_digits};
use crate::verify::lit;
use crate::quality::{QualityReport, QualityIssue};
use crate::dzkbw::{replace_text, replace_exec};
use crate::generate::{GenerateRequest, find_unit_from, find_unit};
use crate::knowledge::KnowledgePack;
use crate::templates::{PaperTemplate, structure_line, template_structure_line};

verus! {

/// The messages of the first three issues of level `error`, in order.
pub open spec fn first_errors(issues: Seq<QualityIssue>, n: nat) -> Seq<Seq<char>>
    decreases issues.len(),
{
    if issues.len() == 0 || n == 0 {
        Seq::empty()
    } else if issues[0].level@ == "error"@ {
        seq![issues[0].message@] + first_errors(issues.drop_first(), (n - 1) as nat)
    } else {
        first_errors(issues.drop_first(), n)
    }
}

/// Accepts a paper whose report holds no error, and otherwise refuses it
/// with the messages of its first three errors.
pub fn quality_gate(report: &QualityReport) -> (r: Result<(), String>)
    ensures
        report.error_count == 0 <==> r is Ok,
        r matches Err(e) ==> e@ == "试卷未通过自动质检: "@ + join(first_errors(report.issues@, 3), "；"@),
{
    if report.error_count == 0 {
        return Ok(());
    }
    let ghost all = report.issues@;
    let mut msgs: Vec<String> = Vec::new();
    let mut k: usize = 0;
    assert(all.skip(0) =~= all);
    while k < report.issues.len() && msgs.len() < 3
        invariant
            k <= all.len(),
            all == report.issues@,
            msgs@.len() <= 3,
            strings_view(msgs@) + first_errors(all.skip(k as int), (3 - msgs@.len()) as nat) == first_errors(all, 3),
        decreases all.len() - k,
    {
        let ghost before = strings_view(msgs@);
        proof {
            assert(all.skip(k as int).drop_first() =~= all.skip(k + 1));
            assert(all.skip(k as int)[0] == all[k as int]);
        }
        if str_eq(report.issues[k].level.as_str(), "error") {
            msgs.push(report.issues[k].message.clone());
            assert(strings_view(msgs@) =~= before.push(all[k as int].message@));
            assert(before + seq![all[k as int].message@] + first_errors(all.skip(k + 1), (3 - msgs@.len()) as nat)
                =~= before + (seq![all[k as int].message@] + first_errors(all.skip(k + 1), (3 - msgs@.len()) as nat)));
        }
        k = k + 1;
    }
    proof {
        if k >= all.len() {
            assert(all.skip(k as int).len() == 0);
        }
        assert(strings_view(msgs@) + Seq::<Seq<char>>::empty() =~= strings_view(msgs@));
    }
    let mut v = chars_of("试卷未通过自动质检: ");
    crate::text::push_join(&mut v, &msgs, "；");
    Err(string_of(&v))
}

/// A request to replace one question.
#[derive(Debug, Clone)]
pub struct RegenItemRequest {
    pub paper: ExamPaper,
    pub section_index: usize,
    pub item_index: usize,
    pub knowledge_path: String,
    pub subject: String,
    pub grade: u8,
}

/// Why a question cannot be located, if it cannot.
pub open spec fn regen_locate_error(p: ExamPaper, si: int, ii: int) -> Option<Seq<char>> {
    if p.sections is None {
        Some("试卷无 sections"@)
    } else if si >= sections_of(p).len() {
        Some("大题索引无效"@)
    } else if sections_of(p)[si].items is None {
        Some("大题无 items"@)
    } else if ii >= items_of(sections_of(p)[si]).len() {
        Some("小题索引无效"@)
    } else {
        None
    }
}

pub open spec fn regen_system_prompt() -> Seq<char> {
    "你是小学命题教师。请只输出一道题的 JSON 对象（不要数组、不要 markdown）：\n{\n  \"id\": \"题号\",\n  \"stem\": \"题干\",\n  \"options\": [\"A. ..\"],\n  \"answer\": \"答案\",\n  \"analysis\": \"解析\",\n  \"score\": 分值数字,\n  \"knowledgePoints\": [\"知识点\"]\n}\n要求：与原题考查点相同、难度相当，但题干数字/情境/表述必须明显不同；禁止超纲。"@
}

pub open spec fn regen_subject(s: Seq<char>) -> Seq<char> {
    if s == "math"@ {
        "数学"@
    } else if s == "english"@ {
        "英语"@
    } else {
        "语文"@
    }
}

/// What a model is asked for a replacement question; `kps_json` is the
/// JSON of the old question's knowledge points.
pub open spec fn regen_user_prompt(req: RegenItemRequest, kps_json: Seq<char>) -> Seq<char> {
    let sec = sections_of(req.paper)[req.section_index as int];
    let old = items_of(sec)[req.item_index as int];
    "年级："@ + nat_to_seq(req.grade as nat) + " 学科："@ + regen_subject(req.subject@) + "\n大题："@ + match sec.title {
        Some(t) => t@,
        None => "题目"@,
    } + "（type="@ + text_or_empty(sec.section_type) + "）\n原题："@ + text_or_empty(old.stem) + "\n知识点："@ + kps_json
        + "\n请生成替换题。"@
}

/// The prompts for replacing a question; refused when it cannot be located.
pub fn regen_prompts(req: &RegenItemRequest, kps_json: &str) -> (r: Result<(String, String), String>)
    ensures
        match regen_locate_error(req.paper, req.section_index as int, req.item_index as int) {
            Some(e) => r matches Err(m) && m@ == e,
            None => r matches Ok(p) && p.0@ == regen_system_prompt() && p.1@ == regen_user_prompt(*req, kps_json@),
        },
{
    let secs = match &req.paper.sections {
        Some(v) => v,
        None => return Err(lit("试卷无 sections")),
    };
    if req.section_index >= secs.len() {
        return Err(lit("大题索引无效"));
    }
    let sec = &secs[req.section_index];
    let items = match &sec.items {
        Some(v) => v,
        None => return Err(lit("大题无 items")),
    };
    if req.item_index >= items.len() {
        return Err(lit("小题索引无效"));
    }
    let old = &items[req.item_index];
    let mut u = chars_of("年级：");
    push_nat_digits(&mut u, req.grade as u128);
    extend_chars(&mut u, " 学科：");
    let subj: &str = if str_eq(req.subject.as_str(), "math") {
        "数学"
    } else if str_eq(req.subject.as_str(), "english") {
        "英语"
    } else {
        "语文"
    };
    extend_chars(&mut u, subj);
    extend_chars(&mut u, "\n大题：");
    match &sec.title {
        Some(t) => extend_chars(&mut u, t.as_str()),
        None => extend_chars(&mut u, "题目"),
    }
    extend_chars(&mut u, "（type=");
    match &sec.section_type {
        Some(t) => extend_chars(&mut u, t.as_str()),
        None => {},
    }
    extend_chars(&mut u, "）\n原题：");
    match &old.stem {
        Some(t) => extend_chars(&mut u, t.as_str()),
        None => {},
    }
    extend_chars(&mut u, "\n知识点：");
    extend_chars(&mut u, kps_json);
    extend_chars(&mut u, "\n请生成替换题。");
    proof {
        assert(Seq::<char>::empty() =~= text_or_empty(None::<String>));
    }
    Ok((lit("你是小学命题教师。请只输出一道题的 JSON 对象（不要数组、不要 markdown）：\n{\n  \"id\": \"题号\",\n  \"stem\": \"题干\",\n  \"options\": [\"A. ..\"],\n  \"answer\": \"答案\",\n  \"analysis\": \"解析\",\n  \"score\": 分值数字,\n  \"knowledgePoints\": [\"知识点\"]\n}\n要求：与原题考查点相同、难度相当，但题干数字/情境/表述必须明显不同；禁止超纲。"), string_of(&u)))
}

/// A replacement question is kept only when it has a stem.
pub fn check_regen_item(has_stem: bool) -> (r: Result<(), String>)
    ensures
        has_stem <==> r is Ok,
        r matches Err(e) ==> e@ == "换题结果缺少 stem"@,
{
    if has_stem {
        Ok(())
    } else {
        Err(lit("换题结果缺少 stem"))
    }
}

/// The name of a parallel paper: the trimmed label, `B` when blank.
pub open spec fn variant_label_spec(label: Seq<char>) -> Seq<char> {
    if trim(label).len() == 0 {
        "B"@
    } else {
        trim(label)
    }
}

pub fn variant_label(label: &str) -> (r: String)
    ensures
        r@ == variant_label_spec(label@),
{
    let t = trim_str(label);
    if chars_of(t.as_str()).len() == 0 {
        lit("B")
    } else {
        t
    }
}

pub open spec fn variant_system_prompt(label: Seq<char>) -> Seq<char> {
    "你是小学命题教师。用户给出一套完整试卷 JSON，请生成「"@ + label + " 卷」：\n1. 大题结构、分值、题型完全一致\n2. 考查知识点一致，难度相当\n3. 数字、人名、情境、选项内容尽量全部更换\n4. 标题：去掉原有（A卷）（B卷）（C卷）后缀后，再加「（"@ + label + "卷）」\n5. 只输出完整试卷 JSON（含 meta、sections），不要 markdown"@
}

pub open spec fn variant_user_prompt(label: Seq<char>, paper_json: Seq<char>) -> Seq<char> {
    "请生成 "@ + label + " 卷。原卷 JSON：\n"@ + paper_json
}

/// The prompts for parallel paper `label`; `paper_json` is the paper's JSON.
pub fn variant_prompts(label: &str, paper_json: &str) -> (r: (String, String))
    ensures
        r.0@ == variant_system_prompt(label@),
        r.1@ == variant_user_prompt(label@, paper_json@),
{
    let mut s = chars_of("你是小学命题教师。用户给出一套完整试卷 JSON，请生成「");
    extend_chars(&mut s, label);
    extend_chars(&mut s, " 卷」：\n1. 大题结构、分值、题型完全一致\n2. 考查知识点一致，难度相当\n3. 数字、人名、情境、选项内容尽量全部更换\n4. 标题：去掉原有（A卷）（B卷）（C卷）后缀后，再加「（");
    extend_chars(&mut s, label);
    extend_chars(&mut s, "卷）」\n5. 只输出完整试卷 JSON（含 meta、sections），不要 markdown");
    let mut u = chars_of("请生成 ");
    extend_chars(&mut u, label);
    extend_chars(&mut u, " 卷。原卷 JSON：\n");
    extend_chars(&mut u, paper_json);
    (string_of(&s), string_of(&u))
}

/// A parallel paper from a model is kept only with a heading and sections.
pub fn check_variant(label: &str, has_meta: bool, has_sections: bool) -> (r: Result<(), String>)
    ensures
        (has_meta && has_sections) <==> r is Ok,
        r matches Err(e) ==> e@ == label@ + "卷缺少 meta 或 sections"@,
{
    if has_meta && has_sections {
        Ok(())
    } else {
        let mut v = chars_of(label);
        extend_chars(&mut v, "卷缺少 meta 或 sections");
        Err(string_of(&v))
    }
}

/// A title without the full-width paper marks （A卷） （B卷） （C卷）.
pub open spec fn without_marks(t: Seq<char>) -> Seq<char> {
    replace_text(replace_text(replace_text(t, "（A卷）"@, ""@), "（B卷）"@, ""@), "（C卷）"@, ""@)
}

/// A title without the paper marks, full-width and half-width.
pub open spec fn without_all_marks(t: Seq<char>) -> Seq<char> {
    replace_text(replace_text(replace_text(without_marks(t), "(A卷)"@, ""@), "(B卷)"@, ""@), "(C卷)"@, ""@)
}

/// The title of parallel paper `label`: the marks removed, trimmed, and
/// `（label卷）` added when it is not there.
pub open spec fn variant_title_spec(t: Seq<char>, label: Seq<char>) -> Seq<char> {
    let base = trim(without_all_marks(t));
    let tag = "（"@ + label + "卷）"@;
    if contains(base, tag) {
        base
    } else {
        base + tag
    }
}

fn strip_marks(t: &str) -> (r: String)
    ensures
        r@ == without_marks(t@),
{
    let a = replace_exec(t, "（A卷）", "");
    let b = replace_exec(a.as_str(), "（B卷）", "");
    replace_exec(b.as_str(), "（C卷）", "")
}

pub fn variant_title(t: &str, label: &str) -> (r: String)
    ensures
        r@ == variant_title_spec(t@, label@),
{
    let a = strip_marks(t);
    let b = replace_exec(a.as_str(), "(A卷)", "");
    let c = replace_exec(b.as_str(), "(B卷)", "");
    let d = replace_exec(c.as_str(), "(C卷)", "");
    let base = trim_str(d.as_str());
    let mut tag = chars_of("（");
    extend_chars(&mut tag, label);
    extend_chars(&mut tag, "卷）");
    let tag_s = string_of(&tag);
    if str_contains(base.as_str(), tag_s.as_str()) {
        base
    } else {
        let mut v = chars_of(base.as_str());
        extend_chars(&mut v, tag_s.as_str());
        string_of(&v)
    }
}

/// The title of paper A of a parallel set: the full-width marks removed,
/// trimmed, and `（A卷）` added when it is not there.
pub open spec fn set_a_title(t: Seq<char>) -> Seq<char> {
    let base = trim(without_marks(t));
    if contains(base, "（A卷）"@) {
        base
    } else {
        base + "（A卷）"@
    }
}

pub fn parallel_a_title(t: &str) -> (r: String)
    ensures
        r@ == set_a_title(t@),
{
    let base = trim_str(strip_marks(t).as_str());
    if str_contains(base.as_str(), "（A卷）") {
        base
    } else {
        let mut v = chars_of(base.as_str());
        extend_chars(&mut v, "（A卷）");
        string_of(&v)
    }
}

/// The title of a parallel set: the paper's title (`平行卷` when none),
/// the full-width marks removed, trimmed, then ` · 平行卷 A/B/C`.
pub open spec fn set_title(t: Option<String>) -> Seq<char> {
    trim(without_marks(match t {
        Some(s) => s@,
        None => "平行卷"@,
    })) + " · 平行卷 A/B/C"@
}

pub fn parallel_set_title(t: &Option<String>) -> (r: String)
    ensures
        r@ == set_title(*t),
{
    let raw = match t {
        Some(s) => s.clone(),
        None => lit("平行卷"),
    };
    let mut v = chars_of(trim_str(strip_marks(raw.as_str()).as_str()).as_str());
    extend_chars(&mut v, " · 平行卷 A/B/C");
    string_of(&v)
}

/// The name of the unit a request names (by id, or by a name holding the
/// id), empty when there is none.
pub open spec fn unit_name_spec(pack: KnowledgePack, unit_id: Option<String>) -> Seq<char> {
    match unit_id {
        Some(id) => match find_unit_from(pack.units@, id@, 0) {
            Some(i) => pack.units@[i].name@,
            None => Seq::empty(),
        },
        None => Seq::empty(),
    }
}

pub fn unit_name_for(pack: &KnowledgePack, unit_id: &Option<String>) -> (r: String)
    ensures
        r@ == unit_name_spec(*pack, *unit_id),
{
    match unit_id {
        Some(id) => match find_unit(&pack.units, id.as_str()) {
            Some(i) => pack.units[i].name.clone(),
            None => String::new(),
        },
        None => String::new(),
    }
}

/// Whether the school's favourites are to be fetched for a request.
pub fn needs_school_bank(req: &GenerateRequest) -> (r: bool)
    ensures
        r == (req.use_school_bank && req.school_bank_snippets@.len() == 0),
{
    req.use_school_bank && req.school_bank_snippets.len() == 0
}

/// The template a request names, when it names one.
pub fn wanted_template(req: &GenerateRequest) -> (r: Option<String>)
    ensures
        match req.template_id {
            Some(t) => if t@.len() > 0 { r matches Some(x) && x@ == t@ } else { r is None },
            None => r is None,
        },
{
    match &req.template_id {
        Some(t) => {
            if t.unicode_len() > 0 {
                Some(t.clone())
            } else {
                None
            }
        },
        None => None,
    }
}

/// A request after the chosen template is taken in: its structure line
/// unless one is set, its hints unless some are set, its total when none.
pub open spec fn with_template(r: GenerateRequest, req: GenerateRequest, t: PaperTemplate) -> bool {
    &&& match req.structure_override {
        Some(s) if s@.len() > 0 => r.structure_override == req.structure_override,
        _ => r.structure_override matches Some(x) && x@ == structure_line(t),
    }
    &&& strings_view(r.template_hints@) == if req.template_hints@.len() == 0 { strings_view(t.prompt_hints@) } else { strings_view(req.template_hints@) }
    &&& r.total_score == if req.total_score == 0 && t.total_score > 0 { t.total_score } else { req.total_score }
    &&& r == GenerateRequest { structure_override: r.structure_override, template_hints: r.template_hints, total_score: r.total_score, ..req }
}

pub fn apply_template(req: GenerateRequest, t: &PaperTemplate) -> (r: GenerateRequest)
    ensures
        with_template(r, req, *t),
{
    let keep = match &req.structure_override {
        Some(s) => s.unicode_len() > 0,
        None => false,
    };
    let structure_override = if keep { req.structure_override.clone() } else { Some(template_structure_line(t)) };
    let template_hints = if req.template_hints.len() == 0 {
        let mut h: Vec<String> = Vec::new();
        crate::templates::copy_strings(&mut h, &t.prompt_hints);
        h
    } else {
        req.template_hints.clone()
    };
    let total_score = if req.total_score == 0 && t.total_score > 0 { t.total_score } else { req.total_score };
    GenerateRequest { structure_override, template_hints, total_score, ..req }
}

} // verus!
