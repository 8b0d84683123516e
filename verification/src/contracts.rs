//! The contracts a paper or lesson plan from a model must meet before it is
//! shown: what each part must hold, and the first breach reported.
use vstd::prelude::*;
use crate::text::{trim, chars_of, extend_chars, string_of, trim_str};
use crate::expr::{nat_to_seq, push_nat_digits};
use crate::verify::lit;

verus! {

/// The sign of a number of the document.
#[derive(Debug, Clone, Copy, PartialEq, Eq, Structural)]
pub enum Sign {
    Negative,
    Zero,
    Positive,
}

/// A question as the contract reads it.
#[derive(Debug, Clone)]
pub struct ContractItem {
    pub stem: String,
    pub answer: String,
    pub score: Sign,
}

/// A section as the contract reads it.
#[derive(Debug, Clone)]
pub struct ContractSection {
    pub title: String,
    pub score: Sign,
    pub items: Vec<ContractItem>,
}

/// A paper as the contract reads it.
#[derive(Debug, Clone)]
pub struct ContractPaper {
    pub title: String,
    pub subject: String,
    pub grade: u8,
    pub total_score: Sign,
    pub duration_min: u32,
    pub sections: Vec<ContractSection>,
}

pub open spec fn blank(s: Seq<char>) -> bool {
    trim(s).len() == 0
}

pub open spec fn pos_text(section_index: int, item_index: int) -> Seq<char> {
    "第 "@ + nat_to_seq((section_index + 1) as nat) + " 大题第 "@ + nat_to_seq((item_index + 1) as nat) + " 小题"@
}

/// The first breach among the questions of section `si`, from question `j` on.
pub open spec fn item_breach(items: Seq<ContractItem>, si: int, j: int) -> Option<Seq<char>>
    decreases items.len() - j,
{
    if j < 0 || j >= items.len() {
        None
    } else if blank(items[j].stem@) {
        Some(pos_text(si, j) + "缺少题干"@)
    } else if blank(items[j].answer@) {
        Some(pos_text(si, j) + "缺少答案"@)
    } else if items[j].score == Sign::Negative {
        Some(pos_text(si, j) + "分值无效"@)
    } else {
        item_breach(items, si, j + 1)
    }
}

/// The first breach among the sections, from section `i` on.
pub open spec fn section_breach(secs: Seq<ContractSection>, i: int) -> Option<Seq<char>>
    decreases secs.len() - i,
{
    if i < 0 || i >= secs.len() {
        None
    } else if blank(secs[i].title@) || secs[i].items@.len() == 0 || secs[i].score != Sign::Positive {
        Some("第 "@ + nat_to_seq((i + 1) as nat) + " 大题标题、分值或题目列表无效"@)
    } else {
        match item_breach(secs[i].items@, i, 0) {
            Some(m) => Some(m),
            None => section_breach(secs, i + 1),
        }
    }
}

/// The first breach of a paper: blank title or subject, a grade outside 1 to
/// 12, no positive total or no duration, no section, then the sections and
/// their questions in order.
pub open spec fn exam_breach(p: ContractPaper) -> Option<Seq<char>> {
    if blank(p.title@) || blank(p.subject@) {
        Some("试卷标题或学科为空"@)
    } else if !(1 <= p.grade <= 12) {
        Some("试卷年级超出有效范围"@)
    } else if p.total_score != Sign::Positive || p.duration_min == 0 {
        Some("试卷总分或考试时长无效"@)
    } else if p.sections@.len() == 0 {
        Some("试卷没有大题"@)
    } else {
        section_breach(p.sections@, 0)
    }
}

fn is_blank(s: &String) -> (r: bool)
    ensures
        r == blank(s@),
{
    chars_of(trim_str(s.as_str()).as_str()).len() == 0
}

fn pos_chars(si: usize, j: usize) -> (r: Vec<char>)
    requires
        si < usize::MAX,
        j < usize::MAX,
    ensures
        r@ == pos_text(si as int, j as int),
{
    let mut v = chars_of("第 ");
    push_nat_digits(&mut v, (si + 1) as u128);
    extend_chars(&mut v, " 大题第 ");
    push_nat_digits(&mut v, (j + 1) as u128);
    extend_chars(&mut v, " 小题");
    v
}

fn item_breach_exec(items: &Vec<ContractItem>, si: usize) -> (r: Option<String>)
    requires
        si < usize::MAX,
    ensures
        match r {
            Some(m) => item_breach(items@, si as int, 0) == Some(m@),
            None => item_breach(items@, si as int, 0) is None,
        },
{
    let mut j: usize = 0;
    while j < items.len()
        invariant
            j <= items.len(),
            si < usize::MAX,
            item_breach(items@, si as int, 0) == item_breach(items@, si as int, j as int),
        decreases items.len() - j,
    {
        let it = &items[j];
        if is_blank(&it.stem) {
            let mut v = pos_chars(si, j);
            extend_chars(&mut v, "缺少题干");
            return Some(string_of(&v));
        }
        if is_blank(&it.answer) {
            let mut v = pos_chars(si, j);
            extend_chars(&mut v, "缺少答案");
            return Some(string_of(&v));
        }
        if it.score == Sign::Negative {
            let mut v = pos_chars(si, j);
            extend_chars(&mut v, "分值无效");
            return Some(string_of(&v));
        }
        j = j + 1;
    }
    None
}

/// Checks a paper against the contract: the first breach, if any (see `exam_breach`).
pub fn validate_exam_paper(p: &ContractPaper) -> (r: Result<(), String>)
    ensures
        r is Ok <==> exam_breach(*p) is None,
        r matches Err(m) ==> exam_breach(*p) == Some(m@),
{
    if is_blank(&p.title) || is_blank(&p.subject) {
        return Err(lit("试卷标题或学科为空"));
    }
    if !(1 <= p.grade && p.grade <= 12) {
        return Err(lit("试卷年级超出有效范围"));
    }
    if p.total_score != Sign::Positive || p.duration_min == 0 {
        return Err(lit("试卷总分或考试时长无效"));
    }
    if p.sections.len() == 0 {
        return Err(lit("试卷没有大题"));
    }
    assert(exam_breach(*p) == section_breach(p.sections@, 0));
    let mut i: usize = 0;
    while i < p.sections.len()
        invariant
            i <= p.sections@.len(),
            exam_breach(*p) == section_breach(p.sections@, 0),
            section_breach(p.sections@, 0) == section_breach(p.sections@, i as int),
        decreases p.sections@.len() - i,
    {
        let s = &p.sections[i];
        if is_blank(&s.title) || s.items.len() == 0 || s.score != Sign::Positive {
            let mut v = chars_of("第 ");
            push_nat_digits(&mut v, (i + 1) as u128);
            extend_chars(&mut v, " 大题标题、分值或题目列表无效");
            assert(section_breach(p.sections@, i as int) == Some(v@));
            return Err(string_of(&v));
        }
        match item_breach_exec(&s.items, i) {
            Some(m) => {
                assert(section_breach(p.sections@, i as int) == Some(m@));
                return Err(m);
            },
            None => {},
        }
        i = i + 1;
    }
    Ok(())
}

/// One step of a lesson plan's process as the contract reads it.
#[derive(Debug, Clone)]
pub struct ContractStep {
    pub stage: String,
    pub minutes: u32,
}

/// A lesson plan as the contract reads it: its heading, the numbers of its
/// knowledge, ability and emotion objectives, and its process.
#[derive(Debug, Clone)]
pub struct ContractLesson {
    pub title: String,
    pub subject: String,
    pub grade: u8,
    pub duration_min: u32,
    pub knowledge: usize,
    pub ability: usize,
    pub emotion: usize,
    pub process: Vec<ContractStep>,
}

/// The first breach of a lesson plan.
pub open spec fn lesson_breach(l: ContractLesson) -> Option<Seq<char>> {
    if blank(l.title@) || blank(l.subject@) {
        Some("教案标题或学科为空"@)
    } else if !(1 <= l.grade <= 12) || l.duration_min == 0 {
        Some("教案年级或课时长度无效"@)
    } else if l.knowledge + l.ability + l.emotion == 0 {
        Some("教案缺少教学目标"@)
    } else if l.process@.len() == 0 {
        Some("教案缺少教学过程"@)
    } else if exists|k: int| 0 <= k < l.process@.len() && blank((#[trigger] l.process@[k]).stage@) {
        Some("教案教学过程存在空环节名称"@)
    } else {
        None
    }
}

/// Checks a lesson plan against the contract (see `lesson_breach`).
pub fn validate_lesson_plan(l: &ContractLesson) -> (r: Result<(), String>)
    ensures
        r is Ok <==> lesson_breach(*l) is None,
        r matches Err(m) ==> lesson_breach(*l) == Some(m@),
{
    if is_blank(&l.title) || is_blank(&l.subject) {
        return Err(lit("教案标题或学科为空"));
    }
    if !(1 <= l.grade && l.grade <= 12) || l.duration_min == 0 {
        return Err(lit("教案年级或课时长度无效"));
    }
    if l.knowledge == 0 && l.ability == 0 && l.emotion == 0 {
        return Err(lit("教案缺少教学目标"));
    }
    if l.process.len() == 0 {
        return Err(lit("教案缺少教学过程"));
    }
    let mut k: usize = 0;
    while k < l.process.len()
        invariant
            k <= l.process@.len(),
            !blank(l.title@) && !blank(l.subject@),
            1 <= l.grade <= 12 && l.duration_min != 0,
            l.knowledge + l.ability + l.emotion != 0,
            l.process@.len() > 0,
            forall|j: int| 0 <= j < k ==> !blank((#[trigger] l.process@[j]).stage@),
        decreases l.process@.len() - k,
    {
        if is_blank(&l.process[k].stage) {
            assert(blank(l.process@[k as int].stage@));
            return Err(lit("教案教学过程存在空环节名称"));
        }
        k = k + 1;
    }
    Ok(())
}

} // verus!
