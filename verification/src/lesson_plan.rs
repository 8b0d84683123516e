//! Lesson plans: the prompts that ask a model for one, and the plan laid out
//! without a model.
use vstd::prelude::*;
use crate::expr::{nat_to_seq, push_nat_digits};
use crate::generate::{edition_cn, edition_cn_of, find_unit, find_unit_from, opt_or_empty, subject_cn, subject_cn_of};
use crate::knowledge::{KnowledgePack, UnitInfo};
use crate::text::{chars_of, extend_chars, extend_vec, join, push_join, str_eq, string_of, strings_view, trim, trim_str};
use crate::verify::lit;
use crate::contracts::{blank, lesson_breach, ContractLesson, ContractStep};

verus! {

/// What lesson plan is asked for.
#[derive(Debug, Clone)]
pub struct LessonPlanRequest {
    pub subject: String,
    pub edition: String,
    pub grade: u8,
    pub semester: String,
    pub knowledge_path: String,
    pub unit_id: Option<String>,
    /// The lesson; none means the unit's first lesson.
    pub lesson_name: Option<String>,
    /// The period number (0 is read as 1).
    pub periods: u8,
    pub duration_min: u32,
    /// new | practice | review | feedback
    pub lesson_type: String,
    /// Whether the parents' guide is wanted too.
    pub include_parent: bool,
}

/// The lesson type when none is given.
pub fn default_lesson_type() -> (r: String)
    ensures
        r@ == "new"@,
{
    lit("new")
}

/// Whether the parents' guide is wanted when the request does not say.
pub fn default_include_parent() -> (r: bool)
    ensures
        r,
{
    true
}

/// The Chinese name of a lesson type; an unknown type is a new lesson.
pub open spec fn lesson_type_label_spec(e: Seq<char>) -> Seq<char> {
    if e == "practice"@ {
        "练习课"@
    } else if e == "review"@ {
        "复习课"@
    } else if e == "feedback"@ {
        "讲评课"@
    } else {
        "新授课"@
    }
}

pub fn lesson_type_label(e: &str) -> (r: &'static str)
    ensures
        r@ == lesson_type_label_spec(e@),
{
    if str_eq(e, "practice") {
        "练习课"
    } else if str_eq(e, "review") {
        "复习课"
    } else if str_eq(e, "feedback") {
        "讲评课"
    } else {
        "新授课"
    }
}

/// The instruction on the process for a lesson type.
pub open spec fn lesson_type_hint(e: Seq<char>) -> Seq<char> {
    if e == "practice"@ {
        "课型为练习课：以分层练习、反馈矫正为主；导入简短；少讲多练；过程含基础练、综合练、挑战练与讲评。"@
    } else if e == "review"@ {
        "课型为复习课：梳理知识网络、易错对比、综合运用；过程含知识回顾、专题突破、综合练习、小结。"@
    } else if e == "feedback"@ {
        "课型为讲评课：基于典型错题；过程含错因分析、变式训练、归纳方法、再测巩固；避免简单对答案。"@
    } else {
        "课型为新授课：过程覆盖导入—探究新知—巩固—小结；突出概念建构与活动体验。"@
    }
}

pub fn lesson_type_process_hint(e: &str) -> (r: &'static str)
    ensures
        r@ == lesson_type_hint(e@),
{
    if str_eq(e, "practice") {
        "课型为练习课：以分层练习、反馈矫正为主；导入简短；少讲多练；过程含基础练、综合练、挑战练与讲评。"
    } else if str_eq(e, "review") {
        "课型为复习课：梳理知识网络、易错对比、综合运用；过程含知识回顾、专题突破、综合练习、小结。"
    } else if str_eq(e, "feedback") {
        "课型为讲评课：基于典型错题；过程含错因分析、变式训练、归纳方法、再测巩固；避免简单对答案。"
    } else {
        "课型为新授课：过程覆盖导入—探究新知—巩固—小结；突出概念建构与活动体验。"
    }
}


/// One stage of the lesson.
#[derive(Debug, Clone)]
pub struct ProcessStage {
    pub stage: String,
    pub minutes: u32,
    pub content: String,
    pub teacher_activity: String,
    pub student_activity: String,
    pub intent: String,
}

/// One step of the parents' accompanying.
#[derive(Debug, Clone)]
pub struct AccompanyStep {
    pub step: String,
    pub minutes: u32,
    pub how: String,
    pub say: String,
}

/// The guide for the parents.
#[derive(Debug, Clone)]
pub struct ParentGuide {
    pub title: String,
    pub summary: String,
    pub goals_in_plain: Vec<String>,
    pub preview_tips: Vec<String>,
    pub accompany_steps: Vec<AccompanyStep>,
    pub key_questions: Vec<String>,
    pub common_mistakes: Vec<String>,
    pub home_practice: Vec<String>,
    pub encourage: String,
}

/// The heading of a lesson plan.
#[derive(Debug, Clone)]
pub struct LessonMeta {
    pub title: String,
    pub edition: String,
    pub subject: String,
    pub grade: u8,
    pub semester: String,
    pub unit_name: String,
    pub lesson_name: String,
    pub lesson_type: String,
    pub periods: u8,
    pub duration_min: u32,
    pub audience: String,
    pub school: String,
    pub teacher: String,
}

/// A lesson plan laid out without a model.
#[derive(Debug, Clone)]
pub struct LessonPlan {
    pub meta: LessonMeta,
    pub objectives_knowledge: Vec<String>,
    pub objectives_ability: Vec<String>,
    pub objectives_emotion: Vec<String>,
    pub key_points: Vec<String>,
    pub difficult_points: Vec<String>,
    pub preparation_teacher: Vec<String>,
    pub preparation_student: Vec<String>,
    pub process: Vec<ProcessStage>,
    pub board_design: String,
    pub homework: Vec<String>,
    pub reflection: String,
    pub parent_guide: Option<ParentGuide>,
}

/// The unit the plan is for: the requested one, else the first.
pub open spec fn picked_unit(pack: KnowledgePack, unit_id: Option<String>) -> Option<int> {
    match find_unit_from(pack.units@, opt_or_empty(unit_id), 0) {
        Some(i) => Some(i),
        None => if pack.units@.len() > 0 {
            Some(0)
        } else {
            None
        },
    }
}

pub fn pick_unit(pack: &KnowledgePack, unit_id: &Option<String>) -> (r: Option<usize>)
    ensures
        r matches Some(i) ==> i < pack.units@.len() && picked_unit(*pack, *unit_id) == Some(i as int),
        r is None ==> picked_unit(*pack, *unit_id) is None,
{
    let uid = match unit_id {
        Some(u) => lit(u.as_str()),
        None => String::new(),
    };
    match find_unit(&pack.units, uid.as_str()) {
        Some(i) => Some(i),
        None => if pack.units.len() > 0 {
            Some(0)
        } else {
            None
        },
    }
}

pub open spec fn sem_text(s: Seq<char>) -> Seq<char> {
    if s == "shang"@ {
        "上册"@
    } else {
        "下册"@
    }
}

fn sem_text_of(s: &str) -> (r: &'static str)
    ensures
        r@ == sem_text(s@),
{
    if str_eq(s, "shang") {
        "上册"
    } else {
        "下册"
    }
}

/// The lesson type used: the requested one, `new` when it is blank.
pub open spec fn lesson_type_used(t: Seq<char>) -> Seq<char> {
    if trim(t).len() == 0 {
        "new"@
    } else {
        t
    }
}

fn lesson_type_used_of(t: &String) -> (r: String)
    ensures
        r@ == lesson_type_used(t@),
{
    if trim_str(t.as_str()).unicode_len() == 0 {
        lit("new")
    } else {
        lit(t.as_str())
    }
}

/// The lesson a model-written plan is for: the requested one when it is not
/// blank, else the unit's first lesson, else the unit's name.
pub open spec fn ai_lesson(req: LessonPlanRequest, u: UnitInfo) -> Seq<char> {
    if req.lesson_name is Some && trim(req.lesson_name->0@).len() > 0 {
        req.lesson_name->0@
    } else if u.lessons@.len() > 0 {
        u.lessons@[0]@
    } else {
        u.name@
    }
}

pub open spec fn periods_used(p: u8) -> u8 {
    if p == 0 { 1 } else { p }
}

pub open spec fn duration_used(d: u32) -> u32 {
    if d == 0 { 40 } else { d }
}

pub open spec fn parent_block(wanted: bool) -> Seq<char> {
    if wanted {
        ",\n  \"parentGuide\": {\n    \"title\": \"家长辅导手册（可带回家）\",\n    \"summary\": \"用一两句大白话说明孩子这节课学什么、回家怎么帮\",\n    \"goalsInPlain\": [\"孩子回家后应会……（避免术语堆砌）\"],\n    \"previewTips\": [\"课前 5～10 分钟预习建议，具体可操作\"],\n    \"accompanySteps\": [\n      {\n        \"step\": \"读一读 / 讲一讲\",\n        \"minutes\": 10,\n        \"how\": \"家长怎么陪（语气、节奏、是否指读）\",\n        \"say\": \"家长可以说的引导语示例\"\n      }\n    ],\n    \"keyQuestions\": [\"家长可随口问的 3～5 个小问题（检验是否听懂）\"],\n    \"commonMistakes\": [\"常见卡点 + 纠正说法（温柔、不打击）\"],\n    \"homePractice\": [\"家庭小练习，控制负担，10～15 分钟内\"],\n    \"encourage\": \"一句鼓励孩子的话\"\n  }"@
    } else {
        ""@
    }
}

fn parent_block_of(wanted: bool) -> (r: &'static str)
    ensures
        r@ == parent_block(wanted),
{
    if wanted {
        ",\n  \"parentGuide\": {\n    \"title\": \"家长辅导手册（可带回家）\",\n    \"summary\": \"用一两句大白话说明孩子这节课学什么、回家怎么帮\",\n    \"goalsInPlain\": [\"孩子回家后应会……（避免术语堆砌）\"],\n    \"previewTips\": [\"课前 5～10 分钟预习建议，具体可操作\"],\n    \"accompanySteps\": [\n      {\n        \"step\": \"读一读 / 讲一讲\",\n        \"minutes\": 10,\n        \"how\": \"家长怎么陪（语气、节奏、是否指读）\",\n        \"say\": \"家长可以说的引导语示例\"\n      }\n    ],\n    \"keyQuestions\": [\"家长可随口问的 3～5 个小问题（检验是否听懂）\"],\n    \"commonMistakes\": [\"常见卡点 + 纠正说法（温柔、不打击）\"],\n    \"homePractice\": [\"家庭小练习，控制负担，10～15 分钟内\"],\n    \"encourage\": \"一句鼓励孩子的话\"\n  }"
    } else {
        ""
    }
}

/// The system prompt of a model-written plan.
pub open spec fn lesson_system_prompt(req: LessonPlanRequest, lesson: Seq<char>) -> Seq<char> {
    let lt = lesson_type_used(req.lesson_type@);
    "你是资深小学"@
        + subject_cn(req.subject@)
        + "教师，熟悉"@
        + edition_cn(req.edition@)
        + "教材与课堂教学，也擅长写给家长看的辅导说明。\n请输出【仅一份 JSON】，不要 Markdown 说明。\n本课课型："@
        + lesson_type_label_spec(lt)
        + "。"@
        + lesson_type_hint(lt)
        + "\n\n【教师版】要像可直接上课的详案：目标分条、过程分环节，content/teacherActivity/studentActivity 写具体话术与活动，不要空泛套话。\n语文课过程可参考：情境导入 → 初读正音 → 再读懂文 → 研读明意 → 小结作业；数学可参考：情境引入 → 探究新知 → 巩固练习 → 小结。\n环节名建议带序号或「一、初读——正其音」这类清晰标题。\n\n结构必须如下：\n{\n  \"kind\": \"lessonPlan\",\n  \"meta\": {\n    \"title\": \"课题名称\",\n    \"edition\": \""@
        + edition_cn(req.edition@)
        + "\",\n    \"subject\": \""@
        + subject_cn(req.subject@)
        + "\",\n    \"grade\": "@
        + nat_to_seq(req.grade as nat)
        + ",\n    \"semester\": \""@
        + sem_text(req.semester@)
        + "\",\n    \"unitName\": \"单元名\",\n    \"lessonName\": \"课时名\",\n    \"lessonType\": \""@
        + lesson_type_label_spec(lt)
        + "\",\n    \"periods\": "@
        + nat_to_seq(periods_used(req.periods) as nat)
        + ",\n    \"durationMin\": "@
        + nat_to_seq(duration_used(req.duration_min) as nat)
        + ",\n    \"audience\": \"教师版+家长版\",\n    \"school\": \"\",\n    \"teacher\": \"\"\n  },\n  \"objectives\": {\n    \"knowledge\": [\"知识与技能目标…\"],\n    \"ability\": [\"过程与方法…\"],\n    \"emotion\": [\"情感态度价值观…\"]\n  },\n  \"keyPoints\": [\"教学重点\"],\n  \"difficultPoints\": [\"教学难点\"],\n  \"preparation\": {\n    \"teacher\": [\"教具/课件\"],\n    \"student\": [\"学具/预习\"]\n  },\n  \"process\": [\n    {\n      \"stage\": \"一、情境创设（或：初读——正其音）\",\n      \"minutes\": 5,\n      \"content\": \"环节教学内容，可含引导语、文本片段提示\",\n      \"teacherActivity\": \"教师具体做什么、说什么\",\n      \"studentActivity\": \"学生具体做什么\",\n      \"intent\": \"设计意图\"\n    }\n  ],\n  \"boardDesign\": \"板书设计（可用文字示意分栏，先板课题再展开）\",\n  \"homework\": [\"作业1\"],\n  \"reflection\": \"教学反思提示（可写预设反思点）\""@
        + parent_block(req.include_parent)
        + "\n}\n要求：\n1. 贴合该年级认知与课标，禁止超纲；必须紧扣本课「"@
        + lesson
        + "」\n2. process 总时长约 "@
        + nat_to_seq(duration_used(req.duration_min) as nat)
        + " 分钟，4～7 个环节，符合「"@
        + lesson_type_label_spec(lt)
        + "」\n3. 目标可观察、可检测；过程可操作，有师生互动\n4. 数学注重操作与思维；语文注重朗读、字词、语言运用与情感\n5. parentGuide 必须通俗，面向家长（非教育学黑话），负担轻、可今晚就用\n6. 不要写真实统考原题字样"@
}

/// The user prompt of a model-written plan.
pub open spec fn lesson_user_prompt(req: LessonPlanRequest, pack: KnowledgePack, u: UnitInfo, lesson: Seq<char>) -> Seq<char> {
    let lt = lesson_type_used(req.lesson_type@);
    "请为下列内容写「教师详案」"@
        + (if req.include_parent { "与「家长辅导手册」"@ } else { ""@ })
        + "：\n课型："@
        + lesson_type_label_spec(lt)
        + "\n教材："@
        + edition_cn(req.edition@)
        + " "@
        + subject_cn(req.subject@)
        + " "@
        + nat_to_seq(req.grade as nat)
        + "年级"@
        + sem_text(req.semester@)
        + "\n单元："@
        + u.name@
        + "\n课时："@
        + lesson
        + "\n课时列表："@
        + join(strings_view(u.lessons@), "、"@)
        + "\n知识点："@
        + join(strings_view(u.points@), "、"@)
        + "\n教材提示："@
        + join(strings_view(pack.exam_hints@), "；"@)
        + "\n共 "@
        + nat_to_seq(periods_used(req.periods) as nat)
        + " 课时，课堂约 "@
        + nat_to_seq(duration_used(req.duration_min) as nat)
        + " 分钟。\n请直接输出 JSON。"@
}

/// The two prompts for a model-written plan, or the error when the pack has no unit.
pub fn lesson_plan_prompts(req: &LessonPlanRequest, pack: &KnowledgePack) -> (r: Result<(String, String), String>)
    ensures
        picked_unit(*pack, req.unit_id) is None ==> (r matches Err(m) && m@ == "无可用单元"@),
        picked_unit(*pack, req.unit_id) matches Some(i) ==> ({
            let u = pack.units@[i];
            let lesson = ai_lesson(*req, u);
            r matches Ok(p) && p.0@ == lesson_system_prompt(*req, lesson) && p.1@ == lesson_user_prompt(
                *req,
                *pack,
                u,
                lesson,
            )
        }),
{
    let i = match pick_unit(pack, &req.unit_id) {
        Some(i) => i,
        None => return Err(lit("无可用单元")),
    };
    let u = &pack.units[i];
    let lesson: String = match &req.lesson_name {
        Some(l) => if trim_str(l.as_str()).unicode_len() > 0 {
            lit(l.as_str())
        } else if u.lessons.len() > 0 {
            lit(u.lessons[0].as_str())
        } else {
            lit(u.name.as_str())
        },
        None => if u.lessons.len() > 0 {
            lit(u.lessons[0].as_str())
        } else {
            lit(u.name.as_str())
        },
    };
    let system = lesson_system_text(req, lesson.as_str());
    let user = lesson_user_text(req, pack, u, lesson.as_str());
    Ok((system, user))
}

#[verifier::rlimit(40)]
fn lesson_system_text(req: &LessonPlanRequest, lesson: &str) -> (r: String)
    ensures
        r@ == lesson_system_prompt(*req, lesson@),
{
    let lt = lesson_type_used_of(&req.lesson_type);
    let lt_label = lesson_type_label(lt.as_str());
    let lt_hint = lesson_type_process_hint(lt.as_str());
    let sub = subject_cn_of(req.subject.as_str());
    let ed = edition_cn_of(req.edition.as_str());
    let sem = sem_text_of(req.semester.as_str());
    let periods: u8 = if req.periods == 0 { 1 } else { req.periods };
    let duration: u32 = if req.duration_min == 0 { 40 } else { req.duration_min };
    let parent = parent_block_of(req.include_parent);
    let mut out: Vec<char> = chars_of("你是资深小学");
    extend_vec(&mut out, &sub);
    extend_chars(&mut out, "教师，熟悉");
    extend_vec(&mut out, &ed);
    extend_chars(&mut out, "教材与课堂教学，也擅长写给家长看的辅导说明。\n请输出【仅一份 JSON】，不要 Markdown 说明。\n本课课型：");
    extend_chars(&mut out, lt_label);
    extend_chars(&mut out, "。");
    extend_chars(&mut out, lt_hint);
    extend_chars(&mut out, "\n\n【教师版】要像可直接上课的详案：目标分条、过程分环节，content/teacherActivity/studentActivity 写具体话术与活动，不要空泛套话。\n语文课过程可参考：情境导入 → 初读正音 → 再读懂文 → 研读明意 → 小结作业；数学可参考：情境引入 → 探究新知 → 巩固练习 → 小结。\n环节名建议带序号或「一、初读——正其音」这类清晰标题。\n\n结构必须如下：\n{\n  \"kind\": \"lessonPlan\",\n  \"meta\": {\n    \"title\": \"课题名称\",\n    \"edition\": \"");
    extend_vec(&mut out, &ed);
    extend_chars(&mut out, "\",\n    \"subject\": \"");
    extend_vec(&mut out, &sub);
    extend_chars(&mut out, "\",\n    \"grade\": ");
    push_nat_digits(&mut out, req.grade as u128);
    extend_chars(&mut out, ",\n    \"semester\": \"");
    extend_chars(&mut out, sem);
    extend_chars(&mut out, "\",\n    \"unitName\": \"单元名\",\n    \"lessonName\": \"课时名\",\n    \"lessonType\": \"");
    extend_chars(&mut out, lt_label);
    extend_chars(&mut out, "\",\n    \"periods\": ");
    push_nat_digits(&mut out, periods as u128);
    extend_chars(&mut out, ",\n    \"durationMin\": ");
    push_nat_digits(&mut out, duration as u128);
    extend_chars(&mut out, ",\n    \"audience\": \"教师版+家长版\",\n    \"school\": \"\",\n    \"teacher\": \"\"\n  },\n  \"objectives\": {\n    \"knowledge\": [\"知识与技能目标…\"],\n    \"ability\": [\"过程与方法…\"],\n    \"emotion\": [\"情感态度价值观…\"]\n  },\n  \"keyPoints\": [\"教学重点\"],\n  \"difficultPoints\": [\"教学难点\"],\n  \"preparation\": {\n    \"teacher\": [\"教具/课件\"],\n    \"student\": [\"学具/预习\"]\n  },\n  \"process\": [\n    {\n      \"stage\": \"一、情境创设（或：初读——正其音）\",\n      \"minutes\": 5,\n      \"content\": \"环节教学内容，可含引导语、文本片段提示\",\n      \"teacherActivity\": \"教师具体做什么、说什么\",\n      \"studentActivity\": \"学生具体做什么\",\n      \"intent\": \"设计意图\"\n    }\n  ],\n  \"boardDesign\": \"板书设计（可用文字示意分栏，先板课题再展开）\",\n  \"homework\": [\"作业1\"],\n  \"reflection\": \"教学反思提示（可写预设反思点）\"");
    extend_chars(&mut out, parent);
    extend_chars(&mut out, "\n}\n要求：\n1. 贴合该年级认知与课标，禁止超纲；必须紧扣本课「");
    extend_chars(&mut out, lesson);
    extend_chars(&mut out, "」\n2. process 总时长约 ");
    push_nat_digits(&mut out, duration as u128);
    extend_chars(&mut out, " 分钟，4～7 个环节，符合「");
    extend_chars(&mut out, lt_label);
    extend_chars(&mut out, "」\n3. 目标可观察、可检测；过程可操作，有师生互动\n4. 数学注重操作与思维；语文注重朗读、字词、语言运用与情感\n5. parentGuide 必须通俗，面向家长（非教育学黑话），负担轻、可今晚就用\n6. 不要写真实统考原题字样");
    string_of(&out)
}

#[verifier::rlimit(40)]
fn lesson_user_text(req: &LessonPlanRequest, pack: &KnowledgePack, u: &UnitInfo, lesson: &str) -> (r: String)
    ensures
        r@ == lesson_user_prompt(*req, *pack, *u, lesson@),
{
    let lt = lesson_type_used_of(&req.lesson_type);
    let lt_label = lesson_type_label(lt.as_str());
    let sub = subject_cn_of(req.subject.as_str());
    let ed = edition_cn_of(req.edition.as_str());
    let sem = sem_text_of(req.semester.as_str());
    let periods: u8 = if req.periods == 0 { 1 } else { req.periods };
    let duration: u32 = if req.duration_min == 0 { 40 } else { req.duration_min };
    let with_parent = if req.include_parent { "与「家长辅导手册」" } else { "" };
    let mut out: Vec<char> = chars_of("请为下列内容写「教师详案」");
    extend_chars(&mut out, with_parent);
    extend_chars(&mut out, "：\n课型：");
    extend_chars(&mut out, lt_label);
    extend_chars(&mut out, "\n教材：");
    extend_vec(&mut out, &ed);
    extend_chars(&mut out, " ");
    extend_vec(&mut out, &sub);
    extend_chars(&mut out, " ");
    push_nat_digits(&mut out, req.grade as u128);
    extend_chars(&mut out, "年级");
    extend_chars(&mut out, sem);
    extend_chars(&mut out, "\n单元：");
    extend_chars(&mut out, u.name.as_str());
    extend_chars(&mut out, "\n课时：");
    extend_chars(&mut out, lesson);
    extend_chars(&mut out, "\n课时列表：");
    push_join(&mut out, &u.lessons, "、");
    extend_chars(&mut out, "\n知识点：");
    push_join(&mut out, &u.points, "、");
    extend_chars(&mut out, "\n教材提示：");
    push_join(&mut out, &pack.exam_hints, "；");
    extend_chars(&mut out, "\n共 ");
    push_nat_digits(&mut out, periods as u128);
    extend_chars(&mut out, " 课时，课堂约 ");
    push_nat_digits(&mut out, duration as u128);
    extend_chars(&mut out, " 分钟。\n请直接输出 JSON。");
    string_of(&out)
}

pub open spec fn stage_is(s: ProcessStage, stage: Seq<char>, minutes: int, content: Seq<char>, teacher: Seq<char>, student: Seq<char>, intent: Seq<char>) -> bool {
    s.stage@ == stage && s.minutes == minutes && s.content@ == content && s.teacher_activity@ == teacher
        && s.student_activity@ == student && s.intent@ == intent
}

fn framed_chars(pre: &str, lesson: &str, post: &str) -> (r: Vec<char>)
    ensures
        r@ == pre@ + lesson@ + post@,
{
    let mut v = chars_of(pre);
    extend_chars(&mut v, lesson);
    extend_chars(&mut v, post);
    v
}

fn new_stage(stage: &str, minutes: u32, content: Vec<char>, teacher: &str, student: &str, intent: &str) -> (r: ProcessStage)
    ensures
        stage_is(r, stage@, minutes as int, content@, teacher@, student@, intent@),
{
    ProcessStage {
        stage: lit(stage),
        minutes,
        content: string_of(&content),
        teacher_activity: lit(teacher),
        student_activity: lit(student),
        intent: lit(intent),
    }
}

/// The stages of a plan laid out without a model, by lesson type.
pub open spec fn process_ok(p: Seq<ProcessStage>, lt: Seq<char>, lesson: Seq<char>, mid: int) -> bool {
    &&& p.len() == 4
    &&& if lt == "practice"@ {
        stage_is(p[0], "明确目标"@, 3, "出示练习目标与要求。"@, "说明分层任务。"@, "明确自己层次。"@, "带着目标练习。"@) && stage_is(p[1], "基础练习"@, mid / 2, "围绕「"@ + lesson + "」完成基础题。"@, "巡视、个别辅导。"@, "独立完成。"@, "夯实双基。"@) && stage_is(p[2], "综合与挑战"@, mid - mid / 2, "综合题、易错对比。"@, "组织展示讲评。"@, "互评订正。"@, "提升灵活运用。"@) && stage_is(p[3], "反馈小结"@, 5, "归纳方法，布置延伸练习。"@, "点评共性问题。"@, "整理错题。"@, "及时巩固。"@)
    } else if lt == "review"@ {
        stage_is(p[0], "知识回顾"@, 8, "梳理本单元/本课知识网络。"@, "引导梳理板书。"@, "说一说要点。"@, "建立结构。"@) && stage_is(p[1], "专题突破"@, mid, "针对「"@ + lesson + "」易错点突破。"@, "典型题精讲。"@, "对比辨析。"@, "突破难点。"@) && stage_is(p[2], "综合练习"@, 10, "限时综合练。"@, "巡视反馈。"@, "独立完成。"@, "检测掌握。"@) && stage_is(p[3], "归纳提升"@, 5, "方法总结与作业。"@, "提炼方法。"@, "记录要点。"@, "形成策略。"@)
    } else if lt == "feedback"@ {
        stage_is(p[0], "错题呈现"@, 5, "出示共性错题与数据。"@, "展示典型错误。"@, "对照自查。"@, "聚焦问题。"@) && stage_is(p[1], "错因分析"@, 10, "分析概念/审题/计算等错因。"@, "引导归类。"@, "说出错因。"@, "对症下药。"@) && stage_is(p[2], "变式训练"@, mid, "围绕「"@ + lesson + "」变式巩固。"@, "提供变式题。"@, "再练再改。"@, "迁移提升。"@) && stage_is(p[3], "再测小结"@, 5, "微型检测与方法归纳。"@, "点评、布置订正。"@, "完成再测。"@, "闭环落实。"@)
    } else {
        stage_is(p[0], "导入新课"@, 5, "创设情境，引出任务。"@, "提问导入，出示目标。"@, "观察思考。"@, "激发兴趣。"@) && stage_is(p[1], "探究新知"@, mid, "围绕「"@ + lesson + "」展开教学。"@, "讲解示范，组织活动。"@, "参与探究与交流。"@, "突破重点。"@) && stage_is(p[2], "巩固练习"@, 10, "分层练习，反馈矫正。"@, "巡视讲评。"@, "独立完成、互评。"@, "巩固新知。"@) && stage_is(p[3], "课堂小结"@, 5, "回顾收获，布置作业。"@, "引导总结。"@, "谈收获。"@, "建构网络。"@)
    }
}

fn process_of(lt: &str, lesson: &str, mid: u32) -> (r: Vec<ProcessStage>)
    requires
        12 <= mid,
    ensures
        process_ok(r@, lt@, lesson@, mid as int),
{
    if str_eq(lt, "practice") {
        let s0 = new_stage("明确目标", 3, chars_of("出示练习目标与要求。"), "说明分层任务。", "明确自己层次。", "带着目标练习。");
        let s1 = new_stage("基础练习", mid / 2, framed_chars("围绕「", lesson, "」完成基础题。"), "巡视、个别辅导。", "独立完成。", "夯实双基。");
        let s2 = new_stage("综合与挑战", mid - mid / 2, chars_of("综合题、易错对比。"), "组织展示讲评。", "互评订正。", "提升灵活运用。");
        let s3 = new_stage("反馈小结", 5, chars_of("归纳方法，布置延伸练习。"), "点评共性问题。", "整理错题。", "及时巩固。");
        vec![s0, s1, s2, s3]
    } else if str_eq(lt, "review") {
        let s0 = new_stage("知识回顾", 8, chars_of("梳理本单元/本课知识网络。"), "引导梳理板书。", "说一说要点。", "建立结构。");
        let s1 = new_stage("专题突破", mid, framed_chars("针对「", lesson, "」易错点突破。"), "典型题精讲。", "对比辨析。", "突破难点。");
        let s2 = new_stage("综合练习", 10, chars_of("限时综合练。"), "巡视反馈。", "独立完成。", "检测掌握。");
        let s3 = new_stage("归纳提升", 5, chars_of("方法总结与作业。"), "提炼方法。", "记录要点。", "形成策略。");
        vec![s0, s1, s2, s3]
    } else if str_eq(lt, "feedback") {
        let s0 = new_stage("错题呈现", 5, chars_of("出示共性错题与数据。"), "展示典型错误。", "对照自查。", "聚焦问题。");
        let s1 = new_stage("错因分析", 10, chars_of("分析概念/审题/计算等错因。"), "引导归类。", "说出错因。", "对症下药。");
        let s2 = new_stage("变式训练", mid, framed_chars("围绕「", lesson, "」变式巩固。"), "提供变式题。", "再练再改。", "迁移提升。");
        let s3 = new_stage("再测小结", 5, chars_of("微型检测与方法归纳。"), "点评、布置订正。", "完成再测。", "闭环落实。");
        vec![s0, s1, s2, s3]
    } else {
        let s0 = new_stage("导入新课", 5, chars_of("创设情境，引出任务。"), "提问导入，出示目标。", "观察思考。", "激发兴趣。");
        let s1 = new_stage("探究新知", mid, framed_chars("围绕「", lesson, "」展开教学。"), "讲解示范，组织活动。", "参与探究与交流。", "突破重点。");
        let s2 = new_stage("巩固练习", 10, chars_of("分层练习，反馈矫正。"), "巡视讲评。", "独立完成、互评。", "巩固新知。");
        let s3 = new_stage("课堂小结", 5, chars_of("回顾收获，布置作业。"), "引导总结。", "谈收获。", "建构网络。");
        vec![s0, s1, s2, s3]
    }
}

pub open spec fn step_is(s: AccompanyStep, step: Seq<char>, minutes: u32, how: Seq<char>, say: Seq<char>) -> bool {
    s.step@ == step && s.minutes == minutes && s.how@ == how && s.say@ == say
}

/// The parents' guide of a plan laid out without a model.
pub open spec fn guide_ok(g: ParentGuide, lesson: Seq<char>) -> bool {
    &&& g.title@ == lesson + " · 家长辅导手册"@
    &&& g.summary@ == "本课围绕「"@ + lesson + "」，建议家长用 15～20 分钟陪孩子读一读、问一问、练一练。"@
    &&& strings_view(g.goals_in_plain@) == seq![
        "能用自己的话说说「"@ + lesson + "」讲了什么"@,
        "认识本课要求掌握的字词（或关键算理）"@,
        "愿意大声读、敢提问"@,
    ]
    &&& strings_view(g.preview_tips@) == seq!["晚饭后找安静 10 分钟，先看课题和插图猜一猜"@, "让孩子自己先读一遍，家长只在卡壳时帮忙"@]
    &&& g.accompany_steps@.len() == 3
    &&& step_is(g.accompany_steps@[0], "读一读"@, 8, "孩子指读或跟读，家长耐心听完不打断"@, "你读得很认真，这句再读一遍会更顺。"@)
    &&& step_is(g.accompany_steps@[1], "问一问"@, 5, "用聊天方式提问，不考试腔"@, "这一段里，你最喜欢哪一句？为什么？"@)
    &&& step_is(g.accompany_steps@[2], "练一练"@, 5, "口头说一说或写一两个关键词"@, "我们用自己的话复述一下好吗？"@)
    &&& strings_view(g.key_questions@) == seq![
        "「"@ + lesson + "」主要写了什么？"@,
        "有没有不懂的字词？我们一起查一查。"@,
        "如果让你给同学讲，你先讲哪一点？"@,
    ]
    &&& strings_view(g.common_mistakes@) == seq!["读不准就急着纠正：可先听完，再温柔带读一遍"@, "只盯对错：多夸过程，如「你刚才自己想办法了」"@]
    &&& strings_view(g.home_practice@) == seq!["把喜欢的句子读给家人听（或口述算理）"@, "完成老师布置的书面作业，家长只检查是否认真完成"@]
    &&& g.encourage@ == "学习不怕慢，一步一步来，今天的努力都算数。"@
}

fn step(s: &str, minutes: u32, how: &str, say: &str) -> (r: AccompanyStep)
    ensures
        step_is(r, s@, minutes, how@, say@),
{
    AccompanyStep { step: lit(s), minutes, how: lit(how), say: lit(say) }
}

fn framed(pre: &str, lesson: &str, post: &str) -> (r: String)
    ensures
        r@ == pre@ + lesson@ + post@,
{
    let mut v = chars_of(pre);
    extend_chars(&mut v, lesson);
    extend_chars(&mut v, post);
    string_of(&v)
}

fn lits2(a: &str, b: &str) -> (r: Vec<String>)
    ensures
        strings_view(r@) == seq![a@, b@],
{
    let r = vec![lit(a), lit(b)];
    assert(strings_view(r@) =~= seq![a@, b@]);
    r
}

fn lits3(a: String, b: &str, c: &str) -> (r: Vec<String>)
    ensures
        strings_view(r@) == seq![a@, b@, c@],
{
    let r = vec![a, lit(b), lit(c)];
    assert(strings_view(r@) =~= seq![a@, b@, c@]);
    r
}

fn guide_of(lesson: &str) -> (r: ParentGuide)
    ensures
        guide_ok(r, lesson@),
{
    let steps = vec![
        step("读一读", 8, "孩子指读或跟读，家长耐心听完不打断", "你读得很认真，这句再读一遍会更顺。"),
        step("问一问", 5, "用聊天方式提问，不考试腔", "这一段里，你最喜欢哪一句？为什么？"),
        step("练一练", 5, "口头说一说或写一两个关键词", "我们用自己的话复述一下好吗？"),
    ];
    let mut title = chars_of(lesson);
    extend_chars(&mut title, " · 家长辅导手册");
    ParentGuide {
        title: string_of(&title),
        summary: framed("本课围绕「", lesson, "」，建议家长用 15～20 分钟陪孩子读一读、问一问、练一练。"),
        goals_in_plain: lits3(framed("能用自己的话说说「", lesson, "」讲了什么"), "认识本课要求掌握的字词（或关键算理）", "愿意大声读、敢提问"),
        preview_tips: lits2("晚饭后找安静 10 分钟，先看课题和插图猜一猜", "让孩子自己先读一遍，家长只在卡壳时帮忙"),
        accompany_steps: steps,
        key_questions: lits3(framed("「", lesson, "」主要写了什么？"), "有没有不懂的字词？我们一起查一查。", "如果让你给同学讲，你先讲哪一点？"),
        common_mistakes: lits2("读不准就急着纠正：可先听完，再温柔带读一遍", "只盯对错：多夸过程，如「你刚才自己想办法了」"),
        home_practice: lits2("把喜欢的句子读给家人听（或口述算理）", "完成老师布置的书面作业，家长只检查是否认真完成"),
        encourage: lit("学习不怕慢，一步一步来，今天的努力都算数。"),
    }
}

/// The unit name, lessons and points the plan draws on (of the picked unit).
pub open spec fn plan_unit_name(pack: KnowledgePack, req: LessonPlanRequest) -> Seq<char> {
    match picked_unit(pack, req.unit_id) {
        Some(i) => pack.units@[i].name@,
        None => "本单元"@,
    }
}

pub open spec fn plan_lessons(pack: KnowledgePack, req: LessonPlanRequest) -> Seq<Seq<char>> {
    match picked_unit(pack, req.unit_id) {
        Some(i) => strings_view(pack.units@[i].lessons@),
        None => Seq::empty(),
    }
}

pub open spec fn plan_points(pack: KnowledgePack, req: LessonPlanRequest) -> Seq<Seq<char>> {
    match picked_unit(pack, req.unit_id) {
        Some(i) => strings_view(pack.units@[i].points@),
        None => Seq::empty(),
    }
}

/// The lesson of a plan laid out without a model: the requested one when it is
/// not empty, else the unit's first lesson, else the unit's name.
pub open spec fn plan_lesson(pack: KnowledgePack, req: LessonPlanRequest) -> Seq<char> {
    if req.lesson_name is Some && req.lesson_name->0@.len() > 0 {
        req.lesson_name->0@
    } else if plan_lessons(pack, req).len() > 0 {
        plan_lessons(pack, req)[0]
    } else {
        plan_unit_name(pack, req)
    }
}

/// The minutes of the main stage: the lesson's minutes less 15, at least 12.
pub open spec fn main_minutes(duration: u32) -> int {
    let d = duration_used(duration) as int;
    if d - 15 < 12 { 12 } else { d - 15 }
}

/// The plan laid out without a model for `req` on `pack`.
pub open spec fn template_plan_ok(r: LessonPlan, req: LessonPlanRequest, pack: KnowledgePack) -> bool {
    let lesson = plan_lesson(pack, req);
    let lt = lesson_type_used(req.lesson_type@);
    let label = lesson_type_label_spec(lt);
    let points = plan_points(pack, req);
    &&& r.meta.title@ == lesson + "（"@ + label + "·第"@ + nat_to_seq(periods_used(req.periods) as nat) + "课时）"@
    &&& r.meta.edition@ == edition_cn(req.edition@)
    &&& r.meta.subject@ == subject_cn(req.subject@)
    &&& r.meta.grade == req.grade
    &&& r.meta.semester@ == sem_text(req.semester@)
    &&& r.meta.unit_name@ == plan_unit_name(pack, req)
    &&& r.meta.lesson_name@ == lesson
    &&& r.meta.lesson_type@ == label
    &&& r.meta.periods == periods_used(req.periods)
    &&& r.meta.duration_min == duration_used(req.duration_min)
    &&& r.meta.audience@ == "教师版+家长版"@
    &&& r.meta.school@.len() == 0 && r.meta.teacher@.len() == 0
    &&& strings_view(r.objectives_knowledge@) == seq![
        "理解并掌握与「"@ + (if points.len() > 0 { points[0] } else { "本课要点"@ }) + "」相关的核心内容。"@,
        "能正确完成对应练习，表述清楚。"@,
    ]
    &&& strings_view(r.objectives_ability@) == seq!["通过观察、操作或阅读，提升分析与表达能力。"@, "学会与同伴交流，倾听并补充观点。"@]
    &&& strings_view(r.objectives_emotion@) == seq!["感受学科乐趣，养成认真思考、主动学习的习惯。"@]
    &&& strings_view(r.key_points@) == points.take(if points.len() < 3 { points.len() as int } else { 3 })
    &&& strings_view(r.difficult_points@) == seq![
        "对「"@ + (if points.len() > 1 { points[1] } else { "重难点"@ }) + "」的深入理解与灵活运用。"@,
    ]
    &&& strings_view(r.preparation_teacher@) == seq!["课件"@, "板书提纲"@, "课堂练习题"@]
    &&& strings_view(r.preparation_student@) == seq!["课本"@, "练习本"@, "学具（如需要）"@]
    &&& process_ok(r.process@, lt, lesson, main_minutes(req.duration_min))
    &&& r.board_design@ == "课题："@ + lesson + "（"@ + label + "）\n一、要点\n二、例题/练习\n三、方法小结"@
    &&& strings_view(r.homework@) == seq!["完成课本相关练习"@, "复习本课要点，整理错题"@]
    &&& r.reflection@ == "（课后填写）目标达成情况、学生生成、改进点。"@
    &&& (req.include_parent ==> (r.parent_guide matches Some(g) && guide_ok(g, lesson)))
    &&& (!req.include_parent ==> r.parent_guide is None)
}

fn take_strings(v: &Vec<String>, n: usize) -> (r: Vec<String>)
    ensures
        strings_view(r@) == strings_view(v@).take(if v@.len() < n { v@.len() as int } else { n as int }),
{
    let m = if v.len() < n { v.len() } else { n };
    let mut r: Vec<String> = Vec::new();
    let mut k: usize = 0;
    while k < m
        invariant
            m <= v.len(),
            k <= m,
            r@.len() == k,
            forall|j: int| 0 <= j < k ==> #[trigger] r@[j]@ == v@[j]@,
        decreases m - k,
    {
        r.push(lit(v[k].as_str()));
        k = k + 1;
    }
    assert(strings_view(r@) =~= strings_view(v@).take(m as int));
    r
}

/// How the lesson-plan contract reads a plan: its heading, the numbers of
/// its objectives of each kind, and the name and minutes of each stage.
pub open spec fn reads_plan(c: ContractLesson, p: LessonPlan) -> bool {
    &&& c.title@ == p.meta.title@
    &&& c.subject@ == p.meta.subject@
    &&& c.grade == p.meta.grade
    &&& c.duration_min == p.meta.duration_min
    &&& c.knowledge == p.objectives_knowledge@.len()
    &&& c.ability == p.objectives_ability@.len()
    &&& c.emotion == p.objectives_emotion@.len()
    &&& c.process@.len() == p.process@.len()
    &&& forall|k: int| 0 <= k < c.process@.len() ==> (#[trigger] c.process@[k]).stage@ == p.process@[k].stage@
        && c.process@[k].minutes == p.process@[k].minutes
}

/// A plan as the lesson-plan contract reads it.
pub fn contract_of_plan(p: &LessonPlan) -> (r: ContractLesson)
    ensures
        reads_plan(r, *p),
{
    let mut process: Vec<ContractStep> = Vec::new();
    let mut k: usize = 0;
    while k < p.process.len()
        invariant
            k <= p.process@.len(),
            process@.len() == k,
            forall|j: int| 0 <= j < k ==> (#[trigger] process@[j]).stage@ == p.process@[j].stage@
                && process@[j].minutes == p.process@[j].minutes,
        decreases p.process.len() - k,
    {
        process.push(ContractStep { stage: lit(p.process[k].stage.as_str()), minutes: p.process[k].minutes });
        k = k + 1;
    }
    ContractLesson {
        title: lit(p.meta.title.as_str()),
        subject: lit(p.meta.subject.as_str()),
        grade: p.meta.grade,
        duration_min: p.meta.duration_min,
        knowledge: p.objectives_knowledge.len(),
        ability: p.objectives_ability.len(),
        emotion: p.objectives_emotion.len(),
        process,
    }
}

proof fn lemma_stage_names(p: Seq<ProcessStage>, lt: Seq<char>, lesson: Seq<char>, mid: int)
    requires
        process_ok(p, lt, lesson, mid),
    ensures
        forall|k: int| 0 <= k < p.len() ==> !blank((#[trigger] p[k]).stage@),
{
    if lt == "practice"@ {
            reveal_strlit("明确目标");
            crate::text::lemma_not_blank_at("明确目标"@, 0);
            reveal_strlit("基础练习");
            crate::text::lemma_not_blank_at("基础练习"@, 0);
            reveal_strlit("综合与挑战");
            crate::text::lemma_not_blank_at("综合与挑战"@, 0);
            reveal_strlit("反馈小结");
            crate::text::lemma_not_blank_at("反馈小结"@, 0);
    } else if lt == "review"@ {
            reveal_strlit("知识回顾");
            crate::text::lemma_not_blank_at("知识回顾"@, 0);
            reveal_strlit("专题突破");
            crate::text::lemma_not_blank_at("专题突破"@, 0);
            reveal_strlit("综合练习");
            crate::text::lemma_not_blank_at("综合练习"@, 0);
            reveal_strlit("归纳提升");
            crate::text::lemma_not_blank_at("归纳提升"@, 0);
    } else if lt == "feedback"@ {
            reveal_strlit("错题呈现");
            crate::text::lemma_not_blank_at("错题呈现"@, 0);
            reveal_strlit("错因分析");
            crate::text::lemma_not_blank_at("错因分析"@, 0);
            reveal_strlit("变式训练");
            crate::text::lemma_not_blank_at("变式训练"@, 0);
            reveal_strlit("再测小结");
            crate::text::lemma_not_blank_at("再测小结"@, 0);
    } else {
            reveal_strlit("导入新课");
            crate::text::lemma_not_blank_at("导入新课"@, 0);
            reveal_strlit("探究新知");
            crate::text::lemma_not_blank_at("探究新知"@, 0);
            reveal_strlit("巩固练习");
            crate::text::lemma_not_blank_at("巩固练习"@, 0);
            reveal_strlit("课堂小结");
            crate::text::lemma_not_blank_at("课堂小结"@, 0);
    }
    assert forall|k: int| 0 <= k < p.len() implies !blank((#[trigger] p[k]).stage@) by {
        assert(k == 0 || k == 1 || k == 2 || k == 3);
    }
}

/// A lesson plan laid out without a model, for a grade from 1 to 12, meets
/// the lesson-plan contract.
pub proof fn lemma_template_plan_valid(r: LessonPlan, req: LessonPlanRequest, pack: KnowledgePack, c: ContractLesson)
    requires
        template_plan_ok(r, req, pack),
        1 <= req.grade <= 12,
        reads_plan(c, r),
    ensures
        lesson_breach(c) is None,
{
    let lesson = plan_lesson(pack, req);
    reveal_strlit("（");
    crate::text::lemma_not_blank_at(r.meta.title@, lesson.len() as int);
    reveal_strlit("数学");
    reveal_strlit("英语");
    reveal_strlit("语文");
    crate::text::lemma_not_blank_at(r.meta.subject@, 0);
    lemma_stage_names(r.process@, lesson_type_used(req.lesson_type@), lesson, main_minutes(req.duration_min));
    assert forall|k: int| 0 <= k < c.process@.len() implies !blank((#[trigger] c.process@[k]).stage@) by {
        assert(!blank(r.process@[k].stage@));
    }
    assert(!blank(c.title@));
    assert(!blank(c.subject@));
    assert(c.duration_min != 0);
    assert(strings_view(r.objectives_knowledge@).len() == r.objectives_knowledge@.len());
    assert(c.knowledge == 2);
    assert(c.process@.len() == 4);
}

/// A lesson plan laid out without a model.
pub fn template_lesson_plan(req: &LessonPlanRequest, pack: &KnowledgePack) -> (r: LessonPlan)
    ensures
        template_plan_ok(r, *req, *pack),
{
    let empty: Vec<String> = Vec::new();
    let picked = pick_unit(pack, &req.unit_id);
    let (unit_name, lessons, points) = match picked {
        Some(i) => (lit(pack.units[i].name.as_str()), &pack.units[i].lessons, &pack.units[i].points),
        None => (lit("本单元"), &empty, &empty),
    };
    assert(unit_name@ == plan_unit_name(*pack, *req));
    assert(strings_view(lessons@) == plan_lessons(*pack, *req));
    assert(strings_view(points@) == plan_points(*pack, *req));
    let lesson: String = match &req.lesson_name {
        Some(l) => if l.unicode_len() > 0 {
            lit(l.as_str())
        } else if lessons.len() > 0 {
            lit(lessons[0].as_str())
        } else {
            lit(unit_name.as_str())
        },
        None => if lessons.len() > 0 {
            lit(lessons[0].as_str())
        } else {
            lit(unit_name.as_str())
        },
    };
    assert(lesson@ == plan_lesson(*pack, *req));
    let duration: u32 = if req.duration_min == 0 { 40 } else { req.duration_min };
    let periods: u8 = if req.periods == 0 { 1 } else { req.periods };
    let lt = lesson_type_used_of(&req.lesson_type);
    let label = lesson_type_label(lt.as_str());
    let mid: u32 = if duration < 27 { 12 } else { duration - 15 };
    let mut title = chars_of(lesson.as_str());
    extend_chars(&mut title, "（");
    extend_chars(&mut title, label);
    extend_chars(&mut title, "·第");
    push_nat_digits(&mut title, periods as u128);
    extend_chars(&mut title, "课时）");
    let meta = LessonMeta {
        title: string_of(&title),
        edition: string_of(&edition_cn_of(req.edition.as_str())),
        subject: string_of(&subject_cn_of(req.subject.as_str())),
        grade: req.grade,
        semester: lit(sem_text_of(req.semester.as_str())),
        unit_name,
        lesson_name: lit(lesson.as_str()),
        lesson_type: lit(label),
        periods,
        duration_min: duration,
        audience: lit("教师版+家长版"),
        school: String::new(),
        teacher: String::new(),
    };
    let p0 = if points.len() > 0 { lit(points[0].as_str()) } else { lit("本课要点") };
    let p1 = if points.len() > 1 { lit(points[1].as_str()) } else { lit("重难点") };
    let knowledge = vec![framed("理解并掌握与「", p0.as_str(), "」相关的核心内容。"), lit("能正确完成对应练习，表述清楚。")];
    assert(strings_view(knowledge@) =~= seq![
        "理解并掌握与「"@ + p0@ + "」相关的核心内容。"@,
        "能正确完成对应练习，表述清楚。"@,
    ]);
    let emotion = vec![lit("感受学科乐趣，养成认真思考、主动学习的习惯。")];
    assert(strings_view(emotion@) =~= seq!["感受学科乐趣，养成认真思考、主动学习的习惯。"@]);
    let difficult = vec![framed("对「", p1.as_str(), "」的深入理解与灵活运用。")];
    assert(strings_view(difficult@) =~= seq!["对「"@ + p1@ + "」的深入理解与灵活运用。"@]);
    let teacher = vec![lit("课件"), lit("板书提纲"), lit("课堂练习题")];
    assert(strings_view(teacher@) =~= seq!["课件"@, "板书提纲"@, "课堂练习题"@]);
    let student = vec![lit("课本"), lit("练习本"), lit("学具（如需要）")];
    assert(strings_view(student@) =~= seq!["课本"@, "练习本"@, "学具（如需要）"@]);
    let mut board = chars_of("课题：");
    extend_chars(&mut board, lesson.as_str());
    extend_chars(&mut board, "（");
    extend_chars(&mut board, label);
    extend_chars(&mut board, "）\n一、要点\n二、例题/练习\n三、方法小结");
    let guide = if req.include_parent { Some(guide_of(lesson.as_str())) } else { None };
    LessonPlan {
        meta,
        objectives_knowledge: knowledge,
        objectives_ability: lits2("通过观察、操作或阅读，提升分析与表达能力。", "学会与同伴交流，倾听并补充观点。"),
        objectives_emotion: emotion,
        key_points: take_strings(points, 3),
        difficult_points: difficult,
        preparation_teacher: teacher,
        preparation_student: student,
        process: process_of(lt.as_str(), lesson.as_str(), mid),
        board_design: string_of(&board),
        homework: lits2("完成课本相关练习", "复习本课要点，整理错题"),
        reflection: lit("（课后填写）目标达成情况、学生生成、改进点。"),
        parent_guide: guide,
    }
}

/// The lessons of the picked unit, or the unit's name when it lists none, with
/// the unit's name (`本单元` when the pack has no unit).
pub open spec fn unit_lessons_spec(pack: KnowledgePack, req: LessonPlanRequest) -> Seq<Seq<char>> {
    if plan_lessons(pack, req).len() > 0 {
        plan_lessons(pack, req)
    } else {
        seq![plan_unit_name(pack, req)]
    }
}

pub fn unit_lessons(req: &LessonPlanRequest, pack: &KnowledgePack) -> (r: (String, Vec<String>))
    ensures
        r.0@ == plan_unit_name(*pack, *req),
        strings_view(r.1@) == unit_lessons_spec(*pack, *req),
{
    let empty: Vec<String> = Vec::new();
    let picked = pick_unit(pack, &req.unit_id);
    let (unit_name, lessons) = match picked {
        Some(i) => (lit(pack.units[i].name.as_str()), &pack.units[i].lessons),
        None => (lit("本单元"), &empty),
    };
    let mut out: Vec<String> = Vec::new();
    if lessons.len() > 0 {
        crate::templates::copy_strings(&mut out, lessons);
        assert(strings_view(out@) =~= unit_lessons_spec(*pack, *req));
    } else {
        out.push(lit(unit_name.as_str()));
        assert(strings_view(out@) =~= unit_lessons_spec(*pack, *req));
    }
    (unit_name, out)
}

/// The request for lesson `i` (from 0) of a unit: that lesson, period `i + 1`
/// (counted in a byte).
pub open spec fn lesson_request_ok(r: LessonPlanRequest, req: LessonPlanRequest, name: Seq<char>, i: int) -> bool {
    &&& r.lesson_name matches Some(n) && n@ == name
    &&& r.periods == ((i + 1) % 256) as u8
    &&& r.subject@ == req.subject@ && r.edition@ == req.edition@ && r.grade == req.grade
    &&& r.semester@ == req.semester@ && r.knowledge_path@ == req.knowledge_path@
    &&& r.unit_id == req.unit_id
    &&& r.duration_min == req.duration_min && r.lesson_type@ == req.lesson_type@
    &&& r.include_parent == req.include_parent
}

fn copy_opt(o: &Option<String>) -> (r: Option<String>)
    ensures
        r == *o,
{
    match o {
        Some(s) => Some(s.clone()),
        None => None,
    }
}

pub fn lesson_request(req: &LessonPlanRequest, name: &String, i: usize) -> (r: LessonPlanRequest)
    ensures
        lesson_request_ok(r, *req, name@, i as int),
{
    LessonPlanRequest {
        subject: lit(req.subject.as_str()),
        edition: lit(req.edition.as_str()),
        grade: req.grade,
        semester: lit(req.semester.as_str()),
        knowledge_path: lit(req.knowledge_path.as_str()),
        unit_id: copy_opt(&req.unit_id),
        lesson_name: Some(lit(name.as_str())),
        periods: (((i as u64 % 256) + 1) % 256) as u8,
        duration_min: req.duration_min,
        lesson_type: lit(req.lesson_type.as_str()),
        include_parent: req.include_parent,
    }
}

/// Plan `j` of a unit's bundle: the plan laid out for lesson `j` of the unit.
pub open spec fn bundle_plan_ok(plan: LessonPlan, req: LessonPlanRequest, pack: KnowledgePack, j: int) -> bool {
    exists|one: LessonPlanRequest|
        #[trigger] lesson_request_ok(one, req, unit_lessons_spec(pack, req)[j], j) && template_plan_ok(plan, one, pack)
}

/// The plans of all lessons of a unit, laid out without a model.
#[derive(Debug, Clone)]
pub struct LessonBundle {
    pub title: String,
    pub unit_name: String,
    pub edition: String,
    pub subject: String,
    pub grade: u8,
    pub semester: String,
    pub plans: Vec<LessonPlan>,
}

pub fn template_unit_all_lessons(req: &LessonPlanRequest, pack: &KnowledgePack) -> (r: LessonBundle)
    ensures
        r.title@ == plan_unit_name(*pack, *req) + " · 全课时教案（模板）"@,
        r.unit_name@ == plan_unit_name(*pack, *req),
        r.edition@ == edition_cn(req.edition@),
        r.subject@ == subject_cn(req.subject@),
        r.grade == req.grade,
        r.semester@ == sem_text(req.semester@),
        r.plans@.len() == unit_lessons_spec(*pack, *req).len(),
        forall|i: int| 0 <= i < r.plans@.len() ==> #[trigger] bundle_plan_ok(r.plans@[i], *req, *pack, i),
{
    let (unit_name, lessons) = unit_lessons(req, pack);
    let mut plans: Vec<LessonPlan> = Vec::new();
    let mut i: usize = 0;
    while i < lessons.len()
        invariant
            i <= lessons.len(),
            strings_view(lessons@) == unit_lessons_spec(*pack, *req),
            plans@.len() == i,
            forall|j: int| 0 <= j < i ==> #[trigger] bundle_plan_ok(plans@[j], *req, *pack, j),
        decreases lessons.len() - i,
    {
        let one = lesson_request(req, &lessons[i], i);
        let p = template_lesson_plan(&one, pack);
        let ghost old_plans = plans@;
        proof {
            assert(strings_view(lessons@)[i as int] == lessons@[i as int]@);
            assert(lesson_request_ok(one, *req, unit_lessons_spec(*pack, *req)[i as int], i as int));
        }
        plans.push(p);
        proof {
            assert(bundle_plan_ok(p, *req, *pack, i as int));
            assert forall|j: int| 0 <= j < i + 1 implies #[trigger] bundle_plan_ok(plans@[j], *req, *pack, j) by {
                if j < i {
                    assert(old_plans[j] == plans@[j]);
                    assert(bundle_plan_ok(old_plans[j], *req, *pack, j));
                } else {
                    assert(plans@[j] == p);
                }
            }
        }
        i = i + 1;
    }
    let mut title = chars_of(unit_name.as_str());
    extend_chars(&mut title, " · 全课时教案（模板）");
    LessonBundle {
        title: string_of(&title),
        unit_name,
        edition: string_of(&edition_cn_of(req.edition.as_str())),
        subject: string_of(&subject_cn_of(req.subject.as_str())),
        grade: req.grade,
        semester: lit(sem_text_of(req.semester.as_str())),
        plans,
    }
}

/// At most `n` items of `s`, from the front.
pub open spec fn at_most(s: Seq<Seq<char>>, n: int) -> Seq<Seq<char>> {
    if s.len() > n {
        s.take(n)
    } else {
        s
    }
}

/// The lessons a model is asked to plan for a whole unit: the lessons of the
/// picked unit (its name where it lists none), at most twelve, with the
/// unit's name; refused where the pack has no unit.
pub fn model_unit_lessons(req: &LessonPlanRequest, pack: &KnowledgePack) -> (r: Result<(String, Vec<String>), String>)
    ensures
        picked_unit(*pack, req.unit_id) is None ==> (r matches Err(m) && m@ == "无可用单元"@),
        picked_unit(*pack, req.unit_id) is Some ==> (r matches Ok(p) && p.0@ == plan_unit_name(*pack, *req)
            && strings_view(p.1@) == at_most(unit_lessons_spec(*pack, *req), 12)),
{
    if pick_unit(pack, &req.unit_id).is_none() {
        return Err(lit("无可用单元"));
    }
    let (unit_name, mut lessons) = unit_lessons(req, pack);
    let ghost all = strings_view(lessons@);
    if lessons.len() > 12 {
        lessons.truncate(12);
        assert(strings_view(lessons@) =~= all.take(12));
    }
    Ok((unit_name, lessons))
}

/// The title that stands for a lesson whose plan the model failed to write.
pub fn failed_plan_title(lesson: &str) -> (r: String)
    ensures
        r@ == lesson@ + "（生成失败）"@,
{
    let mut v = chars_of(lesson);
    extend_chars(&mut v, "（生成失败）");
    string_of(&v)
}

/// The title of a bundle of model-written plans for a unit.
pub fn model_bundle_title(unit_name: &str) -> (r: String)
    ensures
        r@ == unit_name@ + " · 全课时教案"@,
{
    let mut v = chars_of(unit_name);
    extend_chars(&mut v, " · 全课时教案");
    string_of(&v)
}

/// The label of the lesson type a request asks for (a new lesson when it
/// names none).
pub fn requested_type_label(req: &LessonPlanRequest) -> (r: &'static str)
    ensures
        r@ == lesson_type_label_spec(lesson_type_used(req.lesson_type@)),
{
    let lt = lesson_type_used_of(&req.lesson_type);
    lesson_type_label(lt.as_str())
}

/// The heading of a bundle of model-written plans for a unit (its plans are
/// added by the caller as the model writes them).
pub fn model_bundle(req: &LessonPlanRequest, unit_name: &str) -> (r: LessonBundle)
    ensures
        r.title@ == unit_name@ + " · 全课时教案"@,
        r.unit_name@ == unit_name@,
        r.edition@ == edition_cn(req.edition@),
        r.subject@ == subject_cn(req.subject@),
        r.grade == req.grade,
        r.semester@ == sem_text(req.semester@),
        r.plans@.len() == 0,
{
    LessonBundle {
        title: model_bundle_title(unit_name),
        unit_name: lit(unit_name),
        edition: string_of(&edition_cn_of(req.edition.as_str())),
        subject: string_of(&subject_cn_of(req.subject.as_str())),
        grade: req.grade,
        semester: lit(sem_text_of(req.semester.as_str())),
        plans: Vec::new(),
    }
}

} // verus!
