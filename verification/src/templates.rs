//! Paper and lesson-plan structure templates: the bundled ones, the user's
//! own, and the structure line that a template puts into a prompt.
use vstd::prelude::*;
use crate::expr::{nat_to_seq, push_nat_digits};
use crate::draft::{item_is, new_item, DraftItem, DraftMeta, DraftPaper, DraftSection};
use crate::generate::{exam_label_spec, exam_type_label};
use crate::knowledge::{KnowledgePack, UnitInfo};
use crate::text::{
    chars_of, contains, extend_chars, extend_vec, join, push_join, str_contains, str_eq, string_of,
    strings_view,
};
use crate::verify::lit;

verus! {

/// One section (大题) of a paper template.
#[derive(Debug, Clone)]
pub struct TemplateSectionSpec {
    /// The question type of the section (`fill`, `calc`, ...).
    pub section_type: String,
    pub title: String,
    pub score: u32,
    pub item_count: u32,
    pub hint: String,
}

/// A paper template (`paperTemplate`) or a lesson-plan template (`lessonTemplate`).
#[derive(Debug, Clone)]
pub struct PaperTemplate {
    /// paperTemplate | lessonTemplate
    pub kind: String,
    pub id: String,
    pub name: String,
    pub description: String,
    pub subject: String,
    /// Empty means every grade.
    pub grades: Vec<u8>,
    pub exam_type: String,
    pub tags: Vec<String>,
    pub duration_min: u32,
    pub total_score: u32,
    pub sections: Vec<TemplateSectionSpec>,
    /// The stages of a lesson plan (lessonTemplate).
    pub process_stages: Vec<String>,
    pub prompt_hints: Vec<String>,
    /// bundled | user
    pub origin: String,
    pub created_at: u64,
}

/// The number of questions of a section when the template does not say.
pub fn default_item_count() -> (r: u32)
    ensures
        r == 4,
{
    4
}

/// The kind of a template when the template does not say.
pub fn default_kind() -> (r: String)
    ensures
        r@ == "paperTemplate"@,
{
    lit("paperTemplate")
}

/// The duration (minutes) of a template when the template does not say.
pub fn default_duration() -> (r: u32)
    ensures
        r == 40,
{
    40
}

/// The total score of a template when the template does not say.
pub fn default_total() -> (r: u32)
    ensures
        r == 100,
{
    100
}

/// The origin of a template when the template does not say.
pub fn default_origin() -> (r: String)
    ensures
        r@ == "bundled"@,
{
    lit("bundled")
}

pub open spec fn section_is(
    s: TemplateSectionSpec,
    ty: Seq<char>,
    title: Seq<char>,
    score: u32,
    item_count: u32,
    hint: Seq<char>,
) -> bool {
    s.section_type@ == ty && s.title@ == title && s.score == score && s.item_count == item_count
        && s.hint@ == hint
}

fn sec(ty: &str, title: &str, score: u32, item_count: u32, hint: &str) -> (r: TemplateSectionSpec)
    ensures
        section_is(r, ty@, title@, score, item_count, hint@),
{
    TemplateSectionSpec { section_type: lit(ty), title: lit(title), score, item_count, hint: lit(hint) }
}

fn strings_of(v: &Vec<&str>) -> (r: Vec<String>)
    ensures
        strings_view(r@) == v@.map_values(|s: &str| s@),
{
    let mut r: Vec<String> = Vec::new();
    let mut k: usize = 0;
    while k < v.len()
        invariant
            k <= v.len(),
            r.len() == k,
            forall|j: int| 0 <= j < k ==> #[trigger] r@[j]@ == v@[j]@,
        decreases v.len() - k,
    {
        r.push(lit(v[k]));
        k = k + 1;
    }
    assert(strings_view(r@) =~= v@.map_values(|s: &str| s@));
    r
}

/// The bundled template `math-unit-classic`.
pub open spec fn bundled_0(t: PaperTemplate) -> bool {
    &&& t.kind@ == "paperTemplate"@
    &&& t.id@ == "math-unit-classic"@
    &&& t.name@ == "数学单元测·经典五段"@
    &&& t.description@ == "填空/判断/选择/计算/解决问题，适合常规单元检测"@
    &&& t.subject@ == "math"@
    &&& t.grades@ == seq![1u8, 2u8, 3u8, 4u8, 5u8, 6u8]
    &&& t.exam_type@ == "unit"@
    &&& strings_view(t.tags@) == seq!["单元"@, "经典"@, "数学"@]
    &&& t.duration_min == 40
    &&& t.total_score == 100
    &&& t.sections@.len() == 5
    &&& section_is(t.sections@[0], "fill"@, "一、填空题（共20分）"@, 20, 5, "每空2～4分"@)
    &&& section_is(t.sections@[1], "judge"@, "二、判断题（共10分）"@, 10, 5, "√或×"@)
    &&& section_is(t.sections@[2], "choice"@, "三、选择题（共10分）"@, 10, 5, "四选一"@)
    &&& section_is(t.sections@[3], "calc"@, "四、计算题（共30分）"@, 30, 2, "口算+脱式"@)
    &&& section_is(t.sections@[4], "problem"@, "五、解决问题（共30分）"@, 30, 3, "应用题"@)
    &&& strings_view(t.process_stages@) == Seq::<Seq<char>>::empty()
    &&& strings_view(t.prompt_hints@) == seq!["符合小学单元测节奏"@, "计算题答案可验算"@]
    &&& t.origin@ == "bundled"@
    &&& t.created_at == 0
}

/// The bundled template `math-oral-dense`.
pub open spec fn bundled_1(t: PaperTemplate) -> bool {
    &&& t.kind@ == "paperTemplate"@
    &&& t.id@ == "math-oral-dense"@
    &&& t.name@ == "数学口算专项·高密度"@
    &&& t.description@ == "短时大量口算，适合课前/课后"@
    &&& t.subject@ == "math"@
    &&& t.grades@ == seq![1u8, 2u8, 3u8, 4u8]
    &&& t.exam_type@ == "oral"@
    &&& strings_view(t.tags@) == seq!["口算"@, "专项"@, "日常"@]
    &&& t.duration_min == 15
    &&& t.total_score == 100
    &&& t.sections@.len() == 3
    &&& section_is(t.sections@[0], "calc"@, "一、直接写得数（共60分）"@, 60, 1, "20～30 小题口算"@)
    &&& section_is(t.sections@[1], "calc"@, "二、脱式/简便（共25分）"@, 25, 4, "混合运算"@)
    &&& section_is(t.sections@[2], "problem"@, "三、小小应用（共15分）"@, 15, 2, "一句话应用"@)
    &&& strings_view(t.process_stages@) == Seq::<Seq<char>>::empty()
    &&& strings_view(t.prompt_hints@) == seq!["题干短"@, "题量大"@, "避免长阅读"@]
    &&& t.origin@ == "bundled"@
    &&& t.created_at == 0
}

/// The bundled template `math-lesson-quick`.
pub open spec fn bundled_2(t: PaperTemplate) -> bool {
    &&& t.kind@ == "paperTemplate"@
    &&& t.id@ == "math-lesson-quick"@
    &&& t.name@ == "数学课时练·一课时"@
    &&& t.description@ == "约 20 分钟课堂巩固"@
    &&& t.subject@ == "math"@
    &&& t.grades@ == seq![1u8, 2u8, 3u8, 4u8, 5u8, 6u8]
    &&& t.exam_type@ == "lesson"@
    &&& strings_view(t.tags@) == seq!["课时"@, "课堂"@]
    &&& t.duration_min == 20
    &&& t.total_score == 50
    &&& t.sections@.len() == 3
    &&& section_is(t.sections@[0], "fill"@, "一、填空（共10分）"@, 10, 4, ""@)
    &&& section_is(t.sections@[1], "calc"@, "二、计算（共25分）"@, 25, 2, ""@)
    &&& section_is(t.sections@[2], "problem"@, "三、解决问题（共15分）"@, 15, 2, ""@)
    &&& strings_view(t.process_stages@) == Seq::<Seq<char>>::empty()
    &&& strings_view(t.prompt_hints@) == seq!["一课时可完成"@]
    &&& t.origin@ == "bundled"@
    &&& t.created_at == 0
}

/// The bundled template `math-homework-light`.
pub open spec fn bundled_3(t: PaperTemplate) -> bool {
    &&& t.kind@ == "paperTemplate"@
    &&& t.id@ == "math-homework-light"@
    &&& t.name@ == "数学课后作业·轻量"@
    &&& t.description@ == "基础+巩固+1 道拓展"@
    &&& t.subject@ == "math"@
    &&& t.grades@ == seq![1u8, 2u8, 3u8, 4u8, 5u8, 6u8]
    &&& t.exam_type@ == "homework"@
    &&& strings_view(t.tags@) == seq!["作业"@, "轻量"@]
    &&& t.duration_min == 25
    &&& t.total_score == 50
    &&& t.sections@.len() == 3
    &&& section_is(t.sections@[0], "mixed"@, "一、基础练（共20分）"@, 20, 5, "填空或选择"@)
    &&& section_is(t.sections@[1], "calc"@, "二、巩固练（共20分）"@, 20, 2, "计算"@)
    &&& section_is(t.sections@[2], "problem"@, "三、想一想（共10分）"@, 10, 1, "稍难"@)
    &&& strings_view(t.process_stages@) == Seq::<Seq<char>>::empty()
    &&& strings_view(t.prompt_hints@) == seq!["控制书写负担"@]
    &&& t.origin@ == "bundled"@
    &&& t.created_at == 0
}

/// The bundled template `math-midterm-full`.
pub open spec fn bundled_4(t: PaperTemplate) -> bool {
    &&& t.kind@ == "paperTemplate"@
    &&& t.id@ == "math-midterm-full"@
    &&& t.name@ == "数学期中·综合六段"@
    &&& t.description@ == "期中模拟常用结构"@
    &&& t.subject@ == "math"@
    &&& t.grades@ == seq![2u8, 3u8, 4u8, 5u8, 6u8]
    &&& t.exam_type@ == "midterm"@
    &&& strings_view(t.tags@) == seq!["期中"@, "综合"@]
    &&& t.duration_min == 60
    &&& t.total_score == 100
    &&& t.sections@.len() == 6
    &&& section_is(t.sections@[0], "fill"@, "一、填空题（共20分）"@, 20, 5, ""@)
    &&& section_is(t.sections@[1], "judge"@, "二、判断题（共10分）"@, 10, 5, ""@)
    &&& section_is(t.sections@[2], "choice"@, "三、选择题（共10分）"@, 10, 5, ""@)
    &&& section_is(t.sections@[3], "calc"@, "四、计算题（共30分）"@, 30, 2, ""@)
    &&& section_is(t.sections@[4], "operation"@, "五、操作题（共10分）"@, 10, 2, "画图/测量"@)
    &&& section_is(t.sections@[5], "problem"@, "六、解决问题（共20分）"@, 20, 2, ""@)
    &&& strings_view(t.process_stages@) == Seq::<Seq<char>>::empty()
    &&& strings_view(t.prompt_hints@) == seq!["覆盖前半学期"@]
    &&& t.origin@ == "bundled"@
    &&& t.created_at == 0
}

/// The bundled template `chinese-unit-classic`.
pub open spec fn bundled_5(t: PaperTemplate) -> bool {
    &&& t.kind@ == "paperTemplate"@
    &&& t.id@ == "chinese-unit-classic"@
    &&& t.name@ == "语文单元测·经典"@
    &&& t.description@ == "字词+选择+积累+阅读+小练笔"@
    &&& t.subject@ == "chinese"@
    &&& t.grades@ == seq![1u8, 2u8, 3u8, 4u8, 5u8, 6u8]
    &&& t.exam_type@ == "unit"@
    &&& strings_view(t.tags@) == seq!["单元"@, "语文"@]
    &&& t.duration_min == 45
    &&& t.total_score == 100
    &&& t.sections@.len() == 5
    &&& section_is(t.sections@[0], "pinyin"@, "一、拼音字词（共20分）"@, 20, 3, ""@)
    &&& section_is(t.sections@[1], "choice"@, "二、选择填空（共20分）"@, 20, 5, ""@)
    &&& section_is(t.sections@[2], "mixed"@, "三、课内积累（共20分）"@, 20, 3, ""@)
    &&& section_is(t.sections@[3], "reading"@, "四、阅读理解（共25分）"@, 25, 2, "课内+课外可合并出"@)
    &&& section_is(t.sections@[4], "writing"@, "五、小练笔（共15分）"@, 15, 1, ""@)
    &&& strings_view(t.process_stages@) == Seq::<Seq<char>>::empty()
    &&& strings_view(t.prompt_hints@) == seq!["阅读适龄"@]
    &&& t.origin@ == "bundled"@
    &&& t.created_at == 0
}

/// The bundled template `chinese-oral-words`.
pub open spec fn bundled_6(t: PaperTemplate) -> bool {
    &&& t.kind@ == "paperTemplate"@
    &&& t.id@ == "chinese-oral-words"@
    &&& t.name@ == "语文字词专项"@
    &&& t.description@ == "拼音字词听写式练习"@
    &&& t.subject@ == "chinese"@
    &&& t.grades@ == seq![1u8, 2u8, 3u8, 4u8]
    &&& t.exam_type@ == "oral"@
    &&& strings_view(t.tags@) == seq!["字词"@, "专项"@]
    &&& t.duration_min == 15
    &&& t.total_score == 50
    &&& t.sections@.len() == 3
    &&& section_is(t.sections@[0], "pinyin"@, "一、看拼音写词语（共20分）"@, 20, 1, ""@)
    &&& section_is(t.sections@[1], "fill"@, "二、选字填空/近反义（共15分）"@, 15, 4, ""@)
    &&& section_is(t.sections@[2], "mixed"@, "三、形近字组词（共15分）"@, 15, 5, ""@)
    &&& strings_view(t.process_stages@) == Seq::<Seq<char>>::empty()
    &&& strings_view(t.prompt_hints@) == seq!["无长阅读"@]
    &&& t.origin@ == "bundled"@
    &&& t.created_at == 0
}

/// The bundled template `english-unit-basic`.
pub open spec fn bundled_7(t: PaperTemplate) -> bool {
    &&& t.kind@ == "paperTemplate"@
    &&& t.id@ == "english-unit-basic"@
    &&& t.name@ == "英语单元测·基础"@
    &&& t.description@ == "词汇句型阅读写话"@
    &&& t.subject@ == "english"@
    &&& t.grades@ == seq![3u8, 4u8, 5u8, 6u8]
    &&& t.exam_type@ == "unit"@
    &&& strings_view(t.tags@) == seq!["英语"@, "单元"@]
    &&& t.duration_min == 40
    &&& t.total_score == 100
    &&& t.sections@.len() == 5
    &&& section_is(t.sections@[0], "fill"@, "一、词汇（共20分）"@, 20, 5, ""@)
    &&& section_is(t.sections@[1], "choice"@, "二、选择（共20分）"@, 20, 5, ""@)
    &&& section_is(t.sections@[2], "mixed"@, "三、句型转换/填空（共20分）"@, 20, 4, ""@)
    &&& section_is(t.sections@[3], "reading"@, "四、阅读（共25分）"@, 25, 1, "短文适龄"@)
    &&& section_is(t.sections@[4], "writing"@, "五、写话（共15分）"@, 15, 1, ""@)
    &&& strings_view(t.process_stages@) == Seq::<Seq<char>>::empty()
    &&& strings_view(t.prompt_hints@) == seq!["题干英文为主，说明可用中文"@]
    &&& t.origin@ == "bundled"@
    &&& t.created_at == 0
}

/// The bundled template `english-lesson-vocab`.
pub open spec fn bundled_8(t: PaperTemplate) -> bool {
    &&& t.kind@ == "paperTemplate"@
    &&& t.id@ == "english-lesson-vocab"@
    &&& t.name@ == "英语课时练·词汇句型"@
    &&& t.description@ == "短时巩固"@
    &&& t.subject@ == "english"@
    &&& t.grades@ == seq![3u8, 4u8, 5u8, 6u8]
    &&& t.exam_type@ == "lesson"@
    &&& strings_view(t.tags@) == seq!["课时"@, "英语"@]
    &&& t.duration_min == 20
    &&& t.total_score == 50
    &&& t.sections@.len() == 3
    &&& section_is(t.sections@[0], "fill"@, "一、词汇（共20分）"@, 20, 6, ""@)
    &&& section_is(t.sections@[1], "choice"@, "二、选择（共15分）"@, 15, 5, ""@)
    &&& section_is(t.sections@[2], "mixed"@, "三、完成句子（共15分）"@, 15, 4, ""@)
    &&& strings_view(t.process_stages@) == Seq::<Seq<char>>::empty()
    &&& strings_view(t.prompt_hints@) == Seq::<Seq<char>>::empty()
    &&& t.origin@ == "bundled"@
    &&& t.created_at == 0
}

/// The bundled template `math-redrill-compact`.
pub open spec fn bundled_9(t: PaperTemplate) -> bool {
    &&& t.kind@ == "paperTemplate"@
    &&& t.id@ == "math-redrill-compact"@
    &&& t.name@ == "错题再练·紧凑"@
    &&& t.description@ == "变式巩固 + 综合一题"@
    &&& t.subject@ == "math"@
    &&& t.grades@ == seq![1u8, 2u8, 3u8, 4u8, 5u8, 6u8]
    &&& t.exam_type@ == "redrill"@
    &&& strings_view(t.tags@) == seq!["再练"@, "讲评后"@]
    &&& t.duration_min == 20
    &&& t.total_score == 50
    &&& t.sections@.len() == 3
    &&& section_is(t.sections@[0], "mixed"@, "一、同类基础（共20分）"@, 20, 4, ""@)
    &&& section_is(t.sections@[1], "calc"@, "二、变式巩固（共20分）"@, 20, 3, ""@)
    &&& section_is(t.sections@[2], "problem"@, "三、综合一题（共10分）"@, 10, 1, ""@)
    &&& strings_view(t.process_stages@) == Seq::<Seq<char>>::empty()
    &&& strings_view(t.prompt_hints@) == seq!["紧扣错因知识点"@, "禁止照搬原题数字"@]
    &&& t.origin@ == "bundled"@
    &&& t.created_at == 0
}

/// The bundled template `lesson-new-classic`.
pub open spec fn bundled_10(t: PaperTemplate) -> bool {
    &&& t.kind@ == "lessonTemplate"@
    &&& t.id@ == "lesson-new-classic"@
    &&& t.name@ == "新授课·经典七段"@
    &&& t.description@ == "导入—探究—新知—巩固—小结—作业—板书"@
    &&& t.subject@ == ""@
    &&& t.grades@ == seq![1u8, 2u8, 3u8, 4u8, 5u8, 6u8]
    &&& t.exam_type@ == "new"@
    &&& strings_view(t.tags@) == seq!["教案"@, "新授"@]
    &&& t.duration_min == 40
    &&& t.total_score == 0
    &&& t.sections@.len() == 0
    &&& strings_view(t.process_stages@) == seq!["导入激趣"@, "探究新知"@, "讲解示范"@, "巩固练习"@, "课堂小结"@, "布置作业"@, "板书设计"@]
    &&& strings_view(t.prompt_hints@) == seq!["突出概念建构与活动体验"@]
    &&& t.origin@ == "bundled"@
    &&& t.created_at == 0
}

/// The bundled template `lesson-practice`.
pub open spec fn bundled_11(t: PaperTemplate) -> bool {
    &&& t.kind@ == "lessonTemplate"@
    &&& t.id@ == "lesson-practice"@
    &&& t.name@ == "练习课·讲练结合"@
    &&& t.description@ == "回顾—分层练—点评—拓展"@
    &&& t.subject@ == ""@
    &&& t.grades@ == seq![1u8, 2u8, 3u8, 4u8, 5u8, 6u8]
    &&& t.exam_type@ == "practice"@
    &&& strings_view(t.tags@) == seq!["教案"@, "练习"@]
    &&& t.duration_min == 40
    &&& t.total_score == 0
    &&& t.sections@.len() == 0
    &&& strings_view(t.process_stages@) == seq!["旧知回顾"@, "基础练习"@, "变式提升"@, "展示点评"@, "小结与作业"@]
    &&& strings_view(t.prompt_hints@) == Seq::<Seq<char>>::empty()
    &&& t.origin@ == "bundled"@
    &&& t.created_at == 0
}

/// The bundled templates, in order.
pub open spec fn bundled_spec(v: Seq<PaperTemplate>) -> bool {
    &&& v.len() == 12
    &&& bundled_0(v[0])
    &&& bundled_1(v[1])
    &&& bundled_2(v[2])
    &&& bundled_3(v[3])
    &&& bundled_4(v[4])
    &&& bundled_5(v[5])
    &&& bundled_6(v[6])
    &&& bundled_7(v[7])
    &&& bundled_8(v[8])
    &&& bundled_9(v[9])
    &&& bundled_10(v[10])
    &&& bundled_11(v[11])
}

fn make_bundled_0() -> (t: PaperTemplate)
    ensures
        bundled_0(t),
{
    let grades: Vec<u8> = vec![1, 2, 3, 4, 5, 6];
    let tags: Vec<&str> = vec!["单元", "经典", "数学"];
    let stages: Vec<&str> = vec![];
    let hints: Vec<&str> = vec!["符合小学单元测节奏", "计算题答案可验算"];
    let mut secs: Vec<TemplateSectionSpec> = Vec::new();
    secs.push(sec("fill", "一、填空题（共20分）", 20, 5, "每空2～4分"));
    secs.push(sec("judge", "二、判断题（共10分）", 10, 5, "√或×"));
    secs.push(sec("choice", "三、选择题（共10分）", 10, 5, "四选一"));
    secs.push(sec("calc", "四、计算题（共30分）", 30, 2, "口算+脱式"));
    secs.push(sec("problem", "五、解决问题（共30分）", 30, 3, "应用题"));
    let t = PaperTemplate {
        kind: lit("paperTemplate"),
        id: lit("math-unit-classic"),
        name: lit("数学单元测·经典五段"),
        description: lit("填空/判断/选择/计算/解决问题，适合常规单元检测"),
        subject: lit("math"),
        grades,
        exam_type: lit("unit"),
        tags: strings_of(&tags),
        duration_min: 40,
        total_score: 100,
        sections: secs,
        process_stages: strings_of(&stages),
        prompt_hints: strings_of(&hints),
        origin: lit("bundled"),
        created_at: 0,
    };
    proof {
        assert(t.grades@ =~= seq![1u8, 2u8, 3u8, 4u8, 5u8, 6u8]);
        assert(strings_view(t.tags@) =~= seq!["单元"@, "经典"@, "数学"@]);
        assert(strings_view(t.process_stages@) =~= Seq::<Seq<char>>::empty());
        assert(strings_view(t.prompt_hints@) =~= seq!["符合小学单元测节奏"@, "计算题答案可验算"@]);
    }
    t
}

fn make_bundled_1() -> (t: PaperTemplate)
    ensures
        bundled_1(t),
{
    let grades: Vec<u8> = vec![1, 2, 3, 4];
    let tags: Vec<&str> = vec!["口算", "专项", "日常"];
    let stages: Vec<&str> = vec![];
    let hints: Vec<&str> = vec!["题干短", "题量大", "避免长阅读"];
    let mut secs: Vec<TemplateSectionSpec> = Vec::new();
    secs.push(sec("calc", "一、直接写得数（共60分）", 60, 1, "20～30 小题口算"));
    secs.push(sec("calc", "二、脱式/简便（共25分）", 25, 4, "混合运算"));
    secs.push(sec("problem", "三、小小应用（共15分）", 15, 2, "一句话应用"));
    let t = PaperTemplate {
        kind: lit("paperTemplate"),
        id: lit("math-oral-dense"),
        name: lit("数学口算专项·高密度"),
        description: lit("短时大量口算，适合课前/课后"),
        subject: lit("math"),
        grades,
        exam_type: lit("oral"),
        tags: strings_of(&tags),
        duration_min: 15,
        total_score: 100,
        sections: secs,
        process_stages: strings_of(&stages),
        prompt_hints: strings_of(&hints),
        origin: lit("bundled"),
        created_at: 0,
    };
    proof {
        assert(t.grades@ =~= seq![1u8, 2u8, 3u8, 4u8]);
        assert(strings_view(t.tags@) =~= seq!["口算"@, "专项"@, "日常"@]);
        assert(strings_view(t.process_stages@) =~= Seq::<Seq<char>>::empty());
        assert(strings_view(t.prompt_hints@) =~= seq!["题干短"@, "题量大"@, "避免长阅读"@]);
    }
    t
}

fn make_bundled_2() -> (t: PaperTemplate)
    ensures
        bundled_2(t),
{
    let grades: Vec<u8> = vec![1, 2, 3, 4, 5, 6];
    let tags: Vec<&str> = vec!["课时", "课堂"];
    let stages: Vec<&str> = vec![];
    let hints: Vec<&str> = vec!["一课时可完成"];
    let mut secs: Vec<TemplateSectionSpec> = Vec::new();
    secs.push(sec("fill", "一、填空（共10分）", 10, 4, ""));
    secs.push(sec("calc", "二、计算（共25分）", 25, 2, ""));
    secs.push(sec("problem", "三、解决问题（共15分）", 15, 2, ""));
    let t = PaperTemplate {
        kind: lit("paperTemplate"),
        id: lit("math-lesson-quick"),
        name: lit("数学课时练·一课时"),
        description: lit("约 20 分钟课堂巩固"),
        subject: lit("math"),
        grades,
        exam_type: lit("lesson"),
        tags: strings_of(&tags),
        duration_min: 20,
        total_score: 50,
        sections: secs,
        process_stages: strings_of(&stages),
        prompt_hints: strings_of(&hints),
        origin: lit("bundled"),
        created_at: 0,
    };
    proof {
        assert(t.grades@ =~= seq![1u8, 2u8, 3u8, 4u8, 5u8, 6u8]);
        assert(strings_view(t.tags@) =~= seq!["课时"@, "课堂"@]);
        assert(strings_view(t.process_stages@) =~= Seq::<Seq<char>>::empty());
        assert(strings_view(t.prompt_hints@) =~= seq!["一课时可完成"@]);
    }
    t
}

fn make_bundled_3() -> (t: PaperTemplate)
    ensures
        bundled_3(t),
{
    let grades: Vec<u8> = vec![1, 2, 3, 4, 5, 6];
    let tags: Vec<&str> = vec!["作业", "轻量"];
    let stages: Vec<&str> = vec![];
    let hints: Vec<&str> = vec!["控制书写负担"];
    let mut secs: Vec<TemplateSectionSpec> = Vec::new();
    secs.push(sec("mixed", "一、基础练（共20分）", 20, 5, "填空或选择"));
    secs.push(sec("calc", "二、巩固练（共20分）", 20, 2, "计算"));
    secs.push(sec("problem", "三、想一想（共10分）", 10, 1, "稍难"));
    let t = PaperTemplate {
        kind: lit("paperTemplate"),
        id: lit("math-homework-light"),
        name: lit("数学课后作业·轻量"),
        description: lit("基础+巩固+1 道拓展"),
        subject: lit("math"),
        grades,
        exam_type: lit("homework"),
        tags: strings_of(&tags),
        duration_min: 25,
        total_score: 50,
        sections: secs,
        process_stages: strings_of(&stages),
        prompt_hints: strings_of(&hints),
        origin: lit("bundled"),
        created_at: 0,
    };
    proof {
        assert(t.grades@ =~= seq![1u8, 2u8, 3u8, 4u8, 5u8, 6u8]);
        assert(strings_view(t.tags@) =~= seq!["作业"@, "轻量"@]);
        assert(strings_view(t.process_stages@) =~= Seq::<Seq<char>>::empty());
        assert(strings_view(t.prompt_hints@) =~= seq!["控制书写负担"@]);
    }
    t
}

fn make_bundled_4() -> (t: PaperTemplate)
    ensures
        bundled_4(t),
{
    let grades: Vec<u8> = vec![2, 3, 4, 5, 6];
    let tags: Vec<&str> = vec!["期中", "综合"];
    let stages: Vec<&str> = vec![];
    let hints: Vec<&str> = vec!["覆盖前半学期"];
    let mut secs: Vec<TemplateSectionSpec> = Vec::new();
    secs.push(sec("fill", "一、填空题（共20分）", 20, 5, ""));
    secs.push(sec("judge", "二、判断题（共10分）", 10, 5, ""));
    secs.push(sec("choice", "三、选择题（共10分）", 10, 5, ""));
    secs.push(sec("calc", "四、计算题（共30分）", 30, 2, ""));
    secs.push(sec("operation", "五、操作题（共10分）", 10, 2, "画图/测量"));
    secs.push(sec("problem", "六、解决问题（共20分）", 20, 2, ""));
    let t = PaperTemplate {
        kind: lit("paperTemplate"),
        id: lit("math-midterm-full"),
        name: lit("数学期中·综合六段"),
        description: lit("期中模拟常用结构"),
        subject: lit("math"),
        grades,
        exam_type: lit("midterm"),
        tags: strings_of(&tags),
        duration_min: 60,
        total_score: 100,
        sections: secs,
        process_stages: strings_of(&stages),
        prompt_hints: strings_of(&hints),
        origin: lit("bundled"),
        created_at: 0,
    };
    proof {
        assert(t.grades@ =~= seq![2u8, 3u8, 4u8, 5u8, 6u8]);
        assert(strings_view(t.tags@) =~= seq!["期中"@, "综合"@]);
        assert(strings_view(t.process_stages@) =~= Seq::<Seq<char>>::empty());
        assert(strings_view(t.prompt_hints@) =~= seq!["覆盖前半学期"@]);
    }
    t
}

fn make_bundled_5() -> (t: PaperTemplate)
    ensures
        bundled_5(t),
{
    let grades: Vec<u8> = vec![1, 2, 3, 4, 5, 6];
    let tags: Vec<&str> = vec!["单元", "语文"];
    let stages: Vec<&str> = vec![];
    let hints: Vec<&str> = vec!["阅读适龄"];
    let mut secs: Vec<TemplateSectionSpec> = Vec::new();
    secs.push(sec("pinyin", "一、拼音字词（共20分）", 20, 3, ""));
    secs.push(sec("choice", "二、选择填空（共20分）", 20, 5, ""));
    secs.push(sec("mixed", "三、课内积累（共20分）", 20, 3, ""));
    secs.push(sec("reading", "四、阅读理解（共25分）", 25, 2, "课内+课外可合并出"));
    secs.push(sec("writing", "五、小练笔（共15分）", 15, 1, ""));
    let t = PaperTemplate {
        kind: lit("paperTemplate"),
        id: lit("chinese-unit-classic"),
        name: lit("语文单元测·经典"),
        description: lit("字词+选择+积累+阅读+小练笔"),
        subject: lit("chinese"),
        grades,
        exam_type: lit("unit"),
        tags: strings_of(&tags),
        duration_min: 45,
        total_score: 100,
        sections: secs,
        process_stages: strings_of(&stages),
        prompt_hints: strings_of(&hints),
        origin: lit("bundled"),
        created_at: 0,
    };
    proof {
        assert(t.grades@ =~= seq![1u8, 2u8, 3u8, 4u8, 5u8, 6u8]);
        assert(strings_view(t.tags@) =~= seq!["单元"@, "语文"@]);
        assert(strings_view(t.process_stages@) =~= Seq::<Seq<char>>::empty());
        assert(strings_view(t.prompt_hints@) =~= seq!["阅读适龄"@]);
    }
    t
}

fn make_bundled_6() -> (t: PaperTemplate)
    ensures
        bundled_6(t),
{
    let grades: Vec<u8> = vec![1, 2, 3, 4];
    let tags: Vec<&str> = vec!["字词", "专项"];
    let stages: Vec<&str> = vec![];
    let hints: Vec<&str> = vec!["无长阅读"];
    let mut secs: Vec<TemplateSectionSpec> = Vec::new();
    secs.push(sec("pinyin", "一、看拼音写词语（共20分）", 20, 1, ""));
    secs.push(sec("fill", "二、选字填空/近反义（共15分）", 15, 4, ""));
    secs.push(sec("mixed", "三、形近字组词（共15分）", 15, 5, ""));
    let t = PaperTemplate {
        kind: lit("paperTemplate"),
        id: lit("chinese-oral-words"),
        name: lit("语文字词专项"),
        description: lit("拼音字词听写式练习"),
        subject: lit("chinese"),
        grades,
        exam_type: lit("oral"),
        tags: strings_of(&tags),
        duration_min: 15,
        total_score: 50,
        sections: secs,
        process_stages: strings_of(&stages),
        prompt_hints: strings_of(&hints),
        origin: lit("bundled"),
        created_at: 0,
    };
    proof {
        assert(t.grades@ =~= seq![1u8, 2u8, 3u8, 4u8]);
        assert(strings_view(t.tags@) =~= seq!["字词"@, "专项"@]);
        assert(strings_view(t.process_stages@) =~= Seq::<Seq<char>>::empty());
        assert(strings_view(t.prompt_hints@) =~= seq!["无长阅读"@]);
    }
    t
}

fn make_bundled_7() -> (t: PaperTemplate)
    ensures
        bundled_7(t),
{
    let grades: Vec<u8> = vec![3, 4, 5, 6];
    let tags: Vec<&str> = vec!["英语", "单元"];
    let stages: Vec<&str> = vec![];
    let hints: Vec<&str> = vec!["题干英文为主，说明可用中文"];
    let mut secs: Vec<TemplateSectionSpec> = Vec::new();
    secs.push(sec("fill", "一、词汇（共20分）", 20, 5, ""));
    secs.push(sec("choice", "二、选择（共20分）", 20, 5, ""));
    secs.push(sec("mixed", "三、句型转换/填空（共20分）", 20, 4, ""));
    secs.push(sec("reading", "四、阅读（共25分）", 25, 1, "短文适龄"));
    secs.push(sec("writing", "五、写话（共15分）", 15, 1, ""));
    let t = PaperTemplate {
        kind: lit("paperTemplate"),
        id: lit("english-unit-basic"),
        name: lit("英语单元测·基础"),
        description: lit("词汇句型阅读写话"),
        subject: lit("english"),
        grades,
        exam_type: lit("unit"),
        tags: strings_of(&tags),
        duration_min: 40,
        total_score: 100,
        sections: secs,
        process_stages: strings_of(&stages),
        prompt_hints: strings_of(&hints),
        origin: lit("bundled"),
        created_at: 0,
    };
    proof {
        assert(t.grades@ =~= seq![3u8, 4u8, 5u8, 6u8]);
        assert(strings_view(t.tags@) =~= seq!["英语"@, "单元"@]);
        assert(strings_view(t.process_stages@) =~= Seq::<Seq<char>>::empty());
        assert(strings_view(t.prompt_hints@) =~= seq!["题干英文为主，说明可用中文"@]);
    }
    t
}

fn make_bundled_8() -> (t: PaperTemplate)
    ensures
        bundled_8(t),
{
    let grades: Vec<u8> = vec![3, 4, 5, 6];
    let tags: Vec<&str> = vec!["课时", "英语"];
    let stages: Vec<&str> = vec![];
    let hints: Vec<&str> = vec![];
    let mut secs: Vec<TemplateSectionSpec> = Vec::new();
    secs.push(sec("fill", "一、词汇（共20分）", 20, 6, ""));
    secs.push(sec("choice", "二、选择（共15分）", 15, 5, ""));
    secs.push(sec("mixed", "三、完成句子（共15分）", 15, 4, ""));
    let t = PaperTemplate {
        kind: lit("paperTemplate"),
        id: lit("english-lesson-vocab"),
        name: lit("英语课时练·词汇句型"),
        description: lit("短时巩固"),
        subject: lit("english"),
        grades,
        exam_type: lit("lesson"),
        tags: strings_of(&tags),
        duration_min: 20,
        total_score: 50,
        sections: secs,
        process_stages: strings_of(&stages),
        prompt_hints: strings_of(&hints),
        origin: lit("bundled"),
        created_at: 0,
    };
    proof {
        assert(t.grades@ =~= seq![3u8, 4u8, 5u8, 6u8]);
        assert(strings_view(t.tags@) =~= seq!["课时"@, "英语"@]);
        assert(strings_view(t.process_stages@) =~= Seq::<Seq<char>>::empty());
        assert(strings_view(t.prompt_hints@) =~= Seq::<Seq<char>>::empty());
    }
    t
}

fn make_bundled_9() -> (t: PaperTemplate)
    ensures
        bundled_9(t),
{
    let grades: Vec<u8> = vec![1, 2, 3, 4, 5, 6];
    let tags: Vec<&str> = vec!["再练", "讲评后"];
    let stages: Vec<&str> = vec![];
    let hints: Vec<&str> = vec!["紧扣错因知识点", "禁止照搬原题数字"];
    let mut secs: Vec<TemplateSectionSpec> = Vec::new();
    secs.push(sec("mixed", "一、同类基础（共20分）", 20, 4, ""));
    secs.push(sec("calc", "二、变式巩固（共20分）", 20, 3, ""));
    secs.push(sec("problem", "三、综合一题（共10分）", 10, 1, ""));
    let t = PaperTemplate {
        kind: lit("paperTemplate"),
        id: lit("math-redrill-compact"),
        name: lit("错题再练·紧凑"),
        description: lit("变式巩固 + 综合一题"),
        subject: lit("math"),
        grades,
        exam_type: lit("redrill"),
        tags: strings_of(&tags),
        duration_min: 20,
        total_score: 50,
        sections: secs,
        process_stages: strings_of(&stages),
        prompt_hints: strings_of(&hints),
        origin: lit("bundled"),
        created_at: 0,
    };
    proof {
        assert(t.grades@ =~= seq![1u8, 2u8, 3u8, 4u8, 5u8, 6u8]);
        assert(strings_view(t.tags@) =~= seq!["再练"@, "讲评后"@]);
        assert(strings_view(t.process_stages@) =~= Seq::<Seq<char>>::empty());
        assert(strings_view(t.prompt_hints@) =~= seq!["紧扣错因知识点"@, "禁止照搬原题数字"@]);
    }
    t
}

fn make_bundled_10() -> (t: PaperTemplate)
    ensures
        bundled_10(t),
{
    let grades: Vec<u8> = vec![1, 2, 3, 4, 5, 6];
    let tags: Vec<&str> = vec!["教案", "新授"];
    let stages: Vec<&str> = vec!["导入激趣", "探究新知", "讲解示范", "巩固练习", "课堂小结", "布置作业", "板书设计"];
    let hints: Vec<&str> = vec!["突出概念建构与活动体验"];
    let mut secs: Vec<TemplateSectionSpec> = Vec::new();

    let t = PaperTemplate {
        kind: lit("lessonTemplate"),
        id: lit("lesson-new-classic"),
        name: lit("新授课·经典七段"),
        description: lit("导入—探究—新知—巩固—小结—作业—板书"),
        subject: lit(""),
        grades,
        exam_type: lit("new"),
        tags: strings_of(&tags),
        duration_min: 40,
        total_score: 0,
        sections: secs,
        process_stages: strings_of(&stages),
        prompt_hints: strings_of(&hints),
        origin: lit("bundled"),
        created_at: 0,
    };
    proof {
        assert(t.grades@ =~= seq![1u8, 2u8, 3u8, 4u8, 5u8, 6u8]);
        assert(strings_view(t.tags@) =~= seq!["教案"@, "新授"@]);
        assert(strings_view(t.process_stages@) =~= seq!["导入激趣"@, "探究新知"@, "讲解示范"@, "巩固练习"@, "课堂小结"@, "布置作业"@, "板书设计"@]);
        assert(strings_view(t.prompt_hints@) =~= seq!["突出概念建构与活动体验"@]);
    }
    t
}

fn make_bundled_11() -> (t: PaperTemplate)
    ensures
        bundled_11(t),
{
    let grades: Vec<u8> = vec![1, 2, 3, 4, 5, 6];
    let tags: Vec<&str> = vec!["教案", "练习"];
    let stages: Vec<&str> = vec!["旧知回顾", "基础练习", "变式提升", "展示点评", "小结与作业"];
    let hints: Vec<&str> = vec![];
    let mut secs: Vec<TemplateSectionSpec> = Vec::new();

    let t = PaperTemplate {
        kind: lit("lessonTemplate"),
        id: lit("lesson-practice"),
        name: lit("练习课·讲练结合"),
        description: lit("回顾—分层练—点评—拓展"),
        subject: lit(""),
        grades,
        exam_type: lit("practice"),
        tags: strings_of(&tags),
        duration_min: 40,
        total_score: 0,
        sections: secs,
        process_stages: strings_of(&stages),
        prompt_hints: strings_of(&hints),
        origin: lit("bundled"),
        created_at: 0,
    };
    proof {
        assert(t.grades@ =~= seq![1u8, 2u8, 3u8, 4u8, 5u8, 6u8]);
        assert(strings_view(t.tags@) =~= seq!["教案"@, "练习"@]);
        assert(strings_view(t.process_stages@) =~= seq!["旧知回顾"@, "基础练习"@, "变式提升"@, "展示点评"@, "小结与作业"@]);
        assert(strings_view(t.prompt_hints@) =~= Seq::<Seq<char>>::empty());
    }
    t
}

/// The ids of the bundled templates, in order.
pub open spec fn bundled_ids() -> Seq<Seq<char>> {
    seq!["math-unit-classic"@, "math-oral-dense"@, "math-lesson-quick"@, "math-homework-light"@, "math-midterm-full"@, "chinese-unit-classic"@, "chinese-oral-words"@, "english-unit-basic"@, "english-lesson-vocab"@, "math-redrill-compact"@, "lesson-new-classic"@, "lesson-practice"@]
}

/// The structure templates that come with the application.
pub fn bundled_templates() -> (r: Vec<PaperTemplate>)
    ensures
        bundled_spec(r@),
{
    let mut r: Vec<PaperTemplate> = Vec::new();
    r.push(make_bundled_0());
    r.push(make_bundled_1());
    r.push(make_bundled_2());
    r.push(make_bundled_3());
    r.push(make_bundled_4());
    r.push(make_bundled_5());
    r.push(make_bundled_6());
    r.push(make_bundled_7());
    r.push(make_bundled_8());
    r.push(make_bundled_9());
    r.push(make_bundled_10());
    r.push(make_bundled_11());
    r
}


/// How one section is described in a prompt.
pub open spec fn section_line(s: TemplateSectionSpec) -> Seq<char> {
    s.title@ + "（"@ + nat_to_seq(s.score as nat) + "分，约"@ + nat_to_seq(s.item_count as nat)
        + "题，type="@ + s.section_type@ + (if s.hint@.len() == 0 {
        "）"@
    } else {
        "，"@ + s.hint@ + "）"@
    })
}

/// The structure of a template as put into a prompt: the stages of a lesson
/// plan, or the sections of a paper.
pub open spec fn structure_line(t: PaperTemplate) -> Seq<char> {
    if t.kind@ == "lessonTemplate"@ {
        "教案环节："@ + join(strings_view(t.process_stages@), " → "@)
    } else {
        join(t.sections@.map_values(|s: TemplateSectionSpec| section_line(s)), "；"@)
    }
}

fn section_line_of(s: &TemplateSectionSpec) -> (r: String)
    ensures
        r@ == section_line(*s),
{
    let mut v = chars_of(s.title.as_str());
    extend_chars(&mut v, "（");
    push_nat_digits(&mut v, s.score as u128);
    extend_chars(&mut v, "分，约");
    push_nat_digits(&mut v, s.item_count as u128);
    extend_chars(&mut v, "题，type=");
    extend_chars(&mut v, s.section_type.as_str());
    let ghost head = v@;
    if s.hint.unicode_len() == 0 {
        extend_chars(&mut v, "）");
    } else {
        extend_chars(&mut v, "，");
        extend_chars(&mut v, s.hint.as_str());
        extend_chars(&mut v, "）");
        assert(v@ =~= head + ("，"@ + s.hint@ + "）"@));
    }
    string_of(&v)
}

/// The structure line of a template.
pub fn template_structure_line(t: &PaperTemplate) -> (r: String)
    ensures
        r@ == structure_line(*t),
{
    if str_eq(t.kind.as_str(), "lessonTemplate") {
        let mut v = chars_of("教案环节：");
        push_join(&mut v, &t.process_stages, " → ");
        return string_of(&v);
    }
    let mut lines: Vec<String> = Vec::new();
    let mut k: usize = 0;
    while k < t.sections.len()
        invariant
            k <= t.sections.len(),
            lines.len() == k,
            forall|j: int| 0 <= j < k ==> #[trigger] lines@[j]@ == section_line(t.sections@[j]),
        decreases t.sections.len() - k,
    {
        lines.push(section_line_of(&t.sections[k]));
        k = k + 1;
    }
    assert(strings_view(lines@) =~= t.sections@.map_values(|s: TemplateSectionSpec| section_line(s)));
    let mut v: Vec<char> = Vec::new();
    push_join(&mut v, &lines, "；");
    assert(v@ =~= structure_line(*t));
    string_of(&v)
}


/// The subject name on a paper laid out from a template: the requested
/// subject, else (when none was requested) the template's.
pub open spec fn applied_subject(req: Seq<char>, template_subject: Seq<char>) -> Seq<char> {
    if req == "math"@ {
        "数学"@
    } else if req == "english"@ {
        "英语"@
    } else if req == "chinese"@ {
        "语文"@
    } else if req.len() > 0 {
        req
    } else if template_subject == "math"@ {
        "数学"@
    } else if template_subject == "english"@ {
        "英语"@
    } else {
        "语文"@
    }
}

pub open spec fn applied_edition(e: Seq<char>) -> Seq<char> {
    if e == "beishida"@ {
        "北师大版"@
    } else if e == "sujiao"@ {
        "苏教版"@
    } else if e == "renjiao"@ {
        "人教版"@
    } else if e.len() > 0 {
        e
    } else {
        "人教版"@
    }
}

pub open spec fn applied_semester(s: Seq<char>) -> Seq<char> {
    if s == "shang"@ || contains(s, "上"@) {
        "上册"@
    } else if s == "xia"@ || contains(s, "下"@) {
        "下册"@
    } else {
        s
    }
}

pub open spec fn applied_exam(t_exam: Seq<char>) -> Seq<char> {
    exam_label_spec(if t_exam.len() == 0 { "unit"@ } else { t_exam })
}

pub open spec fn applied_title(
    edition: Seq<char>,
    subject: Seq<char>,
    grade: u8,
    sem: Seq<char>,
    exam: Seq<char>,
    unit_name: Seq<char>,
    template_name: Seq<char>,
) -> Seq<char> {
    if unit_name.len() > 0 {
        "小学"@ + edition + subject + nat_to_seq(grade as nat) + "年级"@ + sem + exam + "·"@ + unit_name
            + "（"@ + template_name + "）"@
    } else {
        "小学"@ + edition + subject + nat_to_seq(grade as nat) + "年级"@ + sem + exam + "（"@
            + template_name + "）"@
    }
}

/// The knowledge points of all the units, one unit after the other.
pub open spec fn unit_points(units: Seq<UnitInfo>) -> Seq<Seq<char>>
    decreases units.len(),
{
    if units.len() == 0 {
        Seq::empty()
    } else {
        unit_points(units.drop_last()) + strings_view(units.last().points@)
    }
}

/// The first eight knowledge points of the pack, if there is one.
pub open spec fn sample_points(pack: Option<&KnowledgePack>) -> Seq<Seq<char>> {
    match pack {
        Some(p) => {
            let a = unit_points(p.units@);
            a.take(if a.len() < 8 { a.len() as int } else { 8 })
        },
        None => Seq::empty(),
    }
}

/// The score of each question of a section: the section's score divided by
/// the number of questions, rounded to the nearest integer (halves up), at least 1.
pub open spec fn each_score(score: u32, n: int) -> int {
    let r = (2 * score + n) / (2 * n);
    if r < 1 {
        1
    } else {
        r
    }
}

/// The knowledge point given to question `i`: the points in turn, or a
/// placeholder when there are none.
pub open spec fn point_for(points: Seq<Seq<char>>, i: int) -> Seq<char> {
    if points.len() > 0 {
        points[i % (points.len() as int)]
    } else {
        "本课知识点"@
    }
}

pub open spec fn placeholder_stem(ty: Seq<char>, i: int, n: int, each: int, kp: Seq<char>) -> Seq<char> {
    let no = nat_to_seq((i + 1) as nat);
    if ty == "calc"@ && i == 0 && n <= 3 {
        no + ". 计算（模板占位，可用智能组卷填充）\n6×7＝　　  48÷6＝　　  25+36＝"@
    } else if ty == "judge"@ {
        no + ". 下列说法正确。（　　）"@
    } else if ty == "choice"@ {
        no + ". 请选择正确答案。（　　）"@
    } else if ty == "problem"@ {
        no + ".（约"@ + nat_to_seq(each as nat) + "分）结合「"@ + kp + "」完成应用题。（模板：请用 AI 填充完整叙述）"@
    } else {
        no + ". 与「"@ + kp + "」相关：请完成练习。（　　）"@
    }
}

pub open spec fn placeholder_options(ty: Seq<char>) -> Seq<Seq<char>> {
    if ty == "choice"@ {
        seq!["A. 选项一"@, "B. 选项二"@, "C. 选项三"@, "D. 选项四"@]
    } else {
        Seq::empty()
    }
}

pub open spec fn placeholder_answer(ty: Seq<char>, i: int) -> Seq<char> {
    if ty == "judge"@ {
        "√"@
    } else if ty == "choice"@ {
        "A"@
    } else if ty == "calc"@ && i == 0 {
        "42；8；61"@
    } else {
        "（模板占位）"@
    }
}

pub open spec fn placeholder_analysis() -> Seq<char> {
    "结构模板占位，正式使用请「按模板智能组卷」或换题"@
}

/// Question `i` (of `n`) of section `si`, laid out from a template section of type `ty`.
pub open spec fn placeholder_ok(it: DraftItem, ty: Seq<char>, si: int, i: int, n: int, each: int, kp: Seq<char>) -> bool {
    item_is(
        it,
        nat_to_seq((si + 1) as nat) + "-"@ + nat_to_seq((i + 1) as nat),
        placeholder_stem(ty, i, n, each, kp),
        placeholder_options(ty),
        placeholder_answer(ty, i),
        placeholder_analysis(),
        each as u32,
        seq![kp],
    )
}

/// Number of questions a template section asks for (at least one).
pub open spec fn section_count(spec: TemplateSectionSpec) -> int {
    if spec.item_count < 1 { 1 } else { spec.item_count as int }
}

/// Section `si` of a paper laid out from the template section `spec`.
pub open spec fn applied_section_ok(s: DraftSection, spec: TemplateSectionSpec, si: int, points: Seq<Seq<char>>) -> bool {
    &&& s.section_type@ == spec.section_type@
    &&& s.title@ == spec.title@
    &&& s.score == spec.score
    &&& s.items@.len() == section_count(spec)
    &&& forall|i: int|
        0 <= i < section_count(spec) ==> placeholder_ok(
            #[trigger] s.items@[i],
            spec.section_type@,
            si,
            i,
            section_count(spec),
            each_score(spec.score, section_count(spec)),
            point_for(points, i),
        )
}

/// Each question of a section laid out from a template carries the id
/// `section-question` (both counted from 1); a choice question answers `A`
/// out of four options, and a true-or-false question answers `√`.
pub proof fn lemma_applied_question(s: DraftSection, spec: TemplateSectionSpec, si: int, points: Seq<Seq<char>>, i: int)
    requires
        applied_section_ok(s, spec, si, points),
        0 <= i < s.items@.len(),
    ensures
        s.items@.len() == section_count(spec),
        s.items@[i].id@ == nat_to_seq((si + 1) as nat) + "-"@ + nat_to_seq((i + 1) as nat),
        spec.section_type@ == "choice"@ ==> s.items@[i].answer@ == "A"@ && s.items@[i].options@.len() == 4,
        spec.section_type@ == "judge"@ ==> s.items@[i].answer@ == "√"@,
{
    let it = s.items@[i];
    assert(placeholder_ok(it, spec.section_type@, si, i, section_count(spec), each_score(spec.score, section_count(spec)), point_for(points, i)));
    reveal_strlit("choice");
    reveal_strlit("judge");
    assert("choice"@.len() != "judge"@.len());
    assert(strings_view(it.options@).len() == it.options@.len());
}

/// Appends the knowledge points of the first `n` units.
pub(crate) fn push_unit_points_upto(out: &mut Vec<String>, units: &Vec<UnitInfo>, n: usize)
    requires
        n <= units.len(),
    ensures
        strings_view(final(out)@) == strings_view(old(out)@) + unit_points(units@.take(n as int)),
{
    let ghost before = strings_view(out@);
    let mut k: usize = 0;
    assert(strings_view(out@) =~= before + unit_points(units@.take(0)));
    while k < n
        invariant
            k <= n <= units.len(),
            strings_view(out@) == before + unit_points(units@.take(k as int)),
        decreases n - k,
    {
        let ghost mid = strings_view(out@);
        copy_strings(out, &units[k].points);
        proof {
            assert(units@.take(k + 1).drop_last() =~= units@.take(k as int));
            assert(units@.take(k + 1).last() == units@[k as int]);
            assert(strings_view(out@) =~= before + unit_points(units@.take(k + 1)));
        }
        k = k + 1;
    }
}

/// Appends copies of the strings of `v`.
pub(crate) fn copy_strings(out: &mut Vec<String>, v: &Vec<String>)
    ensures
        strings_view(final(out)@) == strings_view(old(out)@) + strings_view(v@),
{
    let ghost before = out@;
    let mut j: usize = 0;
    while j < v.len()
        invariant
            j <= v.len(),
            out@ == before + v@.take(j as int),
        decreases v.len() - j,
    {
        out.push(copy_text(&v[j]));
        assert(out@ =~= before + v@.take(j + 1));
        j = j + 1;
    }
    assert(v@.take(v.len() as int) =~= v@);
    assert(strings_view(out@) =~= strings_view(before) + strings_view(v@));
}

fn copy_text(s: &String) -> (r: String)
    ensures
        r == s,
{
    s.clone()
}

/// The first eight knowledge points of the pack.
pub fn pack_points(pack: Option<&KnowledgePack>) -> (r: Vec<String>)
    ensures
        strings_view(r@) == sample_points(pack),
{
    match pack {
        Some(p) => {
            let mut all: Vec<String> = Vec::new();
            push_unit_points_upto(&mut all, &p.units, p.units.len());
            assert(p.units@.take(p.units@.len() as int) =~= p.units@);
            assert(strings_view(all@) =~= unit_points(p.units@));
            let mut r: Vec<String> = Vec::new();
            let m = if all.len() < 8 { all.len() } else { 8 };
            let mut k: usize = 0;
            while k < m
                invariant
                    k <= m <= all.len(),
                    r@ == all@.take(k as int),
                decreases m - k,
            {
                r.push(copy_text(&all[k]));
                assert(r@ =~= all@.take(k + 1));
                k = k + 1;
            }
            assert(strings_view(r@) =~= sample_points(pack));
            r
        },
        None => {
            let r: Vec<String> = Vec::new();
            assert(strings_view(r@) =~= sample_points(pack));
            r
        },
    }
}

fn number_text(n: u64) -> (r: Vec<char>)
    ensures
        r@ == nat_to_seq(n as nat),
{
    let mut v: Vec<char> = Vec::new();
    push_nat_digits(&mut v, n as u128);
    assert(v@ =~= nat_to_seq(n as nat));
    v
}

fn placeholder_item(ty: &str, si: usize, i: usize, n: usize, each: u32, kp: &String) -> (r: DraftItem)
    requires
        si < u64::MAX,
        i < n <= u64::MAX,
    ensures
        placeholder_ok(r, ty@, si as int, i as int, n as int, each as int, kp@),
{
    let no = number_text(i as u64 + 1);
    let mut id = number_text(si as u64 + 1);
    extend_chars(&mut id, "-");
    extend_vec(&mut id, &no);
    let mut stem = no.clone();
    proof {
        assert(stem@ == no@);
    }
    if str_eq(ty, "calc") && i == 0 && n <= 3 {
        extend_chars(&mut stem, ". 计算（模板占位，可用智能组卷填充）\n6×7＝　　  48÷6＝　　  25+36＝");
    } else if str_eq(ty, "judge") {
        extend_chars(&mut stem, ". 下列说法正确。（　　）");
    } else if str_eq(ty, "choice") {
        extend_chars(&mut stem, ". 请选择正确答案。（　　）");
    } else if str_eq(ty, "problem") {
        extend_chars(&mut stem, ".（约");
        push_nat_digits(&mut stem, each as u128);
        extend_chars(&mut stem, "分）结合「");
        extend_chars(&mut stem, kp.as_str());
        extend_chars(&mut stem, "」完成应用题。（模板：请用 AI 填充完整叙述）");
    } else {
        extend_chars(&mut stem, ". 与「");
        extend_chars(&mut stem, kp.as_str());
        extend_chars(&mut stem, "」相关：请完成练习。（　　）");
    }
    let options: Vec<String> = if str_eq(ty, "choice") {
        vec![lit("A. 选项一"), lit("B. 选项二"), lit("C. 选项三"), lit("D. 选项四")]
    } else {
        Vec::new()
    };
    assert(strings_view(options@) =~= placeholder_options(ty@));
    let answer = if str_eq(ty, "judge") {
        lit("√")
    } else if str_eq(ty, "choice") {
        lit("A")
    } else if str_eq(ty, "calc") && i == 0 {
        lit("42；8；61")
    } else {
        lit("（模板占位）")
    };
    let kps = vec![copy_text(kp)];
    assert(strings_view(kps@) =~= seq![kp@]);
    new_item(
        string_of(&id),
        string_of(&stem),
        options,
        answer,
        lit("结构模板占位，正式使用请「按模板智能组卷」或换题"),
        each,
        kps,
    )
}

proof fn lemma_each_fits(s: u32, n: int)
    requires
        n >= 1,
    ensures
        1 <= each_score(s, n) <= u32::MAX,
{
    if s >= 1 {
        assert((2 * s + n) / (2 * n) <= s) by (nonlinear_arith)
            requires
                s >= 1,
                n >= 1,
        {
            assert(2 * s + n < 2 * n * (s + 1));
        }
    } else {
        assert((2 * s + n) / (2 * n) == 0) by (nonlinear_arith)
            requires
                s == 0,
                n >= 1,
        {
        }
    }
}

fn applied_section(spec: &TemplateSectionSpec, si: usize, points: &Vec<String>) -> (r: DraftSection)
    requires
        si < u64::MAX,
    ensures
        applied_section_ok(r, *spec, si as int, strings_view(points@)),
{
    let n: u64 = if spec.item_count < 1 { 1 } else { spec.item_count as u64 };
    let e: u64 = (2 * spec.score as u64 + n) / (2 * n);
    let e: u64 = if e < 1 { 1 } else { e };
    proof {
        lemma_each_fits(spec.score, n as int);
    }
    let each: u32 = e as u32;
    let n = n as usize;
    let placeholder = lit("本课知识点");
    let mut items: Vec<DraftItem> = Vec::new();
    let mut i: usize = 0;
    while i < n
        invariant
            si < u64::MAX,
            i <= n,
            n as int == (if spec.item_count < 1 { 1 } else { spec.item_count as int }),
            each as int == each_score(spec.score, n as int),
            placeholder@ == "本课知识点"@,
            items@.len() == i,
            forall|j: int|
                0 <= j < i ==> #[trigger] placeholder_ok(
                    items@[j],
                    spec.section_type@,
                    si as int,
                    j,
                    n as int,
                    each as int,
                    point_for(strings_view(points@), j),
                ),
        decreases n - i,
    {
        let kp = if points.len() > 0 { &points[i % points.len()] } else { &placeholder };
        let it = placeholder_item(spec.section_type.as_str(), si, i, n, each, kp);
        items.push(it);
        i = i + 1;
    }
    DraftSection {
        section_type: copy_text(&spec.section_type),
        title: copy_text(&spec.title),
        score: spec.score,
        items,
    }
}

/// What laying out a paper from template `t` gives: the heading built from the
/// request, and one section per template section.
pub open spec fn applied_ok(
    r: DraftPaper,
    t: PaperTemplate,
    req_subject: Seq<char>,
    req_edition: Seq<char>,
    grade: u8,
    semester: Seq<char>,
    unit_name: Seq<char>,
    points: Seq<Seq<char>>,
) -> bool {
    let subject = applied_subject(req_subject, t.subject@);
    let edition = applied_edition(req_edition);
    let sem = applied_semester(semester);
    let exam = applied_exam(t.exam_type@);
    &&& r.meta.edition@ == edition
    &&& r.meta.subject@ == subject
    &&& r.meta.grade == grade
    &&& r.meta.semester@ == sem
    &&& r.meta.exam_type@ == exam
    &&& r.meta.title@ == applied_title(edition, subject, grade, sem, exam, unit_name, t.name@)
    &&& r.meta.total_score == t.total_score
    &&& r.meta.duration_min == t.duration_min
    &&& r.meta.source@ == "template-market"@
    &&& r.meta.template_id matches Some(id) && id@ == t.id@
    &&& r.meta.template_name matches Some(nm) && nm@ == t.name@
    &&& r.sections@.len() == t.sections@.len()
    &&& forall|si: int|
        0 <= si < t.sections@.len() ==> #[trigger] applied_section_ok(
            r.sections@[si],
            t.sections@[si],
            si,
            points,
        )
}

fn applied_subject_of(req: &str, template_subject: &str) -> (r: Vec<char>)
    ensures
        r@ == applied_subject(req@, template_subject@),
{
    if str_eq(req, "math") {
        chars_of("数学")
    } else if str_eq(req, "english") {
        chars_of("英语")
    } else if str_eq(req, "chinese") {
        chars_of("语文")
    } else if req.unicode_len() > 0 {
        chars_of(req)
    } else if str_eq(template_subject, "math") {
        chars_of("数学")
    } else if str_eq(template_subject, "english") {
        chars_of("英语")
    } else {
        chars_of("语文")
    }
}

fn applied_edition_of(e: &str) -> (r: Vec<char>)
    ensures
        r@ == applied_edition(e@),
{
    if str_eq(e, "beishida") {
        chars_of("北师大版")
    } else if str_eq(e, "sujiao") {
        chars_of("苏教版")
    } else if str_eq(e, "renjiao") {
        chars_of("人教版")
    } else if e.unicode_len() > 0 {
        chars_of(e)
    } else {
        chars_of("人教版")
    }
}

fn applied_semester_of(s: &str) -> (r: Vec<char>)
    ensures
        r@ == applied_semester(s@),
{
    if str_eq(s, "shang") || str_contains(s, "上") {
        chars_of("上册")
    } else if str_eq(s, "xia") || str_contains(s, "下") {
        chars_of("下册")
    } else {
        chars_of(s)
    }
}

/// The message given when a lesson-plan template is applied as a paper.
pub open spec fn lesson_template_message() -> Seq<char> {
    "这是教案模板，请在教案模式套用"@
}

/// Lays out a placeholder paper from template `t`, for the requested subject,
/// edition, grade, semester and unit; questions cite the first knowledge points
/// of `pack`. A lesson-plan template is refused.
pub fn apply_paper_template(
    t: &PaperTemplate,
    req_subject: &str,
    req_edition: &str,
    grade: u8,
    semester: &str,
    unit_name: &str,
    pack: Option<&KnowledgePack>,
) -> (r: Result<DraftPaper, String>)
    ensures
        t.kind@ == "lessonTemplate"@ ==> (r matches Err(m) && m@ == lesson_template_message()),
        t.kind@ != "lessonTemplate"@ ==> (r matches Ok(p) && applied_ok(
            p,
            *t,
            req_subject@,
            req_edition@,
            grade,
            semester@,
            unit_name@,
            sample_points(pack),
        )),
{
    if str_eq(t.kind.as_str(), "lessonTemplate") {
        return Err(lit("这是教案模板，请在教案模式套用"));
    }
    let subject = applied_subject_of(req_subject, t.subject.as_str());
    let edition = applied_edition_of(req_edition);
    let sem = applied_semester_of(semester);
    let exam = if t.exam_type.unicode_len() == 0 {
        exam_type_label("unit")
    } else {
        exam_type_label(t.exam_type.as_str())
    };
    let mut title = chars_of("小学");
    extend_vec(&mut title, &edition);
    extend_vec(&mut title, &subject);
    push_nat_digits(&mut title, grade as u128);
    extend_chars(&mut title, "年级");
    extend_vec(&mut title, &sem);
    extend_chars(&mut title, exam);
    if unit_name.unicode_len() > 0 {
        extend_chars(&mut title, "·");
        extend_chars(&mut title, unit_name);
    }
    extend_chars(&mut title, "（");
    extend_chars(&mut title, t.name.as_str());
    extend_chars(&mut title, "）");
    let points = pack_points(pack);
    let mut sections: Vec<DraftSection> = Vec::new();
    let mut si: usize = 0;
    while si < t.sections.len()
        invariant
            si <= t.sections.len(),
            sections@.len() == si,
            strings_view(points@) == sample_points(pack),
            forall|j: int|
                0 <= j < si ==> #[trigger] applied_section_ok(
                    sections@[j],
                    t.sections@[j],
                    j,
                    sample_points(pack),
                ),
        decreases t.sections.len() - si,
    {
        let s = applied_section(&t.sections[si], si, &points);
        sections.push(s);
        si = si + 1;
    }
    let meta = DraftMeta {
        edition: string_of(&edition),
        subject: string_of(&subject),
        grade,
        semester: string_of(&sem),
        exam_type: lit(exam),
        title: string_of(&title),
        total_score: t.total_score,
        duration_min: t.duration_min,
        source: lit("template-market"),
        template_id: Some(copy_text(&t.id)),
        template_name: Some(copy_text(&t.name)),
    };
    Ok(DraftPaper { meta, sections })
}

/// Whether `id` is the id of a bundled template.
pub fn is_bundled_id(id: &str) -> (r: bool)
    ensures
        r == bundled_ids().contains(id@),
{
    let all = bundled_templates();
    let mut k: usize = 0;
    while k < all.len()
        invariant
            bundled_spec(all@),
            k <= all.len(),
            forall|j: int| 0 <= j < k ==> bundled_ids()[j] != id@,
        decreases all.len() - k,
    {
        if str_eq(all[k].id.as_str(), id) {
            proof {
                assert(bundled_ids()[k as int] == id@);
            }
            return true;
        }
        k = k + 1;
    }
    proof {
        assert forall|j: int| 0 <= j < bundled_ids().len() implies bundled_ids()[j] != id@ by {
            assert(all@[j].id@ == bundled_ids()[j]);
        }
    }
    false
}

/// `t` with the origin `user` when it has none.
pub open spec fn with_user_origin(new: PaperTemplate, old: PaperTemplate) -> bool {
    &&& new.origin@ == (if old.origin@.len() == 0 { "user"@ } else { old.origin@ })
    &&& new == PaperTemplate { origin: new.origin, ..old }
}

/// All templates: the bundled ones, then the user's own (an empty origin
/// read as `user`).
pub fn list_all_templates(user: Vec<PaperTemplate>) -> (r: Vec<PaperTemplate>)
    ensures
        r@.len() == 12 + user@.len(),
        bundled_spec(r@.take(12)),
        forall|j: int| 0 <= j < user@.len() ==> #[trigger] with_user_origin(r@[12 + j], user@[j]),
{
    let mut r = bundled_templates();
    let ghost b = r@;
    let ghost u = user@;
    for t in it: user
        invariant
            it.seq() == u,
            r@.len() == 12 + it.index(),
            r@.take(12) == b,
            bundled_spec(b),
            forall|j: int| 0 <= j < it.index() ==> #[trigger] with_user_origin(r@[12 + j], u[j]),
    {
        let ghost k = it.index();
        let filled = if t.origin.unicode_len() == 0 { PaperTemplate { origin: lit("user"), ..t } } else { t };
        r.push(filled);
        proof {
            assert(r@.take(12) =~= b);
            assert(with_user_origin(r@[12 + k], u[k as int]));
        }
    }
    r
}

/// Index of the first template with id `id`.
pub fn find_template(list: &Vec<PaperTemplate>, id: &str) -> (r: Option<usize>)
    ensures
        match r {
            Some(i) => i < list.len() && list@[i as int].id@ == id@ && forall|j: int|
                0 <= j < i ==> list@[j].id@ != id@,
            None => forall|j: int| 0 <= j < list.len() ==> list@[j].id@ != id@,
        },
{
    let mut k: usize = 0;
    while k < list.len()
        invariant
            k <= list.len(),
            forall|j: int| 0 <= j < k ==> list@[j].id@ != id@,
        decreases list.len() - k,
    {
        if str_eq(list[k].id.as_str(), id) {
            return Some(k);
        }
        k = k + 1;
    }
    None
}

/// The message given for an unknown template id.
pub fn template_not_found(id: &str) -> (r: String)
    ensures
        r@ == "模板不存在: "@ + id@,
{
    let mut v = chars_of("模板不存在: ");
    extend_chars(&mut v, id);
    string_of(&v)
}

/// The templates of `s` whose id is not `id`, in order.
pub open spec fn without_id(s: Seq<PaperTemplate>, id: Seq<char>) -> Seq<PaperTemplate>
    decreases s.len(),
{
    if s.len() == 0 {
        s
    } else if s.last().id@ == id {
        without_id(s.drop_last(), id)
    } else {
        without_id(s.drop_last(), id).push(s.last())
    }
}

proof fn lemma_without_id_len(s: Seq<PaperTemplate>, id: Seq<char>)
    ensures
        without_id(s, id).len() <= s.len(),
        without_id(s, id).len() == s.len() <==> forall|j: int| 0 <= j < s.len() ==> s[j].id@ != id,
    decreases s.len(),
{
    if s.len() > 0 {
        lemma_without_id_len(s.drop_last(), id);
        if s.last().id@ != id {
            assert forall|j: int| 0 <= j < s.len() - 1 implies s[j] == s.drop_last()[j] by {}
        }
    }
}

fn keep_other_ids(list: Vec<PaperTemplate>, id: &str) -> (r: Vec<PaperTemplate>)
    ensures
        r@ == without_id(list@, id@),
{
    let ghost s = list@;
    let mut r: Vec<PaperTemplate> = Vec::new();
    for t in it: list
        invariant
            it.seq() == s,
            r@ == without_id(s.take(it.index() as int), id@),
    {
        let ghost k = it.index();
        proof {
            assert(s.take(k + 1).drop_last() =~= s.take(k as int));
            assert(s.take(k + 1).last() == t);
        }
        if !str_eq(t.id.as_str(), id) {
            r.push(t);
        }
    }
    assert(s.take(s.len() as int) =~= s);
    r
}

/// Deleting a user template: a bundled id is refused, an id that no user
/// template has is reported; otherwise every user template with that id is removed.
pub fn delete_user_template(list: Vec<PaperTemplate>, id: &str) -> (r: Result<Vec<PaperTemplate>, String>)
    ensures
        bundled_ids().contains(id@) ==> (r matches Err(m) && m@ == "内置模板不能删除"@),
        !bundled_ids().contains(id@) && (forall|j: int| 0 <= j < list@.len() ==> list@[j].id@ != id@)
            ==> (r matches Err(m) && m@ == "用户模板不存在"@),
        !bundled_ids().contains(id@) && (exists|j: int| 0 <= j < list@.len() && list@[j].id@ == id@)
            ==> (r matches Ok(v) && v@ == without_id(list@, id@)),
{
    if is_bundled_id(id) {
        return Err(lit("内置模板不能删除"));
    }
    let ghost s = list@;
    let before = list.len();
    let kept = keep_other_ids(list, id);
    proof {
        lemma_without_id_len(s, id@);
    }
    if kept.len() == before {
        Err(lit("用户模板不存在"))
    } else {
        Ok(kept)
    }
}

/// Where the id of an imported template comes from: `None` keeps it; otherwise
/// a fresh id is made with the given prefix (`import-template` for a template
/// without id, the id and `-user` for one that has a bundled template's id).
pub fn imported_id_prefix(id: &str) -> (r: Option<String>)
    ensures
        id@.len() == 0 ==> (r matches Some(p) && p@ == "import-template"@),
        id@.len() > 0 && bundled_ids().contains(id@) ==> (r matches Some(p) && p@ == id@ + "-user"@),
        id@.len() > 0 && !bundled_ids().contains(id@) ==> r is None,
{
    if id.unicode_len() == 0 {
        Some(lit("import-template"))
    } else if is_bundled_id(id) {
        let mut v = chars_of(id);
        extend_chars(&mut v, "-user");
        Some(string_of(&v))
    } else {
        None
    }
}

/// An imported template as it is kept: origin `user`, the time of the import,
/// a default name, and a kind taken from whether it has lesson stages.
pub open spec fn imported_ok(r: PaperTemplate, t: PaperTemplate, now: u64) -> bool {
    &&& r.origin@ == "user"@
    &&& r.created_at == now
    &&& r.name@ == (if t.name@.len() == 0 { "导入模板"@ } else { t.name@ })
    &&& r.kind@ == (if t.kind@.len() > 0 {
        t.kind@
    } else if t.process_stages@.len() == 0 {
        "paperTemplate"@
    } else {
        "lessonTemplate"@
    })
    &&& r == PaperTemplate { origin: r.origin, created_at: r.created_at, name: r.name, kind: r.kind, ..t }
}

pub fn finish_import(t: PaperTemplate, now: u64) -> (r: PaperTemplate)
    ensures
        imported_ok(r, t, now),
{
    let name = if t.name.unicode_len() == 0 { lit("导入模板") } else { copy_text(&t.name) };
    let kind = if t.kind.unicode_len() > 0 {
        copy_text(&t.kind)
    } else if t.process_stages.len() == 0 {
        lit("paperTemplate")
    } else {
        lit("lessonTemplate")
    };
    PaperTemplate { origin: lit("user"), created_at: now, name, kind, ..t }
}

/// The user's templates after `t` is added: first, replacing any with its id.
pub fn add_user_template(list: Vec<PaperTemplate>, t: PaperTemplate) -> (r: Vec<PaperTemplate>)
    ensures
        r@ == seq![t] + without_id(list@, t.id@),
{
    let id = copy_text(&t.id);
    let kept = keep_other_ids(list, id.as_str());
    let mut r: Vec<PaperTemplate> = vec![t];
    let mut k = kept;
    let ghost r0 = r@;
    let ghost k0 = k@;
    r.append(&mut k);
    assert(r@ =~= r0 + k0);
    r
}

/// The most user templates kept.
pub open spec fn max_user_templates() -> nat {
    100
}

/// The user's templates after a template saved from a paper is added: first,
/// and no more than 100 kept.
pub fn push_saved_template(list: Vec<PaperTemplate>, t: PaperTemplate) -> (r: Vec<PaperTemplate>)
    ensures
        r@ == (seq![t] + list@).take(
            if list@.len() + 1 > max_user_templates() { max_user_templates() as int } else { (list@.len() + 1) as int },
        ),
{
    let mut r: Vec<PaperTemplate> = vec![t];
    let mut k = list;
    let ghost r0 = r@;
    let ghost k0 = k@;
    r.append(&mut k);
    assert(r@ =~= r0 + k0);
    if r.len() > 100 {
        r.truncate(100);
    }
    assert(r@ =~= (r0 + k0).take(
        if k0.len() + 1 > max_user_templates() { max_user_templates() as int } else { (k0.len() + 1) as int },
    ));
    r
}


/// A section of a paper as a template section: its type (`mixed` when
/// none), title (`大题` when none), score, and question count (at least 1).
pub open spec fn section_from_paper(t: TemplateSectionSpec, s: crate::paper::ExamSection) -> bool {
    let count: u32 = match s.items {
        Some(v) => (v@.len() % 0x1_0000_0000) as u32,
        None => 1u32,
    };
    &&& t.section_type@ == match s.section_type {
        Some(x) => x@,
        None => "mixed"@,
    }
    &&& t.title@ == match s.title {
        Some(x) => x@,
        None => "大题"@,
    }
    &&& t.score == match crate::paper::number_unsigned(s.score) {
        Some(v) => (v % 0x1_0000_0000) as u32,
        None => 0u32,
    }
    &&& t.item_count == if count < 1 { 1u32 } else { count }
    &&& t.hint@.len() == 0
}

pub open spec fn first_chars(s: Seq<char>, n: nat) -> Seq<char> {
    if s.len() <= n {
        s
    } else {
        s.take(n as int)
    }
}

/// The subject code of a subject written in Chinese.
pub open spec fn subject_code(s: Seq<char>) -> Seq<char> {
    if s == "数学"@ {
        "math"@
    } else if s == "语文"@ {
        "chinese"@
    } else if s == "英语"@ {
        "english"@
    } else {
        s
    }
}

/// The user template saved from a paper.
pub open spec fn saved_template_ok(r: PaperTemplate, p: crate::paper::ExamPaper, name: Option<String>, id: Seq<char>, now: u64) -> bool {
    let secs = crate::paper::sections_of(p);
    let meta_title = match p.meta.title {
        Some(t) => t@,
        None => "未命名"@,
    };
    let grade: u8 = match crate::paper::number_unsigned(p.meta.grade) {
        Some(g) => (g % 256) as u8,
        None => 0u8,
    };
    &&& r.kind@ == "paperTemplate"@
    &&& r.id@ == id
    &&& r.name@ == match name {
        Some(n) => if crate::text::trim(n@).len() > 0 { n@ } else { "我的模板·"@ + first_chars(meta_title, 20) },
        None => "我的模板·"@ + first_chars(meta_title, 20),
    }
    &&& r.description@ == "从试卷「"@ + meta_title + "」另存"@
    &&& r.subject@ == subject_code(crate::paper::text_or_empty(p.meta.subject))
    &&& r.grades@ == if grade > 0 { seq![grade] } else { Seq::empty() }
    &&& r.exam_type@ == "unit"@
    &&& strings_view(r.tags@) == seq!["我的"@, "自定义"@]
    &&& r.duration_min == match crate::paper::number_unsigned(p.meta.duration_min) {
        Some(v) => (v % 0x1_0000_0000) as u32,
        None => 40u32,
    }
    &&& r.total_score == match crate::paper::number_unsigned(p.meta.total_score) {
        Some(v) => (v % 0x1_0000_0000) as u32,
        None => 100u32,
    }
    &&& r.sections@.len() == secs.len()
    &&& forall|i: int| 0 <= i < secs.len() ==> section_from_paper(#[trigger] r.sections@[i], secs[i])
    &&& r.process_stages@.len() == 0
    &&& r.prompt_hints@.len() == 0
    &&& r.origin@ == "user"@
    &&& r.created_at == now
}

fn u32_of(o: &Option<crate::paper::JsonNumber>, d: u32) -> (r: u32)
    ensures
        r == match crate::paper::number_unsigned(*o) {
            Some(v) => (v % 0x1_0000_0000) as u32,
            None => d,
        },
{
    match o {
        Some(n) => match n.unsigned {
            Some(v) => (v % 0x1_0000_0000) as u32,
            None => d,
        },
        None => d,
    }
}

/// The template saved from a paper (see `saved_template_ok`): refused when
/// the paper has no list of sections, or an empty one.
pub fn template_from_paper(p: &crate::paper::ExamPaper, name: Option<String>, id: String, now: u64) -> (r: Result<PaperTemplate, String>)
    ensures
        p.sections is None ==> (r matches Err(e) && e@ == "试卷无 sections"@),
        p.sections is Some && crate::paper::sections_of(*p).len() == 0 ==> (r matches Err(e) && e@ == "没有大题，无法保存模板"@),
        crate::paper::sections_of(*p).len() > 0 ==> (r matches Ok(t) && saved_template_ok(t, *p, name, id@, now)),
{
    let secs = match &p.sections {
        Some(v) => v,
        None => return Err(lit("试卷无 sections")),
    };
    let mut sections: Vec<TemplateSectionSpec> = Vec::new();
    let mut i: usize = 0;
    while i < secs.len()
        invariant
            i <= secs.len(),
            sections@.len() == i,
            forall|j: int| 0 <= j < i ==> section_from_paper(#[trigger] sections@[j], secs@[j]),
        decreases secs.len() - i,
    {
        let s = &secs[i];
        let count: u32 = match &s.items {
            Some(v) => ((v.len() as u64) % 0x1_0000_0000) as u32,
            None => 1,
        };
        sections.push(TemplateSectionSpec {
            section_type: match &s.section_type {
                Some(x) => x.clone(),
                None => lit("mixed"),
            },
            title: match &s.title {
                Some(x) => x.clone(),
                None => lit("大题"),
            },
            score: u32_of(&s.score, 0),
            item_count: if count < 1 { 1 } else { count },
            hint: String::new(),
        });
        i = i + 1;
    }
    if sections.len() == 0 {
        return Err(lit("没有大题，无法保存模板"));
    }
    let meta_title = match &p.meta.title {
        Some(t) => t.clone(),
        None => lit("未命名"),
    };
    let mt = chars_of(meta_title.as_str());
    let mut default_name = chars_of("我的模板·");
    if mt.len() <= 20 {
        extend_vec(&mut default_name, &mt);
    } else {
        let head = crate::text::copy_range(&mt, 0, 20);
        assert(head@ =~= mt@.take(20));
        extend_vec(&mut default_name, &head);
    }
    let tpl_name = match name {
        Some(n) => {
            if crate::text::trim_str(n.as_str()).unicode_len() > 0 {
                n
            } else {
                string_of(&default_name)
            }
        },
        None => string_of(&default_name),
    };
    let mut desc = chars_of("从试卷「");
    extend_vec(&mut desc, &mt);
    extend_chars(&mut desc, "」另存");
    let raw = match &p.meta.subject {
        Some(x) => x.clone(),
        None => String::new(),
    };
    let subject = if str_eq(raw.as_str(), "数学") {
        lit("math")
    } else if str_eq(raw.as_str(), "语文") {
        lit("chinese")
    } else if str_eq(raw.as_str(), "英语") {
        lit("english")
    } else {
        raw
    };
    let grade: u8 = match &p.meta.grade {
        Some(n) => match n.unsigned {
            Some(g) => (g % 256) as u8,
            None => 0,
        },
        None => 0,
    };
    let grades: Vec<u8> = if grade > 0 { vec![grade] } else { Vec::new() };
    let tags = vec![lit("我的"), lit("自定义")];
    assert(strings_view(tags@) =~= seq!["我的"@, "自定义"@]);
    proof {
        if grade > 0 {
            assert(grades@ =~= seq![grade]);
        }
    }
    Ok(PaperTemplate {
        kind: lit("paperTemplate"),
        id,
        name: tpl_name,
        description: string_of(&desc),
        subject,
        grades,
        exam_type: lit("unit"),
        tags,
        duration_min: u32_of(&p.meta.duration_min, 40),
        total_score: u32_of(&p.meta.total_score, 100),
        sections,
        process_stages: Vec::new(),
        prompt_hints: Vec::new(),
        origin: lit("user"),
        created_at: now,
    })
}

} // verus!
