//! Building the two prompts (system and user) that ask a model for an exam
//! paper, from the request and the knowledge pack of the textbook volume.
use vstd::prelude::*;
use crate::expr::{nat_to_seq, push_nat_digits};
use crate::knowledge::{KnowledgePack, UnitInfo};
use crate::text::{
    chars_of, contains, occurs_at, extend_chars, extend_vec, join, push_join, str_contains, str_eq,
    string_of, strings_view, trim, trim_str,
};
use crate::verify::lit;

verus! {

/// The share of basic, medium and hard questions, in percent.
#[derive(Debug, Clone)]
pub struct DifficultyRatio {
    pub basic: u8,
    pub medium: u8,
    pub hard: u8,
}

impl DifficultyRatio {
    /// The ratio used when none is given: 40% basic, 40% medium, 20% hard.
    pub fn standard() -> (r: DifficultyRatio)
        ensures
            r.basic == 40 && r.medium == 40 && r.hard == 20,
    {
        DifficultyRatio { basic: 40, medium: 40, hard: 20 }
    }
}

impl Default for DifficultyRatio {
    fn default() -> (r: DifficultyRatio)
        ensures
            r.basic == 0 && r.medium == 0 && r.hard == 0,
    {
        DifficultyRatio { basic: 0, medium: 0, hard: 0 }
    }
}

/// What the user asked for: which paper, for which textbook volume.
#[derive(Debug, Clone)]
pub struct GenerateRequest {
    pub subject: String,
    pub edition: String,
    pub grade: u8,
    pub semester: String,
    /// unit | midterm | final | oral | lesson | homework | redrill
    pub exam_type: String,
    pub unit_id: Option<String>,
    pub difficulty: String,
    pub total_score: u32,
    pub duration_min: u32,
    pub knowledge_path: String,
    /// The lessons of the unit that the paper must cover.
    pub selected_lessons: Vec<String>,
    /// Share of the difficulty levels, in percent (about 100 in all).
    pub difficulty_ratio: DifficultyRatio,
    /// Mix in checkable skeletons from the local bank.
    pub mix_bank: bool,
    /// Use the school's favourite questions as references.
    pub use_school_bank: bool,
    /// Summaries of the school's favourite questions.
    pub school_bank_snippets: Vec<String>,
    /// The template chosen in the template market.
    pub template_id: Option<String>,
    /// A section structure that replaces the suggested one.
    pub structure_override: Option<String>,
    /// Extra hints of the template.
    pub template_hints: Vec<String>,
}

/// The Chinese name of an exam type; an unknown type is a mock exam.
pub open spec fn exam_label_spec(e: Seq<char>) -> Seq<char> {
    if e == "unit"@ {
        "单元测试"@
    } else if e == "midterm"@ {
        "期中模拟"@
    } else if e == "final"@ {
        "期末模拟"@
    } else if e == "oral"@ {
        "口算专项"@
    } else if e == "lesson"@ {
        "课时练习"@
    } else if e == "homework"@ {
        "课后作业"@
    } else if e == "redrill"@ {
        "错题再练"@
    } else {
        "模拟考试"@
    }
}

pub fn exam_type_label(e: &str) -> (r: &'static str)
    ensures
        r@ == exam_label_spec(e@),
{
    if str_eq(e, "unit") {
        "单元测试"
    } else if str_eq(e, "midterm") {
        "期中模拟"
    } else if str_eq(e, "final") {
        "期末模拟"
    } else if str_eq(e, "oral") {
        "口算专项"
    } else if str_eq(e, "lesson") {
        "课时练习"
    } else if str_eq(e, "homework") {
        "课后作业"
    } else if str_eq(e, "redrill") {
        "错题再练"
    } else {
        "模拟考试"
    }
}

/// The suggested section structure of a math paper of the given exam type.
pub open spec fn math_structure(e: Seq<char>) -> Seq<char> {
    if e == "oral"@ {
        "一、直接写得数·口算(60) 二、脱式/简便(25) 三、小小应用(15)——以口算为主，题量大、题干短"@
    } else if e == "lesson"@ {
        "一、填空(15) 二、选择或判断(15) 三、计算(40) 四、解决问题(30)——一课时量，约 20～30 分钟"@
    } else if e == "homework"@ {
        "一、基础练(40) 二、巩固练(35) 三、拓展想一想(25)——课后作业量，控制书写负担"@
    } else if e == "redrill"@ {
        "一、错因同类基础(40) 二、变式巩固(40) 三、综合一题(20)——针对错题知识点再练"@
    } else if e == "unit"@ {
        "一、填空(20) 二、判断(10) 三、选择(10) 四、计算(30) 五、解决问题(30)"@
    } else {
        "一、填空(20) 二、判断(10) 三、选择(10) 四、计算(30) 五、操作(10) 六、解决问题(20)"@
    }
}

fn math_structure_of(e: &str) -> (r: &'static str)
    ensures
        r@ == math_structure(e@),
{
    if str_eq(e, "oral") {
        "一、直接写得数·口算(60) 二、脱式/简便(25) 三、小小应用(15)——以口算为主，题量大、题干短"
    } else if str_eq(e, "lesson") {
        "一、填空(15) 二、选择或判断(15) 三、计算(40) 四、解决问题(30)——一课时量，约 20～30 分钟"
    } else if str_eq(e, "homework") {
        "一、基础练(40) 二、巩固练(35) 三、拓展想一想(25)——课后作业量，控制书写负担"
    } else if str_eq(e, "redrill") {
        "一、错因同类基础(40) 二、变式巩固(40) 三、综合一题(20)——针对错题知识点再练"
    } else if str_eq(e, "unit") {
        "一、填空(20) 二、判断(10) 三、选择(10) 四、计算(30) 五、解决问题(30)"
    } else {
        "一、填空(20) 二、判断(10) 三、选择(10) 四、计算(30) 五、操作(10) 六、解决问题(20)"
    }
}

/// The suggested section structure of an English paper of the given exam type.
pub open spec fn english_structure(e: Seq<char>) -> Seq<char> {
    if e == "oral"@ || e == "lesson"@ {
        "一、词汇(30) 二、选词/选择(30) 三、句型(25) 四、小阅读(15)——短时专项"@
    } else if e == "homework"@ {
        "一、抄写/单词(30) 二、完成句子(40) 三、小对话或阅读(30)"@
    } else if e == "redrill"@ {
        "一、错词错句巩固(50) 二、变式选择(30) 三、仿写一句(20)"@
    } else if e == "unit"@ {
        "一、词汇(20) 二、选择(20) 三、句型转换/填空(20) 四、阅读(25) 五、写话(15)"@
    } else {
        "一、听力笔试替代·词汇句型(30) 二、选择填空(20) 三、阅读(25) 四、写作(25)"@
    }
}

fn english_structure_of(e: &str) -> (r: &'static str)
    ensures
        r@ == english_structure(e@),
{
    if str_eq(e, "oral") || str_eq(e, "lesson") {
        "一、词汇(30) 二、选词/选择(30) 三、句型(25) 四、小阅读(15)——短时专项"
    } else if str_eq(e, "homework") {
        "一、抄写/单词(30) 二、完成句子(40) 三、小对话或阅读(30)"
    } else if str_eq(e, "redrill") {
        "一、错词错句巩固(50) 二、变式选择(30) 三、仿写一句(20)"
    } else if str_eq(e, "unit") {
        "一、词汇(20) 二、选择(20) 三、句型转换/填空(20) 四、阅读(25) 五、写话(15)"
    } else {
        "一、听力笔试替代·词汇句型(30) 二、选择填空(20) 三、阅读(25) 四、写作(25)"
    }
}

/// The suggested section structure of a Chinese paper of the given exam type.
pub open spec fn chinese_structure(e: Seq<char>) -> Seq<char> {
    if e == "oral"@ {
        "一、拼音(30) 二、字词听写式填空(40) 三、选字/近反义(30)——字词专项，无长阅读"@
    } else if e == "lesson"@ {
        "一、字词(25) 二、课内填空(30) 三、小练笔或课内阅读(45)——一课时"@
    } else if e == "homework"@ {
        "一、字词巩固(30) 二、积累运用(40) 三、小练笔(30)"@
    } else if e == "redrill"@ {
        "一、错字错词(40) 二、同类句式/阅读题(40) 三、订正仿写(20)"@
    } else if e == "unit"@ {
        "一、拼音字词(20) 二、选择填空(20) 三、课内积累(20) 四、阅读理解(25) 五、小练笔(15)"@
    } else {
        "一、积累与运用(30) 二、课内阅读(20) 三、课外阅读(25) 四、习作(25)"@
    }
}

fn chinese_structure_of(e: &str) -> (r: &'static str)
    ensures
        r@ == chinese_structure(e@),
{
    if str_eq(e, "oral") {
        "一、拼音(30) 二、字词听写式填空(40) 三、选字/近反义(30)——字词专项，无长阅读"
    } else if str_eq(e, "lesson") {
        "一、字词(25) 二、课内填空(30) 三、小练笔或课内阅读(45)——一课时"
    } else if str_eq(e, "homework") {
        "一、字词巩固(30) 二、积累运用(40) 三、小练笔(30)"
    } else if str_eq(e, "redrill") {
        "一、错字错词(40) 二、同类句式/阅读题(40) 三、订正仿写(20)"
    } else if str_eq(e, "unit") {
        "一、拼音字词(20) 二、选择填空(20) 三、课内积累(20) 四、阅读理解(25) 五、小练笔(15)"
    } else {
        "一、积累与运用(30) 二、课内阅读(20) 三、课外阅读(25) 四、习作(25)"
    }
}

/// The extra instruction for the special exam types.
pub open spec fn special_hint(e: Seq<char>) -> Seq<char> {
    if e == "oral"@ {
        "本卷为口算/字词专项：题量宜多、书写负担适中，避免长阅读与大作文。"@
    } else if e == "lesson"@ {
        "本卷为一课时课堂练习：控制在一节课可完成。"@
    } else if e == "homework"@ {
        "本卷为课后作业：题量适中，基础为主，可有 1～2 道稍难。"@
    } else if e == "redrill"@ {
        "本卷为错题再练：紧扣给定错因/知识点，出同类变式，勿简单重复原题数字。"@
    } else {
        ""@
    }
}

fn special_hint_of(e: &str) -> (r: &'static str)
    ensures
        r@ == special_hint(e@),
{
    if str_eq(e, "oral") {
        "本卷为口算/字词专项：题量宜多、书写负担适中，避免长阅读与大作文。"
    } else if str_eq(e, "lesson") {
        "本卷为一课时课堂练习：控制在一节课可完成。"
    } else if str_eq(e, "homework") {
        "本卷为课后作业：题量适中，基础为主，可有 1～2 道稍难。"
    } else if str_eq(e, "redrill") {
        "本卷为错题再练：紧扣给定错因/知识点，出同类变式，勿简单重复原题数字。"
    } else {
        ""
    }
}

/// Whether the exam type narrows the paper to one unit (or its lessons).
pub open spec fn unit_scoped(e: Seq<char>) -> bool {
    e == "unit"@ || e == "oral"@ || e == "lesson"@ || e == "homework"@ || e == "redrill"@
}

pub fn is_unit_scoped(e: &str) -> (r: bool)
    ensures
        r == unit_scoped(e@),
{
    str_eq(e, "unit") || str_eq(e, "oral") || str_eq(e, "lesson") || str_eq(e, "homework")
        || str_eq(e, "redrill")
}

pub open spec fn subject_cn(s: Seq<char>) -> Seq<char> {
    if s == "math"@ {
        "数学"@
    } else if s == "english"@ {
        "英语"@
    } else {
        "语文"@
    }
}

pub open spec fn edition_cn(s: Seq<char>) -> Seq<char> {
    if s == "beishida"@ {
        "北师大版"@
    } else if s == "sujiao"@ {
        "苏教版"@
    } else {
        "人教版"@
    }
}

pub open spec fn sem_cn(s: Seq<char>) -> Seq<char> {
    if s == "shang"@ {
        "上册"@
    } else {
        "下册"@
    }
}

pub(crate) fn subject_cn_of(s: &str) -> (r: Vec<char>)
    ensures
        r@ == subject_cn(s@),
{
    if str_eq(s, "math") {
        chars_of("数学")
    } else if str_eq(s, "english") {
        chars_of("英语")
    } else {
        chars_of("语文")
    }
}

pub(crate) fn edition_cn_of(s: &str) -> (r: Vec<char>)
    ensures
        r@ == edition_cn(s@),
{
    if str_eq(s, "beishida") {
        chars_of("北师大版")
    } else if str_eq(s, "sujiao") {
        chars_of("苏教版")
    } else {
        chars_of("人教版")
    }
}

pub(crate) fn sem_cn_of(s: &str) -> (r: Vec<char>)
    ensures
        r@ == sem_cn(s@),
{
    if str_eq(s, "shang") {
        chars_of("上册")
    } else {
        chars_of("下册")
    }
}

/// The lines that describe one unit: its name, then its lessons and its
/// knowledge points where it has any.
pub open spec fn unit_block(u: UnitInfo) -> Seq<Seq<char>> {
    let head = seq!["【单元】"@ + u.name@];
    let with_lessons = if u.lessons@.len() > 0 {
        head.push("课时："@ + join(strings_view(u.lessons@), "、"@))
    } else {
        head
    };
    if u.points@.len() > 0 {
        with_lessons.push("知识点："@ + join(strings_view(u.points@), "、"@))
    } else {
        with_lessons
    }
}

/// The lines of all the units, one unit after the other.
pub open spec fn blocks(units: Seq<UnitInfo>) -> Seq<Seq<char>>
    decreases units.len(),
{
    if units.len() == 0 {
        Seq::empty()
    } else {
        blocks(units.drop_last()) + unit_block(units.last())
    }
}

fn joined(parts: &Vec<String>, sep: &str) -> (r: String)
    ensures
        r@ == join(strings_view(parts@), sep@),
{
    let mut v: Vec<char> = Vec::new();
    push_join(&mut v, parts, sep);
    assert(v@ =~= join(strings_view(parts@), sep@));
    string_of(&v)
}

fn prefixed(p: &str, rest: &String) -> (r: String)
    ensures
        r@ == p@ + rest@,
{
    let mut v = chars_of(p);
    extend_chars(&mut v, rest.as_str());
    string_of(&v)
}

/// Appends the lines of one unit.
pub fn push_unit_block(out: &mut Vec<String>, u: &UnitInfo)
    ensures
        strings_view(final(out)@) == strings_view(old(out)@) + unit_block(*u),
{
    let ghost before = strings_view(out@);
    out.push(prefixed("【单元】", &u.name));
    assert(strings_view(out@) =~= before + seq!["【单元】"@ + u.name@]);
    if u.lessons.len() > 0 {
        let j = joined(&u.lessons, "、");
        out.push(prefixed("课时：", &j));
    }
    let ghost mid = strings_view(out@);
    if u.points.len() > 0 {
        let j = joined(&u.points, "、");
        out.push(prefixed("知识点：", &j));
        assert(strings_view(out@) =~= mid.push("知识点："@ + join(strings_view(u.points@), "、"@)));
    }
    assert(strings_view(out@) =~= before + unit_block(*u));
}

/// The lines of one unit.
pub fn format_unit_block(u: &UnitInfo) -> (r: Vec<String>)
    ensures
        strings_view(r@) == unit_block(*u),
{
    let mut out: Vec<String> = Vec::new();
    push_unit_block(&mut out, u);
    assert(strings_view(out@) =~= unit_block(*u));
    out
}

/// Appends the lines of the first `n` units.
fn push_blocks(out: &mut Vec<String>, units: &Vec<UnitInfo>, n: usize)
    requires
        n <= units.len(),
    ensures
        strings_view(final(out)@) == strings_view(old(out)@) + blocks(units@.take(n as int)),
{
    let ghost before = strings_view(out@);
    let mut k: usize = 0;
    while k < n
        invariant
            k <= n <= units.len(),
            strings_view(out@) == before + blocks(units@.take(k as int)),
        decreases n - k,
    {
        push_unit_block(out, &units[k]);
        proof {
            assert(units@.take(k + 1).drop_last() =~= units@.take(k as int));
            assert(strings_view(out@) =~= before + blocks(units@.take(k + 1)));
        }
        k = k + 1;
    }
}

/// Whether a unit is the one asked for: same id, or a name that contains it.
pub open spec fn unit_matches(u: UnitInfo, uid: Seq<char>) -> bool {
    u.id@ == uid || contains(u.name@, uid)
}

/// Index of the first unit from `i` on that matches `uid`.
pub open spec fn find_unit_from(units: Seq<UnitInfo>, uid: Seq<char>, i: int) -> Option<int>
    decreases units.len() - i,
{
    if i < 0 || i >= units.len() {
        None
    } else if unit_matches(units[i], uid) {
        Some(i)
    } else {
        find_unit_from(units, uid, i + 1)
    }
}

pub(crate) fn find_unit(units: &Vec<UnitInfo>, uid: &str) -> (r: Option<usize>)
    ensures
        r matches Some(i) ==> i < units.len() && find_unit_from(units@, uid@, 0) == Some(i as int),
        r is None ==> find_unit_from(units@, uid@, 0) is None,
{
    let mut i: usize = 0;
    while i < units.len()
        invariant
            i <= units.len(),
            find_unit_from(units@, uid@, 0) == find_unit_from(units@, uid@, i as int),
        decreases units.len() - i,
    {
        if str_eq(units[i].id.as_str(), uid) || str_contains(units[i].name.as_str(), uid) {
            return Some(i);
        }
        i = i + 1;
    }
    None
}

pub open spec fn opt_or_empty(o: Option<String>) -> Seq<char> {
    match o {
        Some(s) => s@,
        None => Seq::empty(),
    }
}

/// The number of units a midterm paper covers: the first half, rounded up, at
/// least one (and no more than there are).
pub open spec fn midterm_units(n: int) -> int {
    let half = (n + 1) / 2;
    let k = if half < 1 { 1 } else { half };
    if k > n { n } else { k }
}

/// The knowledge lines the paper must stay within, before the selected lessons.
pub open spec fn focus_base(req: GenerateRequest, pack: KnowledgePack) -> Seq<Seq<char>> {
    let units = pack.units@;
    if unit_scoped(req.exam_type@) {
        match find_unit_from(units, opt_or_empty(req.unit_id), 0) {
            Some(i) => unit_block(units[i]),
            None => if units.len() > 0 {
                unit_block(units[0])
            } else {
                Seq::empty()
            },
        }
    } else if req.exam_type@ == "midterm"@ {
        blocks(units.take(midterm_units(units.len() as int)))
    } else {
        blocks(units)
    }
}

/// The knowledge lines, with the selected lessons first where there are any.
pub open spec fn focus_points(req: GenerateRequest, pack: KnowledgePack) -> Seq<Seq<char>> {
    if req.selected_lessons@.len() > 0 {
        seq!["【重点课时（仅覆盖这些课时）】"@ + join(strings_view(req.selected_lessons@), "、"@)]
            + focus_base(req, pack)
    } else {
        focus_base(req, pack)
    }
}

fn focus_base_lines(req: &GenerateRequest, pack: &KnowledgePack) -> (r: Vec<String>)
    ensures
        strings_view(r@) == focus_base(*req, *pack),
{
    let mut out: Vec<String> = Vec::new();
    let n = pack.units.len();
    if is_unit_scoped(req.exam_type.as_str()) {
        let uid = match &req.unit_id {
            Some(u) => lit(u.as_str()),
            None => String::new(),
        };
        assert(uid@ == opt_or_empty(req.unit_id));
        assert(strings_view(out@) =~= Seq::<Seq<char>>::empty());
        match find_unit(&pack.units, uid.as_str()) {
            Some(i) => {
                push_unit_block(&mut out, &pack.units[i]);
                assert(strings_view(out@) =~= unit_block(pack.units@[i as int]));
                assert(find_unit_from(pack.units@, opt_or_empty(req.unit_id), 0) == Some(i as int));
                assert(unit_scoped(req.exam_type@));
            },
            None => {
                if n > 0 {
                    push_unit_block(&mut out, &pack.units[0]);
                    assert(strings_view(out@) =~= unit_block(pack.units@[0]));
                }
            },
        }
        assert(strings_view(out@) =~= focus_base(*req, *pack));
    } else if str_eq(req.exam_type.as_str(), "midterm") {
        let half = n / 2 + n % 2;
        let k = if half < 1 { 1 } else { half };
        let k = if k > n { n } else { k };
        assert(k == midterm_units(n as int));
        push_blocks(&mut out, &pack.units, k);
        assert(strings_view(out@) =~= focus_base(*req, *pack));
    } else {
        push_blocks(&mut out, &pack.units, n);
        assert(pack.units@.take(n as int) =~= pack.units@);
        assert(strings_view(out@) =~= focus_base(*req, *pack));
    }
    out
}

fn focus_lines(req: &GenerateRequest, pack: &KnowledgePack) -> (r: Vec<String>)
    ensures
        strings_view(r@) == focus_points(*req, *pack),
{
    let mut base = focus_base_lines(req, pack);
    if req.selected_lessons.len() > 0 {
        let j = joined(&req.selected_lessons, "、");
        let mut out: Vec<String> = Vec::new();
        out.push(prefixed("【重点课时（仅覆盖这些课时）】", &j));
        let ghost b = base@;
        let ghost o = out@;
        out.append(&mut base);
        assert(strings_view(out@) =~= focus_points(*req, *pack)) by {
            assert(out@ =~= o + b);
        }
        out
    } else {
        base
    }
}

/// The difficulty shares used: the requested ones, or 40/40/20 when all are 0.
pub open spec fn effective_ratio(r: DifficultyRatio) -> (int, int, int) {
    if r.basic + r.medium + r.hard == 0 {
        (40, 40, 20)
    } else {
        (r.basic as int, r.medium as int, r.hard as int)
    }
}

pub open spec fn ratio_hint(r: DifficultyRatio) -> Seq<char> {
    let e = effective_ratio(r);
    "难度配比：基础约"@ + nat_to_seq(e.0 as nat) + "%、中等约"@ + nat_to_seq(e.1 as nat) + "%、拔高约"@
        + nat_to_seq(e.2 as nat) + "%（按题量大致分配）"@
}

fn ratio_hint_of(r: &DifficultyRatio) -> (out: Vec<char>)
    ensures
        out@ == ratio_hint(*r),
{
    let sum: u16 = r.basic as u16 + r.medium as u16 + r.hard as u16;
    let e = if sum == 0 {
        DifficultyRatio::standard()
    } else {
        DifficultyRatio { basic: r.basic, medium: r.medium, hard: r.hard }
    };
    let mut out = chars_of("难度配比：基础约");
    push_nat_digits(&mut out, e.basic as u128);
    extend_chars(&mut out, "%、中等约");
    push_nat_digits(&mut out, e.medium as u128);
    extend_chars(&mut out, "%、拔高约");
    push_nat_digits(&mut out, e.hard as u128);
    extend_chars(&mut out, "%（按题量大致分配）");
    out
}

pub open spec fn mix_hint(mix: bool) -> Seq<char> {
    if mix {
        "组卷策略：题库混组——计算题尽量给出可验算的明确算式与唯一数值答案；应用题数量关系清晰；避免无法判定对错的开放表述。"@
    } else {
        "组卷策略：常规 AI 命题，答案明确。"@
    }
}

fn mix_hint_of(mix: bool) -> (r: &'static str)
    ensures
        r@ == mix_hint(mix),
{
    if mix {
        "组卷策略：题库混组——计算题尽量给出可验算的明确算式与唯一数值答案；应用题数量关系清晰；避免无法判定对错的开放表述。"
    } else {
        "组卷策略：常规 AI 命题，答案明确。"
    }
}

/// The section structure: the override when it is not blank, else the one
/// suggested for the subject and exam type.
pub open spec fn structure_spec(req: GenerateRequest) -> Seq<char> {
    if req.structure_override is Some && trim(req.structure_override->0@).len() > 0 {
        req.structure_override->0@
    } else if req.subject@ == "math"@ {
        math_structure(req.exam_type@)
    } else if req.subject@ == "english"@ {
        english_structure(req.exam_type@)
    } else {
        chinese_structure(req.exam_type@)
    }
}

fn structure_of(req: &GenerateRequest) -> (r: Vec<char>)
    ensures
        r@ == structure_spec(*req),
{
    if let Some(ov) = &req.structure_override {
        let t = trim_str(ov.as_str());
        if t.unicode_len() > 0 {
            return chars_of(ov.as_str());
        }
    }
    let e = req.exam_type.as_str();
    if str_eq(req.subject.as_str(), "math") {
        chars_of(math_structure_of(e))
    } else if str_eq(req.subject.as_str(), "english") {
        chars_of(english_structure_of(e))
    } else {
        chars_of(chinese_structure_of(e))
    }
}

pub open spec fn source_hint(path_hint: Seq<char>) -> Seq<char> {
    if path_hint.len() == 0 {
        "对齐国家中小学智慧教育平台同步课程：https://basic.smartedu.cn/syncClassroom"@
    } else {
        "课程来源对齐：国家中小学智慧教育平台（https://basic.smartedu.cn/）。路径提示："@ + path_hint
    }
}

fn source_hint_of(path_hint: &String) -> (r: Vec<char>)
    ensures
        r@ == source_hint(path_hint@),
{
    if path_hint.unicode_len() == 0 {
        chars_of("对齐国家中小学智慧教育平台同步课程：https://basic.smartedu.cn/syncClassroom")
    } else {
        let mut v = chars_of("课程来源对齐：国家中小学智慧教育平台（https://basic.smartedu.cn/）。路径提示：");
        extend_chars(&mut v, path_hint.as_str());
        v
    }
}

pub open spec fn unit_line(req: GenerateRequest) -> Seq<char> {
    if unit_scoped(req.exam_type@) {
        "单元："@ + match req.unit_id {
            Some(u) => u@,
            None => "指定单元"@,
        }
    } else {
        Seq::empty()
    }
}

fn unit_line_of(req: &GenerateRequest) -> (r: Vec<char>)
    ensures
        r@ == unit_line(*req),
{
    if is_unit_scoped(req.exam_type.as_str()) {
        let mut v = chars_of("单元：");
        match &req.unit_id {
            Some(u) => extend_chars(&mut v, u.as_str()),
            None => extend_chars(&mut v, "指定单元"),
        }
        v
    } else {
        Vec::new()
    }
}

pub open spec fn lesson_line(req: GenerateRequest) -> Seq<char> {
    if req.selected_lessons@.len() > 0 {
        "重点课时："@ + join(strings_view(req.selected_lessons@), "、"@)
    } else {
        Seq::empty()
    }
}

fn lesson_line_of(req: &GenerateRequest) -> (r: Vec<char>)
    ensures
        r@ == lesson_line(*req),
{
    if req.selected_lessons.len() > 0 {
        let mut v = chars_of("重点课时：");
        push_join(&mut v, &req.selected_lessons, "、");
        v
    } else {
        Vec::new()
    }
}

/// Checkable calculation skeletons of the local bank, by grade band.
pub open spec fn skeletons(grade: u8) -> Seq<Seq<char>> {
    if 1 <= grade <= 2 {
        seq![
            "口算骨架：6+7＝ / 15-8＝ / 9+6＝ / 14-5＝（改数字，答案唯一）"@,
            "口算骨架：2×5＝ / 3×4＝ / 18÷3＝ / 20÷5＝"@,
            "脱式骨架：12+8-5 / 9×2+6 / 20-4×3"@,
            "应用题骨架：买○个○，每个○元，共多少元？（数量关系清晰）"@,
        ]
    } else if 3 <= grade <= 4 {
        seq![
            "口算骨架：36+48＝ / 72-29＝ / 7×8＝ / 56÷7＝"@,
            "脱式骨架：36+18÷6 / (45-9)÷6 / 100-6×9"@,
            "竖式骨架：三位数加减 / 两位数乘一位数（步骤清晰）"@,
            "应用题骨架：路程=速度×时间；单价×数量=总价（改情境与数字）"@,
        ]
    } else {
        seq![
            "口算骨架：125+375＝ / 3/4+1/4＝ / 0.6×5＝ / 2.4÷0.6＝"@,
            "脱式骨架：1.2×(3.5+1.5) / 36÷0.4-15 / (2/3+1/6)×4"@,
            "应用题骨架：面积/体积/百分数/比例分配（数字可验算）"@,
            "综合骨架：先求中间量再求结果，答案唯一数值"@,
        ]
    }
}

pub fn math_skeleton_bank(grade: u8) -> (r: Vec<String>)
    ensures
        strings_view(r@) == skeletons(grade),
{
    let r = if 1 <= grade && grade <= 2 {
        vec![
            lit("口算骨架：6+7＝ / 15-8＝ / 9+6＝ / 14-5＝（改数字，答案唯一）"),
            lit("口算骨架：2×5＝ / 3×4＝ / 18÷3＝ / 20÷5＝"),
            lit("脱式骨架：12+8-5 / 9×2+6 / 20-4×3"),
            lit("应用题骨架：买○个○，每个○元，共多少元？（数量关系清晰）"),
        ]
    } else if 3 <= grade && grade <= 4 {
        vec![
            lit("口算骨架：36+48＝ / 72-29＝ / 7×8＝ / 56÷7＝"),
            lit("脱式骨架：36+18÷6 / (45-9)÷6 / 100-6×9"),
            lit("竖式骨架：三位数加减 / 两位数乘一位数（步骤清晰）"),
            lit("应用题骨架：路程=速度×时间；单价×数量=总价（改情境与数字）"),
        ]
    } else {
        vec![
            lit("口算骨架：125+375＝ / 3/4+1/4＝ / 0.6×5＝ / 2.4÷0.6＝"),
            lit("脱式骨架：1.2×(3.5+1.5) / 36÷0.4-15 / (2/3+1/6)×4"),
            lit("应用题骨架：面积/体积/百分数/比例分配（数字可验算）"),
            lit("综合骨架：先求中间量再求结果，答案唯一数值"),
        ]
    };
    assert(strings_view(r@) =~= skeletons(grade));
    r
}

pub open spec fn skeleton_block(req: GenerateRequest) -> Seq<char> {
    if req.mix_bank && req.subject@ == "math"@ {
        "\n本地题库骨架（可改数字/情境，答案须可验算）：\n"@ + join(skeletons(req.grade), "\n"@)
    } else if req.mix_bank && req.subject@ == "english"@ {
        "\n英语骨架提示：词汇题给词意或选词填空；句型题给中文提示；阅读短文 50–120 词适龄。"@
    } else {
        Seq::empty()
    }
}

fn skeleton_block_of(req: &GenerateRequest) -> (r: Vec<char>)
    ensures
        r@ == skeleton_block(*req),
{
    if req.mix_bank && str_eq(req.subject.as_str(), "math") {
        let mut v = chars_of("\n本地题库骨架（可改数字/情境，答案须可验算）：\n");
        let bank = math_skeleton_bank(req.grade);
        push_join(&mut v, &bank, "\n");
        v
    } else if req.mix_bank && str_eq(req.subject.as_str(), "english") {
        chars_of("\n英语骨架提示：词汇题给词意或选词填空；句型题给中文提示；阅读短文 50–120 词适龄。")
    } else {
        Vec::new()
    }
}

/// The school's questions, numbered from 1.
pub open spec fn numbered(s: Seq<Seq<char>>) -> Seq<Seq<char>> {
    Seq::new(s.len(), |i: int| nat_to_seq((i + 1) as nat) + ". "@ + s[i])
}

fn numbered_of(s: &Vec<String>) -> (r: Vec<String>)
    ensures
        strings_view(r@) == numbered(strings_view(s@)),
{
    let mut r: Vec<String> = Vec::new();
    let mut i: usize = 0;
    while i < s.len()
        invariant
            i <= s.len(),
            r.len() == i,
            forall|j: int| 0 <= j < i ==> #[trigger] r@[j]@ == nat_to_seq((j + 1) as nat) + ". "@ + s@[j]@,
        decreases s.len() - i,
    {
        let mut v: Vec<char> = Vec::new();
        push_nat_digits(&mut v, (i as u128) + 1);
        extend_chars(&mut v, ". ");
        extend_chars(&mut v, s[i].as_str());
        r.push(string_of(&v));
        i = i + 1;
    }
    assert(strings_view(r@) =~= numbered(strings_view(s@)));
    r
}

pub open spec fn school_block(req: GenerateRequest) -> Seq<char> {
    if req.use_school_bank && req.school_bank_snippets@.len() > 0 {
        "\n校本收藏参考题（可改编数字/情境后入卷，勿原样照抄超过 30% 题量）：\n"@ + join(
            numbered(strings_view(req.school_bank_snippets@)),
            "\n"@,
        )
    } else {
        Seq::empty()
    }
}

fn school_block_of(req: &GenerateRequest) -> (r: Vec<char>)
    ensures
        r@ == school_block(*req),
{
    if req.use_school_bank && req.school_bank_snippets.len() > 0 {
        let mut v = chars_of("\n校本收藏参考题（可改编数字/情境后入卷，勿原样照抄超过 30% 题量）：\n");
        let lines = numbered_of(&req.school_bank_snippets);
        push_join(&mut v, &lines, "\n");
        v
    } else {
        Vec::new()
    }
}

/// How the structure is put to the model: as a binding order when a template
/// was chosen, as a suggestion otherwise.
pub open spec fn template_line(req: GenerateRequest, structure: Seq<char>) -> Seq<char> {
    if req.template_id is Some && req.template_id->0@.len() > 0 {
        "【必须严格按下列题型结构出卷，大题顺序与分值不可擅自合并或删减】\n模板："@ + req.template_id->0@
            + "\n结构："@ + structure
    } else {
        "建议题型结构："@ + structure
    }
}

fn template_line_of(req: &GenerateRequest, structure: &Vec<char>) -> (r: Vec<char>)
    ensures
        r@ == template_line(*req, structure@),
{
    if let Some(id) = &req.template_id {
        if id.unicode_len() > 0 {
            let mut v = chars_of("【必须严格按下列题型结构出卷，大题顺序与分值不可擅自合并或删减】\n模板：");
            extend_chars(&mut v, id.as_str());
            extend_chars(&mut v, "\n结构：");
            extend_vec(&mut v, structure);
            return v;
        }
    }
    let mut v = chars_of("建议题型结构：");
    extend_vec(&mut v, structure);
    v
}

pub open spec fn extra_hints(req: GenerateRequest) -> Seq<char> {
    if req.template_hints@.len() == 0 {
        Seq::empty()
    } else {
        "模板命题提示："@ + join(strings_view(req.template_hints@), "；"@)
    }
}

fn extra_hints_of(req: &GenerateRequest) -> (r: Vec<char>)
    ensures
        r@ == extra_hints(*req),
{
    if req.template_hints.len() == 0 {
        Vec::new()
    } else {
        let mut v = chars_of("模板命题提示：");
        push_join(&mut v, &req.template_hints, "；");
        v
    }
}

/// The system prompt up to its rule on difficulty: the role, the JSON shape
/// and the first rules of the paper.
pub open spec fn system_head(req: GenerateRequest, pack: KnowledgePack) -> Seq<char> {
    "你是资深小学"@
        + subject_cn(req.subject@)
        + "命题教师，精通"@
        + edition_cn(req.edition@)
        + "教材，熟悉国家中小学智慧教育平台同步课程与基础性作业风格。\n请严格按用户要求输出【仅一份 JSON】，不要 Markdown 说明，不要多余文字。\n难度："@
        + req.difficulty@
        + "。必须符合该年级认知，题目必须落在给定单元/课时/知识点范围内，禁止超纲。\n"@
        + source_hint(pack.source.smartedu_path_hint@)
        + "\nJSON 结构必须如下：\n{\n  \"meta\": {\n    \"edition\": \""@
        + edition_cn(req.edition@)
        + "\",\n    \"subject\": \""@
        + subject_cn(req.subject@)
        + "\",\n    \"grade\": "@
        + nat_to_seq(req.grade as nat)
        + ",\n    \"semester\": \""@
        + sem_cn(req.semester@)
        + "\",\n    \"examType\": \""@
        + exam_label_spec(req.exam_type@)
        + "\",\n    \"title\": \"完整卷名\",\n    \"totalScore\": "@
        + nat_to_seq(req.total_score as nat)
        + ",\n    \"durationMin\": "@
        + nat_to_seq(req.duration_min as nat)
        + ",\n    \"curriculumSource\": \"国家中小学智慧教育平台对齐·模拟卷\"\n  },\n  \"sections\": [\n    {\n      \"type\": \"fill|judge|choice|calc|operation|problem|pinyin|reading|writing|mixed\",\n      \"title\": \"一、xxx（xx分）\",\n      \"score\": 20,\n      \"items\": [\n        {\n          \"id\": \"1-1\",\n          \"stem\": \"题干，可用（　　）表示填空\",\n          \"options\": [\"A. ..\", \"B. ..\"],\n          \"answer\": \"参考答案\",\n          \"analysis\": \"简要解析\",\n          \"score\": 2,\n          \"knowledgePoints\": [\"知识点\"]\n        }\n      ]\n    }\n  ]\n}\n规则：\n1. sections 分值之和 = totalScore\n2. 判断题 answer 用 √ 或 ×；题干末尾用（　　）\n3. 选择题必须有 options，写成 [\\\"A. …\\\",\\\"B. …\\\",\\\"C. …\\\",\\\"D. …\\\"]\n4. 计算题分条：口算小题 stem 只写算式如「6×7＝」；竖式/脱式可多行，每行一题；答案必须为可验算的唯一数值\n5. 应用题 stem 只写题目叙述，不要写「解：」「答：」（排版会自动留答题区）\n6. 语文阅读材料字数适龄；习作只出题目与要求；英语题目用英文题干，说明用中文括号提示\n7. 卷面为「模拟卷」，不要写真实地区统考原题字样\n8. 大题 title 格式统一为「一、填空题（每空2分，共20分）」这种小学卷常见写法\n9. 题号从 1 连续编号，stem 不要重复写大题号\n10. "@
}

/// The system prompt after its rule on difficulty.
pub open spec fn system_tail(req: GenerateRequest) -> Seq<char> {
    "；各难度在全卷大致均匀分布，拔高题优先放计算/解决问题末尾\n11. "@
        + mix_hint(req.mix_bank)
        + "\n12. 若用户指定了「重点课时」，命题范围必须优先覆盖这些课时，不得偏离"@
}

/// The system prompt: the role, the JSON shape and the rules of the paper.
pub open spec fn system_prompt(req: GenerateRequest, pack: KnowledgePack) -> Seq<char> {
    system_head(req, pack) + ratio_hint(req.difficulty_ratio) + system_tail(req)
}

/// The opening of the user prompt: which paper, on which units and lessons.
pub open spec fn user_intro(req: GenerateRequest) -> Seq<char> {
    "请生成：小学"@
        + edition_cn(req.edition@)
        + subject_cn(req.subject@)
        + nat_to_seq(req.grade as nat)
        + "年级"@
        + sem_cn(req.semester@)
        + exam_label_spec(req.exam_type@)
        + "卷。\n"@
        + unit_line(req)
        + "\n"@
        + lesson_line(req)
        + "\n"@
        + special_hint(req.exam_type@)
        + "\n"@
}

/// The template's hints, between the structure and the difficulty shares.
pub open spec fn user_between(req: GenerateRequest) -> Seq<char> {
    "\n"@ + extra_hints(req) + "\n难度配比："@
}

/// The close of the user prompt: the knowledge points, the textbook hints,
/// the skeletons and the school papers.
pub open spec fn user_rest(req: GenerateRequest, pack: KnowledgePack) -> Seq<char> {
    "\n命题范围与知识点：\n"@
        + join(focus_points(req, pack), "\n- "@)
        + "\n\n教材提示：\n"@
        + join(strings_view(pack.exam_hints@), "\n- "@)
        + "\n"@
        + skeleton_block(req)
        + "\n"@
        + school_block(req)
        + "\n\n请直接输出 JSON。"@
}

/// The user prompt: which paper, on which units and lessons, with which hints.
pub open spec fn user_prompt(req: GenerateRequest, pack: KnowledgePack) -> Seq<char> {
    user_intro(req) + template_line(req, structure_spec(req)) + user_between(req) + ratio_hint(req.difficulty_ratio)
        + user_rest(req, pack)
}

/// The difficulty shares as the prompts put them: `基础约b%、中等约m%、拔高约h%`.
pub open spec fn difficulty_sentence(r: DifficultyRatio) -> Seq<char> {
    let e = effective_ratio(r);
    "基础约"@ + nat_to_seq(e.0 as nat) + "%、中等约"@ + nat_to_seq(e.1 as nat) + "%、拔高约"@ + nat_to_seq(e.2 as nat)
        + "%"@
}

proof fn lemma_contains_mid(a: Seq<char>, n: Seq<char>, b: Seq<char>)
    ensures
        contains(a + n + b, n),
{
    assert((a + n + b).subrange(a.len() as int, (a.len() + n.len()) as int) =~= n);
    assert(occurs_at(a + n + b, n, a.len() as int));
}

proof fn lemma_ratio_hint_parts(r: DifficultyRatio)
    ensures
        ratio_hint(r) == "难度配比："@ + difficulty_sentence(r) + "（按题量大致分配）"@,
{
    reveal_strlit("难度配比：基础约");
    reveal_strlit("难度配比：");
    reveal_strlit("基础约");
    reveal_strlit("%（按题量大致分配）");
    reveal_strlit("%");
    reveal_strlit("（按题量大致分配）");
    assert("难度配比：基础约"@ =~= "难度配比："@ + "基础约"@);
    assert("%（按题量大致分配）"@ =~= "%"@ + "（按题量大致分配）"@);
    assert(ratio_hint(r) =~= "难度配比："@ + difficulty_sentence(r) + "（按题量大致分配）"@);
}

/// Both prompts state the difficulty shares: the requested ones, or 40/40/20
/// when all three are 0.
pub proof fn lemma_prompts_state_difficulty(req: GenerateRequest, pack: KnowledgePack)
    ensures
        contains(system_prompt(req, pack), difficulty_sentence(req.difficulty_ratio)),
        contains(user_prompt(req, pack), difficulty_sentence(req.difficulty_ratio)),
{
    let r = req.difficulty_ratio;
    let ds = difficulty_sentence(r);
    lemma_ratio_hint_parts(r);
    let sa = system_head(req, pack) + "难度配比："@;
    let sb = "（按题量大致分配）"@ + system_tail(req);
    assert(system_prompt(req, pack) =~= sa + ds + sb);
    lemma_contains_mid(sa, ds, sb);
    let ua = user_intro(req) + template_line(req, structure_spec(req)) + user_between(req) + "难度配比："@;
    let ub = "（按题量大致分配）"@ + user_rest(req, pack);
    assert(user_prompt(req, pack) =~= ua + ds + ub);
    lemma_contains_mid(ua, ds, ub);
}

/// Both prompts state the requested difficulty shares in the order basic,
/// medium, hard when they are not all 0, and 40%, 40%, 20% when they are.
pub proof fn lemma_prompts_state_requested_shares(req: GenerateRequest, pack: KnowledgePack)
    ensures
        ({
            let d = req.difficulty_ratio;
            let shares = if d.basic + d.medium + d.hard == 0 {
                "基础约40%、中等约40%、拔高约20%"@
            } else {
                "基础约"@ + nat_to_seq(d.basic as nat) + "%、中等约"@ + nat_to_seq(d.medium as nat) + "%、拔高约"@
                    + nat_to_seq(d.hard as nat) + "%"@
            };
            contains(system_prompt(req, pack), shares) && contains(user_prompt(req, pack), shares)
        }),
{
    lemma_prompts_state_difficulty(req, pack);
    let d = req.difficulty_ratio;
    if d.basic + d.medium + d.hard == 0 {
        reveal_strlit("基础约40%、中等约40%、拔高约20%");
        reveal_strlit("基础约");
        reveal_strlit("%、中等约");
        reveal_strlit("%、拔高约");
        reveal_strlit("%");
        crate::readback::lemma_two_digits(4, 0);
        crate::readback::lemma_two_digits(2, 0);
        assert(difficulty_sentence(d) =~= "基础约40%、中等约40%、拔高约20%"@);
    }
}

/// The user prompt states the section structure given by a non-blank
/// override: as a binding order naming the template when one was chosen, as
/// a suggestion otherwise.
pub proof fn lemma_prompt_states_structure(req: GenerateRequest, pack: KnowledgePack)
    requires
        req.structure_override is Some,
        trim(req.structure_override->0@).len() > 0,
    ensures
        contains(user_prompt(req, pack), template_line(req, req.structure_override->0@)),
        req.template_id is Some && req.template_id->0@.len() > 0 ==> template_line(req, req.structure_override->0@)
            == "【必须严格按下列题型结构出卷，大题顺序与分值不可擅自合并或删减】\n模板："@ + req.template_id->0@ + "\n结构："@
            + req.structure_override->0@,
        !(req.template_id is Some && req.template_id->0@.len() > 0) ==> template_line(req, req.structure_override->0@)
            == "建议题型结构："@ + req.structure_override->0@,
{
    let tl = template_line(req, structure_spec(req));
    let b = user_between(req) + ratio_hint(req.difficulty_ratio) + user_rest(req, pack);
    assert(user_prompt(req, pack) =~= user_intro(req) + tl + b);
    lemma_contains_mid(user_intro(req), tl, b);
}

fn system_text(
    req: &GenerateRequest,
    pack: &KnowledgePack,
    subject: &Vec<char>,
    edition: &Vec<char>,
    sem: &Vec<char>,
    exam: &str,
    ratio: &Vec<char>,
    mix: &str,
) -> (r: String)
    requires
        subject@ == subject_cn(req.subject@),
        edition@ == edition_cn(req.edition@),
        sem@ == sem_cn(req.semester@),
        exam@ == exam_label_spec(req.exam_type@),
        ratio@ == ratio_hint(req.difficulty_ratio),
        mix@ == mix_hint(req.mix_bank),
    ensures
        r@ == system_prompt(*req, *pack),
{
    let source = source_hint_of(&pack.source.smartedu_path_hint);
    let mut out: Vec<char> = chars_of("你是资深小学");
    extend_vec(&mut out, subject);
    extend_chars(&mut out, "命题教师，精通");
    extend_vec(&mut out, edition);
    extend_chars(&mut out, "教材，熟悉国家中小学智慧教育平台同步课程与基础性作业风格。\n请严格按用户要求输出【仅一份 JSON】，不要 Markdown 说明，不要多余文字。\n难度：");
    extend_chars(&mut out, req.difficulty.as_str());
    extend_chars(&mut out, "。必须符合该年级认知，题目必须落在给定单元/课时/知识点范围内，禁止超纲。\n");
    extend_vec(&mut out, &source);
    extend_chars(&mut out, "\nJSON 结构必须如下：\n{\n  \"meta\": {\n    \"edition\": \"");
    extend_vec(&mut out, edition);
    extend_chars(&mut out, "\",\n    \"subject\": \"");
    extend_vec(&mut out, subject);
    extend_chars(&mut out, "\",\n    \"grade\": ");
    push_nat_digits(&mut out, req.grade as u128);
    extend_chars(&mut out, ",\n    \"semester\": \"");
    extend_vec(&mut out, sem);
    extend_chars(&mut out, "\",\n    \"examType\": \"");
    extend_chars(&mut out, exam);
    extend_chars(&mut out, "\",\n    \"title\": \"完整卷名\",\n    \"totalScore\": ");
    push_nat_digits(&mut out, req.total_score as u128);
    extend_chars(&mut out, ",\n    \"durationMin\": ");
    push_nat_digits(&mut out, req.duration_min as u128);
    extend_chars(&mut out, ",\n    \"curriculumSource\": \"国家中小学智慧教育平台对齐·模拟卷\"\n  },\n  \"sections\": [\n    {\n      \"type\": \"fill|judge|choice|calc|operation|problem|pinyin|reading|writing|mixed\",\n      \"title\": \"一、xxx（xx分）\",\n      \"score\": 20,\n      \"items\": [\n        {\n          \"id\": \"1-1\",\n          \"stem\": \"题干，可用（　　）表示填空\",\n          \"options\": [\"A. ..\", \"B. ..\"],\n          \"answer\": \"参考答案\",\n          \"analysis\": \"简要解析\",\n          \"score\": 2,\n          \"knowledgePoints\": [\"知识点\"]\n        }\n      ]\n    }\n  ]\n}\n规则：\n1. sections 分值之和 = totalScore\n2. 判断题 answer 用 √ 或 ×；题干末尾用（　　）\n3. 选择题必须有 options，写成 [\\\"A. …\\\",\\\"B. …\\\",\\\"C. …\\\",\\\"D. …\\\"]\n4. 计算题分条：口算小题 stem 只写算式如「6×7＝」；竖式/脱式可多行，每行一题；答案必须为可验算的唯一数值\n5. 应用题 stem 只写题目叙述，不要写「解：」「答：」（排版会自动留答题区）\n6. 语文阅读材料字数适龄；习作只出题目与要求；英语题目用英文题干，说明用中文括号提示\n7. 卷面为「模拟卷」，不要写真实地区统考原题字样\n8. 大题 title 格式统一为「一、填空题（每空2分，共20分）」这种小学卷常见写法\n9. 题号从 1 连续编号，stem 不要重复写大题号\n10. ");
    assert(out@ == system_head(*req, *pack));
    let ghost head = out@;
    extend_vec(&mut out, ratio);
    extend_chars(&mut out, "；各难度在全卷大致均匀分布，拔高题优先放计算/解决问题末尾\n11. ");
    extend_chars(&mut out, mix);
    extend_chars(&mut out, "\n12. 若用户指定了「重点课时」，命题范围必须优先覆盖这些课时，不得偏离");
    assert(out@ =~= head + ratio_hint(req.difficulty_ratio) + system_tail(*req));
    string_of(&out)
}

#[verifier::rlimit(40)]
fn user_text(
    req: &GenerateRequest,
    pack: &KnowledgePack,
    subject: &Vec<char>,
    edition: &Vec<char>,
    sem: &Vec<char>,
    exam: &str,
    ratio: &Vec<char>,
) -> (r: String)
    requires
        subject@ == subject_cn(req.subject@),
        edition@ == edition_cn(req.edition@),
        sem@ == sem_cn(req.semester@),
        exam@ == exam_label_spec(req.exam_type@),
        ratio@ == ratio_hint(req.difficulty_ratio),
    ensures
        r@ == user_prompt(*req, *pack),
{
    let focus = focus_lines(req, pack);
    let structure = structure_of(req);
    let unit_l = unit_line_of(req);
    let lesson_l = lesson_line_of(req);
    let special = special_hint_of(req.exam_type.as_str());
    let template_l = template_line_of(req, &structure);
    let extra = extra_hints_of(req);
    let skeleton = skeleton_block_of(req);
    let school = school_block_of(req);
    let mut out: Vec<char> = chars_of("请生成：小学");
    extend_vec(&mut out, edition);
    extend_vec(&mut out, subject);
    push_nat_digits(&mut out, req.grade as u128);
    extend_chars(&mut out, "年级");
    extend_vec(&mut out, sem);
    extend_chars(&mut out, exam);
    extend_chars(&mut out, "卷。\n");
    extend_vec(&mut out, &unit_l);
    extend_chars(&mut out, "\n");
    extend_vec(&mut out, &lesson_l);
    extend_chars(&mut out, "\n");
    extend_chars(&mut out, special);
    extend_chars(&mut out, "\n");
    assert(out@ == user_intro(*req));
    let ghost intro = out@;
    extend_vec(&mut out, &template_l);
    let ghost tl = out@;
    extend_chars(&mut out, "\n");
    extend_vec(&mut out, &extra);
    extend_chars(&mut out, "\n难度配比：");
    assert(out@ =~= tl + user_between(*req));
    let ghost mid = out@;
    extend_vec(&mut out, ratio);
    let ghost withr = out@;
    extend_chars(&mut out, "\n命题范围与知识点：\n");
    push_join(&mut out, &focus, "\n- ");
    extend_chars(&mut out, "\n\n教材提示：\n");
    push_join(&mut out, &pack.exam_hints, "\n- ");
    extend_chars(&mut out, "\n");
    extend_vec(&mut out, &skeleton);
    extend_chars(&mut out, "\n");
    extend_vec(&mut out, &school);
    extend_chars(&mut out, "\n\n请直接输出 JSON。");
    assert(out@ =~= withr + user_rest(*req, *pack));
    string_of(&out)
}

/// The system and user prompts that ask for the paper described by `req`,
/// on the units of `pack`.
pub fn build_prompt(req: &GenerateRequest, pack: &KnowledgePack) -> (r: (String, String))
    ensures
        r.0@ == system_prompt(*req, *pack),
        r.1@ == user_prompt(*req, *pack),
{
    let subject = subject_cn_of(req.subject.as_str());
    let edition = edition_cn_of(req.edition.as_str());
    let sem = sem_cn_of(req.semester.as_str());
    let exam = exam_type_label(req.exam_type.as_str());
    let ratio = ratio_hint_of(&req.difficulty_ratio);
    let mix = mix_hint_of(req.mix_bank);
    let system = system_text(req, pack, &subject, &edition, &sem, exam, &ratio, mix);
    let user = user_text(req, pack, &subject, &edition, &sem, exam, &ratio);
    (system, user)
}

} // verus!
