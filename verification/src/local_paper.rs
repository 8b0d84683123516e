//! Papers laid out without a model: a math paper from checkable expressions of
//! the local bank, or a placeholder paper for the other subjects.
use vstd::prelude::*;
use crate::draft::{item_is, new_item, DraftItem, DraftMeta, DraftPaper, DraftSection};
use crate::expr::{nat_to_seq, push_nat_digits};
use crate::generate::{
    edition_cn, exam_label_spec, exam_type_label, find_unit_from, sem_cn, subject_cn, GenerateRequest,
};
use crate::knowledge::{KnowledgePack, UnitInfo};
use crate::offline::{offline_math_expressions, offline_spec, shifted_math_answer, shifted_spec, tvs, Triple, TripleView};
use crate::templates::unit_points;
use crate::text::{chars_of, extend_chars, extend_vec, join, push_join, str_contains, str_eq, string_of, strings_view};
use crate::verify::lit;

verus! {

/// The three word problems of the local bank, by grade band: id, stem, answer, explanation, knowledge point.
pub open spec fn problem_spec(grade: u8) -> Seq<(Seq<char>, Seq<char>, Seq<char>, Seq<char>, Seq<char>)> {
    if grade <= 2 {
        seq![("5-1"@, "1. 文具盒里原有18支铅笔，用去7支，又放入5支，现在有多少支？"@, "16支"@, "18-7+5=16（支）"@, "加减混合"@), ("5-2"@, "2. 4个小组，每组有6名同学，一共有多少名同学？"@, "24名"@, "4×6=24（名）"@, "乘法应用"@), ("5-3"@, "3. 把20本练习本平均分给5名同学，每名同学分到多少本？"@, "4本"@, "20÷5=4（本）"@, "平均分"@)]
    } else if grade <= 4 {
        seq![("5-1"@, "1. 三年级有78名同学参加活动，平均分成6组，每组有多少名同学？"@, "13名"@, "78÷6=13（名）"@, "除法应用"@), ("5-2"@, "2. 同学们3天折了306只纸鹤。照这样计算，7天可以折多少只？"@, "714只"@, "306÷3×7=714（只）"@, "归一问题"@), ("5-3"@, "3. 用3个边长4厘米的正方形拼成一个长方形，拼成长方形的周长是多少厘米？"@, "32厘米"@, "长为12厘米、宽为4厘米，周长=(12+4)×2=32（厘米）"@, "长方形周长"@)]
    } else {
        seq![("5-1"@, "1. 一批图书有480本，第一天借出总数的25%，第二天借出90本，还剩多少本？"@, "270本"@, "480-480×25%-90=270（本）"@, "百分数应用"@), ("5-2"@, "2. 一个长方体长8厘米、宽5厘米、高4厘米，它的体积是多少立方厘米？"@, "160立方厘米"@, "8×5×4=160（立方厘米）"@, "长方体体积"@), ("5-3"@, "3. 一辆汽车3小时行驶225千米。按这个速度，行驶7小时可行多少千米？"@, "525千米"@, "225÷3×7=525（千米）"@, "归一问题"@)]
    }
}

fn problem_items(grade: u8) -> (r: Vec<DraftItem>)
    ensures
        r@.len() == 3,
        forall|k: int| 0 <= k < 3 ==> #[trigger] problem_ok(r@[k], problem_spec(grade)[k]),
{
    if grade <= 2 {
        let r = vec![problem_item("5-1", "1. 文具盒里原有18支铅笔，用去7支，又放入5支，现在有多少支？", "16支", "18-7+5=16（支）", "加减混合"), problem_item("5-2", "2. 4个小组，每组有6名同学，一共有多少名同学？", "24名", "4×6=24（名）", "乘法应用"), problem_item("5-3", "3. 把20本练习本平均分给5名同学，每名同学分到多少本？", "4本", "20÷5=4（本）", "平均分")];
        assert(forall|k: int| 0 <= k < 3 ==> #[trigger] problem_ok(r@[k], problem_spec(grade)[k]));
        r
    } else if grade <= 4 {
        let r = vec![problem_item("5-1", "1. 三年级有78名同学参加活动，平均分成6组，每组有多少名同学？", "13名", "78÷6=13（名）", "除法应用"), problem_item("5-2", "2. 同学们3天折了306只纸鹤。照这样计算，7天可以折多少只？", "714只", "306÷3×7=714（只）", "归一问题"), problem_item("5-3", "3. 用3个边长4厘米的正方形拼成一个长方形，拼成长方形的周长是多少厘米？", "32厘米", "长为12厘米、宽为4厘米，周长=(12+4)×2=32（厘米）", "长方形周长")];
        assert(forall|k: int| 0 <= k < 3 ==> #[trigger] problem_ok(r@[k], problem_spec(grade)[k]));
        r
    } else {
        let r = vec![problem_item("5-1", "1. 一批图书有480本，第一天借出总数的25%，第二天借出90本，还剩多少本？", "270本", "480-480×25%-90=270（本）", "百分数应用"), problem_item("5-2", "2. 一个长方体长8厘米、宽5厘米、高4厘米，它的体积是多少立方厘米？", "160立方厘米", "8×5×4=160（立方厘米）", "长方体体积"), problem_item("5-3", "3. 一辆汽车3小时行驶225千米。按这个速度，行驶7小时可行多少千米？", "525千米", "225÷3×7=525（千米）", "归一问题")];
        assert(forall|k: int| 0 <= k < 3 ==> #[trigger] problem_ok(r@[k], problem_spec(grade)[k]));
        r
    }
}


pub open spec fn problem_ok(it: DraftItem, p: (Seq<char>, Seq<char>, Seq<char>, Seq<char>, Seq<char>)) -> bool {
    item_is(it, p.0, p.1, Seq::empty(), p.2, p.3, 10, seq![p.4])
}

fn problem_item(id: &str, stem: &str, answer: &str, analysis: &str, kp: &str) -> (r: DraftItem)
    ensures
        problem_ok(r, (id@, stem@, answer@, analysis@, kp@)),
{
    let kps = vec![lit(kp)];
    assert(strings_view(kps@) =~= seq![kp@]);
    let none: Vec<String> = Vec::new();
    assert(strings_view(none@) =~= Seq::<Seq<char>>::empty());
    new_item(lit(id), lit(stem), none, lit(answer), lit(analysis), 10, kps)
}

fn num(n: u64) -> (r: Vec<char>)
    ensures
        r@ == nat_to_seq(n as nat),
{
    let mut v: Vec<char> = Vec::new();
    push_nat_digits(&mut v, n as u128);
    assert(v@ =~= nat_to_seq(n as nat));
    v
}

fn seq1(s: String) -> (r: Vec<String>)
    ensures
        strings_view(r@) == seq![s@],
{
    let r = vec![s];
    assert(strings_view(r@) =~= seq![s@]);
    r
}

fn none_strings() -> (r: Vec<String>)
    ensures
        strings_view(r@) == Seq::<Seq<char>>::empty(),
{
    let r: Vec<String> = Vec::new();
    assert(strings_view(r@) =~= Seq::<Seq<char>>::empty());
    r
}

/// Fill-in question `k` (from 0) on the expression `t`.
pub open spec fn fill_ok(it: DraftItem, k: int, t: TripleView) -> bool {
    item_is(
        it,
        "1-"@ + nat_to_seq((k + 1) as nat),
        nat_to_seq((k + 1) as nat) + ". "@ + t.0 + "＝（　　）"@,
        Seq::empty(),
        t.1,
        "程序验算："@ + t.0 + "="@ + t.1 + "; 来源："@ + t.2,
        4,
        seq!["四则运算"@],
    )
}

/// True-or-false question `k`: even questions show the right answer, odd ones the answer plus one.
pub open spec fn judge_ok(it: DraftItem, k: int, t: TripleView) -> bool {
    let right = k % 2 == 0;
    let shown = if right { t.1 } else { shifted_spec(t.1, 1) };
    item_is(
        it,
        "2-"@ + nat_to_seq((k + 1) as nat),
        nat_to_seq((k + 1) as nat) + ". "@ + t.0 + "＝"@ + shown + "。（　　）"@,
        Seq::empty(),
        if right { "√"@ } else { "×"@ },
        "程序验算结果为 "@ + t.1 + "; 来源："@ + t.2,
        2,
        seq!["计算判断"@],
    )
}

pub open spec fn option_label(i: int) -> Seq<char> {
    if i == 0 {
        "A"@
    } else if i == 1 {
        "B"@
    } else if i == 2 {
        "C"@
    } else {
        "D"@
    }
}

/// The wrong values offered, in order: the answer less one, plus one, plus ten.
pub open spec fn distractor(answer: Seq<char>, d: int) -> Seq<char> {
    shifted_spec(answer, if d == 0 { -1i64 } else if d == 1 { 1i64 } else { 10i64 })
}

/// Option `oi` of a choice question whose right option is `ci`.
pub open spec fn choice_option(answer: Seq<char>, oi: int, ci: int) -> Seq<char> {
    option_label(oi) + ". "@ + if oi == ci {
        answer
    } else {
        distractor(answer, if oi < ci { oi } else { oi - 1 })
    }
}

/// Choice question `k`: the right option is the `k % 4`-th.
pub open spec fn choice_ok(it: DraftItem, k: int, t: TripleView) -> bool {
    let ci = k % 4;
    item_is(
        it,
        "3-"@ + nat_to_seq((k + 1) as nat),
        nat_to_seq((k + 1) as nat) + ". "@ + t.0 + " 的得数是（　　）。"@,
        Seq::new(4, |oi: int| choice_option(t.1, oi, ci)),
        option_label(ci),
        t.0 + "="@ + t.1 + "; 来源："@ + t.2,
        2,
        seq!["四则运算"@],
    )
}

/// The calculation lines: the expressions four to a line.
pub open spec fn calc_line(es: Seq<TripleView>, r: int) -> Seq<char> {
    let hi = if 4 * r + 4 < es.len() { 4 * r + 4 } else { es.len() as int };
    join(Seq::new((hi - 4 * r) as nat, |j: int| es[4 * r + j].0 + "＝　　　"@), "    "@)
}

pub open spec fn calc_ok(it: DraftItem, es: Seq<TripleView>) -> bool {
    let lines = Seq::new(3, |r: int| calc_line(es, r));
    item_is(
        it,
        "4-1"@,
        "1. 计算下面各题。\n"@ + join(lines, "\n"@),
        Seq::empty(),
        join(Seq::new(es.len(), |j: int| es[j].1), "；"@),
        "所有算式均经本地表达式求值器验算"@,
        30,
        seq!["口算"@, "混合运算"@],
    )
}

fn fill_item(k: usize, t: &Triple) -> (r: DraftItem)
    requires
        k < 5,
    ensures
        fill_ok(r, k as int, (t.0@, t.1@, t.2@)),
{
    let no = num(k as u64 + 1);
    let mut id = chars_of("1-");
    extend_vec(&mut id, &no);
    let mut stem = no;
    extend_chars(&mut stem, ". ");
    extend_chars(&mut stem, t.0.as_str());
    extend_chars(&mut stem, "＝（　　）");
    let mut an = chars_of("程序验算：");
    extend_chars(&mut an, t.0.as_str());
    extend_chars(&mut an, "=");
    extend_chars(&mut an, t.1.as_str());
    extend_chars(&mut an, "; 来源：");
    extend_chars(&mut an, t.2.as_str());
    new_item(string_of(&id), string_of(&stem), none_strings(), lit(t.1.as_str()), string_of(&an), 4, seq1(lit("四则运算")))
}

fn judge_item(k: usize, t: &Triple) -> (r: DraftItem)
    requires
        k < 5,
    ensures
        judge_ok(r, k as int, (t.0@, t.1@, t.2@)),
{
    let right = k % 2 == 0;
    let shown = if right { lit(t.1.as_str()) } else { shifted_math_answer(t.1.as_str(), 1) };
    let no = num(k as u64 + 1);
    let mut id = chars_of("2-");
    extend_vec(&mut id, &no);
    let mut stem = no;
    extend_chars(&mut stem, ". ");
    extend_chars(&mut stem, t.0.as_str());
    extend_chars(&mut stem, "＝");
    extend_chars(&mut stem, shown.as_str());
    extend_chars(&mut stem, "。（　　）");
    let mut an = chars_of("程序验算结果为 ");
    extend_chars(&mut an, t.1.as_str());
    extend_chars(&mut an, "; 来源：");
    extend_chars(&mut an, t.2.as_str());
    let answer = if right { lit("√") } else { lit("×") };
    new_item(string_of(&id), string_of(&stem), none_strings(), answer, string_of(&an), 2, seq1(lit("计算判断")))
}

fn label_of(i: usize) -> (r: &'static str)
    ensures
        r@ == option_label(i as int),
{
    if i == 0 {
        "A"
    } else if i == 1 {
        "B"
    } else if i == 2 {
        "C"
    } else {
        "D"
    }
}

fn choice_item(k: usize, t: &Triple) -> (r: DraftItem)
    requires
        k < 5,
    ensures
        choice_ok(r, k as int, (t.0@, t.1@, t.2@)),
{
    let ci = k % 4;
    let d = vec![
        shifted_math_answer(t.1.as_str(), -1),
        shifted_math_answer(t.1.as_str(), 1),
        shifted_math_answer(t.1.as_str(), 10),
    ];
    let mut options: Vec<String> = Vec::new();
    let mut oi: usize = 0;
    while oi < 4
        invariant
            ci == k % 4,
            d@.len() == 3,
            forall|j: int| 0 <= j < 3 ==> #[trigger] d@[j]@ == distractor(t.1@, j),
            oi <= 4,
            options@.len() == oi,
            forall|j: int| 0 <= j < oi ==> #[trigger] options@[j]@ == choice_option(t.1@, j, ci as int),
        decreases 4 - oi,
    {
        let mut v = chars_of(label_of(oi));
        extend_chars(&mut v, ". ");
        if oi == ci {
            extend_chars(&mut v, t.1.as_str());
        } else {
            let di = if oi < ci { oi } else { oi - 1 };
            extend_chars(&mut v, d[di].as_str());
        }
        options.push(string_of(&v));
        oi = oi + 1;
    }
    assert(strings_view(options@) =~= Seq::new(4, |oi: int| choice_option(t.1@, oi, ci as int)));
    let no = num(k as u64 + 1);
    let mut id = chars_of("3-");
    extend_vec(&mut id, &no);
    let mut stem = no;
    extend_chars(&mut stem, ". ");
    extend_chars(&mut stem, t.0.as_str());
    extend_chars(&mut stem, " 的得数是（　　）。");
    let mut an = chars_of(t.0.as_str());
    extend_chars(&mut an, "=");
    extend_chars(&mut an, t.1.as_str());
    extend_chars(&mut an, "; 来源：");
    extend_chars(&mut an, t.2.as_str());
    new_item(string_of(&id), string_of(&stem), options, lit(label_of(ci)), string_of(&an), 2, seq1(lit("四则运算")))
}

fn calc_item(es: &Vec<Triple>, from: usize) -> (r: DraftItem)
    requires
        from + 10 <= es.len(),
    ensures
        calc_ok(r, tvs(es@.subrange(from as int, from + 10))),
{
    let ghost ev = tvs(es@.subrange(from as int, from + 10));
    let mut lines: Vec<String> = Vec::new();
    let mut r: usize = 0;
    while r < 3
        invariant
            from + 10 <= es.len(),
            ev == tvs(es@.subrange(from as int, from + 10)),
            r <= 3,
            lines@.len() == r,
            forall|j: int| 0 <= j < r ==> #[trigger] lines@[j]@ == calc_line(ev, j),
        decreases 3 - r,
    {
        let hi = if 4 * r + 4 < 10 { 4 * r + 4 } else { 10 };
        let mut cells: Vec<String> = Vec::new();
        let mut j: usize = 4 * r;
        while j < hi
            invariant
                from + 10 <= es.len(),
                ev == tvs(es@.subrange(from as int, from + 10)),
                4 * r <= j <= hi <= 10,
                cells@.len() == j - 4 * r,
                forall|q: int| 0 <= q < cells@.len() ==> #[trigger] cells@[q]@ == ev[4 * r + q].0 + "＝　　　"@,
            decreases hi - j,
        {
            let mut c = chars_of(es[from + j].0.as_str());
            extend_chars(&mut c, "＝　　　");
            cells.push(string_of(&c));
            j = j + 1;
        }
        let mut line: Vec<char> = Vec::new();
        push_join(&mut line, &cells, "    ");
        proof {
            assert(strings_view(cells@) =~= Seq::new((hi - 4 * r) as nat, |q: int| ev[4 * r + q].0 + "＝　　　"@));
            assert(line@ =~= calc_line(ev, r as int));
        }
        lines.push(string_of(&line));
        r = r + 1;
    }
    let mut stem = chars_of("1. 计算下面各题。\n");
    push_join(&mut stem, &lines, "\n");
    assert(strings_view(lines@) =~= Seq::new(3, |r: int| calc_line(ev, r)));
    let mut answers: Vec<String> = Vec::new();
    let mut j: usize = 0;
    while j < 10
        invariant
            from + 10 <= es.len(),
            ev == tvs(es@.subrange(from as int, from + 10)),
            j <= 10,
            answers@.len() == j,
            forall|q: int| 0 <= q < j ==> #[trigger] answers@[q]@ == ev[q].1,
        decreases 10 - j,
    {
        answers.push(lit(es[from + j].1.as_str()));
        j = j + 1;
    }
    let mut ans: Vec<char> = Vec::new();
    push_join(&mut ans, &answers, "；");
    assert(strings_view(answers@) =~= Seq::new(10, |q: int| ev[q].1));
    let kps = vec![lit("口算"), lit("混合运算")];
    assert(strings_view(kps@) =~= seq!["口算"@, "混合运算"@]);
    new_item(lit("4-1"), string_of(&stem), none_strings(), string_of(&ans), lit("所有算式均经本地表达式求值器验算"), 30, kps)
}


/// The name of the requested unit, empty when none was requested or found.
pub open spec fn local_unit_name(req: GenerateRequest, pack: KnowledgePack) -> Seq<char> {
    match req.unit_id {
        Some(id) => match find_unit_from(pack.units@, id@, 0) {
            Some(i) => pack.units@[i].name@,
            None => Seq::empty(),
        },
        None => Seq::empty(),
    }
}

pub open spec fn local_title(req: GenerateRequest, pack: KnowledgePack) -> Seq<char> {
    let head = "小学"@ + edition_cn(req.edition@) + subject_cn(req.subject@) + nat_to_seq(req.grade as nat) + "年级"@
        + sem_cn(req.semester@) + exam_label_spec(req.exam_type@);
    let u = local_unit_name(req, pack);
    if req.exam_type@ == "unit"@ && u.len() > 0 {
        head + "·"@ + u
    } else {
        head
    }
}

/// The knowledge points a placeholder paper draws on: the requested unit's (or
/// the first unit's) for a unit test, the first half of the units' for a
/// midterm, all of them otherwise.
pub open spec fn local_points(req: GenerateRequest, pack: KnowledgePack) -> Seq<Seq<char>> {
    let units = pack.units@;
    if req.exam_type@ == "unit"@ {
        let chosen = match req.unit_id {
            Some(id) => find_unit_from(units, id@, 0),
            None => None,
        };
        match chosen {
            Some(i) => strings_view(units[i].points@),
            None => if units.len() > 0 {
                strings_view(units[0].points@)
            } else {
                Seq::empty()
            },
        }
    } else if req.exam_type@ == "midterm"@ {
        unit_points(units.take(((units.len() + 1) / 2) as int))
    } else {
        unit_points(units)
    }
}

pub open spec fn section_is(s: DraftSection, ty: Seq<char>, title: Seq<char>, score: u32, n: int) -> bool {
    s.section_type@ == ty && s.title@ == title && s.score == score && s.items@.len() == n
}

pub open spec fn math_sections_ok(secs: Seq<DraftSection>, es: Seq<TripleView>, grade: u8) -> bool {
    &&& secs.len() == 5
    &&& section_is(secs[0], "fill"@, "一、填空题（每空2分，共20分）"@, 20, 5)
    &&& forall|k: int| 0 <= k < 5 ==> fill_ok(#[trigger] secs[0].items@[k], k, es[k])
    &&& section_is(secs[1], "judge"@, "二、判断题（每题2分，共10分）"@, 10, 5)
    &&& forall|k: int| 0 <= k < 5 ==> judge_ok(#[trigger] secs[1].items@[k], k, es[k + 5])
    &&& section_is(secs[2], "choice"@, "三、选择题（每题2分，共10分）"@, 10, 5)
    &&& forall|k: int| 0 <= k < 5 ==> choice_ok(#[trigger] secs[2].items@[k], k, es[k + 10])
    &&& section_is(secs[3], "calc"@, "四、计算题（共30分）"@, 30, 1)
    &&& calc_ok(secs[3].items@[0], es.subrange(15, 25))
    &&& section_is(secs[4], "problem"@, "五、解决问题（共30分）"@, 30, 3)
    &&& forall|k: int| 0 <= k < 3 ==> problem_ok(#[trigger] secs[4].items@[k], problem_spec(grade)[k])
}

pub open spec fn essay_words(grade: u8) -> nat {
    if grade <= 2 {
        200
    } else if grade <= 4 {
        350
    } else {
        400
    }
}

pub open spec fn placeholder_ok(it: DraftItem, id: Seq<char>, stem: Seq<char>, score: u32, kps: Seq<Seq<char>>) -> bool {
    item_is(it, id, stem, Seq::empty(), "略"@, Seq::empty(), score, kps)
}

pub open spec fn other_sections_ok(secs: Seq<DraftSection>, points: Seq<Seq<char>>, grade: u8) -> bool {
    &&& secs.len() == 3
    &&& section_is(secs[0], "pinyin"@, "一、积累与运用（30分）"@, 30, 3)
    &&& placeholder_ok(
        secs[0].items@[0],
        "1-1"@,
        "1. 看拼音写词语（10分）\n（根据本单元字词默写，模板占位）"@,
        10,
        if points.len() > 0 { seq![points[0]] } else { Seq::empty() },
    )
    &&& placeholder_ok(secs[0].items@[1], "1-2"@, "2. 选字填空 / 近反义词（10分）"@, 10, Seq::empty())
    &&& placeholder_ok(secs[0].items@[2], "1-3"@, "3. 按课文内容填空（10分）"@, 10, Seq::empty())
    &&& section_is(secs[1], "reading"@, "二、阅读理解（45分）"@, 45, 2)
    &&& placeholder_ok(
        secs[1].items@[0],
        "2-1"@,
        "1. 课内阅读（20分）\n阅读本单元课文选段，完成练习。（模板：请用 AI 生成完整选段与题目）"@,
        20,
        Seq::empty(),
    )
    &&& placeholder_ok(secs[1].items@[1], "2-2"@, "2. 课外阅读（25分）\n阅读短文，完成练习。"@, 25, Seq::empty())
    &&& section_is(secs[2], "writing"@, "三、习作（25分）"@, 25, 1)
    &&& placeholder_ok(
        secs[2].items@[0],
        "3-1"@,
        "请以本册学习主题写一篇习作。要求：中心明确，语句通顺，不少于"@ + nat_to_seq(essay_words(grade))
            + "字。\n（模板题目，建议 AI 生成贴合单元的题目）"@,
        25,
        seq!["习作"@],
    )
}

/// The source line of a local math paper.
pub open spec fn math_source(verified_count: nat) -> Seq<char> {
    let c = if verified_count < 24 { verified_count } else { 24 };
    if c > 0 {
        "本地可验算题库 + 公开网页素材（"@ + nat_to_seq(c) + " 道算式）"@
    } else {
        "本地可验算题库"@
    }
}

/// The paper laid out locally for `req`: for math, from the bank expressions
/// (`verified` first); for the other subjects, placeholders.
pub open spec fn local_paper_ok(r: DraftPaper, req: GenerateRequest, pack: KnowledgePack, verified: Seq<TripleView>) -> bool {
    let math = req.subject@ == "math"@;
    &&& r.meta.edition@ == edition_cn(req.edition@)
    &&& r.meta.subject@ == subject_cn(req.subject@)
    &&& r.meta.grade == req.grade
    &&& r.meta.semester@ == sem_cn(req.semester@)
    &&& r.meta.exam_type@ == exam_label_spec(req.exam_type@)
    &&& r.meta.title@ == local_title(req, pack)
    &&& r.meta.total_score == req.total_score
    &&& r.meta.duration_min == req.duration_min
    &&& r.meta.source@ == (if math { math_source(verified.len()) } else { "template"@ })
    &&& r.meta.template_id is None
    &&& r.meta.template_name is None
    &&& math ==> math_sections_ok(r.sections@, offline_spec(req.grade, verified), req.grade)
    &&& !math ==> other_sections_ok(r.sections@, local_points(req, pack), req.grade)
}

/// A math paper laid out locally has five sections worth 20, 10, 10, 30 and
/// 30 points with 5, 5, 5, 1 and 3 questions; the fill-in questions answer
/// the first five bank expressions, the true-or-false questions alternate
/// `√` and `×`, and the choice questions cycle through `A` to `D`.
pub proof fn lemma_math_paper_layout(r: DraftPaper, req: GenerateRequest, pack: KnowledgePack, verified: Seq<TripleView>, i: int)
    requires
        local_paper_ok(r, req, pack, verified),
        req.subject@ == "math"@,
        0 <= i < 5,
    ensures
        r.sections@.len() == 5,
        r.sections@[0].score == 20 && r.sections@[1].score == 10 && r.sections@[2].score == 10,
        r.sections@[3].score == 30 && r.sections@[4].score == 30,
        r.sections@[0].items@.len() == 5 && r.sections@[1].items@.len() == 5 && r.sections@[2].items@.len() == 5,
        r.sections@[3].items@.len() == 1 && r.sections@[4].items@.len() == 3,
        r.sections@[0].items@[i].answer@ == offline_spec(req.grade, verified)[i].1,
        r.sections@[1].items@[i].answer@ == (if i % 2 == 0 { "√"@ } else { "×"@ }),
        r.sections@[2].items@[i].answer@ == option_label(i % 4),
        r.meta.total_score == req.total_score,
{
    let secs = r.sections@;
    let es = offline_spec(req.grade, verified);
    assert(fill_ok(secs[0].items@[i], i, es[i]));
    assert(judge_ok(secs[1].items@[i], i, es[i + 5]));
    assert(choice_ok(secs[2].items@[i], i, es[i + 10]));
}

fn placeholder(id: &str, stem: Vec<char>, score: u32, kps: Vec<String>) -> (r: DraftItem)
    ensures
        placeholder_ok(r, id@, stem@, score, strings_view(kps@)),
{
    new_item(lit(id), string_of(&stem), none_strings(), lit("略"), String::new(), score, kps)
}

fn section(ty: &str, title: &str, score: u32, items: Vec<DraftItem>) -> (r: DraftSection)
    ensures
        section_is(r, ty@, title@, score, items@.len() as int),
        r.items@ == items@,
{
    DraftSection { section_type: lit(ty), title: lit(title), score, items }
}

fn first_point(req: &GenerateRequest, pack: &KnowledgePack) -> (r: Vec<String>)
    ensures
        strings_view(r@) == (if local_points(*req, *pack).len() > 0 {
            seq![local_points(*req, *pack)[0]]
        } else {
            Seq::<Seq<char>>::empty()
        }),
{
    let units = &pack.units;
    let n = units.len();
    let mut all: Vec<String> = Vec::new();
    if str_eq(req.exam_type.as_str(), "unit") {
        let chosen = match &req.unit_id {
            Some(id) => crate::generate::find_unit(units, id.as_str()),
            None => None,
        };
        match chosen {
            Some(i) => {
                crate::templates::copy_strings(&mut all, &units[i].points);
            },
            None => {
                if n > 0 {
                    crate::templates::copy_strings(&mut all, &units[0].points);
                }
            },
        }
        assert(strings_view(all@) =~= local_points(*req, *pack));
    } else if str_eq(req.exam_type.as_str(), "midterm") {
        let half = n / 2 + n % 2;
        crate::templates::push_unit_points_upto(&mut all, units, half);
        assert(strings_view(all@) =~= local_points(*req, *pack));
    } else {
        crate::templates::push_unit_points_upto(&mut all, units, n);
        assert(units@.take(n as int) =~= units@);
        assert(strings_view(all@) =~= local_points(*req, *pack));
    }
    if all.len() > 0 {
        seq1(lit(all[0].as_str()))
    } else {
        none_strings()
    }
}

fn other_sections(req: &GenerateRequest, pack: &KnowledgePack) -> (r: Vec<DraftSection>)
    ensures
        other_sections_ok(r@, local_points(*req, *pack), req.grade),
{
    let first = first_point(req, pack);
    let i11 = placeholder("1-1", chars_of("1. 看拼音写词语（10分）\n（根据本单元字词默写，模板占位）"), 10, first);
    let i12 = placeholder("1-2", chars_of("2. 选字填空 / 近反义词（10分）"), 10, none_strings());
    let i13 = placeholder("1-3", chars_of("3. 按课文内容填空（10分）"), 10, none_strings());
    let s1 = section("pinyin", "一、积累与运用（30分）", 30, vec![i11, i12, i13]);
    let i21 = placeholder(
        "2-1",
        chars_of("1. 课内阅读（20分）\n阅读本单元课文选段，完成练习。（模板：请用 AI 生成完整选段与题目）"),
        20,
        none_strings(),
    );
    let i22 = placeholder("2-2", chars_of("2. 课外阅读（25分）\n阅读短文，完成练习。"), 25, none_strings());
    let s2 = section("reading", "二、阅读理解（45分）", 45, vec![i21, i22]);
    let words: u64 = if req.grade <= 2 { 200 } else if req.grade <= 4 { 350 } else { 400 };
    let mut stem = chars_of("请以本册学习主题写一篇习作。要求：中心明确，语句通顺，不少于");
    extend_vec(&mut stem, &num(words));
    extend_chars(&mut stem, "字。\n（模板题目，建议 AI 生成贴合单元的题目）");
    let i31 = placeholder("3-1", stem, 25, seq1(lit("习作")));
    let s3 = section("writing", "三、习作（25分）", 25, vec![i31]);
    vec![s1, s2, s3]
}

fn math_sections(es: &Vec<Triple>, grade: u8) -> (r: Vec<DraftSection>)
    requires
        es@.len() >= 25,
    ensures
        math_sections_ok(r@, tvs(es@), grade),
{
    let ghost ev = tvs(es@);
    let mut fills: Vec<DraftItem> = Vec::new();
    let mut judges: Vec<DraftItem> = Vec::new();
    let mut choices: Vec<DraftItem> = Vec::new();
    let mut k: usize = 0;
    while k < 5
        invariant
            es@.len() >= 25,
            ev == tvs(es@),
            k <= 5,
            fills@.len() == k && judges@.len() == k && choices@.len() == k,
            forall|j: int| 0 <= j < k ==> #[trigger] fill_ok(fills@[j], j, ev[j]),
            forall|j: int| 0 <= j < k ==> #[trigger] judge_ok(judges@[j], j, ev[j + 5]),
            forall|j: int| 0 <= j < k ==> #[trigger] choice_ok(choices@[j], j, ev[j + 10]),
        decreases 5 - k,
    {
        fills.push(fill_item(k, &es[k]));
        judges.push(judge_item(k, &es[k + 5]));
        choices.push(choice_item(k, &es[k + 10]));
        k = k + 1;
    }
    let calc = calc_item(es, 15);
    assert(tvs(es@.subrange(15, 25)) =~= ev.subrange(15, 25));
    let s0 = section("fill", "一、填空题（每空2分，共20分）", 20, fills);
    let s1 = section("judge", "二、判断题（每题2分，共10分）", 10, judges);
    let s2 = section("choice", "三、选择题（每题2分，共10分）", 10, choices);
    let s3 = section("calc", "四、计算题（共30分）", 30, vec![calc]);
    let s4 = section("problem", "五、解决问题（共30分）", 30, problem_items(grade));
    vec![s0, s1, s2, s3, s4]
}

/// Lays out a paper without a model. For math the expressions come from the
/// local bank, `verified` ones first; the paper needs 25 of them.
pub fn build_template_paper(req: &GenerateRequest, pack: &KnowledgePack, verified: &Vec<Triple>) -> (r: DraftPaper)
    requires
        req.subject@ == "math"@ ==> offline_spec(req.grade, tvs(verified@)).len() >= 25,
    ensures
        local_paper_ok(r, *req, *pack, tvs(verified@)),
{
    let edition = crate::generate::edition_cn_of(req.edition.as_str());
    let subject = crate::generate::subject_cn_of(req.subject.as_str());
    let sem = crate::generate::sem_cn_of(req.semester.as_str());
    let exam = exam_type_label(req.exam_type.as_str());
    let mut title = chars_of("小学");
    extend_vec(&mut title, &edition);
    extend_vec(&mut title, &subject);
    push_nat_digits(&mut title, req.grade as u128);
    extend_chars(&mut title, "年级");
    extend_vec(&mut title, &sem);
    extend_chars(&mut title, exam);
    let unit_name: String = match &req.unit_id {
        Some(id) => match crate::generate::find_unit(&pack.units, id.as_str()) {
            Some(i) => lit(pack.units[i].name.as_str()),
            None => String::new(),
        },
        None => String::new(),
    };
    assert(unit_name@ == local_unit_name(*req, *pack));
    if str_eq(req.exam_type.as_str(), "unit") && unit_name.unicode_len() > 0 {
        extend_chars(&mut title, "·");
        extend_chars(&mut title, unit_name.as_str());
    }
    let math = str_eq(req.subject.as_str(), "math");
    let (sections, source) = if math {
        let es = offline_math_expressions(req.grade, verified);
        let c = if verified.len() < 24 { verified.len() } else { 24 };
        let source = if c > 0 {
            let mut s = chars_of("本地可验算题库 + 公开网页素材（");
            extend_vec(&mut s, &num(c as u64));
            extend_chars(&mut s, " 道算式）");
            string_of(&s)
        } else {
            lit("本地可验算题库")
        };
        (math_sections(&es, req.grade), source)
    } else {
        (other_sections(req, pack), lit("template"))
    };
    let meta = DraftMeta {
        edition: string_of(&edition),
        subject: string_of(&subject),
        grade: req.grade,
        semester: string_of(&sem),
        exam_type: lit(exam),
        title: string_of(&title),
        total_score: req.total_score,
        duration_min: req.duration_min,
        source,
        template_id: None,
        template_name: None,
    };
    DraftPaper { meta, sections }
}

} // verus!
