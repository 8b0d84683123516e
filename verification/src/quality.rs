//! The local quality check of a paper: empty answers, short stems, choice
//! questions without options, missing knowledge points, words above the
//! grade, arithmetic answers that do not check out; and a score from 100 down.
use vstd::prelude::*;
use crate::expr::{nat_to_seq, push_nat_digits};
use crate::paper::{
    items_of, number_unsigned, sections_of, text_or_empty, ExamItem, ExamPaper, ExamSection,
};
use crate::text::{
    chars_of, contains, extend_chars, extend_vec, lower_chars, lower_seq, str_contains, str_eq,
    string_of, trim, trim_str, is_ws,
};
use crate::verify::{
    count_status, flat_items, item_outcome, lit, result_is, verify_paper_math, PaperItem,
    PaperSection, VerifyItemResult, VerifyReport,
};

verus! {

/// One finding of the check.
#[derive(Debug, Clone)]
pub struct QualityIssue {
    /// error | warn | info
    pub level: String,
    pub code: String,
    pub message: String,
    pub section_index: Option<usize>,
    pub item_index: Option<usize>,
    pub item_id: Option<String>,
}

/// The result of the check.
#[derive(Debug, Clone)]
pub struct QualityReport {
    pub score: u8,
    pub summary: String,
    pub error_count: usize,
    pub warn_count: usize,
    pub info_count: usize,
    pub issues: Vec<QualityIssue>,
    /// The summary of the two-way specification table.
    pub spec_summary: String,
    pub knowledge_count: usize,
    pub unmarked_count: usize,
    pub math_mismatch: usize,
    pub math_checked: usize,
}

/// An issue as plain values: level, code, message, section, item, item id.
pub type IssueView = (Seq<char>, Seq<char>, Seq<char>, Option<usize>, Option<usize>, Option<Seq<char>>);

pub open spec fn issue_view(q: QualityIssue) -> IssueView {
    (
        q.level@,
        q.code@,
        q.message@,
        q.section_index,
        q.item_index,
        match q.item_id {
            Some(s) => Some(s@),
            None => None,
        },
    )
}

pub open spec fn issues_view(v: Seq<QualityIssue>) -> Seq<IssueView> {
    v.map_values(|q: QualityIssue| issue_view(q))
}

/// The id of an item: its own, or `section-item` counted from 1.
pub open spec fn item_id(item: ExamItem, si: int, ii: int) -> Seq<char> {
    match item.id {
        Some(s) => s@,
        None => nat_to_seq((si + 1) as nat) + "-"@ + nat_to_seq((ii + 1) as nat),
    }
}

pub open spec fn at_item(
    level: Seq<char>,
    code: Seq<char>,
    msg: Seq<char>,
    si: usize,
    ii: usize,
    id: Seq<char>,
) -> IssueView {
    (level, code, msg, Some(si), Some(ii), Some(id))
}

pub open spec fn stem_issues(stem: Seq<char>, id: Seq<char>, si: usize, ii: usize) -> Seq<IssueView> {
    if stem.len() == 0 {
        seq![at_item("error"@, "empty_stem"@, "第 "@ + id + " 题题干为空"@, si, ii, id)]
    } else if stem.len() < 4 {
        seq![at_item("warn"@, "short_stem"@, "第 "@ + id + " 题题干过短，可能不完整"@, si, ii, id)]
    } else {
        Seq::empty()
    }
}

/// Whether an answer is missing or only a placeholder.
pub open spec fn weak_answer(answer: Seq<char>) -> bool {
    answer.len() == 0 || answer == "略"@ || answer == "（见教师评阅）"@
}

pub open spec fn answer_issues(answer: Seq<char>, id: Seq<char>, si: usize, ii: usize) -> Seq<IssueView> {
    if weak_answer(answer) {
        seq![
            at_item(
                if answer.len() == 0 { "error"@ } else { "warn"@ },
                "weak_answer"@,
                "第 "@ + id + " 题答案为空或占位（"@ + answer + "）"@,
                si,
                ii,
                id,
            ),
        ]
    } else {
        Seq::empty()
    }
}

/// Item `ii` of section `si` carries a `weak_answer` finding at `level`.
pub open spec fn flags_weak_answer(issues: Seq<IssueView>, level: Seq<char>, si: usize, ii: usize) -> bool {
    exists|k: int|
        0 <= k < issues.len() && (#[trigger] issues[k]).0 == level && issues[k].1 == "weak_answer"@ && issues[k].3
            == Some(si) && issues[k].4 == Some(ii)
}

proof fn lemma_trim_one_word(s: Seq<char>)
    requires
        s.len() > 0,
        !is_ws(s[0]),
        !is_ws(s.last()),
    ensures
        trim(s) == s,
{
    assert(crate::text::trim_start(s) == s);
    assert(crate::text::trim_end(s) == s);
}

/// An item whose answer is the placeholder `略` or `（见教师评阅）` is
/// flagged as a weak answer with a warning; one with no answer text (none,
/// or only white space) is flagged with an error.
pub proof fn lemma_placeholder_answer_flagged(sec: ExamSection, item: ExamItem, si: usize, ii: usize, subject: Seq<char>, grade: u64)
    ensures
        (item.answer matches Some(a) && (a@ == "略"@ || a@ == "（见教师评阅）"@)) ==> flags_weak_answer(
            item_issues(sec, item, si, ii, subject, grade),
            "warn"@,
            si,
            ii,
        ),
        trim(text_or_empty(item.answer)).len() == 0 ==> flags_weak_answer(
            item_issues(sec, item, si, ii, subject, grade),
            "error"@,
            si,
            ii,
        ),
{
    let id = item_id(item, si as int, ii as int);
    let stem = trim(text_or_empty(item.stem));
    let answer = trim(text_or_empty(item.answer));
    let all = item_issues(sec, item, si, ii, subject, grade);
    let k = stem_issues(stem, id, si, ii).len() as int;
    if item.answer is Some && (item.answer->0@ == "略"@ || item.answer->0@ == "（见教师评阅）"@) {
        let a = item.answer->0@;
        reveal_strlit("略");
        reveal_strlit("（见教师评阅）");
        lemma_trim_one_word(a);
        assert(answer == a);
        assert(answer.len() > 0);
        assert(all[k] == answer_issues(answer, id, si, ii)[0]);
        assert(all[k].0 == "warn"@);
    }
    if answer.len() == 0 {
        assert(all[k] == answer_issues(answer, id, si, ii)[0]);
    }
}

pub open spec fn kp_count(item: ExamItem) -> nat {
    match item.knowledge_points {
        Some(v) => v@.len(),
        None => 0,
    }
}

pub open spec fn kp_issues(item: ExamItem, id: Seq<char>, si: usize, ii: usize) -> Seq<IssueView> {
    if kp_count(item) == 0 {
        seq![at_item("info"@, "no_knowledge"@, "第 "@ + id + " 题未标注知识点，细目表会归入「未标注」"@, si, ii, id)]
    } else {
        Seq::empty()
    }
}

pub open spec fn options_of(item: ExamItem) -> Seq<Option<String>> {
    match item.options {
        Some(v) => v@,
        None => Seq::empty(),
    }
}

/// The options that are strings, trimmed.
pub open spec fn option_texts(opts: Seq<Option<String>>) -> Seq<Seq<char>>
    decreases opts.len(),
{
    if opts.len() == 0 {
        Seq::empty()
    } else {
        option_texts(opts.drop_last()) + match opts.last() {
            Some(s) => seq![trim(s@)],
            None => Seq::empty(),
        }
    }
}

pub open spec fn has_duplicate(t: Seq<Seq<char>>) -> bool {
    exists|i: int, j: int| 0 <= i < j < t.len() && t[i] == t[j]
}

/// Whether a section holds choice questions: by its type or by its title.
pub open spec fn is_choice_section(title: Seq<char>, ty: Seq<char>) -> bool {
    ty == "choice"@ || contains(title, "选择"@)
}

pub open spec fn choice_issues(
    item: ExamItem,
    title: Seq<char>,
    ty: Seq<char>,
    id: Seq<char>,
    si: usize,
    ii: usize,
) -> Seq<IssueView> {
    if !is_choice_section(title, ty) {
        Seq::empty()
    } else if options_of(item).len() < 2 {
        seq![at_item("error"@, "choice_options"@, "第 "@ + id + " 题为选择题但选项不足"@, si, ii, id)]
    } else if has_duplicate(option_texts(options_of(item))) {
        seq![at_item("warn"@, "dup_options"@, "第 "@ + id + " 题选项有重复"@, si, ii, id)]
    } else {
        Seq::empty()
    }
}

/// Whether the paper is a math paper.
pub open spec fn is_math(subject: Seq<char>) -> bool {
    contains(subject, "数学"@) || lower_seq(subject) == "math"@
}

pub open spec fn low_grade_words() -> Seq<Seq<char>> {
    seq!["方程"@, "百分数"@, "分数乘"@, "圆柱"@, "圆锥"@, "比例"@]
}

pub open spec fn mid_grade_words() -> Seq<Seq<char>> {
    seq!["一元一次方程"@, "二次根式"@, "函数"@]
}

/// The first of `words` that occurs in `text`.
pub open spec fn first_word_in(words: Seq<Seq<char>>, text: Seq<char>) -> Option<Seq<char>>
    decreases words.len(),
{
    if words.len() == 0 {
        None
    } else if contains(text, words[0]) {
        Some(words[0])
    } else {
        first_word_in(words.drop_first(), text)
    }
}

pub open spec fn grade_issues(
    subject: Seq<char>,
    grade: u64,
    text: Seq<char>,
    id: Seq<char>,
    si: usize,
    ii: usize,
) -> Seq<IssueView> {
    let found = if !is_math(subject) {
        None
    } else if 0 < grade <= 2 {
        first_word_in(low_grade_words(), text)
    } else if 0 < grade <= 4 {
        first_word_in(mid_grade_words(), text)
    } else {
        None
    };
    match found {
        Some(w) => seq![
            at_item(
                "warn"@,
                "over_grade"@,
                "第 "@ + id + " 题出现「"@ + w + "」，对 "@ + nat_to_seq(grade as nat) + " 年级可能超纲"@,
                si,
                ii,
                id,
            ),
        ],
        None => Seq::empty(),
    }
}

pub open spec fn section_title(s: ExamSection) -> Seq<char> {
    match s.title {
        Some(t) => t@,
        None => "大题"@,
    }
}

/// The findings on item `ii` of section `si`, in the order they are checked.
pub open spec fn item_issues(
    sec: ExamSection,
    item: ExamItem,
    si: usize,
    ii: usize,
    subject: Seq<char>,
    grade: u64,
) -> Seq<IssueView> {
    let id = item_id(item, si as int, ii as int);
    let stem = trim(text_or_empty(item.stem));
    let answer = trim(text_or_empty(item.answer));
    stem_issues(stem, id, si, ii) + answer_issues(answer, id, si, ii) + kp_issues(item, id, si, ii)
        + choice_issues(item, section_title(sec), text_or_empty(sec.section_type), id, si, ii)
        + grade_issues(subject, grade, stem + " "@ + answer, id, si, ii)
}

/// The findings on the first `n` items of section `si`.
pub open spec fn items_issues(sec: ExamSection, si: usize, n: int, subject: Seq<char>, grade: u64) -> Seq<IssueView>
    decreases n,
{
    if n <= 0 {
        Seq::empty()
    } else {
        items_issues(sec, si, n - 1, subject, grade) + item_issues(
            sec,
            items_of(sec)[n - 1],
            si,
            (n - 1) as usize,
            subject,
            grade,
        )
    }
}

pub open spec fn section_issues(sec: ExamSection, si: usize, subject: Seq<char>, grade: u64) -> Seq<IssueView> {
    if items_of(sec).len() == 0 {
        seq![
            (
                "error"@,
                "empty_section"@,
                "「"@ + section_title(sec) + "」下没有小题"@,
                Some(si),
                None,
                None,
            ),
        ]
    } else {
        items_issues(sec, si, items_of(sec).len() as int, subject, grade)
    }
}

/// The findings on the first `n` sections.
pub open spec fn sections_issues(secs: Seq<ExamSection>, n: int, subject: Seq<char>, grade: u64) -> Seq<IssueView>
    decreases n,
{
    if n <= 0 {
        Seq::empty()
    } else {
        sections_issues(secs, n - 1, subject, grade) + section_issues(
            secs[n - 1],
            (n - 1) as usize,
            subject,
            grade,
        )
    }
}

pub open spec fn paper_subject(p: ExamPaper) -> Seq<char> {
    text_or_empty(p.meta.subject)
}

pub open spec fn paper_grade(p: ExamPaper) -> u64 {
    match number_unsigned(p.meta.grade) {
        Some(g) => g,
        None => 0,
    }
}

/// The number of items of the first `n` sections.
pub open spec fn items_total(secs: Seq<ExamSection>, n: int) -> nat
    decreases n,
{
    if n <= 0 {
        0
    } else {
        items_total(secs, n - 1) + items_of(secs[n - 1]).len()
    }
}

/// The findings on the structure and the items of a paper.
pub open spec fn structure_issues(p: ExamPaper) -> Seq<IssueView> {
    let secs = sections_of(p);
    (if secs.len() == 0 {
        seq![("error"@, "no_sections"@, "试卷没有任何大题 sections"@, None, None, None)]
    } else {
        Seq::empty()
    }) + sections_issues(secs, secs.len() as int, paper_subject(p), paper_grade(p))
}

pub open spec fn score_issues(note: Option<Seq<char>>) -> Seq<IssueView> {
    match note {
        Some(m) => seq![("warn"@, "score_mismatch"@, m, None, None, None)],
        None => Seq::empty(),
    }
}

pub open spec fn unmarked_issues(unmarked: nat, total: nat) -> Seq<IssueView> {
    if unmarked > 0 && unmarked * 2 >= (if total < 1 { 1 } else { total }) {
        seq![
            (
                "warn"@,
                "many_unmarked_kp"@,
                "超过一半题目未标注知识点（"@ + nat_to_seq(unmarked) + "/"@ + nat_to_seq(total)
                    + "），细目表参考价值有限"@,
                None,
                None,
                None,
            ),
        ]
    } else {
        Seq::empty()
    }
}

/// The items of a paper in reading order, as the arithmetic check reads them:
/// section index, item index, stem and answer text.
pub open spec fn exam_flat(secs: Seq<ExamSection>) -> Seq<(int, int, Seq<char>, Seq<char>)>
    decreases secs.len(),
{
    if secs.len() == 0 {
        Seq::empty()
    } else {
        let si = secs.len() - 1;
        exam_flat(secs.drop_last()) + match secs.last().items {
            Some(v) => Seq::new(
                v@.len(),
                |ii: int| (si, ii, text_or_empty(v@[ii].stem), v@[ii].answer_text@),
            ),
            None => Seq::empty(),
        }
    }
}

/// The check of one item: section index, item index, status and message.
pub open spec fn check_of(x: (int, int, Seq<char>, Seq<char>)) -> (int, int, Seq<char>, Seq<char>) {
    (x.0, x.1, item_outcome(x.2, x.3).0, item_outcome(x.2, x.3).2)
}

/// The arithmetic checks of all items of a paper.
pub open spec fn math_checks(p: ExamPaper) -> Seq<(int, int, Seq<char>, Seq<char>)> {
    exam_flat(sections_of(p)).map_values(|x: (int, int, Seq<char>, Seq<char>)| check_of(x))
}

/// The checks that failed, in reading order.
pub open spec fn mismatches(cs: Seq<(int, int, Seq<char>, Seq<char>)>) -> Seq<(int, int, Seq<char>, Seq<char>)>
    decreases cs.len(),
{
    if cs.len() == 0 {
        Seq::empty()
    } else {
        mismatches(cs.drop_last()) + if cs.last().2 == "mismatch"@ {
            seq![cs.last()]
        } else {
            Seq::empty()
        }
    }
}

pub open spec fn count_check(cs: Seq<(int, int, Seq<char>, Seq<char>)>, st: Seq<char>) -> nat
    decreases cs.len(),
{
    if cs.len() == 0 {
        0
    } else {
        count_check(cs.drop_last(), st) + if cs.last().2 == st {
            1nat
        } else {
            0nat
        }
    }
}

pub open spec fn mismatch_issue(c: (int, int, Seq<char>, Seq<char>)) -> IssueView {
    (
        "error"@,
        "math_mismatch"@,
        "第 "@ + nat_to_seq((c.0 + 1) as nat) + "-"@ + nat_to_seq((c.1 + 1) as nat) + " 题验算不一致："@ + c.3,
        Some(c.0 as usize),
        Some(c.1 as usize),
        None,
    )
}

/// At most twelve failed checks listed one by one, and a line for the rest.
pub open spec fn math_issues(cs: Seq<(int, int, Seq<char>, Seq<char>)>) -> Seq<IssueView> {
    let ms = mismatches(cs);
    let shown = ms.take(if ms.len() < 12 { ms.len() as int } else { 12 });
    shown.map_values(|c: (int, int, Seq<char>, Seq<char>)| mismatch_issue(c)) + if ms.len() > 12 {
        seq![
            (
                "error"@,
                "math_mismatch_more"@,
                "另有 "@ + nat_to_seq((ms.len() - 12) as nat) + " 道验算不一致未全部列出"@,
                None,
                None,
                None,
            ),
        ]
    } else {
        Seq::empty()
    }
}

pub open spec fn count_level(v: Seq<IssueView>, level: Seq<char>) -> nat
    decreases v.len(),
{
    if v.len() == 0 {
        0
    } else {
        count_level(v.drop_last(), level) + if v.last().0 == level {
            1nat
        } else {
            0nat
        }
    }
}

pub open spec fn count_code(v: Seq<IssueView>, code: Seq<char>) -> nat
    decreases v.len(),
{
    if v.len() == 0 {
        0
    } else {
        count_code(v.drop_last(), code) + if v.last().1 == code {
            1nat
        } else {
            0nat
        }
    }
}

/// The score: 100, less 12 per error, 4 per warning and 1 per note (at most
/// 10 for notes), within 0..=100; 0 for a paper without items.
pub open spec fn quality_score(errors: nat, warns: nat, infos: nat, total: nat) -> int {
    let s = 100 - 12 * errors - 4 * warns - (if infos < 10 { infos as int } else { 10 });
    if total == 0 {
        0
    } else if s < 0 {
        0
    } else if s > 100 {
        100
    } else {
        s
    }
}

pub open spec fn quality_summary(
    score: int,
    errors: nat,
    warns: nat,
    total: nat,
    kps: nat,
    empty_answer: nat,
    short_stem: nat,
    no_kp: nat,
    bad_choice: nat,
    mismatch: nat,
    checked: nat,
) -> Seq<char> {
    if errors == 0 && warns == 0 {
        "质检通过（"@ + nat_to_seq(score as nat) + " 分）："@ + nat_to_seq(total) + " 题，知识点 "@ + nat_to_seq(kps)
            + " 个。"@ + nat_to_seq(empty_answer) + " 空答案，"@ + nat_to_seq(short_stem) + " 短题干，"@
            + nat_to_seq(no_kp) + " 未标知识点，"@ + nat_to_seq(bad_choice) + " 选项问题。"@
    } else if errors == 0 {
        "基本可用（"@ + nat_to_seq(score as nat) + " 分）："@ + nat_to_seq(warns) + " 条警告，建议导出前过一眼。共 "@
            + nat_to_seq(total) + " 题。"@
    } else {
        "建议修订后再用（"@ + nat_to_seq(score as nat) + " 分）："@ + nat_to_seq(errors) + " 条错误、"@
            + nat_to_seq(warns) + " 条警告。验算不一致 "@ + nat_to_seq(mismatch) + "/"@ + nat_to_seq(checked)
            + "。"@
    }
}


fn issue_at(level: &str, code: &str, message: Vec<char>, si: usize, ii: usize, id: &Vec<char>) -> (r: QualityIssue)
    ensures
        issue_view(r) == at_item(level@, code@, message@, si, ii, id@),
{
    QualityIssue {
        level: lit(level),
        code: lit(code),
        message: string_of(&message),
        section_index: Some(si),
        item_index: Some(ii),
        item_id: Some(string_of(id)),
    }
}

fn issue_plain(level: &str, code: &str, message: Vec<char>, si: Option<usize>) -> (r: QualityIssue)
    ensures
        issue_view(r) == (level@, code@, message@, si, None::<usize>, None::<Seq<char>>),
{
    QualityIssue {
        level: lit(level),
        code: lit(code),
        message: string_of(&message),
        section_index: si,
        item_index: None,
        item_id: None,
    }
}

fn msg3(a: &str, b: &Vec<char>, c: &str) -> (r: Vec<char>)
    ensures
        r@ == a@ + b@ + c@,
{
    let mut v = chars_of(a);
    extend_vec(&mut v, b);
    extend_chars(&mut v, c);
    v
}

fn push_issue(out: &mut Vec<QualityIssue>, q: QualityIssue)
    ensures
        issues_view(final(out)@) == issues_view(old(out)@).push(issue_view(q)),
{
    out.push(q);
    assert(issues_view(out@) =~= issues_view(old(out)@).push(issue_view(q)));
}

fn item_id_of(item: &ExamItem, si: usize, ii: usize) -> (r: Vec<char>)
    requires
        si < u64::MAX,
        ii < u64::MAX,
    ensures
        r@ == item_id(*item, si as int, ii as int),
{
    match &item.id {
        Some(s) => chars_of(s.as_str()),
        None => {
            let mut v: Vec<char> = Vec::new();
            push_nat_digits(&mut v, si as u128 + 1);
            extend_chars(&mut v, "-");
            push_nat_digits(&mut v, ii as u128 + 1);
            v
        },
    }
}

fn opt_trimmed(o: &Option<String>) -> (r: Vec<char>)
    ensures
        r@ == trim(text_or_empty(*o)),
{
    match o {
        Some(s) => chars_of(trim_str(s.as_str()).as_str()),
        None => {
            let v: Vec<char> = Vec::new();
            assert(trim(Seq::<char>::empty()) =~= Seq::<char>::empty()) by {
                reveal_with_fuel(crate::text::trim_start, 2);
                reveal_with_fuel(crate::text::trim_end, 2);
            }
            v
        },
    }
}

fn vec_eq(a: &Vec<char>, b: &str) -> (r: bool)
    ensures
        r == (a@ == b@),
{
    let s = string_of(a);
    str_eq(s.as_str(), b)
}

fn option_texts_of(opts: &Vec<Option<String>>) -> (r: Vec<Vec<char>>)
    ensures
        r@.len() == option_texts(opts@).len(),
        forall|j: int| 0 <= j < r@.len() ==> #[trigger] r@[j]@ == option_texts(opts@)[j],
{
    let mut r: Vec<Vec<char>> = Vec::new();
    let mut k: usize = 0;
    while k < opts.len()
        invariant
            k <= opts.len(),
            r@.len() == option_texts(opts@.take(k as int)).len(),
            forall|j: int| 0 <= j < r@.len() ==> #[trigger] r@[j]@ == option_texts(opts@.take(k as int))[j],
        decreases opts.len() - k,
    {
        proof {
            assert(opts@.take(k + 1).drop_last() =~= opts@.take(k as int));
        }
        match &opts[k] {
            Some(s) => {
                let t = trim_str(s.as_str());
                r.push(chars_of(t.as_str()));
            },
            None => {},
        }
        k = k + 1;
    }
    assert(opts@.take(opts.len() as int) =~= opts@);
    r
}

fn has_duplicate_of(t: &Vec<Vec<char>>) -> (r: bool)
    ensures
        r == has_duplicate(t@.map_values(|v: Vec<char>| v@)),
{
    let ghost tv = t@.map_values(|v: Vec<char>| v@);
    let mut i: usize = 0;
    while i < t.len()
        invariant
            tv == t@.map_values(|v: Vec<char>| v@),
            i <= t.len(),
            forall|a: int, b: int| 0 <= a < b < t.len() && a < i ==> tv[a] != tv[b],
        decreases t.len() - i,
    {
        let mut j: usize = i + 1;
        while j < t.len()
            invariant
                tv == t@.map_values(|v: Vec<char>| v@),
                i < j <= t.len(),
                forall|a: int, b: int| 0 <= a < b < t.len() && a < i ==> tv[a] != tv[b],
                forall|b: int| i < b < j ==> tv[i as int] != tv[b],
            decreases t.len() - j,
        {
            let same = vec_eq(&t[i], string_of(&t[j]).as_str());
            if same {
                assert(tv[i as int] == tv[j as int]);
                return true;
            }
            j = j + 1;
        }
        i = i + 1;
    }
    false
}

fn first_word_of(words: &Vec<&str>, text: &Vec<char>) -> (r: Option<String>)
    ensures
        match first_word_in(words@.map_values(|w: &str| w@), text@) {
            Some(w) => r matches Some(s) && s@ == w,
            None => r is None,
        },
{
    let ghost wv = words@.map_values(|w: &str| w@);
    let t = string_of(text);
    assert(wv.subrange(0, wv.len() as int) =~= wv);
    let mut k: usize = 0;
    while k < words.len()
        invariant
            wv == words@.map_values(|w: &str| w@),
            t@ == text@,
            k <= words.len(),
            first_word_in(wv, text@) == first_word_in(wv.subrange(k as int, wv.len() as int), text@),
        decreases words.len() - k,
    {
        let ghost rest = wv.subrange(k as int, wv.len() as int);
        proof {
            assert(rest.drop_first() =~= wv.subrange(k + 1, wv.len() as int));
            assert(rest[0] == words@[k as int]@);
        }
        if str_contains(t.as_str(), words[k]) {
            return Some(lit(words[k]));
        }
        k = k + 1;
    }
    None
}

fn is_math_subject(subject: &str) -> (r: bool)
    ensures
        r == is_math(subject@),
{
    str_contains(subject, "数学") || {
        let l = lower_chars(subject);
        vec_eq(&l, "math")
    }
}

fn push_stem_issues(out: &mut Vec<QualityIssue>, stem: &Vec<char>, id: &Vec<char>, si: usize, ii: usize)
    ensures
        issues_view(final(out)@) == issues_view(old(out)@) + stem_issues(stem@, id@, si, ii),
{
    let ghost s1 = issues_view(out@);
    if stem.len() == 0 {
        push_issue(out, issue_at("error", "empty_stem", msg3("第 ", id, " 题题干为空"), si, ii, id));
    } else if stem.len() < 4 {
        push_issue(out, issue_at("warn", "short_stem", msg3("第 ", id, " 题题干过短，可能不完整"), si, ii, id));
    }
    assert(issues_view(out@) =~= s1 + stem_issues(stem@, id@, si, ii));
}

fn push_answer_issues(out: &mut Vec<QualityIssue>, answer: &Vec<char>, id: &Vec<char>, si: usize, ii: usize)
    ensures
        issues_view(final(out)@) == issues_view(old(out)@) + answer_issues(answer@, id@, si, ii),
{
    let ghost s2 = issues_view(out@);
    if answer.len() == 0 || vec_eq(answer, "略") || vec_eq(answer, "（见教师评阅）") {
        let mut m = chars_of("第 ");
        extend_vec(&mut m, id);
        extend_chars(&mut m, " 题答案为空或占位（");
        extend_vec(&mut m, answer);
        extend_chars(&mut m, "）");
        let level = if answer.len() == 0 { "error" } else { "warn" };
        push_issue(out, issue_at(level, "weak_answer", m, si, ii, id));
    }
    assert(issues_view(out@) =~= s2 + answer_issues(answer@, id@, si, ii));
}

fn push_kp_issues(out: &mut Vec<QualityIssue>, item: &ExamItem, id: &Vec<char>, si: usize, ii: usize)
    ensures
        issues_view(final(out)@) == issues_view(old(out)@) + kp_issues(*item, id@, si, ii),
{
    let ghost s3 = issues_view(out@);
    let kps: usize = match &item.knowledge_points {
        Some(v) => v.len(),
        None => 0,
    };
    if kps == 0 {
        push_issue(
            out,
            issue_at("info", "no_knowledge", msg3("第 ", id, " 题未标注知识点，细目表会归入「未标注」"), si, ii, id),
        );
    }
    assert(issues_view(out@) =~= s3 + kp_issues(*item, id@, si, ii));
}

fn push_choice_issues(
    out: &mut Vec<QualityIssue>,
    item: &ExamItem,
    title: &Vec<char>,
    ty: &Vec<char>,
    id: &Vec<char>,
    si: usize,
    ii: usize,
)
    ensures
        issues_view(final(out)@) == issues_view(old(out)@) + choice_issues(*item, title@, ty@, id@, si, ii),
{
    let ghost s4 = issues_view(out@);
    let title_s = string_of(title);
    if vec_eq(ty, "choice") || str_contains(title_s.as_str(), "选择") {
        let empty: Vec<Option<String>> = Vec::new();
        let opts = match &item.options {
            Some(v) => v,
            None => &empty,
        };
        assert(opts@ == options_of(*item));
        if opts.len() < 2 {
            push_issue(out, issue_at("error", "choice_options", msg3("第 ", id, " 题为选择题但选项不足"), si, ii, id));
        } else {
            let texts = option_texts_of(opts);
            assert(texts@.map_values(|v: Vec<char>| v@) =~= option_texts(options_of(*item)));
            if has_duplicate_of(&texts) {
                push_issue(out, issue_at("warn", "dup_options", msg3("第 ", id, " 题选项有重复"), si, ii, id));
            }
        }
    }
    assert(issues_view(out@) =~= s4 + choice_issues(*item, title@, ty@, id@, si, ii));
}

fn push_grade_issues(
    out: &mut Vec<QualityIssue>,
    subject: &str,
    math: bool,
    grade: u64,
    stem: &Vec<char>,
    answer: &Vec<char>,
    id: &Vec<char>,
    si: usize,
    ii: usize,
)
    requires
        math == is_math(subject@),
    ensures
        issues_view(final(out)@) == issues_view(old(out)@) + grade_issues(
            subject@,
            grade,
            stem@ + " "@ + answer@,
            id@,
            si,
            ii,
        ),
{
    let ghost s5 = issues_view(out@);
    let space = chars_of(" ");
    let mut text = Vec::new();
    extend_vec(&mut text, stem);
    extend_vec(&mut text, &space);
    extend_vec(&mut text, answer);
    let found = if !math {
        None
    } else if 0 < grade && grade <= 2 {
        let words: Vec<&str> = vec!["方程", "百分数", "分数乘", "圆柱", "圆锥", "比例"];
        assert(words@.map_values(|w: &str| w@) =~= low_grade_words());
        first_word_of(&words, &text)
    } else if 0 < grade && grade <= 4 {
        let words: Vec<&str> = vec!["一元一次方程", "二次根式", "函数"];
        assert(words@.map_values(|w: &str| w@) =~= mid_grade_words());
        first_word_of(&words, &text)
    } else {
        None
    };
    match found {
        Some(w) => {
            let mut m = chars_of("第 ");
            extend_vec(&mut m, id);
            extend_chars(&mut m, " 题出现「");
            extend_chars(&mut m, w.as_str());
            extend_chars(&mut m, "」，对 ");
            push_nat_digits(&mut m, grade as u128);
            extend_chars(&mut m, " 年级可能超纲");
            push_issue(out, issue_at("warn", "over_grade", m, si, ii, id));
        },
        None => {},
    }
    assert(text@ =~= stem@ + " "@ + answer@);
    assert(issues_view(out@) =~= s5 + grade_issues(subject@, grade, stem@ + " "@ + answer@, id@, si, ii));
}

/// The findings on one item, appended in the order they are checked.
fn push_item_issues(
    out: &mut Vec<QualityIssue>,
    sec: &ExamSection,
    title: &Vec<char>,
    ty: &Vec<char>,
    item: &ExamItem,
    si: usize,
    ii: usize,
    subject: &str,
    math: bool,
    grade: u64,
)
    requires
        si < u64::MAX,
        ii < u64::MAX,
        title@ == section_title(*sec),
        ty@ == text_or_empty(sec.section_type),
        math == is_math(subject@),
    ensures
        issues_view(final(out)@) == issues_view(old(out)@) + item_issues(*sec, *item, si, ii, subject@, grade),
{
    let ghost before = issues_view(out@);
    let id = item_id_of(item, si, ii);
    let stem = opt_trimmed(&item.stem);
    let answer = opt_trimmed(&item.answer);
    push_stem_issues(out, &stem, &id, si, ii);
    push_answer_issues(out, &answer, &id, si, ii);
    push_kp_issues(out, item, &id, si, ii);
    push_choice_issues(out, item, title, ty, &id, si, ii);
    push_grade_issues(out, subject, math, grade, &stem, &answer, &id, si, ii);
    assert(issues_view(out@) =~= before + item_issues(*sec, *item, si, ii, subject@, grade));
}

fn push_section_issues(
    out: &mut Vec<QualityIssue>,
    sec: &ExamSection,
    si: usize,
    subject: &str,
    math: bool,
    grade: u64,
)
    requires
        si < u64::MAX,
        math == is_math(subject@),
    ensures
        issues_view(final(out)@) == issues_view(old(out)@) + section_issues(*sec, si, subject@, grade),
{
    let ghost before = issues_view(out@);
    let title = match &sec.title {
        Some(t) => chars_of(t.as_str()),
        None => chars_of("大题"),
    };
    let ty = match &sec.section_type {
        Some(t) => chars_of(t.as_str()),
        None => Vec::new(),
    };
    assert(ty@ =~= text_or_empty(sec.section_type));
    let empty: Vec<ExamItem> = Vec::new();
    let items = match &sec.items {
        Some(v) => v,
        None => &empty,
    };
    assert(items@ == items_of(*sec));
    if items.len() == 0 {
        push_issue(out, issue_plain("error", "empty_section", msg3("「", &title, "」下没有小题"), Some(si)));
        assert(issues_view(out@) =~= before + section_issues(*sec, si, subject@, grade));
        return;
    }
    let mut k: usize = 0;
    while k < items.len()
        invariant
            si < u64::MAX,
            math == is_math(subject@),
            title@ == section_title(*sec),
            ty@ == text_or_empty(sec.section_type),
            items@ == items_of(*sec),
            k <= items.len(),
            issues_view(out@) == before + items_issues(*sec, si, k as int, subject@, grade),
        decreases items.len() - k,
    {
        push_item_issues(out, sec, &title, &ty, &items[k], si, k, subject, math, grade);
        k = k + 1;
        assert(issues_view(out@) =~= before + items_issues(*sec, si, k as int, subject@, grade));
    }
}

fn structure_findings(paper: &ExamPaper, subject: &str, math: bool, grade: u64) -> (r: (Vec<QualityIssue>, u128))
    requires
        subject@ == paper_subject(*paper),
        grade == paper_grade(*paper),
        math == is_math(subject@),
    ensures
        issues_view(r.0@) == structure_issues(*paper),
        r.1 == items_total(sections_of(*paper), sections_of(*paper).len() as int),
{
    let mut out: Vec<QualityIssue> = Vec::new();
    let empty: Vec<ExamSection> = Vec::new();
    let secs = match &paper.sections {
        Some(v) => v,
        None => &empty,
    };
    assert(secs@ == sections_of(*paper));
    if secs.len() == 0 {
        push_issue(&mut out, issue_plain("error", "no_sections", chars_of("试卷没有任何大题 sections"), None));
    }
    let ghost head = issues_view(out@);
    assert(head =~= (if secs@.len() == 0 {
        seq![("error"@, "no_sections"@, "试卷没有任何大题 sections"@, None::<usize>, None::<usize>, None::<Seq<char>>)]
    } else {
        Seq::empty()
    }));
    let mut total: u128 = 0;
    let mut k: usize = 0;
    while k < secs.len()
        invariant
            math == is_math(subject@),
            secs@ == sections_of(*paper),
            k <= secs.len(),
            issues_view(out@) == head + sections_issues(secs@, k as int, subject@, grade),
            total == items_total(secs@, k as int),
            total <= k * (usize::MAX as int),
        decreases secs.len() - k,
    {
        push_section_issues(&mut out, &secs[k], k, subject, math, grade);
        let n: usize = match &secs[k].items {
            Some(v) => v.len(),
            None => 0,
        };
        assert(n == items_of(secs@[k as int]).len());
        proof {
            let m = usize::MAX as int;
            assert(k * m + m == (k + 1) * m) by (nonlinear_arith);
            assert((k + 1) * m <= m * m) by (nonlinear_arith)
                requires
                    k + 1 <= m,
                    0 <= m,
            ;
            assert(m * m < 0x1_0000_0000_0000_0000_0000_0000_0000_0000int) by (nonlinear_arith)
                requires
                    0 <= m <= 0xffff_ffff_ffff_ffffint,
            ;
        }
        total = total + n as u128;
        k = k + 1;
        assert(issues_view(out@) =~= head + sections_issues(secs@, k as int, subject@, grade));
    }
    (out, total)
}


pub open spec fn flat_view(x: (int, int, PaperItem)) -> (int, int, Seq<char>, Seq<char>) {
    (x.0, x.1, x.2.stem@, x.2.answer@)
}

/// What the arithmetic check is given of an exam section.
pub open spec fn math_section_of(ps: PaperSection, es: ExamSection) -> bool {
    match (ps.items, es.items) {
        (Some(pv), Some(ev)) => pv@.len() == ev@.len() && forall|j: int|
            0 <= j < pv@.len() ==> (#[trigger] pv@[j]).stem@ == text_or_empty(ev@[j].stem)
                && pv@[j].answer@ == ev@[j].answer_text@,
        (None, None) => true,
        _ => false,
    }
}

proof fn lemma_flat_step(ps: Seq<PaperSection>, es: Seq<ExamSection>)
    requires
        ps.len() == es.len(),
        forall|j: int| 0 <= j < ps.len() ==> #[trigger] math_section_of(ps[j], es[j]),
    ensures
        flat_items(ps).map_values(|x: (int, int, PaperItem)| flat_view(x)) == exam_flat(es),
    decreases ps.len(),
{
    if ps.len() > 0 {
        assert forall|j: int| 0 <= j < ps.drop_last().len() implies #[trigger] math_section_of(
            ps.drop_last()[j],
            es.drop_last()[j],
        ) by {
            assert(math_section_of(ps[j], es[j]));
        }
        lemma_flat_step(ps.drop_last(), es.drop_last());
        assert(math_section_of(ps.last(), es.last()));
        assert(flat_items(ps).map_values(|x: (int, int, PaperItem)| flat_view(x)) =~= exam_flat(es));
    } else {
        assert(flat_items(ps).map_values(|x: (int, int, PaperItem)| flat_view(x)) =~= exam_flat(es));
    }
}

fn math_item(e: &ExamItem) -> (r: PaperItem)
    ensures
        r.stem@ == text_or_empty(e.stem),
        r.answer@ == e.answer_text@,
{
    PaperItem {
        stem: match &e.stem {
            Some(s) => lit(s.as_str()),
            None => String::new(),
        },
        answer: lit(e.answer_text.as_str()),
        analysis: match &e.analysis {
            Some(s) => Some(lit(s.as_str())),
            None => None,
        },
    }
}

fn math_section(e: &ExamSection) -> (r: PaperSection)
    ensures
        math_section_of(r, *e),
{
    match &e.items {
        None => PaperSection { items: None },
        Some(v) => {
            let mut items: Vec<PaperItem> = Vec::new();
            let mut k: usize = 0;
            while k < v.len()
                invariant
                    k <= v.len(),
                    items@.len() == k,
                    forall|j: int|
                        0 <= j < k ==> (#[trigger] items@[j]).stem@ == text_or_empty(v@[j].stem)
                            && items@[j].answer@ == v@[j].answer_text@,
                decreases v.len() - k,
            {
                items.push(math_item(&v[k]));
                k = k + 1;
            }
            PaperSection { items: Some(items) }
        },
    }
}

/// The sections of an exam paper as the arithmetic check reads them.
pub fn math_sections(paper: &ExamPaper) -> (r: Vec<PaperSection>)
    ensures
        flat_items(r@).map_values(|x: (int, int, PaperItem)| flat_view(x)) == exam_flat(sections_of(*paper)),
{
    let empty: Vec<ExamSection> = Vec::new();
    let secs = match &paper.sections {
        Some(v) => v,
        None => &empty,
    };
    let mut r: Vec<PaperSection> = Vec::new();
    let mut k: usize = 0;
    while k < secs.len()
        invariant
            k <= secs.len(),
            r@.len() == k,
            forall|j: int| 0 <= j < k ==> #[trigger] math_section_of(r@[j], secs@[j]),
        decreases secs.len() - k,
    {
        r.push(math_section(&secs[k]));
        k = k + 1;
    }
    proof {
        lemma_flat_step(r@, secs@);
    }
    r
}

pub open spec fn result_check(r: VerifyItemResult) -> (int, int, Seq<char>, Seq<char>) {
    (r.section_index as int, r.item_index as int, r.status@, r.message@)
}

proof fn lemma_counts_match(items: Seq<VerifyItemResult>, st: Seq<char>)
    ensures
        count_status(items, st) == count_check(items.map_values(|r: VerifyItemResult| result_check(r)), st),
    decreases items.len(),
{
    if items.len() > 0 {
        lemma_counts_match(items.drop_last(), st);
        assert(items.drop_last().map_values(|r: VerifyItemResult| result_check(r)) =~= items.map_values(
            |r: VerifyItemResult| result_check(r),
        ).drop_last());
    }
}

/// The arithmetic check of an exam paper, as checks.
fn run_math_checks(paper: &ExamPaper) -> (r: VerifyReport)
    ensures
        r.items@.map_values(|x: VerifyItemResult| result_check(x)) == math_checks(*paper),
        r.mismatch == count_check(math_checks(*paper), "mismatch"@),
        r.checked == count_check(math_checks(*paper), "ok"@) + count_check(math_checks(*paper), "mismatch"@),
{
    let secs = math_sections(paper);
    let rep = verify_paper_math(&secs);
    proof {
        let f = flat_items(secs@);
        assert forall|k: int| 0 <= k < rep.items@.len() implies result_check(#[trigger] rep.items@[k])
            == check_of(exam_flat(sections_of(*paper))[k]) by {
            assert(result_is(rep.items@[k], f[k].0, f[k].1, f[k].2));
            assert(exam_flat(sections_of(*paper))[k] == flat_view(f[k]));
        }
        assert(rep.items@.map_values(|x: VerifyItemResult| result_check(x)) =~= math_checks(*paper));
        lemma_counts_match(rep.items@, "mismatch"@);
        lemma_counts_match(rep.items@, "ok"@);
    }
    rep
}

proof fn lemma_mismatch_step(cs: Seq<(int, int, Seq<char>, Seq<char>)>, k: int)
    requires
        0 <= k < cs.len(),
    ensures
        mismatches(cs.take(k + 1)) == mismatches(cs.take(k)) + if cs[k].2 == "mismatch"@ {
            seq![cs[k]]
        } else {
            Seq::empty()
        },
{
    assert(cs.take(k + 1).drop_last() =~= cs.take(k));
}

fn push_math_issues(out: &mut Vec<QualityIssue>, rep: &VerifyReport, cs: Ghost<Seq<(int, int, Seq<char>, Seq<char>)>>)
    requires
        rep.items@.map_values(|x: VerifyItemResult| result_check(x)) == cs@,
    ensures
        issues_view(final(out)@) == issues_view(old(out)@) + math_issues(cs@),
{
    let ghost before = issues_view(out@);
    let mut m: usize = 0;
    let mut k: usize = 0;
    while k < rep.items.len()
        invariant
            rep.items@.map_values(|x: VerifyItemResult| result_check(x)) == cs@,
            k <= rep.items.len(),
            m == mismatches(cs@.take(k as int)).len(),
            m <= k,
            issues_view(out@) == before + mismatches(cs@.take(k as int)).take(
                if m < 12 { m as int } else { 12 },
            ).map_values(|c: (int, int, Seq<char>, Seq<char>)| mismatch_issue(c)),
        decreases rep.items.len() - k,
    {
        let it = &rep.items[k];
        let ghost c = cs@[k as int];
        proof {
            lemma_mismatch_step(cs@, k as int);
            assert(c == result_check(rep.items@[k as int]));
        }
        if str_eq(it.status.as_str(), "mismatch") {
            if m < 12 {
                let mut msg = chars_of("第 ");
                push_nat_digits(&mut msg, it.section_index as u128 + 1);
                extend_chars(&mut msg, "-");
                push_nat_digits(&mut msg, it.item_index as u128 + 1);
                extend_chars(&mut msg, " 题验算不一致：");
                extend_chars(&mut msg, it.message.as_str());
                let q = QualityIssue {
                    level: lit("error"),
                    code: lit("math_mismatch"),
                    message: string_of(&msg),
                    section_index: Some(it.section_index),
                    item_index: Some(it.item_index),
                    item_id: None,
                };
                assert(issue_view(q) == mismatch_issue(c));
                push_issue(out, q);
            }
            m = m + 1;
        }
        k = k + 1;
        assert(issues_view(out@) =~= before + mismatches(cs@.take(k as int)).take(
            if m < 12 { m as int } else { 12 },
        ).map_values(|c: (int, int, Seq<char>, Seq<char>)| mismatch_issue(c)));
    }
    assert(cs@.take(rep.items@.len() as int) =~= cs@);
    if m > 12 {
        let mut msg = chars_of("另有 ");
        push_nat_digits(&mut msg, (m - 12) as u128);
        extend_chars(&mut msg, " 道验算不一致未全部列出");
        push_issue(out, issue_plain("error", "math_mismatch_more", msg, None));
    }
    assert(issues_view(out@) =~= before + math_issues(cs@));
}


fn count_levels(v: &Vec<QualityIssue>) -> (r: (usize, usize, usize))
    ensures
        r.0 == count_level(issues_view(v@), "error"@),
        r.1 == count_level(issues_view(v@), "warn"@),
        r.2 == count_level(issues_view(v@), "info"@),
{
    let mut e: usize = 0;
    let mut w: usize = 0;
    let mut i: usize = 0;
    let mut k: usize = 0;
    while k < v.len()
        invariant
            k <= v.len(),
            e == count_level(issues_view(v@.take(k as int)), "error"@),
            w == count_level(issues_view(v@.take(k as int)), "warn"@),
            i == count_level(issues_view(v@.take(k as int)), "info"@),
            e <= k,
            w <= k,
            i <= k,
        decreases v.len() - k,
    {
        proof {
            assert(issues_view(v@.take(k + 1)).drop_last() =~= issues_view(v@.take(k as int)));
        }
        let lv = v[k].level.as_str();
        if str_eq(lv, "error") {
            e = e + 1;
        }
        if str_eq(lv, "warn") {
            w = w + 1;
        }
        if str_eq(lv, "info") {
            i = i + 1;
        }
        k = k + 1;
    }
    assert(v@.take(v.len() as int) =~= v@);
    (e, w, i)
}

fn count_codes(v: &Vec<QualityIssue>, code: &str) -> (r: usize)
    ensures
        r == count_code(issues_view(v@), code@),
{
    let mut c: usize = 0;
    let mut k: usize = 0;
    while k < v.len()
        invariant
            k <= v.len(),
            c == count_code(issues_view(v@.take(k as int)), code@),
            c <= k,
        decreases v.len() - k,
    {
        proof {
            assert(issues_view(v@.take(k + 1)).drop_last() =~= issues_view(v@.take(k as int)));
        }
        if str_eq(v[k].code.as_str(), code) {
            c = c + 1;
        }
        k = k + 1;
    }
    assert(v@.take(v.len() as int) =~= v@);
    c
}

fn summary_of(
    score: u8,
    errors: usize,
    warns: usize,
    total: u128,
    kps: usize,
    empty_answer: usize,
    short_stem: usize,
    no_kp: usize,
    bad_choice: usize,
    mismatch: usize,
    checked: usize,
) -> (r: String)
    ensures
        r@ == quality_summary(
            score as int,
            errors as nat,
            warns as nat,
            total as nat,
            kps as nat,
            empty_answer as nat,
            short_stem as nat,
            no_kp as nat,
            bad_choice as nat,
            mismatch as nat,
            checked as nat,
        ),
{
    let mut v: Vec<char>;
    if errors == 0 && warns == 0 {
        v = chars_of("质检通过（");
        push_nat_digits(&mut v, score as u128);
        extend_chars(&mut v, " 分）：");
        push_nat_digits(&mut v, total);
        extend_chars(&mut v, " 题，知识点 ");
        push_nat_digits(&mut v, kps as u128);
        extend_chars(&mut v, " 个。");
        push_nat_digits(&mut v, empty_answer as u128);
        extend_chars(&mut v, " 空答案，");
        push_nat_digits(&mut v, short_stem as u128);
        extend_chars(&mut v, " 短题干，");
        push_nat_digits(&mut v, no_kp as u128);
        extend_chars(&mut v, " 未标知识点，");
        push_nat_digits(&mut v, bad_choice as u128);
        extend_chars(&mut v, " 选项问题。");
    } else if errors == 0 {
        v = chars_of("基本可用（");
        push_nat_digits(&mut v, score as u128);
        extend_chars(&mut v, " 分）：");
        push_nat_digits(&mut v, warns as u128);
        extend_chars(&mut v, " 条警告，建议导出前过一眼。共 ");
        push_nat_digits(&mut v, total);
        extend_chars(&mut v, " 题。");
    } else {
        v = chars_of("建议修订后再用（");
        push_nat_digits(&mut v, score as u128);
        extend_chars(&mut v, " 分）：");
        push_nat_digits(&mut v, errors as u128);
        extend_chars(&mut v, " 条错误、");
        push_nat_digits(&mut v, warns as u128);
        extend_chars(&mut v, " 条警告。验算不一致 ");
        push_nat_digits(&mut v, mismatch as u128);
        extend_chars(&mut v, "/");
        push_nat_digits(&mut v, checked as u128);
        extend_chars(&mut v, "。");
    }
    string_of(&v)
}

/// All the findings on a paper, in the order they are reported.
pub open spec fn all_issues(p: ExamPaper, score_note: Option<Seq<char>>, unmarked: nat) -> Seq<IssueView> {
    let secs = sections_of(p);
    structure_issues(p) + score_issues(score_note) + unmarked_issues(
        unmarked,
        items_total(secs, secs.len() as int),
    ) + if is_math(paper_subject(p)) {
        math_issues(math_checks(p))
    } else {
        Seq::empty()
    }
}

pub open spec fn opt_text(o: Option<String>) -> Option<Seq<char>> {
    match o {
        Some(s) => Some(s@),
        None => None,
    }
}

fn all_findings(paper: &ExamPaper, score_note: &Option<String>, unmarked: usize) -> (r: (Vec<QualityIssue>, u128, usize, usize))
    ensures
        issues_view(r.0@) == all_issues(*paper, opt_text(*score_note), unmarked as nat),
        r.1 == items_total(sections_of(*paper), sections_of(*paper).len() as int),
        is_math(paper_subject(*paper)) ==> r.2 == count_check(math_checks(*paper), "mismatch"@)
            && r.3 == count_check(math_checks(*paper), "ok"@) + count_check(math_checks(*paper), "mismatch"@),
        !is_math(paper_subject(*paper)) ==> r.2 == 0 && r.3 == 0,
{
    let subject = match &paper.meta.subject {
        Some(s) => lit(s.as_str()),
        None => String::new(),
    };
    let grade: u64 = match &paper.meta.grade {
        Some(n) => match n.unsigned {
            Some(g) => g,
            None => 0,
        },
        None => 0,
    };
    let math = is_math_subject(subject.as_str());
    let (mut issues, total) = structure_findings(paper, subject.as_str(), math, grade);
    let ghost s0 = issues_view(issues@);
    match score_note {
        Some(m) => push_issue(&mut issues, issue_plain("warn", "score_mismatch", chars_of(m.as_str()), None)),
        None => {},
    }
    assert(issues_view(issues@) =~= s0 + score_issues(opt_text(*score_note)));
    let ghost s1 = issues_view(issues@);
    let floor: u128 = if total < 1 { 1 } else { total };
    if unmarked > 0 && (unmarked as u128) * 2 >= floor {
        let mut m = chars_of("超过一半题目未标注知识点（");
        push_nat_digits(&mut m, unmarked as u128);
        extend_chars(&mut m, "/");
        push_nat_digits(&mut m, total);
        extend_chars(&mut m, "），细目表参考价值有限");
        push_issue(&mut issues, issue_plain("warn", "many_unmarked_kp", m, None));
    }
    assert(issues_view(issues@) =~= s1 + unmarked_issues(unmarked as nat, total as nat));
    let ghost s2 = issues_view(issues@);
    let mut math_mismatch: usize = 0;
    let mut math_checked: usize = 0;
    if math {
        let rep = run_math_checks(paper);
        math_checked = rep.checked;
        math_mismatch = rep.mismatch;
        push_math_issues(&mut issues, &rep, Ghost(math_checks(*paper)));
    }
    assert(issues_view(issues@) =~= all_issues(*paper, opt_text(*score_note), unmarked as nat));
    (issues, total, math_mismatch, math_checked)
}

/// Checks a paper. What rests on floating-point sums comes in as arguments:
/// `score_note`, the message when the paper's total differs from the sum of
/// its sections' scores by more than 0.5; and the specification table's
/// summary, number of knowledge points and number of unmarked items.
pub fn inspect_paper(
    paper: &ExamPaper,
    score_note: Option<String>,
    spec_summary: String,
    unmarked: usize,
    kp_count: usize,
) -> (r: QualityReport)
    ensures
        issues_view(r.issues@) == all_issues(*paper, opt_text(score_note), unmarked as nat),
        r.error_count == count_level(issues_view(r.issues@), "error"@),
        r.warn_count == count_level(issues_view(r.issues@), "warn"@),
        r.info_count == count_level(issues_view(r.issues@), "info"@),
        r.score == quality_score(
            r.error_count as nat,
            r.warn_count as nat,
            r.info_count as nat,
            items_total(sections_of(*paper), sections_of(*paper).len() as int),
        ),
        r.summary@ == quality_summary(
            r.score as int,
            r.error_count as nat,
            r.warn_count as nat,
            items_total(sections_of(*paper), sections_of(*paper).len() as int),
            kp_count as nat,
            count_code(issues_view(r.issues@), "weak_answer"@),
            count_code(issues_view(r.issues@), "short_stem"@),
            count_code(issues_view(r.issues@), "no_knowledge"@),
            count_code(issues_view(r.issues@), "choice_options"@) + count_code(
                issues_view(r.issues@),
                "dup_options"@,
            ),
            r.math_mismatch as nat,
            r.math_checked as nat,
        ),
        r.spec_summary == spec_summary,
        r.knowledge_count == kp_count,
        r.unmarked_count == unmarked,
        is_math(paper_subject(*paper)) ==> r.math_mismatch == count_check(math_checks(*paper), "mismatch"@)
            && r.math_checked == count_check(math_checks(*paper), "ok"@) + count_check(
            math_checks(*paper),
            "mismatch"@,
        ),
        !is_math(paper_subject(*paper)) ==> r.math_mismatch == 0 && r.math_checked == 0,
{
    let (issues, total, math_mismatch, math_checked) = all_findings(paper, &score_note, unmarked);
    let (errors, warns, infos) = count_levels(&issues);
    let capped: i128 = if infos < 10 { infos as i128 } else { 10 };
    let raw: i128 = 100 - 12 * (errors as i128) - 4 * (warns as i128) - capped;
    let score: u8 = if total == 0 {
        0
    } else if raw < 0 {
        0
    } else if raw > 100 {
        100
    } else {
        raw as u8
    };
    let empty_answer = count_codes(&issues, "weak_answer");
    let short_stem = count_codes(&issues, "short_stem");
    let no_kp = count_codes(&issues, "no_knowledge");
    let bad1 = count_codes(&issues, "choice_options");
    let bad2 = count_codes(&issues, "dup_options");
    proof {
        reveal_strlit("choice_options");
        reveal_strlit("dup_options");
        assert("choice_options"@[0] != "dup_options"@[0]);
        lemma_code_sum(issues_view(issues@), "choice_options"@, "dup_options"@);
        assert(issues_view(issues@).len() == issues@.len());
        assert(bad1 + bad2 <= issues@.len());
    }
    let n_issues = issues.len();
    let summary = summary_of(
        score,
        errors,
        warns,
        total,
        kp_count,
        empty_answer,
        short_stem,
        no_kp,
        bad1 + bad2,
        math_mismatch,
        math_checked,
    );
    QualityReport {
        score,
        summary,
        error_count: errors,
        warn_count: warns,
        info_count: infos,
        issues,
        spec_summary,
        knowledge_count: kp_count,
        unmarked_count: unmarked,
        math_mismatch,
        math_checked,
    }
}

proof fn lemma_code_sum(v: Seq<IssueView>, a: Seq<char>, b: Seq<char>)
    requires
        a != b,
    ensures
        count_code(v, a) + count_code(v, b) <= v.len(),
    decreases v.len(),
{
    if v.len() > 0 {
        lemma_code_sum(v.drop_last(), a, b);
    }
}

} // verus!

