use shijuan::answer::{nearly_eq_exec, parse_answer_number};
use shijuan::expr::Ratio;
use shijuan::offline::offline_math_expressions;
use shijuan::verify::{
    evaluate_simple_expression, extract_expr, repair_math_answers, verify_paper_math, PaperItem,
    PaperSection,
};

fn item(stem: &str, answer: &str) -> PaperItem {
    PaperItem { stem: stem.to_string(), answer: answer.to_string(), analysis: None }
}

fn paper(items: Vec<PaperItem>) -> Vec<PaperSection> {
    vec![PaperSection { items: Some(items) }]
}

fn expr_text(stem: &str) -> Option<String> {
    extract_expr(stem).map(|v| v.into_iter().collect())
}

fn close(a: Ratio, num: i128, den: i128) -> bool {
    nearly_eq_exec(a, Ratio { num, den })
}

#[test]
fn fraction_decimal_matches() {
    let p = paper(vec![item("3÷8＝", "0.375"), item("3/8＝", "0.375"), item("3÷8＝", "3/8")]);
    let r = verify_paper_math(&p);
    assert_eq!(r.checked, 3, "{r:?}");
    assert_eq!(r.mismatch, 0, "{r:?}");
    assert_eq!(r.ok, 3, "{r:?}");
}

#[test]
fn word_problem_with_embedded_fraction_is_skipped() {
    let p = paper(vec![
        item("把3/8化成小数是（　　）", "0.375"),
        item("一块饼的3/8分给小朋友，还剩这张饼的（　　）", "5/8"),
    ]);
    let r = verify_paper_math(&p);
    assert_eq!(r.mismatch, 0, "{r:?}");
    assert!(r.skipped >= 1, "{r:?}");
}

#[test]
fn pure_calc_mismatch_reports_answer() {
    let p = paper(vec![item("3÷8＝", "0.3")]);
    let r = verify_paper_math(&p);
    assert_eq!(r.mismatch, 1);
    let msg = &r.items[0].message;
    assert!(msg.contains("0.375"), "{msg}");
    assert!(msg.contains("0.3"), "{msg}");
    assert!(msg.contains("卷面答案"), "{msg}");
}

#[test]
fn parse_percent_and_unit() {
    assert!(close(parse_answer_number("37.5%").unwrap(), 375, 1000));
    assert!(close(parse_answer_number("0.375元").unwrap(), 375, 1000));
    assert!(close(parse_answer_number("3/8").unwrap(), 375, 1000));
    assert!(close(parse_answer_number("0.375（小数）").unwrap(), 375, 1000));
}

#[test]
fn repair_overwrites_wrong_calc_answer() {
    let p = vec![PaperSection {
        items: Some(vec![PaperItem {
            stem: "3÷8＝".to_string(),
            answer: "0.3".to_string(),
            analysis: Some("除法".to_string()),
        }]),
    }];
    let (fixed, n) = repair_math_answers(&p);
    assert_eq!(n, 1);
    let ans = &fixed[0].items.as_ref().unwrap()[0].answer;
    assert_eq!(ans, "0.375");
    let r = verify_paper_math(&fixed);
    assert_eq!(r.mismatch, 0);
    assert_eq!(r.ok, 1);
}

#[test]
fn extract_simple_exprs() {
    assert_eq!(expr_text("6×7＝").as_deref(), Some("6*7"));
    assert_eq!(expr_text("3÷8＝").as_deref(), Some("3/8"));
    assert_eq!(expr_text("36+18÷6").as_deref(), Some("36+18/6"));
}

#[test]
fn offline_math_bank_has_enough_verified_expressions() {
    for grade in [1u8, 3, 5] {
        let items = offline_math_expressions(grade, &vec![]);
        assert!(items.len() >= 25, "grade {grade} only has {}", items.len());
        for (expression, answer, _) in items.iter().take(25) {
            assert_eq!(evaluate_simple_expression(expression).unwrap(), *answer);
        }
    }
}

#[test]
fn crawled_verified_expression_is_preferred() {
    let crawled: Vec<(String, String, String)> =
        vec![("432÷4".into(), "108".into(), "公开来源".into())];
    let items = offline_math_expressions(3, &crawled);
    assert_eq!(items[0], crawled[0]);
}

#[test]
fn evaluator_exact_values() {
    assert_eq!(evaluate_simple_expression("36+18÷6").unwrap(), "39");
    assert_eq!(evaluate_simple_expression("1.2×(3.5+1.5)").unwrap(), "6");
    assert_eq!(evaluate_simple_expression("1÷3").unwrap(), "0.333333");
    assert_eq!(evaluate_simple_expression("2÷3").unwrap(), "0.666667");
    assert_eq!(evaluate_simple_expression("12.6-4.75").unwrap(), "7.85");
    assert_eq!(evaluate_simple_expression("-3÷8").unwrap(), "-0.375");
    assert_eq!(evaluate_simple_expression("8×(156-89)").unwrap(), "536");
}

#[test]
fn evaluator_errors() {
    assert_eq!(evaluate_simple_expression("5÷0").unwrap_err(), "除数为 0");
    assert_eq!(evaluate_simple_expression("5+").unwrap_err(), "表达式不完整");
    assert_eq!(evaluate_simple_expression("(5+3").unwrap_err(), "括号不匹配");
    assert_eq!(evaluate_simple_expression("5+a").unwrap_err(), "无法解析: a");
    assert_eq!(evaluate_simple_expression("1.2.3+1").unwrap_err(), "数字无效: 1.2.3");
    assert_eq!(evaluate_simple_expression("5)").unwrap_err(), "表达式含无法识别字符");
}

#[test]
fn verify_counts_add_up() {
    let p = vec![
        PaperSection { items: Some(vec![item("6×7＝", "42"), item("5÷0＝", "1")]) },
        PaperSection { items: None },
        PaperSection { items: Some(vec![item("小明有几本书？", "3本"), item("9-4＝", "6")]) },
    ];
    let r = verify_paper_math(&p);
    assert_eq!(r.total, 4);
    assert_eq!(r.ok, 1);
    assert_eq!(r.mismatch, 1);
    assert_eq!(r.skipped, 2);
    assert_eq!(r.checked + r.skipped, r.total);
    assert_eq!(r.items[1].status, "error");
    assert_eq!(r.items[2].section_index, 2);
    assert_eq!(r.items[3].item_index, 1);
}

#[test]
fn parse_answer_forms() {
    assert!(parse_answer_number("").is_none());
    assert!(parse_answer_number("略").is_none());
    assert!(close(parse_answer_number("12米").unwrap(), 12, 1));
    assert!(close(parse_answer_number("42；8；61").unwrap(), 42, 1));
    assert!(close(parse_answer_number(".5").unwrap(), 1, 2));
    assert!(parse_answer_number("1/0").is_none());
}

#[test]
fn repaired_paper_checks_without_mismatch() {
    let p = paper(vec![
        item("10÷3＝", "3"),
        item("2-7＝", "4"),
        item("1÷7＝", "0"),
        item("6×7＝", "42"),
    ]);
    let (fixed, n) = repair_math_answers(&p);
    assert_eq!(n, 3);
    let items = fixed[0].items.as_ref().unwrap();
    assert_eq!(items[0].answer, "3.333333");
    assert_eq!(items[1].answer, "-5");
    assert_eq!(items[2].answer, "0.142857");
    assert_eq!(items[3].answer, "42");
    let r = verify_paper_math(&fixed);
    assert_eq!(r.mismatch, 0);
    assert_eq!(r.ok, 4);
}

#[test]
fn near_zero_divisor_counts_as_zero() {
    assert_eq!(evaluate_simple_expression("1÷0.0000000000001").unwrap_err(), "除数为 0");
    assert_eq!(evaluate_simple_expression("1÷(0.0000001×0.000001)").unwrap_err(), "除数为 0");
    assert_eq!(evaluate_simple_expression("1÷0.000000000001").unwrap(), "1000000000000");
}

#[test]
fn answers_starting_with_a_dot_are_read() {
    assert!(close(parse_answer_number(".5").unwrap(), 1, 2));
    assert!(close(parse_answer_number("-.25").unwrap(), -1, 4));
    assert!(close(parse_answer_number("5.").unwrap(), 5, 1));
}

#[test]
fn answers_read_with_an_exponent() {
    assert!(close(parse_answer_number(".5e1").unwrap(), 5, 1));
    assert!(close(parse_answer_number("+.5E-1").unwrap(), 1, 20));
    assert!(close(parse_answer_number("1e2%").unwrap(), 1, 1));
    assert!(close(parse_answer_number("1.5e1/3").unwrap(), 5, 1));
    assert!(close(parse_answer_number("1e3").unwrap(), 1, 1));
    assert!(parse_answer_number(".5e").is_none());
    assert!(parse_answer_number("e5").is_none());
}
