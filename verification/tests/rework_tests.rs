use shijuan::ai::{bearer_header, chat_preflight, chat_reply, model_reply, send_error, ModelReply, ParsedReply};
use shijuan::paper::{ExamItem, ExamMeta, ExamPaper, ExamSection, JsonNumber};
use shijuan::quality::{QualityIssue, QualityReport};
use shijuan::rework::{
    check_regen_item, check_variant, parallel_a_title, parallel_set_title, quality_gate, regen_prompts, variant_label,
    variant_prompts, variant_title, RegenItemRequest,
};
use shijuan::templates::template_from_paper;

fn issue(level: &str, message: &str) -> QualityIssue {
    QualityIssue {
        level: level.to_string(),
        code: "c".to_string(),
        message: message.to_string(),
        section_index: None,
        item_index: None,
        item_id: None,
    }
}

fn report(issues: Vec<QualityIssue>, errors: usize) -> QualityReport {
    QualityReport {
        score: 0,
        summary: String::new(),
        error_count: errors,
        warn_count: 0,
        info_count: 0,
        issues,
        spec_summary: String::new(),
        knowledge_count: 0,
        unmarked_count: 0,
        math_mismatch: 0,
        math_checked: 0,
    }
}

#[test]
fn quality_gate_lists_first_three_errors() {
    assert!(quality_gate(&report(vec![issue("warn", "w")], 0)).is_ok());
    let r = quality_gate(&report(
        vec![issue("error", "e1"), issue("warn", "w"), issue("error", "e2"), issue("error", "e3"), issue("error", "e4")],
        4,
    ));
    assert_eq!(r.unwrap_err(), "试卷未通过自动质检: e1；e2；e3");
}

#[test]
fn parallel_titles() {
    assert_eq!(variant_label("  "), "B");
    assert_eq!(variant_label(" C "), "C");
    assert_eq!(variant_title("期末卷（A卷）", "B"), "期末卷（B卷）");
    assert_eq!(variant_title("期末卷(A卷) ", "C"), "期末卷（C卷）");
    assert_eq!(variant_title("期末卷（B卷）", "B"), "期末卷（B卷）");
    assert_eq!(parallel_a_title(" 期末卷（C卷）"), "期末卷（A卷）");
    assert_eq!(parallel_set_title(&Some("期末卷（A卷）".to_string())), "期末卷 · 平行卷 A/B/C");
    assert_eq!(parallel_set_title(&None), "平行卷 · 平行卷 A/B/C");
    assert_eq!(check_variant("B", true, false).unwrap_err(), "B卷缺少 meta 或 sections");
    let (sys, user) = variant_prompts("C", "{}");
    assert!(sys.contains("请生成「C 卷」"));
    assert!(sys.contains("再加「（C卷）」"));
    assert_eq!(user, "请生成 C 卷。原卷 JSON：\n{}");
}

fn paper() -> ExamPaper {
    ExamPaper {
        meta: ExamMeta {
            title: Some("二年级数学单元测试（A卷）".to_string()),
            subject: Some("数学".to_string()),
            edition: None,
            semester: None,
            grade: Some(JsonNumber { unsigned: Some(2), value: None }),
            total_score: Some(JsonNumber { unsigned: Some(100), value: None }),
            duration_min: None,
        },
        sections: Some(vec![ExamSection {
            title: Some("一、口算".to_string()),
            section_type: Some("calc".to_string()),
            score: Some(JsonNumber { unsigned: Some(20), value: None }),
            items: Some(vec![ExamItem {
                id: None,
                stem: Some("6×7＝".to_string()),
                answer: Some("42".to_string()),
                answer_text: "42".to_string(),
                analysis: None,
                options: None,
                knowledge_points: None,
                score: None,
            }]),
        }]),
    }
}

#[test]
fn replacement_question_prompts() {
    let req = RegenItemRequest { paper: paper(), section_index: 0, item_index: 0, knowledge_path: String::new(), subject: "math".to_string(), grade: 2 };
    let (sys, user) = regen_prompts(&req, "[\"乘法\"]").unwrap();
    assert!(sys.starts_with("你是小学命题教师。请只输出一道题的 JSON 对象"));
    assert_eq!(user, "年级：2 学科：数学\n大题：一、口算（type=calc）\n原题：6×7＝\n知识点：[\"乘法\"]\n请生成替换题。");
    let bad = RegenItemRequest { section_index: 3, ..req.clone() };
    assert_eq!(regen_prompts(&bad, "[]").unwrap_err(), "大题索引无效");
    let bad = RegenItemRequest { item_index: 1, ..req.clone() };
    assert_eq!(regen_prompts(&bad, "[]").unwrap_err(), "小题索引无效");
    let bad = RegenItemRequest { paper: ExamPaper { meta: paper().meta, sections: None }, ..req };
    assert_eq!(regen_prompts(&bad, "[]").unwrap_err(), "试卷无 sections");
    assert_eq!(check_regen_item(false).unwrap_err(), "换题结果缺少 stem");
}

#[test]
fn templates_from_papers() {
    let t = template_from_paper(&paper(), Some("  ".to_string()), "user-1".to_string(), 9).unwrap();
    assert_eq!(t.name, "我的模板·二年级数学单元测试（A卷）");
    assert_eq!(t.subject, "math");
    assert_eq!(t.grades, vec![2]);
    assert_eq!(t.total_score, 100);
    assert_eq!(t.duration_min, 40);
    assert_eq!(t.sections.len(), 1);
    assert_eq!(t.sections[0].score, 20);
    assert_eq!(t.sections[0].item_count, 1);
    assert_eq!(t.description, "从试卷「二年级数学单元测试（A卷）」另存");
    let none = template_from_paper(&ExamPaper { meta: paper().meta, sections: Some(vec![]) }, None, "x".to_string(), 1);
    assert_eq!(none.unwrap_err(), "没有大题，无法保存模板");
}

#[test]
fn chat_checks_and_replies() {
    assert_eq!(chat_preflight(true, "k", "https://a/v1", "m").unwrap_err(), "已取消生成");
    assert_eq!(chat_preflight(false, " ", "https://a/v1", "m").unwrap_err(), "请先在设置中填写 API Key");
    assert!(chat_preflight(false, "", "http://127.0.0.1:11434/v1", "qwen").is_ok());
    assert_eq!(chat_preflight(false, "k", "https://a/v1", " ").unwrap_err(), "请填写模型名称");
    assert_eq!(chat_preflight(false, "k", "/", "m").unwrap_err(), "API Base 无效");
    let (base, url) = chat_preflight(false, "k", "https://api.openai.com/v1/chat/completions", "m").unwrap();
    assert_eq!(base, "https://api.openai.com/v1");
    assert_eq!(url, "https://api.openai.com/v1/chat/completions");
    assert_eq!(bearer_header(" sk-1 "), Some("Bearer sk-1".to_string()));
    assert_eq!(bearer_header("  "), None);
    assert_eq!(send_error(false, "timeout", "u"), "请求失败: timeout\nURL: u\n请检查网络，以及 API Base 是否可访问。");
    let ok = ParsedReply::Read { error: None, content: Some("{\"a\":1}".to_string()) };
    assert_eq!(chat_reply("b", "u", "m", true, "200 OK", "application/json", "{}", &None, &ok).unwrap(), "{\"a\":1}");
    let html = chat_reply("b", "u", "m", true, "200 OK", "text/html", "<!DOCTYPE html>", &None, &ok).unwrap_err();
    assert!(html.starts_with("API 返回了网页 HTML"));
    assert!(html.contains("当前 Base：b\n实际请求：POST u"));
    let e = chat_reply("b", "u", "m", false, "401 Unauthorized", "", "{}", &Some("bad key".to_string()), &ok).unwrap_err();
    assert_eq!(e, "API 错误 (401 Unauthorized): bad key\n请求: POST u\n模型: m");
    let empty = chat_reply("b", "u", "m", true, "200 OK", "", "  ", &None, &ok).unwrap_err();
    assert_eq!(empty, "API 返回空内容。请检查模型名「m」是否在该网关可用。\n请求: POST u");
    let api = ParsedReply::Read { error: Some(None), content: None };
    assert_eq!(chat_reply("b", "u", "m", true, "200", "", "{}", &None, &api).unwrap_err(), "API 返回错误: unknown");
    let blank = ParsedReply::Read { error: None, content: Some(" ".to_string()) };
    assert_eq!(chat_reply("b", "u", "m", true, "200", "", "{}", &None, &blank).unwrap_err(), "模型返回内容为空，请换模型或提高 max tokens 后重试");
    match model_reply(&Ok("text ```json\n{\"x\":1}\n``` end".to_string())) {
        ModelReply::Json(j) => assert_eq!(j, "{\"x\":1}"),
        other => panic!("{other:?}"),
    }
    assert!(matches!(model_reply(&Err("down".to_string())), ModelReply::Fallback));
    assert!(matches!(model_reply(&Ok("no json".to_string())), ModelReply::Failed(_)));
}
