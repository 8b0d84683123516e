use shijuan::paper::{ExamItem, ExamMeta, ExamPaper, ExamSection, JsonNumber};
use shijuan::review::{
    collect_wrong_payload, generate_redrill_paper, generate_review_outline, local_redrill, local_template,
    redrill_prompts, review_prompts, RedrillRequest, RedrillStep, ReviewRequest, ReviewStep, WrongItemRef,
};

fn q(stem: &str, answer: &str, kps: &[&str]) -> ExamItem {
    ExamItem {
        id: None,
        stem: Some(stem.to_string()),
        answer: Some(answer.to_string()),
        answer_text: answer.to_string(),
        analysis: Some("解析".to_string()),
        options: None,
        knowledge_points: Some(kps.iter().map(|k| Some(k.to_string())).collect()),
        score: None,
    }
}

fn paper() -> ExamPaper {
    ExamPaper {
        meta: ExamMeta {
            title: Some("三年级数学单元测试".to_string()),
            subject: Some("数学".to_string()),
            edition: Some("北师大版".to_string()),
            semester: Some("上册".to_string()),
            grade: Some(JsonNumber { unsigned: Some(3), value: None }),
            total_score: None,
            duration_min: None,
        },
        sections: Some(vec![
            ExamSection {
                title: Some("一、计算".to_string()),
                section_type: Some("calc".to_string()),
                score: None,
                items: Some(vec![q("12+5=", "17", &["两位数加法"]), q("30-8=", "22", &[" 退位减法 "])]),
            },
            ExamSection {
                title: None,
                section_type: None,
                score: None,
                items: Some(vec![q("买3支笔共多少元？", "9元", &["乘法应用"])]),
            },
        ]),
    }
}

fn review(refs: Vec<WrongItemRef>, kps: Vec<&str>, use_ai: bool) -> ReviewRequest {
    ReviewRequest {
        paper: paper(),
        wrong_items: refs,
        knowledge_points: kps.into_iter().map(String::from).collect(),
        subject: String::new(),
        grade: 0,
        use_ai,
    }
}

#[test]
fn picked_questions_bring_their_knowledge_points() {
    let refs = vec![
        WrongItemRef { section_index: 0, item_index: 1 },
        WrongItemRef { section_index: 1, item_index: 0 },
        WrongItemRef { section_index: 5, item_index: 0 },
    ];
    let p = paper();
    let (items, kps) = collect_wrong_payload(&p, &refs, &vec!["退位减法".to_string()]);
    assert_eq!(items.len(), 2);
    assert_eq!(items[0].stem, "30-8=");
    assert_eq!(items[1].section_title, "大题");
    assert_eq!(kps, vec!["退位减法".to_string(), "乘法应用".to_string()]);
}

#[test]
fn knowledge_points_find_questions_when_none_picked() {
    let p = paper();
    let (items, kps) = collect_wrong_payload(&p, &vec![], &vec!["加法".to_string()]);
    assert_eq!(kps, vec!["加法".to_string()]);
    assert_eq!(items.len(), 1);
    assert_eq!(items[0].stem, "12+5=");
    assert_eq!(items[0].knowledge_points, vec!["两位数加法".to_string()]);
}

#[test]
fn nothing_to_review_is_refused() {
    let r = generate_review_outline("sk-test", &review(vec![], vec![], true));
    assert_eq!(r.unwrap_err(), "请先勾选错题，或填写要讲评的知识点");
    let req = RedrillRequest {
        paper: paper(),
        wrong_items: vec![],
        knowledge_points: vec![],
        subject: String::new(),
        grade: 0,
        total_score: 50,
        duration_min: 20,
    };
    assert_eq!(generate_redrill_paper("", &req).unwrap_err(), "请先勾选错题或填写知识点，再生成再练卷");
}

#[test]
fn local_outline_without_key() {
    let r = generate_review_outline("  ", &review(vec![WrongItemRef { section_index: 0, item_index: 0 }], vec![], true));
    match r.unwrap() {
        ReviewStep::Local(o) => {
            assert_eq!(o.kind, "reviewOutline");
            assert_eq!(o.meta.title, "三年级数学单元测试 · 作业讲评提纲");
            assert_eq!(o.meta.subject, "数学");
            assert_eq!(o.meta.grade, 3);
            assert_eq!(o.overview, "本节针对 两位数加法 等知识点进行集中讲评，建议用时约 40 分钟。");
            assert_eq!(o.points.len(), 1);
            assert_eq!(o.points[0].board_note, "重点：两位数加法");
            assert_eq!(o.wrong_samples, vec!["12+5=".to_string()]);
            assert_eq!(o.process.len(), 4);
            assert_eq!(o.process[1].minutes, 20);
        }
        ReviewStep::Ask(_) => panic!("no key, no model"),
    }
}

#[test]
fn model_is_asked_with_key() {
    let r = generate_review_outline("sk-x", &review(vec![], vec!["乘法"], true)).unwrap();
    match r {
        ReviewStep::Ask(c) => {
            assert_eq!(c.title, "三年级数学单元测试");
            let (sys, user) = review_prompts(&c, "[]");
            assert!(sys.starts_with("你是小学一线教师"));
            assert_eq!(user, "年级：3\n学科：数学\n原卷：三年级数学单元测试\n聚焦知识点：乘法\n错题样本 JSON：\n[]");
        }
        ReviewStep::Local(_) => panic!("key given"),
    }
}

#[test]
fn general_point_when_no_knowledge_point() {
    let o = local_template("卷", "数学", 2, &vec![], &vec![]);
    assert_eq!(o.points.len(), 1);
    assert_eq!(o.points[0].knowledge_point, "综合错题");
    assert_eq!(o.points[0].minutes, 10);
    assert_eq!(o.overview, "本节针对 错题共性问题 等知识点进行集中讲评，建议用时约 40 分钟。");
}

#[test]
fn local_redrill_shares_half_the_marks() {
    let req = RedrillRequest {
        paper: paper(),
        wrong_items: vec![WrongItemRef { section_index: 0, item_index: 0 }, WrongItemRef { section_index: 0, item_index: 1 }],
        knowledge_points: vec![],
        subject: String::new(),
        grade: 0,
        total_score: 50,
        duration_min: 20,
    };
    let p = match generate_redrill_paper("", &req).unwrap() {
        RedrillStep::Local(p) => p,
        RedrillStep::Ask(_) => panic!("no key"),
    };
    assert_eq!(p.meta.title, "三年级数学单元测试 · 错题再练");
    assert_eq!(p.meta.exam_type, "错题再练");
    assert_eq!(p.meta.edition, "北师大版");
    assert_eq!(p.sections.len(), 2);
    assert_eq!(p.sections[0].items.len(), 2);
    assert_eq!(p.sections[0].items[0].score, 12);
    assert_eq!(p.sections[0].score, 24);
    assert_eq!(p.sections[0].title, "一、变式巩固（共24分）");
    assert_eq!(p.sections[1].score, 26);
    assert_eq!(p.sections[1].title, "二、综合一题（共26分）");
    assert_eq!(p.sections[0].items[1].id, "1-2");
    assert!(p.sections[0].items[0].stem.starts_with("1. 变式巩固：针对「两位数加法、退位减法」再练一题（原题参考：12+5=…）"));
}

#[test]
fn redrill_from_knowledge_points_only() {
    let req = RedrillRequest {
        paper: ExamPaper { meta: paper().meta, sections: None },
        wrong_items: vec![],
        knowledge_points: vec!["分数".to_string(), "小数".to_string()],
        subject: "math".to_string(),
        grade: 4,
        total_score: 3,
        duration_min: 15,
    };
    let r = generate_redrill_paper("", &req).unwrap();
    let p = match r {
        RedrillStep::Local(p) => p,
        RedrillStep::Ask(_) => panic!("no key"),
    };
    assert_eq!(p.meta.subject, "math");
    assert_eq!(p.meta.grade, 4);
    assert_eq!(p.sections[0].items.len(), 2);
    assert_eq!(p.sections[0].items[0].stem, "1. 关于「分数」：请完成一道同类基础题并写出步骤。");
    assert_eq!(p.sections[0].items[0].score, 2);
    assert_eq!(p.sections[0].score, 4);
    assert_eq!(p.sections[1].score, 0);
    let c = match generate_redrill_paper("key", &req).unwrap() {
        RedrillStep::Ask(c) => c,
        RedrillStep::Local(_) => panic!("key"),
    };
    let again = local_redrill(&c);
    assert_eq!(again.sections[0].score, 4);
    let (_, user) = redrill_prompts(&c, "[]");
    assert_eq!(user, "年级：4\n学科：math\n版本：北师大版\n原卷：三年级数学单元测试\n满分：3\n时长：15 分钟\n知识点：分数、小数\n错题样本：\n[]\n请直接输出再练卷 JSON。");
}
