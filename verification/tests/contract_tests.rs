use shijuan::contracts::{
    validate_exam_paper, validate_lesson_plan, ContractItem, ContractLesson, ContractPaper,
    ContractSection, ContractStep, Sign,
};

fn exam(items: Vec<ContractItem>) -> ContractPaper {
    ContractPaper {
        title: "测试".to_string(),
        subject: "数学".to_string(),
        grade: 3,
        total_score: Sign::Positive,
        duration_min: 60,
        sections: vec![ContractSection { title: "一、计算".to_string(), score: Sign::Positive, items }],
    }
}

fn item(stem: &str, answer: &str, score: Sign) -> ContractItem {
    ContractItem { stem: stem.to_string(), answer: answer.to_string(), score }
}

#[test]
fn rejects_exam_without_answer() {
    let paper = exam(vec![item("1+1", "", Sign::Zero)]);
    assert!(validate_exam_paper(&paper).unwrap_err().contains("缺少答案"));
}

#[test]
fn accepts_minimal_valid_exam() {
    let paper = exam(vec![item("1+1", "2", Sign::Positive)]);
    assert!(validate_exam_paper(&paper).is_ok());
}

#[test]
fn rejects_lesson_without_process() {
    let lesson = ContractLesson {
        title: "测试教案".to_string(),
        subject: "数学".to_string(),
        grade: 3,
        duration_min: 40,
        knowledge: 1,
        ability: 0,
        emotion: 0,
        process: vec![],
    };
    assert!(validate_lesson_plan(&lesson).unwrap_err().contains("教学过程"));
}

#[test]
fn exam_breaches_are_reported_in_order() {
    let mut p = exam(vec![item("1+1", "2", Sign::Positive)]);
    p.title = "  ".to_string();
    assert_eq!(validate_exam_paper(&p).unwrap_err(), "试卷标题或学科为空");
    let mut p = exam(vec![item("1+1", "2", Sign::Positive)]);
    p.grade = 13;
    assert_eq!(validate_exam_paper(&p).unwrap_err(), "试卷年级超出有效范围");
    let mut p = exam(vec![item("1+1", "2", Sign::Positive)]);
    p.total_score = Sign::Zero;
    assert_eq!(validate_exam_paper(&p).unwrap_err(), "试卷总分或考试时长无效");
    let mut p = exam(vec![]);
    p.sections.clear();
    assert_eq!(validate_exam_paper(&p).unwrap_err(), "试卷没有大题");
    let p = exam(vec![]);
    assert_eq!(validate_exam_paper(&p).unwrap_err(), "第 1 大题标题、分值或题目列表无效");
    let p = exam(vec![item("1+1", "2", Sign::Positive), item(" ", "2", Sign::Positive)]);
    assert_eq!(validate_exam_paper(&p).unwrap_err(), "第 1 大题第 2 小题缺少题干");
    let p = exam(vec![item("1+1", "2", Sign::Negative)]);
    assert_eq!(validate_exam_paper(&p).unwrap_err(), "第 1 大题第 1 小题分值无效");
}

#[test]
fn lesson_breaches_are_reported() {
    let good = ContractLesson {
        title: "认识分数".to_string(),
        subject: "数学".to_string(),
        grade: 3,
        duration_min: 40,
        knowledge: 0,
        ability: 2,
        emotion: 0,
        process: vec![ContractStep { stage: "导入".to_string(), minutes: 5 }],
    };
    assert!(validate_lesson_plan(&good).is_ok());
    let mut l = good.clone();
    l.ability = 0;
    assert_eq!(validate_lesson_plan(&l).unwrap_err(), "教案缺少教学目标");
    let mut l = good.clone();
    l.duration_min = 0;
    assert_eq!(validate_lesson_plan(&l).unwrap_err(), "教案年级或课时长度无效");
    let mut l = good.clone();
    l.process.push(ContractStep { stage: " ".to_string(), minutes: 0 });
    assert_eq!(validate_lesson_plan(&l).unwrap_err(), "教案教学过程存在空环节名称");
}
