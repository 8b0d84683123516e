use shijuan::config::{provider_presets, ApiKeyCache};
use shijuan::curriculum::{curriculum_rel_path, diff_curriculum_pack};
use shijuan::generate::{build_prompt, exam_type_label, math_skeleton_bank, DifficultyRatio, GenerateRequest};
use shijuan::knowledge::{KnowledgePack, SourceInfo, UnitInfo};
use shijuan::lesson_plan::{contract_of_plan, lesson_plan_prompts, template_lesson_plan, template_unit_all_lessons, LessonPlanRequest};
use shijuan::local_paper::build_template_paper;
use shijuan::offline::shifted_math_answer;
use shijuan::secret::{load_api_key, save_api_key};
use shijuan::templates::{
    add_user_template, bundled_templates, delete_user_template, find_template, imported_id_prefix,
    push_saved_template, template_not_found,
};

fn source() -> SourceInfo {
    SourceInfo {
        platform: String::new(),
        platform_url: String::new(),
        classroom_url: String::new(),
        material_url: String::new(),
        elec_edu_url: String::new(),
        catalog_site: String::new(),
        catalog_ref: String::new(),
        note: String::new(),
        edition_label: String::new(),
        subject_label: String::new(),
        smartedu_path_hint: String::new(),
        entry_count: 0,
        unit_count: 0,
    }
}

fn unit(id: &str, name: &str, lessons: &[&str], points: &[&str]) -> UnitInfo {
    UnitInfo {
        id: id.into(),
        name: name.into(),
        lessons: lessons.iter().map(|s| s.to_string()).collect(),
        points: points.iter().map(|s| s.to_string()).collect(),
    }
}

fn pack(units: Vec<UnitInfo>) -> KnowledgePack {
    KnowledgePack {
        subject: "math".into(),
        edition: "beishida".into(),
        grade: 3,
        semester: "xia".into(),
        title: "数学三年级下册".into(),
        source: source(),
        units,
        exam_hints: vec!["重视估算".into()],
    }
}

fn generate_request(subject: &str, exam_type: &str, unit_id: Option<&str>) -> GenerateRequest {
    GenerateRequest {
        subject: subject.into(),
        edition: "beishida".into(),
        grade: 3,
        semester: "xia".into(),
        exam_type: exam_type.into(),
        unit_id: unit_id.map(|s| s.to_string()),
        difficulty: "标准".into(),
        total_score: 100,
        duration_min: 60,
        knowledge_path: "math/beishida/grade-3-xia.json".into(),
        selected_lessons: vec![],
        difficulty_ratio: DifficultyRatio::standard(),
        mix_bank: false,
        use_school_bank: false,
        school_bank_snippets: vec![],
        template_id: None,
        structure_override: None,
        template_hints: vec![],
    }
}

fn lesson_request(lesson_type: &str, include_parent: bool) -> LessonPlanRequest {
    LessonPlanRequest {
        subject: "math".into(),
        edition: "beishida".into(),
        grade: 3,
        semester: "xia".into(),
        knowledge_path: "math/beishida/grade-3-xia.json".into(),
        unit_id: Some("u1".into()),
        lesson_name: None,
        periods: 0,
        duration_min: 0,
        lesson_type: lesson_type.into(),
        include_parent,
    }
}

#[test]
fn exam_types_have_labels() {
    assert_eq!(exam_type_label("unit"), "单元测试");
    assert_eq!(exam_type_label("redrill"), "错题再练");
    assert_eq!(exam_type_label("anything"), "模拟考试");
    let s = DifficultyRatio::standard();
    assert_eq!((s.basic, s.medium, s.hard), (40, 40, 20));
    assert!(!math_skeleton_bank(3).is_empty());
}

#[test]
fn prompts_name_the_unit_and_the_book() {
    let p = pack(vec![unit("u1", "除法", &["分橘子"], &["两位数除以一位数"]), unit("u2", "图形", &[], &["对称"])]);
    let (system, user) = build_prompt(&generate_request("math", "unit", Some("u2")), &p);
    assert!(!system.is_empty());
    assert!(user.contains("图形"));
}

#[test]
fn template_papers_are_titled_from_the_request() {
    let p = pack(vec![unit("u1", "除法", &["分橘子"], &["两位数除以一位数"])]);
    let paper = build_template_paper(&generate_request("math", "unit", Some("u1")), &p, &vec![]);
    assert_eq!(paper.meta.title, "小学北师大版数学3年级下册单元测试·除法");
    assert_eq!(paper.meta.source, "本地可验算题库");
    assert_eq!(build_template_paper(&generate_request("chinese", "unit", None), &p, &vec![]).meta.source, "template");
    assert_eq!(paper.meta.total_score, 100);
    let chinese = build_template_paper(&generate_request("chinese", "final", None), &p, &vec![]);
    assert_eq!(chinese.meta.title, "小学北师大版语文3年级下册期末模拟");
    assert_eq!(chinese.sections[0].section_type, "pinyin");
}

#[test]
fn template_lesson_plans_follow_the_request() {
    let p = pack(vec![unit("u1", "除法", &["分橘子", "分苹果"], &["两位数除以一位数", "验算"])]);
    let plan = template_lesson_plan(&lesson_request("", true), &p);
    assert_eq!(plan.meta.title, "分橘子（新授课·第1课时）");
    assert_eq!(plan.meta.duration_min, 40);
    assert!(plan.parent_guide.is_some());
    let practice = template_lesson_plan(&lesson_request("practice", false), &p);
    assert_eq!(practice.meta.lesson_type, "练习课");
    assert!(practice.parent_guide.is_none());
    let bundle = template_unit_all_lessons(&lesson_request("", false), &p);
    assert_eq!(bundle.title, "除法 · 全课时教案（模板）");
    assert_eq!(bundle.plans.len(), 2);
    assert_eq!(bundle.plans[1].meta.lesson_name, "分苹果");
    assert_eq!(bundle.plans[1].meta.periods, 2);
    assert_eq!(lesson_plan_prompts(&lesson_request("", true), &pack(vec![])).unwrap_err(), "无可用单元");
    let (_system, user) = lesson_plan_prompts(&lesson_request("", true), &p).unwrap();
    assert!(user.contains("分橘子"));
}

#[test]
fn shifted_answers_keep_their_form() {
    assert_eq!(shifted_math_answer("108", 1), "109");
    assert_eq!(shifted_math_answer("0.375", 1), "1.375");
    assert_eq!(shifted_math_answer("abc", 2), "2");
}

#[test]
fn keys_round_trip_through_their_bytes() {
    let bytes = save_api_key("sk-测试");
    assert_eq!(bytes, "sk-测试".as_bytes().to_vec());
    assert_eq!(load_api_key(Some(Ok(bytes))), Ok(Some("sk-测试".to_string())));
    assert_eq!(load_api_key(None), Ok(None));
    assert_eq!(load_api_key(Some(Err("拒绝访问".into()))), Err("拒绝访问".to_string()));
    assert_eq!(load_api_key(Some(Ok(vec![0xff, 0xfe]))), Err("API Key 解密后不是有效 UTF-8".to_string()));
}

#[test]
fn key_cache_keeps_non_blank_keys() {
    let mut cache = ApiKeyCache::new();
    assert_eq!(cache.cached(), None);
    cache.remember(Some("   ".into()));
    assert_eq!(cache.cached(), None);
    let loaded = cache.resolve_loaded_key("file-key", Ok(None));
    assert!(loaded.migrate && loaded.configured);
    assert_eq!(loaded.api_key, "file-key");
    assert_eq!(cache.cached(), Some("file-key".to_string()));
    assert_eq!(cache.load_saved_api_key(Err("不可读".into())), Ok(Some("file-key".to_string())));
    cache.clear_api_key();
    assert_eq!(cache.load_saved_api_key(Err("不可读".into())), Err("不可读".to_string()));
    assert!(cache.saved_key_configured("  sk-1 ", None));
    assert_eq!(cache.cached(), Some("sk-1".to_string()));
    let mut empty = ApiKeyCache::new();
    assert!(!empty.saved_key_configured("", Some(Ok(Some(" ".into())))));
    assert!(provider_presets().iter().any(|p| p.id == "ollama"));
}

#[test]
fn templates_are_found_imported_and_deleted() {
    let bundled = bundled_templates();
    assert_eq!(bundled.len(), 12);
    let first = bundled[0].id.clone();
    assert_eq!(find_template(&bundled, &first), Some(0));
    assert_eq!(find_template(&bundled, "missing"), None);
    assert_eq!(template_not_found("x"), "模板不存在: x");
    assert_eq!(imported_id_prefix(""), Some("import-template".to_string()));
    assert_eq!(imported_id_prefix(&first), Some(format!("{first}-user")));
    assert_eq!(imported_id_prefix("mine"), None);
    assert_eq!(delete_user_template(vec![], &first).unwrap_err(), "内置模板不能删除");
    assert_eq!(delete_user_template(vec![], "mine").unwrap_err(), "用户模板不存在");
    let mut mine = bundled[1].clone();
    mine.id = "mine".into();
    let mut newer = mine.clone();
    newer.name = "新名字".into();
    let list = add_user_template(vec![mine.clone(), bundled[2].clone()], newer);
    assert_eq!(list.len(), 2);
    assert_eq!(list[0].name, "新名字");
    assert!(delete_user_template(list, "mine").unwrap().iter().all(|t| t.id != "mine"));
    let many: Vec<_> = (0..100).map(|i| {
        let mut t = mine.clone();
        t.id = format!("t{i}");
        t
    }).collect();
    let kept = push_saved_template(many, mine);
    assert_eq!(kept.len(), 100);
    assert_eq!(kept[0].id, "mine");
}

#[test]
fn curriculum_diffs_need_a_pack() {
    assert_eq!(curriculum_rel_path("  /\\math/grade-3-xia.json"), "math/grade-3-xia.json");
    assert_eq!(diff_curriculum_pack("math/x.json", None, None).unwrap_err(), "找不到课标包: math/x.json");
    let bundled = pack(vec![unit("u1", "除法", &["分橘子"], &[]), unit("u2", "图形", &[], &[])]);
    let user = pack(vec![unit("u1", "除法", &["分橘子", "分苹果"], &[]), unit("u3", "数据", &[], &[])]);
    let only_bundled = diff_curriculum_pack("math/x.json", Some(&bundled), None).unwrap();
    assert_eq!(only_bundled.summary, "仅有内置课标，尚未同步本机包（同步后可对照）");
    let both = diff_curriculum_pack("math/x.json", Some(&bundled), Some(&user)).unwrap();
    assert_eq!(both.summary, "对照完成：1 个单元有差异，同步多 1 个单元，内置多 1 个单元");
    assert_eq!(both.added_units, vec!["数据".to_string()]);
    assert_eq!(both.removed_units, vec!["图形".to_string()]);
}

#[test]
fn prompts_state_difficulty_and_structure() {
    let p = pack(vec![unit("u1", "除法", &["分橘子"], &["两位数除以一位数"])]);
    let mut req = generate_request("math", "unit", Some("u1"));
    req.difficulty_ratio = DifficultyRatio { basic: 0, medium: 0, hard: 0 };
    let (system, user) = build_prompt(&req, &p);
    assert!(system.contains("基础约40%、中等约40%、拔高约20%"));
    assert!(user.contains("基础约40%、中等约40%、拔高约20%"));
    req.difficulty_ratio = DifficultyRatio { basic: 255, medium: 255, hard: 255 };
    req.structure_override = Some("一、计算（30分）".into());
    let (system, user) = build_prompt(&req, &p);
    assert!(system.contains("基础约255%、中等约255%、拔高约255%"));
    assert!(user.contains("建议题型结构：一、计算（30分）"));
    req.template_id = Some("t1".into());
    let (_, user) = build_prompt(&req, &p);
    assert!(user.contains("【必须严格按下列题型结构出卷，大题顺序与分值不可擅自合并或删减】\n模板：t1\n结构：一、计算（30分）"));
}

#[test]
fn template_lesson_plans_meet_the_contract() {
    let p = pack(vec![unit("u1", "除法", &["分橘子"], &["两位数除以一位数"])]);
    for lt in ["new", "practice", "review", "feedback"] {
        let plan = template_lesson_plan(&lesson_request(lt, true), &p);
        assert!(shijuan::contracts::validate_lesson_plan(&contract_of_plan(&plan)).is_ok());
        assert_eq!(plan.meta.duration_min, 40);
        assert_eq!(plan.meta.periods, 1);
        assert!(plan.parent_guide.is_some());
    }
    let empty = pack(vec![]);
    let plan = template_lesson_plan(&lesson_request("new", false), &empty);
    assert!(shijuan::contracts::validate_lesson_plan(&contract_of_plan(&plan)).is_ok());
    assert!(plan.parent_guide.is_none());
}
