use shijuan::knowledge::{catalog_entry, catalog_path, is_pack_file, merge_catalog, CatalogItem, KnowledgePack, SourceInfo};
use shijuan::lesson_plan::{failed_plan_title, model_bundle_title};

fn source() -> SourceInfo {
    SourceInfo {
        platform: String::new(),
        platform_url: String::new(),
        classroom_url: String::new(),
        material_url: String::new(),
        elec_edu_url: String::new(),
        catalog_site: String::new(),
        catalog_ref: String::new(),
        note: String::new(),
        edition_label: String::new(),
        subject_label: String::new(),
        smartedu_path_hint: String::new(),
        entry_count: 0,
        unit_count: 0,
    }
}

fn item(subject: &str, edition: &str, grade: u8, semester: &str, origin: &str) -> CatalogItem {
    let pack = KnowledgePack {
        subject: subject.into(),
        edition: edition.into(),
        grade,
        semester: semester.into(),
        title: format!("{subject}-{edition}-{grade}-{semester}-{origin}"),
        source: source(),
        units: vec![],
        exam_hints: vec![],
    };
    catalog_entry(pack, format!("{subject}/{edition}/{grade}{semester}.json"), origin)
}

#[test]
fn pack_files_are_json_but_not_index_or_private() {
    assert!(is_pack_file("math_beishida_3_xia.json"));
    assert!(!is_pack_file("index.json"));
    assert!(!is_pack_file("_draft.json"));
    assert!(!is_pack_file("notes.txt"));
    assert!(!is_pack_file(".json"));
    assert!(is_pack_file("..json"));
    assert!(!is_pack_file("a.json.bak"));
}

#[test]
fn catalog_paths_use_forward_slashes() {
    assert_eq!(catalog_path("math\\beishida\\3xia.json"), "math/beishida/3xia.json");
    assert_eq!(catalog_path("math/renjiao/1shang.json"), "math/renjiao/1shang.json");
}

#[test]
fn catalog_entry_labels_codes() {
    let e = item("math", "beishida", 3, "xia", "user");
    assert_eq!(e.subject_label, "数学");
    assert_eq!(e.edition_label, "北师大版");
    assert_eq!(e.semester_label, "下册");
    assert_eq!(e.origin, "user");
}

#[test]
fn merged_catalog_prefers_first_scanned_and_is_ordered() {
    let scan = vec![
        item("math", "renjiao", 3, "xia", "user"),
        item("chinese", "renjiao", 2, "shang", "bundled"),
        item("math", "beishida", 3, "xia", "bundled"),
        item("math", "renjiao", 3, "xia", "bundled"),
        item("math", "beishida", 10, "shang", "bundled"),
        item("math", "beishida", 3, "shang", "bundled"),
    ];
    let out = merge_catalog(scan);
    let order: Vec<(String, String, u8, String, String)> = out
        .iter()
        .map(|c| (c.subject.clone(), c.edition.clone(), c.grade, c.semester.clone(), c.origin.clone()))
        .collect();
    assert_eq!(
        order,
        vec![
            ("chinese".to_string(), "renjiao".to_string(), 2, "shang".to_string(), "bundled".to_string()),
            ("math".to_string(), "beishida".to_string(), 3, "shang".to_string(), "bundled".to_string()),
            ("math".to_string(), "beishida".to_string(), 3, "xia".to_string(), "bundled".to_string()),
            ("math".to_string(), "beishida".to_string(), 10, "shang".to_string(), "bundled".to_string()),
            ("math".to_string(), "renjiao".to_string(), 3, "xia".to_string(), "user".to_string()),
        ]
    );
}

#[test]
fn failed_lessons_and_bundles_are_titled() {
    assert_eq!(failed_plan_title("小数的意义"), "小数的意义（生成失败）");
    assert_eq!(model_bundle_title("第一单元"), "第一单元 · 全课时教案");
}

use shijuan::knowledge::UnitInfo;
use shijuan::lesson_plan::{model_unit_lessons, requested_type_label, LessonPlanRequest};

fn lesson_request(unit_id: Option<&str>, lesson_type: &str) -> LessonPlanRequest {
    LessonPlanRequest {
        subject: "math".into(),
        edition: "beishida".into(),
        grade: 3,
        semester: "xia".into(),
        knowledge_path: "math/beishida/grade-3-xia.json".into(),
        unit_id: unit_id.map(|s| s.to_string()),
        lesson_name: None,
        periods: 0,
        duration_min: 0,
        lesson_type: lesson_type.into(),
        include_parent: true,
    }
}

fn pack_with(units: Vec<UnitInfo>) -> KnowledgePack {
    KnowledgePack {
        subject: "math".into(),
        edition: "beishida".into(),
        grade: 3,
        semester: "xia".into(),
        title: "数学三年级下册".into(),
        source: source(),
        units,
        exam_hints: vec![],
    }
}

fn unit(id: &str, name: &str, lessons: usize) -> UnitInfo {
    UnitInfo {
        id: id.into(),
        name: name.into(),
        lessons: (1..=lessons).map(|i| format!("第{i}课")).collect(),
        points: vec![],
    }
}

#[test]
fn model_bundles_plan_at_most_twelve_lessons() {
    let pack = pack_with(vec![unit("u1", "除法", 14), unit("u2", "图形", 0)]);
    let (name, lessons) = model_unit_lessons(&lesson_request(Some("u1"), ""), &pack).unwrap();
    assert_eq!(name, "除法");
    assert_eq!(lessons.len(), 12);
    assert_eq!(lessons[11], "第12课");
    let (name2, lessons2) = model_unit_lessons(&lesson_request(Some("u2"), ""), &pack).unwrap();
    assert_eq!(name2, "图形");
    assert_eq!(lessons2, vec!["图形".to_string()]);
    assert_eq!(model_unit_lessons(&lesson_request(None, ""), &pack_with(vec![])).unwrap_err(), "无可用单元");
}

#[test]
fn requested_lesson_types_are_labelled() {
    assert_eq!(requested_type_label(&lesson_request(None, "  ")), "新授课");
    assert_eq!(requested_type_label(&lesson_request(None, "review")), "复习课");
    assert_eq!(requested_type_label(&lesson_request(None, "other")), "新授课");
}

#[test]
fn model_bundle_headings() {
    let b = shijuan::lesson_plan::model_bundle(&lesson_request(None, ""), "除法");
    assert_eq!(b.title, "除法 · 全课时教案");
    assert_eq!(b.edition, "北师大版");
    assert_eq!(b.subject, "数学");
    assert_eq!(b.semester, "下册");
    assert!(b.plans.is_empty());
}
