use shijuan::bank::{
    import_bank_paper, list_favorites, new_favorite, paper_item_request, pick_favorite_snippets, AddFavoriteRequest,
    BankStore, FavoriteItem,
};
use shijuan::history::{add_history, delete_history, detect_kind, find_history, list_history, new_history_entry, DocShape, HistoryEntry};
use shijuan::paper::{ExamItem, ExamMeta, ExamPaper, ExamSection, JsonNumber};

fn item(stem: &str, answer: &str) -> ExamItem {
    ExamItem {
        id: None,
        stem: Some(stem.to_string()),
        answer: Some(answer.to_string()),
        answer_text: answer.to_string(),
        analysis: None,
        options: Some(vec![Some("A. 1".to_string()), None]),
        knowledge_points: Some(vec![Some("加法".to_string())]),
        score: None,
    }
}

fn request(stem: &str, answer: &str, subject: &str, grade: u8) -> AddFavoriteRequest {
    AddFavoriteRequest {
        item: item(stem, answer),
        score_bits: 5f64.to_bits(),
        section_type: "calc".to_string(),
        subject: subject.to_string(),
        grade,
        edition: String::new(),
        source_title: "来源".to_string(),
        tags: vec![],
    }
}

fn fav(id: &str, stem: &str, answer: &str, subject: &str, grade: u8, t: u64) -> FavoriteItem {
    new_favorite(&request(stem, answer, subject, grade), id.to_string(), t).unwrap()
}

fn meta(title: Option<&str>, grade: u64) -> ExamMeta {
    ExamMeta {
        title: title.map(String::from),
        subject: Some("数学".to_string()),
        edition: Some("人教版".to_string()),
        semester: None,
        grade: Some(JsonNumber { unsigned: Some(grade), value: None }),
        total_score: None,
        duration_min: None,
    }
}

fn two_sections() -> Option<Vec<ExamSection>> {
    Some(vec![
        ExamSection { title: None, section_type: Some("calc".to_string()), score: None, items: Some(vec![item("1+1=", "2"), item(" ", "")]) },
        ExamSection { title: None, section_type: None, score: None, items: None },
    ])
}

#[test]
fn favourites_are_trimmed_and_deduplicated() {
    assert_eq!(new_favorite(&request("  ", "2", "数学", 3), "f0".to_string(), 1).unwrap_err(), "题目内容为空，无法收藏");
    let f = fav("f1", " 1+1= ", "2", "数学", 3, 10);
    assert_eq!(f.stem, "1+1=");
    assert_eq!(f.options, vec!["A. 1".to_string()]);
    assert_eq!(f.knowledge_points, vec!["加法".to_string()]);
    assert_eq!(f.score_bits, 5f64.to_bits());
    let mut store = BankStore::empty();
    let kept = store.add_favorite(f).unwrap();
    assert_eq!(kept.id, "f1");
    let again = fav("f2", "1+1=", "2", "数学", 3, 11);
    assert_eq!(store.add_favorite(again).unwrap_err(), "该题已在校本收藏中");
    store.add_favorite(fav("f3", "2+2=", "4", "数学", 3, 12)).unwrap();
    assert_eq!(store.items[0].id, "f3");
    assert_eq!(store.delete_favorite("nope").unwrap_err(), "收藏不存在");
    store.delete_favorite("f1").unwrap();
    assert_eq!(store.items.len(), 1);
    store.clear_favorites();
    assert!(store.items.is_empty());
}

#[test]
fn favourites_are_capped() {
    let mut store = BankStore::empty();
    for i in 0..505u64 {
        store.add_favorite(fav(&format!("f{i}"), &format!("{i}+1="), "x", "数学", 3, i)).unwrap();
    }
    assert_eq!(store.items.len(), 500);
    assert_eq!(store.items[0].id, "f504");
}

#[test]
fn listing_is_newest_first() {
    let mut store = BankStore::empty();
    store.items = vec![fav("a", "1", "", "", 0, 5), fav("b", "2", "", "", 0, 9), fav("c", "3", "", "", 0, 5)];
    let ids: Vec<String> = list_favorites(store).into_iter().map(|f| f.id).collect();
    assert_eq!(ids, vec!["b".to_string(), "a".to_string(), "c".to_string()]);
}

#[test]
fn snippets_prefer_matching_favourites() {
    let items = vec![
        fav("a", "语文题", "略", "语文", 3, 3),
        fav("b", "12+5=", "17", "数学", 4, 2),
        fav("c", "长方形周长", "", "", 0, 1),
    ];
    let s = pick_favorite_snippets(&items, "math", 3, 0);
    assert_eq!(s, vec!["12+5= [知识点:加法] → 17".to_string()]);
    let all = pick_favorite_snippets(&items, "math", 3, 5);
    assert_eq!(all.len(), 2);
    assert_eq!(all[1], "长方形周长 [知识点:加法]");
    let none = pick_favorite_snippets(&items[..1].to_vec(), "english", 6, 99);
    assert_eq!(none, vec!["语文题 [知识点:加法] → 略".to_string()]);
}

#[test]
fn school_papers_are_summarised() {
    let p = ExamPaper { meta: meta(None, 259), sections: two_sections() };
    assert_eq!(import_bank_paper(&p, false, "{}".to_string(), "p".to_string(), 1).unwrap_err(), "不是有效试卷 JSON（缺少 sections）");
    let b = import_bank_paper(&p, true, "{}".to_string(), "p1".to_string(), 7).unwrap();
    assert_eq!(b.title, "导入试卷");
    assert_eq!(b.grade, 3);
    assert_eq!(b.summary, "3年级 · 数学 · 2大题/2小题");
    let mut store = BankStore::empty();
    store.add_paper(b);
    assert_eq!(store.find_bank_paper("p1"), Ok(0));
    assert_eq!(store.find_bank_paper("p2").unwrap_err(), "校本卷不存在");
    assert_eq!(store.delete_bank_paper("p2").unwrap_err(), "校本卷不存在");
    let r = paper_item_request(&p, 0, 0, "导入试卷", 0);
    assert_eq!(r.section_type, "calc");
    assert_eq!(r.grade, 3);
    assert_eq!(r.tags, vec!["导入".to_string()]);
    assert_eq!(r.edition, "人教版");
}

fn shape(kind: Option<&str>, plans: Option<usize>, has_sections: bool) -> DocShape {
    DocShape {
        paper: ExamPaper { meta: meta(Some("三年级数学期末"), 3), sections: if has_sections { two_sections() } else { None } },
        has_sections,
        kind: kind.map(String::from),
        plans,
        has_points: false,
        has_process: false,
        has_knowledge_focus: false,
        has_objectives: false,
        exam_type: Some("期末模拟".to_string()),
        unit_name: Some("第一单元".to_string()),
        lesson_name: Some("观潮".to_string()),
    }
}

#[test]
fn documents_are_classified() {
    assert_eq!(detect_kind(&shape(Some("parallelSet"), None, true)), "parallelSet");
    assert_eq!(detect_kind(&shape(Some("other"), None, true)), "exam");
    assert_eq!(detect_kind(&shape(None, Some(3), true)), "exam");
    assert_eq!(detect_kind(&shape(None, Some(3), false)), "lessonPlanBundle");
    let mut s = shape(None, None, false);
    s.has_knowledge_focus = true;
    assert_eq!(detect_kind(&s), "reviewOutline");
    let mut s = shape(None, None, true);
    s.has_process = true;
    s.has_objectives = true;
    assert_eq!(detect_kind(&s), "lessonPlan");
}

#[test]
fn history_entries_and_list() {
    let e = new_history_entry(&shape(None, None, true), "{}".to_string(), None, "h1".to_string(), 5);
    assert_eq!(e.kind, "exam");
    assert_eq!(e.title, "三年级数学期末");
    assert_eq!(e.summary, "3年级 · 数学 · 期末模拟 · 2大题/2小题");
    let b = new_history_entry(&shape(None, Some(4), false), "{}".to_string(), None, "h2".to_string(), 6);
    assert_eq!(b.summary, "3年级 · 数学 · 全课时教案 · 第一单元 · 4 课");
    let mut list: Vec<HistoryEntry> = vec![];
    add_history(&mut list, e, 1);
    add_history(&mut list, b, 1);
    assert_eq!(list.len(), 1);
    assert_eq!(list[0].id, "h2");
    assert_eq!(find_history(&list, "h2"), Ok(0));
    assert_eq!(find_history(&list, "h1").unwrap_err(), "历史记录不存在");
    assert_eq!(delete_history(&mut list, "h1").unwrap_err(), "历史记录不存在");
    delete_history(&mut list, "h2").unwrap();
    assert!(list.is_empty());
    let l = vec![
        new_history_entry(&shape(None, None, true), "{}".to_string(), None, "x".to_string(), 1),
        new_history_entry(&shape(None, None, true), "{}".to_string(), None, "y".to_string(), 2),
    ];
    let ids: Vec<String> = list_history(l).into_iter().map(|e| e.id).collect();
    assert_eq!(ids, vec!["y".to_string(), "x".to_string()]);
}
