use shijuan::dzkbw::{
    book_label, book_pack, build_pack, extract_links, extract_pre_catalog, filter_grades, group_catalog, guess_title,
    html_escape_decode, is_section_as_lesson, is_unit_title, join_url, org_scrape_specs, pack_file_name, page_text,
    parse_grade_sem, parse_grade_sem_from_title, pick_best, score_org_book_title, strip_tags, update_result,
    updated_line, subjects_result, BookLink, org_plan, com_plan, retry_on_older_site, volume_failure, write_failure, ScrapePlan,
};

fn strs(v: &[&str]) -> Vec<String> {
    v.iter().map(|s| s.to_string()).collect()
}

#[test]
fn joins_addresses() {
    assert_eq!(join_url("https://www.dzkbw.org/subject/rjb/yuwen.html", "/book/4833.html"), "https://www.dzkbw.org/book/4833.html");
    assert_eq!(join_url("http://www.dzkbw.com/books/rjb/yuwen/", "3s/"), "http://www.dzkbw.com/books/rjb/yuwen/3s/");
    assert_eq!(join_url("http://a.com/x/index.html", "p2.html"), "http://a.com/x/p2.html");
    assert_eq!(join_url("http://a.com/x", "//cdn.com/a"), "http://cdn.com/a");
    assert_eq!(join_url("http://a.com/x", "https://b.org/c"), "https://b.org/c");
}

#[test]
fn decodes_references_and_strips_tags() {
    assert_eq!(html_escape_decode("&lt;p&gt;&amp;&#39;"), "<p>&'");
    assert_eq!(strip_tags("<div><script>var x=1;</script><b>第一单元</b>&nbsp; 观潮</div>"), "第一单元 观潮");
    let links = extract_links("<a href=\"/book/1.html\">语文 <b>三年级上册</b></a><a href='x'> </a>");
    assert_eq!(links, vec![("/book/1.html".to_string(), "语文 三年级上册".to_string())]);
}

#[test]
fn unit_titles() {
    assert!(is_unit_title("一、观潮"));
    assert!(is_unit_title("第三单元"));
    assert!(is_unit_title("快乐读书吧"));
    assert!(is_unit_title("本单元复习"));
    assert!(!is_unit_title("习作"));
    assert!(is_section_as_lesson("语文园地"));
    assert!(!is_unit_title("1 观潮"));
}

#[test]
fn groups_catalogue_lines() {
    let units = group_catalog(&strs(&["第一单元", "1 观潮", "2 走月亮", "1 观潮", "口语交际", " ", "第二单元 ", "习作"]));
    assert_eq!(units.len(), 2);
    assert_eq!(units[0].id, "u1");
    assert_eq!(units[0].lessons, strs(&["1 观潮", "2 走月亮", "口语交际"]));
    assert_eq!(units[0].points, strs(&["第一单元", "1 观潮", "2 走月亮", "口语交际"]));
    assert_eq!(units[1].id, "u2");
    assert_eq!(units[1].name, "第二单元");
    assert_eq!(units[1].lessons, strs(&["习作"]));
    let first = group_catalog(&strs(&["前言", "观潮", "第一单元"]));
    assert_eq!(first.len(), 2);
    assert_eq!(first[0].name, "前言");
    assert_eq!(first[0].lessons, strs(&["观潮"]));
}

#[test]
fn titles_name_volumes() {
    assert_eq!(parse_grade_sem_from_title("部编版三年级上册语文"), Some((3, "shang".to_string())));
    assert_eq!(parse_grade_sem_from_title("六年级下册"), Some((6, "xia".to_string())));
    assert_eq!(parse_grade_sem_from_title("一年级全一册"), Some((1, "shang".to_string())));
    assert_eq!(parse_grade_sem_from_title("五年级"), None);
    assert_eq!(parse_grade_sem("http://www.dzkbw.com/books/rjb/yuwen/xs3s/"), Some((3, "shang".to_string())));
    assert_eq!(parse_grade_sem("http://www.dzkbw.com/books/rjb/yuwen/ws5x_2/"), Some((5, "xia".to_string())));
    assert_eq!(parse_grade_sem("http://www.dzkbw.com/books/"), None);
}

#[test]
fn rates_book_titles() {
    let subject = strs(&["语文"]);
    let edition = strs(&["人教", "部编", "统编"]);
    let exclude = strs(&["苏教", "北师大", "S版", "A版"]);
    assert_eq!(score_org_book_title("2025秋部编版三年级上册语文", &subject, &edition, &exclude), 153);
    assert_eq!(score_org_book_title("语文教师用书", &subject, &edition, &exclude), -1000);
    assert_eq!(score_org_book_title("北师大版三年级语文", &subject, &edition, &exclude), -1000);
    assert_eq!(score_org_book_title("三年级数学", &subject, &edition, &exclude), -1000);
    assert_eq!(score_org_book_title("人教版三年级语文", &subject, &vec![], &vec![]), 10);
}

#[test]
fn chooses_one_book_per_volume() {
    let l = |u: &str, g: u8, s: &str, score: i32| BookLink {
        url: u.to_string(),
        title: "t".to_string(),
        grade: g,
        semester: s.to_string(),
        score,
    };
    let links = vec![
        l("u1", 3, "shang", 10),
        l("u2", 3, "shang", 30),
        l("u3", 3, "shang", 30),
        l("u4", 2, "xia", 0),
        l("u5", 2, "shang", 5),
    ];
    let chosen = pick_best(&links);
    let urls: Vec<&str> = chosen.iter().map(|b| b.url.as_str()).collect();
    assert_eq!(urls, vec!["u5", "u4", "u2"]);
    let only = filter_grades(&links, &vec![2]);
    assert_eq!(only.len(), 2);
    assert_eq!(filter_grades(&links, &vec![]).len(), 5);
}

#[test]
fn reads_pre_catalogue_and_titles() {
    let html = "<pre>第一单元\n1 观潮\n2 走月亮\n3 现代诗二首\n第二单元\n5 一个豆荚里的五粒豆\n</pre>";
    let lines = extract_pre_catalog(html);
    assert_eq!(lines.len(), 6);
    assert_eq!(lines[0], "第一单元");
    assert_eq!(guess_title("部编版三年级上册", "", 3, "shang"), "三年级上册");
    assert_eq!(guess_title("", "<title>x</title>", 4, "xia"), "4年级下册");
    let specs = org_scrape_specs();
    let spec = &specs[0];
    let ok = book_pack(spec, 3, "shang", "https://www.dzkbw.org/book/1.html", "", html, true).unwrap();
    assert_eq!(ok.1, 6);
    assert_eq!(ok.0.units.len(), 2);
    assert_eq!(ok.0.source.smartedu_path_hint, "小学 → 3年级 → 语文 → 人教统编版 → 上册");
    let bad = book_pack(spec, 3, "shang", "https://x/1.html", "", "<p>none</p>", true).unwrap_err();
    assert_eq!(bad, "chinese/renjiao/grade-3-shang: 目录条目过少（0），跳过 https://x/1.html");
}

#[test]
fn packs_and_messages() {
    let p = build_pack("math", "beishida", 2, "xia", "二年级下册", vec![], "https://x", "北师大版", "数学", 0);
    assert_eq!(p.source.smartedu_path_hint, "小学 → 2年级 → 数学 → 北师大版 → 下册");
    assert_eq!(p.exam_hints[3], "目录来源（电子课本网）：https://x");
    assert_eq!(p.source.catalog_site, "https://www.dzkbw.org");
    let label = book_label("chinese", "renjiao", 3, "shang");
    assert_eq!(label, "chinese/renjiao/grade-3-shang");
    assert_eq!(pack_file_name(3, "shang"), "grade-3-shang.json");
    assert_eq!(updated_line(&label, 8, 40, Some("u")), "chinese/renjiao/grade-3-shang (8单元/40条目) ← u");
    assert_eq!(updated_line(&label, 8, 40, None), "chinese/renjiao/grade-3-shang (8单元/40条目)");
    let all = update_result(strs(&["a", "b"]), vec![], "d".to_string());
    assert!(all.ok);
    assert_eq!(all.message, "课标全量同步成功（dzkbw.org），共 2 册：语文人教、数学北师大/人教/苏教、英语人教");
    let part = update_result(strs(&["a"]), strs(&["x", "y"]), "d".to_string());
    assert_eq!(part.message, "课标全量同步部分成功：1 册完成，2 项失败/跳过。全部按 dzkbw.org 优先。");
    let none = update_result(vec![], strs(&["x", "y"]), "d".to_string());
    assert!(!none.ok);
    assert_eq!(none.message, "课标同步失败：x；y");
    let specs = org_scrape_specs();
    assert_eq!(specs.len(), 5);
    assert_eq!(specs[4].grades, vec![3, 4, 5, 6]);
    assert_eq!(page_text("https://www.dzkbw.org/x", "目录".as_bytes().to_vec()), "目录");
}

fn link(url: &str, grade: u8, semester: &str, score: i32) -> BookLink {
    BookLink { url: url.into(), title: format!("{grade}{semester}"), grade, semester: semester.into(), score }
}

#[test]
fn site_search_plans_fall_back_or_read() {
    let specs = org_scrape_specs();
    let chinese = &specs[0];
    match org_plan(chinese, Err("超时".into())) {
        ScrapePlan::Fallback(u, k) => {
            assert_eq!(u, "http://www.dzkbw.com/books/rjb/yuwen/");
            assert_eq!(k, "/rjb/yuwen/");
        }
        other => panic!("{other:?}"),
    }
    let mut no_fallback = chinese.clone();
    no_fallback.fallback_com = None;
    match org_plan(&no_fallback, Err("超时".into())) {
        ScrapePlan::Fail(m) => assert_eq!(m, "chinese/renjiao org 索引失败: 超时"),
        other => panic!("{other:?}"),
    }
    let english = &specs[4];
    let mut english_only = english.clone();
    english_only.fallback_com = None;
    match org_plan(&english_only, Ok(vec![link("u1", 1, "shang", 3)])) {
        ScrapePlan::Fail(m) => assert_eq!(m, "english/renjiao: 过滤后无可用书目"),
        other => panic!("{other:?}"),
    }
    match org_plan(english, Ok(vec![link("a", 4, "xia", 1), link("b", 3, "shang", 2), link("c", 4, "xia", 5), link("d", 2, "xia", 9)])) {
        ScrapePlan::Read(v) => {
            let got: Vec<&str> = v.iter().map(|b| b.url.as_str()).collect();
            assert_eq!(got, vec!["b", "c"]);
        }
        other => panic!("{other:?}"),
    }
}

#[test]
fn older_site_plans_and_failure_lines() {
    match com_plan("math", "sujiao", Err("404".into())) {
        ScrapePlan::Fail(m) => assert_eq!(m, "math/sujiao 索引失败: 404"),
        other => panic!("{other:?}"),
    }
    match com_plan("math", "sujiao", Ok(vec![link("x", 1, "shang", 0)])) {
        ScrapePlan::Read(v) => assert_eq!(v.len(), 1),
        other => panic!("{other:?}"),
    }
    let specs = org_scrape_specs();
    assert!(retry_on_older_site(&specs[1], true).is_none());
    assert_eq!(
        retry_on_older_site(&specs[1], false),
        Some(("http://www.dzkbw.com/books/bsd/shuxue/".to_string(), "/bsd/shuxue/".to_string()))
    );
    assert_eq!(volume_failure("math/beishida/grade-3-xia", "超时"), "math/beishida/grade-3-xia: 超时");
    assert_eq!(write_failure("math/beishida/grade-3-xia", "磁盘已满"), "math/beishida/grade-3-xia 写入失败: 磁盘已满");
}

#[test]
fn subjects_results_are_joined_in_order() {
    let outcomes = vec![
        (strs(&["语文3上"]), vec![]),
        (vec![], strs(&["数学：无目录"])),
        (strs(&["英语4下", "英语5上"]), strs(&["英语6下：失败"])),
    ];
    let r = subjects_result(&outcomes, "d".to_string());
    assert!(r.ok);
    assert_eq!(r.updated, strs(&["语文3上", "英语4下", "英语5上"]));
    assert_eq!(r.failed, strs(&["数学：无目录", "英语6下：失败"]));
    assert!(r.message.starts_with("课标全量同步部分成功"));
    let none = subjects_result(&vec![(vec![], strs(&["x"])), (vec![], vec![])], "d".to_string());
    assert!(!none.ok);
    assert_eq!(none.message, "课标同步失败：x");
}

#[test]
fn title_score_counts_every_edition_key() {
    let subject = strs(&["语文"]);
    let edition = strs(&["人教", "部编", "统编"]);
    assert_eq!(score_org_book_title("2024部编人教三年级语文", &subject, &edition, &vec![]), 10 + 70 + 25 + 40);
}
