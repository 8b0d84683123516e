use shijuan::appsj::{
    add_listing_links, check_sync_request, detail_failure, edition_of, extract_listing_links, parse_resource, pick_verified_math_expressions, exam_type_of, grade_semester_slug, listing_url, merge_resources,
    pick_resource_snippets, resource_matches, sort_newest_first, subject_of, sync_limits, sync_message,
    title_matches, decode_entities, AppSjResource, AppSjSyncRequest,
};

fn request(subject: &str, grade: u8, semester: &str, exam_type: &str, unit_name: &str) -> AppSjSyncRequest {
    AppSjSyncRequest {
        subject: subject.into(),
        grade,
        semester: semester.into(),
        exam_type: exam_type.into(),
        unit_name: unit_name.into(),
        ..Default::default()
    }
}

fn resource(id: &str, title: &str, synced_at: u64) -> AppSjResource {
    AppSjResource {
        id: id.into(),
        title: title.into(),
        url: format!("https://appsj.szxuexiao.com/html/{id}.html"),
        subject: subject_of(title).into(),
        grade: 3,
        semester: "xia".into(),
        edition: edition_of(title).into(),
        exam_type: exam_type_of(title).into(),
        unit_name: String::new(),
        content: "一、计算题 432÷4、208×5、846÷6".into(),
        download_url: String::new(),
        download_code: String::new(),
        source_name: "小学试卷网".into(),
        source_home: "https://appsj.szxuexiao.com".into(),
        synced_at,
    }
}

#[test]
fn title_filter_respects_subject_and_exam_type() {
    let request = request("chinese", 3, "shang", "unit", "第四单元");
    assert!(title_matches("统编版三年级语文上册第四单元测试卷", &request));
    assert!(!title_matches("统编版三年级语文上册期末测试卷", &request));
    assert!(!title_matches("三年级数学上册第四单元测试卷", &request));
}

#[test]
fn title_filter_accepts_unit_number_with_spaces() {
    let request = request("math", 3, "shang", "unit", "第 二 单元 测量");
    assert!(title_matches("三年级数学上册第二单元测试卷", &request));
    assert!(!title_matches("三年级数学上册第三单元测试卷", &request));
}

#[test]
fn classifies_titles() {
    assert_eq!(subject_of("北师大版三年级数学下册期末测试卷"), "math");
    assert_eq!(edition_of("北师大版三年级数学下册期末测试卷"), "beishida");
    assert_eq!(exam_type_of("北师大版三年级数学下册期末测试卷"), "final");
    assert_eq!(exam_type_of("口算专项练习"), "oral");
    assert_eq!(edition_of("部编版语文"), "renjiao");
    assert_eq!(subject_of("科学"), "");
}

#[test]
fn slugs_and_checks() {
    assert_eq!(grade_semester_slug(3, "shang").unwrap(), "shannianji_s");
    assert_eq!(grade_semester_slug(6, "xia").unwrap(), "liunianji_x");
    assert_eq!(grade_semester_slug(7, "xia").unwrap_err(), "仅支持 1-6 年级及上/下册");
    assert_eq!(check_sync_request(&request("math", 0, "xia", "", "")).unwrap_err(), "题库同步仅支持小学 1-6 年级");
    assert_eq!(check_sync_request(&request("art", 2, "xia", "", "")).unwrap_err(), "题库同步仅支持数学、语文和英语");
    assert_eq!(check_sync_request(&request("math", 2, "xia", "", "")).unwrap(), "ernianji_x");
    assert_eq!(listing_url("ernianji_x", 1), "https://appsj.szxuexiao.com/ernianji_x/index.html");
    assert_eq!(listing_url("ernianji_x", 3), "https://appsj.szxuexiao.com/ernianji_x/index_3.html");
    let mut r = request("math", 2, "xia", "", "");
    assert_eq!(sync_limits(&r), (3, 20));
    r.max_pages = Some(9);
    r.max_items = Some(0);
    assert_eq!(sync_limits(&r), (5, 1));
}

#[test]
fn merge_replaces_by_id_and_sorts_newest_first() {
    let store = vec![resource("1", "三年级数学下册期末测试卷", 10), resource("2", "三年级数学下册期中测试卷", 20)];
    let parsed = vec![resource("1", "三年级数学下册期末测试卷（新）", 30), resource("3", "三年级数学下册单元测试卷", 5)];
    let (merged, added, updated) = merge_resources(store, parsed);
    assert_eq!((added, updated), (1, 1));
    let ids: Vec<&str> = merged.iter().map(|r| r.id.as_str()).collect();
    assert_eq!(ids, vec!["1", "2", "3"]);
    assert_eq!(merged[0].title, "三年级数学下册期末测试卷（新）");
    let (ok, msg) = sync_message(2, added, updated);
    assert!(ok);
    assert_eq!(msg, "已同步 2 份公开网页素材，新增 1，更新 1");
    assert!(!sync_message(0, 0, 0).0);
}

#[test]
fn sort_keeps_order_of_equal_times() {
    let v = vec![resource("a", "数学", 5), resource("b", "数学", 9), resource("c", "数学", 5)];
    let ids: Vec<String> = sort_newest_first(v).into_iter().map(|r| r.id).collect();
    assert_eq!(ids, vec!["b", "a", "c"]);
}

#[test]
fn snippets_pick_matching_pages() {
    let v = vec![
        resource("1", "北师大版三年级数学下册期末测试卷", 10),
        resource("2", "三年级语文下册期末测试卷", 20),
        resource("3", "苏教版三年级数学下册期末测试卷", 30),
    ];
    assert!(resource_matches(&v[0], "math", "beishida", 3, "xia", "final", ""));
    assert!(!resource_matches(&v[2], "math", "beishida", 3, "xia", "final", ""));
    let s = pick_resource_snippets(v, "math", "", 3, "xia", "final", "", 1);
    assert_eq!(s.len(), 1);
    assert!(s[0].starts_with("来源《苏教版三年级数学下册期末测试卷》\n"));
}

#[test]
fn listing_parser_deduplicates_detail_links() {
    let html = r#"
            <a class="list-group-item" href="/html/7092.html">三年级数学下册期末测试卷</a>
            <a class="list-group-item other" href="/html/7092.html">重复</a>
            <a class="list-group-item" href="/html/7041.html"><b>统编版三年级语文下册第四单元测试卷</b></a>
        "#;
    let links = extract_listing_links(html);
    assert_eq!(links.len(), 2);
    assert!(links[1].1.contains("第四单元"));
}

#[test]
fn detail_parser_extracts_public_text_and_source_link() {
    let html = r#"
            <h2 class="post-title">北师大版三年级数学下册期末测试卷</h2>
            <div class="entry-content">
              <p><b>试卷结构</b></p><p>一、计算题 20 分</p>
              <p>432÷4、208×5、846÷6</p>
              <div class="download-section"><a href="https://pan.baidu.com/s/demo?pwd=abcd">下载</a><span>提取码：</span><b>abcd</b></div>
            </div><div class="share-block"></div>
        "#;
    let request = AppSjSyncRequest {
        subject: "math".into(),
        grade: 3,
        semester: "xia".into(),
        exam_type: "final".into(),
        ..Default::default()
    };
    let resource = parse_resource(html, "fallback", "https://appsj.szxuexiao.com/html/1.html", &request, 0).unwrap();
    assert!(resource.content.contains("432÷4"));
    assert!(!resource.content.contains("下载"));
    assert_eq!(resource.download_url, "https://pan.baidu.com/s/demo?pwd=abcd");
    assert_eq!(resource.exam_type, "final");
}

#[test]
fn detail_parser_rejects_page_without_entry() {
    let request = request("math", 3, "xia", "final", "");
    let r = parse_resource("<h2 class=\"post-title\">x</h2>", "fallback", "https://appsj.szxuexiao.com/html/1.html", &request, 0);
    assert_eq!(r.unwrap_err(), "详情页缺少正文区域");
}

#[test]
fn picks_checked_expressions_from_matching_pages() {
    let mut math = resource("7092", "北师大版三年级数学下册期末测试卷", 1);
    math.content = "一、计算题 432÷4、208×5、432÷4 和 (12+3)".into();
    let chinese = resource("7041", "统编版三年级语文下册第四单元测试卷", 2);
    let all = vec![math, chinese];
    let found = pick_verified_math_expressions(&all, "", 3, "xia", "final", "", 10);
    assert_eq!(found.len(), 3);
    assert_eq!(found[0].0, "432÷4");
    assert_eq!(found[0].1, "108");
    assert_eq!(found[1].0, "208×5");
    assert_eq!(found[1].1, "1040");
    assert_eq!(found[2].0, "12+3");
    assert_eq!(found[2].2, "北师大版三年级数学下册期末测试卷");
    let one = pick_verified_math_expressions(&all, "", 3, "xia", "final", "", 0);
    assert_eq!(one.len(), 1);
}

#[test]
fn listing_links_are_kept_once_and_when_titles_match() {
    let request = request("math", 3, "xia", "final", "");
    let mut links: Vec<(String, String)> = Vec::new();
    let mut seen: Vec<String> = Vec::new();
    let page1 = vec![
        ("https://appsj.szxuexiao.com/html/1.html".to_string(), "三年级数学下册期末测试卷".to_string()),
        ("https://appsj.szxuexiao.com/html/2.html".to_string(), "三年级语文下册期末测试卷".to_string()),
        ("https://appsj.szxuexiao.com/html/1.html".to_string(), "重复".to_string()),
    ];
    assert!(!add_listing_links(&mut links, &mut seen, page1, &request, 2));
    assert_eq!(links.len(), 1);
    assert_eq!(seen.len(), 2);
    let page2 = vec![
        ("https://appsj.szxuexiao.com/html/2.html".to_string(), "三年级数学下册期末测试卷（二）".to_string()),
        ("https://appsj.szxuexiao.com/html/3.html".to_string(), "北师大版三年级数学下册期末测试卷".to_string()),
    ];
    assert!(add_listing_links(&mut links, &mut seen, page2, &request, 2));
    assert_eq!(links[1].0, "https://appsj.szxuexiao.com/html/3.html");
    assert_eq!(detail_failure("三年级数学", "详情页缺少正文区域"), "三年级数学: 详情页缺少正文区域");
}

#[test]
fn numeric_references_are_decoded() {
    assert_eq!(decode_entities("&#20320;&#22909; A&#65;B &#1114112; &amp;"), "你好 AAB  &");
    assert_eq!(decode_entities("no refs &#x41;"), "no refs &#x41;");
    assert_eq!(decode_entities("&#65;&#65;"), "AA");
}
