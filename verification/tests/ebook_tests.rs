use shijuan::ebook::{
    check_reply, check_unit_request, clamp_max_pages, endpoint_url, fetch_catalog, find_unit_entry,
    folder_from_picture_url, normalize_base, page_anchor, page_end, page_file_name, page_input_url, parse_ebook_url,
    parse_page_num, signed_url, unit_pages, CatalogEntry, CatalogRow, EbookCatalogItem, JsonScalar, PageAnchor,
    PictureRow,
};

fn unit(book_id: &str, name: &str, deep: &str) -> EbookCatalogItem {
    EbookCatalogItem { book_id: book_id.into(), cata_name: name.into(), deep: deep.into(), parent_id: String::new() }
}

#[test]
fn bases_are_trimmed_or_defaulted() {
    assert_eq!(normalize_base("  https://www.100875.com.cn///  "), "https://www.100875.com.cn");
    assert_eq!(normalize_base("   "), "https://www.100875.com.cn");
    assert_eq!(endpoint_url("https://a.example/", "/ebook/catalogList"), "https://a.example/ebook/catalogList");
}

#[test]
fn replies_other_than_success_fail() {
    assert!(check_reply(&Some("success".into()), &None).is_ok());
    assert_eq!(check_reply(&Some("error".into()), &Some("签名过期".into())).unwrap_err(), "接口返回失败: 签名过期");
    assert_eq!(check_reply(&None, &None).unwrap_err(), "接口返回失败: 未知错误");
}

#[test]
fn catalog_keeps_entries_with_book_ids() {
    assert_eq!(fetch_catalog(&None).unwrap_err(), "目录 data 为空");
    let row = CatalogRow {
        book_name: Some("数学三年级下册".into()),
        subject_name: Some("数学".into()),
        subject_id: None,
        section_id: None,
        version_id: None,
        picture: None,
        catalog_list: Some(vec![
            CatalogEntry { book_id: Some("b1".into()), cata_name: Some("一 除法".into()), deep: Some(JsonScalar::Int(5)), parent_id: None },
            CatalogEntry { book_id: None, cata_name: Some("封面".into()), deep: None, parent_id: None },
            CatalogEntry { book_id: Some("b2".into()), cata_name: Some("二 图形".into()), deep: Some(JsonScalar::Text("5".into())), parent_id: None },
        ]),
    };
    let c = fetch_catalog(&Some(row)).unwrap();
    assert_eq!(c.book_name, "数学三年级下册");
    assert_eq!(c.items.len(), 2);
    assert_eq!(c.items[0].deep, "5");
    assert_eq!(c.items[1].book_id, "b2");
}

#[test]
fn page_numbers_parse() {
    assert_eq!(parse_page_num(" 12 "), Some(12));
    assert_eq!(parse_page_num("+7"), Some(7));
    assert_eq!(parse_page_num("7a"), None);
    assert_eq!(parse_page_num(""), None);
    assert_eq!(parse_page_num("99999999999"), None);
}

#[test]
fn picture_folders_and_page_files() {
    assert_eq!(
        folder_from_picture_url("https://cdn.example.com/books/3x/012.jpg?sign=1").unwrap(),
        "books/3x/"
    );
    assert!(folder_from_picture_url("https://cdn.example.com/a.jpg").unwrap_err().starts_with("无法从图片 URL 解析目录"));
    assert_eq!(page_file_name(7), "007.jpg");
    assert_eq!(page_file_name(1234), "1234.jpg");
    assert_eq!(page_input_url("books/3x/", 15), "books/3x/015.jpg");
}

#[test]
fn anchors_read_picture_rows() {
    assert_eq!(page_anchor(&None).unwrap_err(), "bookPictureList data 为空");
    let wu = PictureRow { picture: Some("wu".into()), index_num: None, total_num: None };
    assert_eq!(page_anchor(&Some(wu)).unwrap_err(), "该单元暂无页图资源");
    let row = PictureRow {
        picture: Some("https://cdn.example.com/books/3x/012.jpg".into()),
        index_num: Some(JsonScalar::Text("12".into())),
        total_num: Some(JsonScalar::Int(96)),
    };
    let a = page_anchor(&Some(row)).unwrap();
    assert_eq!((a.index, a.total), (12, 96));
    assert_eq!(a.folder_rel, "books/3x/");
}

#[test]
fn unit_requests_are_checked_and_clamped() {
    assert_eq!(check_unit_request("", "c").unwrap_err(), "bookId 为空");
    assert_eq!(check_unit_request("b", "").unwrap_err(), "contributeId 为空（链接里 contributeId 参数）");
    assert!(check_unit_request("b", "c").is_ok());
    assert_eq!(clamp_max_pages(0), 1);
    assert_eq!(clamp_max_pages(200), 80);
    assert_eq!(clamp_max_pages(30), 30);
}

#[test]
fn units_are_found_among_main_entries() {
    let items = vec![unit("b0", "目录", "4"), unit("b1", "一", "5"), unit("b2", "二", "5"), unit("b3", "三", "")];
    assert_eq!(find_unit_entry(&items, "b2").unwrap(), (2, Some(3)));
    assert_eq!(find_unit_entry(&items, "b3").unwrap(), (3, None));
    assert!(find_unit_entry(&items, "b0").is_err());
    let none_main = vec![unit("x", "甲", "4"), unit("y", "乙", "4")];
    assert_eq!(find_unit_entry(&none_main, "x").unwrap(), (0, Some(1)));
}

#[test]
fn unit_ends_follow_next_unit_and_limits() {
    assert_eq!(page_end(10, 96, Some(20), 80), 19);
    assert_eq!(page_end(10, 96, Some(5), 80), 89);
    assert_eq!(page_end(10, 96, None, 5), 14);
    assert_eq!(page_end(10, 12, None, 80), 12);
}

#[test]
fn unit_pages_start_with_the_anchor_picture() {
    let start = PageAnchor { index: 12, total: 96, picture: "p12".into(), folder_rel: "books/3x/".into() };
    let pages = unit_pages("书".into(), "数学".into(), "一".into(), "b1", start, 14, vec!["p13".into(), "p14".into()]);
    assert_eq!(pages.pages.len(), 3);
    assert_eq!(pages.pages[0].url, "p12");
    assert_eq!(pages.pages[2].index, 14);
    assert_eq!(pages.pages[2].url, "p14");
    assert_eq!(signed_url(None).unwrap_err(), "generateUrl 未返回 URL");
    assert_eq!(signed_url(Some("u".into())).unwrap(), "u");
}

#[test]
fn ebook_links_are_parsed() {
    assert_eq!(parse_ebook_url("  ").unwrap_err(), "链接为空");
    let l = parse_ebook_url("https://www.100875.com.cn/eBookAndTeacher.html?resId=R1&bookId=B%201&firstNum=3&contributeId=C9").unwrap();
    assert_eq!(l.base_url, "https://www.100875.com.cn");
    assert_eq!(l.res_id, "R1");
    assert_eq!(l.book_id, "B 1");
    assert_eq!(l.contribute_id, "C9");
    assert_eq!(l.first_num, "3");
    assert_eq!(parse_ebook_url("https://www.100875.com.cn/x.html?bookId=1").unwrap_err(), "链接中缺少 resId");
    assert!(parse_ebook_url("not a url").unwrap_err().starts_with("链接无法解析: "));
}
