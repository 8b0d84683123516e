use shijuan::storage::{backup_file_name, format_unique_id, pick_readable};

#[test]
fn backups_sit_beside_their_files() {
    assert_eq!(backup_file_name("data.json"), "data.json.bak");
    assert_eq!(backup_file_name("secret.key.bin"), "secret.key.bin.bak");
    assert_eq!(backup_file_name("store"), "store.data.bak");
    assert_eq!(backup_file_name(".env"), ".env.data.bak");
    assert_eq!(backup_file_name(""), ".data.bak");
}

#[test]
fn reads_take_the_main_copy_then_the_backup() {
    assert_eq!(pick_readable(Some(Ok(1)), Some(Ok(2))), Ok(Some(1)));
    assert_eq!(pick_readable(Some(Err("broken".to_string())), Some(Ok(2))), Ok(Some(2)));
    assert_eq!(pick_readable::<i32>(None, Some(Ok(2))), Ok(Some(2)));
    assert_eq!(
        pick_readable::<i32>(Some(Err("expected value".to_string())), Some(Err("eof".to_string()))),
        Err("数据文件及备份均无法读取: expected value".to_string())
    );
    assert_eq!(
        pick_readable::<i32>(None, Some(Err("eof".to_string()))),
        Err("数据文件及备份均无法读取: eof".to_string())
    );
    assert_eq!(pick_readable::<i32>(None, None), Ok(None));
}

#[test]
fn ids_are_written_in_hex_and_differ_by_count() {
    assert_eq!(format_unique_id("item", 12, 255, 16), "item-12-ff-10");
    assert_eq!(format_unique_id("tpl", 7, 0, 0), "tpl-7-0-0");
    assert_ne!(format_unique_id("item", 1, 99, 1), format_unique_id("item", 1, 99, 2));
}

use shijuan::printing::{file_url_of, print_body};

#[test]
fn printed_pages_state_their_charset() {
    assert_eq!(
        print_body("<html><head><title>卷</title></head><body>1+1</body></html>"),
        "<html><head><meta charset=\"UTF-8\" /><title>卷</title></head><body>1+1</body></html>"
    );
    let stated = "<html><head><meta charset=\"gbk\"></head></html>";
    assert_eq!(print_body(stated), stated);
    assert_eq!(print_body("<p>no head</p>"), "<p>no head</p>");
}

#[test]
fn file_urls_use_forward_slashes() {
    assert_eq!(file_url_of("\\\\?\\C:\\Temp\\print-1.html"), "file:///C:/Temp/print-1.html");
    assert_eq!(file_url_of("/tmp/shijuan-shenqi-print/print-1.html"), "file:///tmp/shijuan-shenqi-print/print-1.html");
}

use shijuan::appsj::paper_page_text;

#[test]
fn paper_pages_are_utf8_else_gbk() {
    assert_eq!(paper_page_text("三年级".as_bytes().to_vec()), "三年级");
    assert_eq!(paper_page_text(vec![0xC4, 0xEA, 0xBC, 0xB6]), "年级");
}
