use shijuan::ai::{check_cancel, extract_json, normalize_api_base, CancelFlag};

#[test]
fn normalize_strips_completions() {
    assert_eq!(
        normalize_api_base("https://api.openai.com/v1/chat/completions"),
        "https://api.openai.com/v1"
    );
    assert_eq!(
        normalize_api_base("https://hello.vangularcode.asia/v1/"),
        "https://hello.vangularcode.asia/v1"
    );
}

#[test]
fn normalize_keeps_plain_base_and_drops_query() {
    assert_eq!(normalize_api_base("  https://x.test/v1  "), "https://x.test/v1");
    assert_eq!(normalize_api_base("https://x.test/v1/COMPLETIONS?key=1"), "https://x.test/v1");
    assert_eq!(normalize_api_base("https://x.test/v1///"), "https://x.test/v1");
}

#[test]
fn extract_json_from_fence_and_braces() {
    assert_eq!(extract_json("```json\n{\"a\":1}\n```").unwrap(), "{\"a\":1}");
    assert_eq!(extract_json("好的：{\"a\":1} 完").unwrap(), "{\"a\":1}");
    assert!(extract_json("no json here").is_err());
}

#[test]
fn cancel_flag_round_trip() {
    let f = CancelFlag::new();
    assert!(!f.is_cancelled());
    f.request_cancel();
    assert!(f.is_cancelled());
    assert_eq!(check_cancel(f.is_cancelled()).unwrap_err(), "已取消生成");
    f.clear_cancel_flag();
    assert!(check_cancel(f.is_cancelled()).is_ok());
}

#[test]
fn normalized_api_base_settles() {
    for raw in ["https://api.openai.com/v1/chat/completions", " https://x.test/v1/// ", "https://x.test/v1?x=1"] {
        let once = normalize_api_base(raw);
        assert_eq!(normalize_api_base(&once), once);
    }
    // each pass cuts one completions path
    assert_eq!(normalize_api_base("https://x.test/completions/completions"), "https://x.test/completions");
    assert_eq!(normalize_api_base("https://x.test/completions"), "https://x.test");
}
