use noc_lens::db::device::{check_new_device, device_from_row, merge_device_update, validate_ip};
use noc_lens::db::group::{group_name, reject_duplicate_name};
use noc_lens::db::settings::{
    concurrency_setting_text, settings_view, shown_concurrency, validate_ssh_concurrency,
};
use noc_lens::db::snapshot::{default_history_limit, normalize_time, snapshot_window};
use noc_lens::db::{not_found, require_affected};
use noc_lens::error::AppError;
use noc_lens::models::{Brand, NewDevice, UpdateDevice};
use noc_lens::scheduler::{query_concurrency, DEFAULT_QUERY_CONCURRENCY, MAX_QUERY_CONCURRENCY};

fn new_device(ip: &str) -> NewDevice {
    NewDevice {
        ip_address: ip.to_string(),
        username: "admin".to_string(),
        password: "secret".to_string(),
        note: None,
        brand: Brand::Cisco,
    }
}

#[test]
fn brand_names_roundtrip() {
    for b in [Brand::Cisco, Brand::Aruba, Brand::FortigateNgfw, Brand::PaloAlto] {
        assert_eq!(Brand::parse(b.as_str()), Some(b));
    }
    assert_eq!(Brand::as_str(&Brand::FortigateNgfw), "fortigate_ngfw");
    assert_eq!(Brand::parse("Cisco"), None);
    assert_eq!(Brand::parse("juniper"), None);
}

#[test]
fn error_codes_and_messages() {
    let cases = vec![
        (AppError::Db("x".into()), "DB_ERROR", "資料庫錯誤：x"),
        (AppError::Validation("x".into()), "VALIDATION", "驗證錯誤：x"),
        (AppError::NotFound("x".into()), "NOT_FOUND", "找不到資料：x"),
        (AppError::DuplicateIp("x".into()), "DUPLICATE_IP", "IP 位址重複：x"),
        (AppError::UnsupportedBrand("x".into()), "UNSUPPORTED_BRAND", "不支援的品牌：x"),
        (AppError::DuplicateName("x".into()), "DUPLICATE_NAME", "名稱重複：x"),
        (AppError::File("x".into()), "FILE_ERROR", "檔案錯誤：x"),
        (AppError::Parse("x".into()), "PARSE_ERROR", "解析錯誤：x"),
        (AppError::Crypto("x".into()), "CRYPTO_ERROR", "加密錯誤：x"),
        (AppError::Keyring("x".into()), "KEYRING_ERROR", "金鑰庫錯誤：x"),
        (AppError::AiUnavailable("x".into()), "AI_UNAVAILABLE", "AI 服務無法使用：x"),
        (AppError::AiConfigMissing("x".into()), "AI_CONFIG_MISSING", "AI 設定缺漏：x"),
    ];
    let mut codes: Vec<&str> = Vec::new();
    for (e, code, message) in cases {
        assert_eq!(e.code(), code);
        assert_eq!(e.message(), message);
        assert!(!codes.contains(&code));
        codes.push(code);
    }
}

#[test]
fn reject_invalid_and_duplicate_ip() {
    let e = validate_ip("not-an-ip", false).unwrap_err();
    assert_eq!(e.code(), "VALIDATION");
    assert_eq!(e.message(), "驗證錯誤：不合法的 IP 位址：not-an-ip");
    assert!(validate_ip("10.0.0.1", true).is_ok());
    assert_eq!(check_new_device(&new_device("10.0.0.2"), true, true).unwrap_err().code(), "DUPLICATE_IP");
    assert_eq!(check_new_device(&new_device("bad"), false, true).unwrap_err().code(), "VALIDATION");
    assert!(check_new_device(&new_device("10.0.0.3"), true, false).is_ok());
}

#[test]
fn device_update_keeps_fields_left_out() {
    let existing = device_from_row(
        "d1".into(), "10.0.0.3".into(), "admin".into(), Some("core".into()), "aruba".into(),
        "t0".into(), "t1".into(),
    )
    .unwrap();
    assert_eq!(existing.brand, Brand::Aruba);
    let patch = UpdateDevice {
        ip_address: None,
        username: Some("operator".into()),
        password: None,
        note: None,
        brand: Some(Brand::PaloAlto),
    };
    let r = merge_device_update(existing, patch);
    assert_eq!(r.ip_address, "10.0.0.3");
    assert_eq!(r.username, "operator");
    assert_eq!(r.note.as_deref(), Some("core"));
    assert_eq!(r.brand, Brand::PaloAlto);
    assert_eq!(r.password, None);
}

#[test]
fn stored_row_with_unknown_brand_is_refused() {
    let e = device_from_row(
        "d1".into(), "1.1.1.1".into(), "u".into(), None, "juniper".into(), "t".into(), "t".into(),
    )
    .unwrap_err();
    assert_eq!(e.code(), "UNSUPPORTED_BRAND");
    assert_eq!(e.message(), "不支援的品牌：juniper");
}

#[test]
fn not_found_names_the_record() {
    assert_eq!(not_found("設備", "abc").message(), "找不到資料：設備 abc");
    assert!(require_affected(1, "排程", "x").is_ok());
    assert_eq!(require_affected(0, "排程", "x").unwrap_err().message(), "找不到資料：排程 x");
}

#[test]
fn group_names_are_trimmed_and_unique() {
    assert_eq!(group_name("  高雄三民區 ").unwrap(), "高雄三民區");
    assert_eq!(group_name("   ").unwrap_err().message(), "驗證錯誤：群組名稱不可為空");
    assert_eq!(reject_duplicate_name("高雄三民區", true).unwrap_err().code(), "DUPLICATE_NAME");
    assert!(reject_duplicate_name("高雄三民區", false).is_ok());
}

#[test]
fn time_bounds_are_normalised_to_utc() {
    assert_eq!(normalize_time(None).unwrap(), None);
    assert_eq!(normalize_time(Some("  ")).unwrap(), None);
    assert_eq!(
        normalize_time(Some("2024-05-01T10:00:00+08:00")).unwrap().as_deref(),
        Some("2024-05-01T02:00:00+00:00")
    );
    assert_eq!(normalize_time(Some("yesterday")).unwrap_err().message(), "驗證錯誤：時間格式須為 RFC3339");
}

#[test]
fn snapshot_window_checks_order_and_clamps_limit() {
    let w = snapshot_window(Some("2024-01-01T00:00:00Z"), Some("2024-01-02T00:00:00Z"), Some(0)).unwrap();
    assert_eq!(w.from.as_deref(), Some("2024-01-01T00:00:00+00:00"));
    assert_eq!(w.to.as_deref(), Some("2024-01-02T00:00:00+00:00"));
    assert_eq!(w.limit, 1);
    assert_eq!(snapshot_window(None, None, Some(9999)).unwrap().limit, 500);
    assert_eq!(snapshot_window(None, None, Some(20)).unwrap().limit, 20);
    assert_eq!(snapshot_window(None, None, None).unwrap().limit, -1);
    let e = snapshot_window(Some("2024-01-02T00:00:00Z"), Some("2024-01-01T00:00:00Z"), None).unwrap_err();
    assert_eq!(e.message(), "驗證錯誤：from 不可晚於 to");
    assert!(snapshot_window(Some("2024-01-01T00:00:00Z"), Some("2024-01-01T00:00:00Z"), None).is_ok());
}

#[test]
fn history_listing_defaults_to_last_fifty() {
    assert_eq!(default_history_limit(false, false, None), Some(50));
    assert_eq!(default_history_limit(false, false, Some(3)), Some(3));
    assert_eq!(default_history_limit(true, false, None), None);
}

#[test]
fn concurrency_setting_roundtrip() {
    for v in [1u32, 7, MAX_QUERY_CONCURRENCY as u32] {
        let text = concurrency_setting_text(v).unwrap();
        assert_eq!(text, v.to_string());
        assert_eq!(shown_concurrency(Some(text.clone())), v);
        assert_eq!(query_concurrency(Some(text)), v as usize);
    }
    let e = validate_ssh_concurrency(0).unwrap_err();
    assert_eq!(e.message(), format!("驗證錯誤：SSH 同時連線上限需介於 1 到 {}", MAX_QUERY_CONCURRENCY));
    assert!(validate_ssh_concurrency(MAX_QUERY_CONCURRENCY as u32 + 1).is_err());
}

#[test]
fn shown_concurrency_clamps_or_defaults() {
    assert_eq!(shown_concurrency(None), DEFAULT_QUERY_CONCURRENCY as u32);
    assert_eq!(shown_concurrency(Some("abc".into())), DEFAULT_QUERY_CONCURRENCY as u32);
    assert_eq!(shown_concurrency(Some("0".into())), 1);
    assert_eq!(shown_concurrency(Some("100000".into())), MAX_QUERY_CONCURRENCY as u32);
}

#[test]
fn settings_view_fills_defaults() {
    let s = settings_view(None, Some("gpt".into()), None, true);
    assert_eq!(s.ai_base_url, "");
    assert_eq!(s.ai_model, "gpt");
    assert_eq!(s.ssh_max_concurrency, DEFAULT_QUERY_CONCURRENCY as u32);
    assert!(s.ai_key_set);
}
