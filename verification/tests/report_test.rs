use noc_lens::ai::report::{
    ai_config, check_reply_status, gather_device_ids, max_value, reply_content, report_title,
    resolve_device_ids, sorted_unique, status_counts,
};

fn strings(v: &[&str]) -> Vec<String> {
    v.iter().map(|s| s.to_string()).collect()
}

#[test]
fn sorted_unique_sorts_and_dedups() {
    assert_eq!(sorted_unique(strings(&["b", "a", "c", "a", "b"])), strings(&["a", "b", "c"]));
    assert_eq!(sorted_unique(Vec::new()), Vec::<String>::new());
    let mut expected = strings(&["設備", "Z", "a", "10", "9"]);
    expected.sort();
    expected.dedup();
    assert_eq!(sorted_unique(strings(&["設備", "Z", "a", "10", "9", "Z"])), expected);
}

#[test]
fn scope_devices_then_group_members() {
    let listed = Some(strings(&["d3", "d1"]));
    let groups = vec![strings(&["d2", "d3"]), strings(&["d4"])];
    assert_eq!(gather_device_ids(&listed, &groups), strings(&["d3", "d1", "d2", "d3", "d4"]));
    let all = strings(&["d9", "d8"]);
    assert_eq!(resolve_device_ids(&listed, &groups, &all), strings(&["d1", "d2", "d3", "d4"]));
}

#[test]
fn empty_scope_means_every_device() {
    let all = strings(&["d9", "d8", "d9"]);
    assert_eq!(resolve_device_ids(&None, &Vec::new(), &all), strings(&["d8", "d9"]));
    assert_eq!(resolve_device_ids(&Some(Vec::new()), &vec![Vec::new()], &all), strings(&["d8", "d9"]));
}

#[test]
fn status_counts_by_status() {
    let c = status_counts(&strings(&["ok", "failed", "ok", "partial", "ok"]));
    assert_eq!(c, vec![("failed".to_string(), 1), ("ok".to_string(), 3), ("partial".to_string(), 1)]);
    assert!(status_counts(&Vec::new()).is_empty());
}

#[test]
fn max_of_values() {
    assert_eq!(max_value(&vec![1, 5, -2, 5]), Some(5));
    assert_eq!(max_value(&vec![-3]), Some(-3));
    assert_eq!(max_value(&Vec::new()), None);
}

#[test]
fn report_title_default() {
    assert_eq!(report_title(None), "設備健康摘要報告");
    assert_eq!(report_title(Some("月報".to_string())), "月報");
}

#[test]
fn ai_config_requires_key_and_url() {
    let e = ai_config(Some("https://api.openai.com/v1".into()), None, None).unwrap_err();
    assert_eq!(e.code(), "AI_CONFIG_MISSING");
    assert_eq!(e.message(), "AI 設定缺漏：請先於設定填入 AI 端點與金鑰");
    let e = ai_config(Some("  ".into()), None, Some("k".into())).unwrap_err();
    assert_eq!(e.code(), "AI_CONFIG_MISSING");
    let e = ai_config(None, None, Some("k".into())).unwrap_err();
    assert_eq!(e.code(), "AI_CONFIG_MISSING");
    let e = ai_config(Some("http://example.com/v1".into()), None, Some("k".into())).unwrap_err();
    assert_eq!(e.code(), "VALIDATION");
}

#[test]
fn ai_config_defaults_model() {
    let c = ai_config(Some("https://api.openai.com/v1/".into()), Some("  ".into()), Some("k".into())).unwrap();
    assert_eq!(c.base_url, "https://api.openai.com/v1");
    assert_eq!(c.model, "gpt-4o-mini");
    assert_eq!(c.api_key, "k");
    let c = ai_config(Some("https://api.openai.com/v1".into()), Some("llama3".into()), Some("k".into())).unwrap();
    assert_eq!(c.model, "llama3");
    let c = ai_config(Some("https://api.openai.com/v1".into()), None, Some("k".into())).unwrap();
    assert_eq!(c.model, "gpt-4o-mini");
}

#[test]
fn ai_replies() {
    assert!(check_reply_status(true, "200 OK").is_ok());
    let e = check_reply_status(false, "500 Internal Server Error").unwrap_err();
    assert_eq!(e.code(), "AI_UNAVAILABLE");
    assert_eq!(e.message(), "AI 服務無法使用：AI 端點回應狀態 500 Internal Server Error");
    assert_eq!(reply_content(Some("摘要".into())).unwrap(), "摘要");
    assert_eq!(reply_content(None).unwrap_err().message(), "AI 服務無法使用：AI 回應格式不正確");
}
