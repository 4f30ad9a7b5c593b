use noc_lens::ai::client::{chat_completions_url, validate_base_url};
use noc_lens::db::settings::base_url_setting;

#[test]
fn accepts_https_remote_endpoint() {
    let url = chat_completions_url("https://api.openai.com/v1").unwrap();
    assert_eq!(url.as_str(), "https://api.openai.com/v1/chat/completions");
}

#[test]
fn accepts_loopback_http_endpoint() {
    let url = chat_completions_url("http://localhost:11434/v1").unwrap();
    assert_eq!(url.as_str(), "http://localhost:11434/v1/chat/completions");
}

#[test]
fn rejects_plain_http_remote_endpoint() {
    let err = chat_completions_url("http://example.com/v1").unwrap_err();
    assert_eq!(err.code(), "VALIDATION");
}

#[test]
fn rejects_private_ip_literal_endpoint() {
    let err = chat_completions_url("https://192.168.1.10/v1").unwrap_err();
    assert_eq!(err.code(), "VALIDATION");
}

#[test]
fn rejects_query_or_fragment_endpoint() {
    let err = chat_completions_url("https://api.openai.com/v1?x=1").unwrap_err();
    assert_eq!(err.code(), "VALIDATION");
}

#[test]
fn base_url_drops_trailing_slash() {
    assert_eq!(validate_base_url("https://api.openai.com/v1/").unwrap(), "https://api.openai.com/v1");
    assert_eq!(
        chat_completions_url("https://api.openai.com/v1/").unwrap(),
        "https://api.openai.com/v1/chat/completions"
    );
}

#[test]
fn loopback_ip_literal_may_use_http() {
    assert_eq!(validate_base_url("http://127.0.0.1:8080/v1").unwrap(), "http://127.0.0.1:8080/v1");
}

#[test]
fn rejects_link_local_and_unspecified_literals() {
    assert_eq!(validate_base_url("https://169.254.169.254/v1").unwrap_err().code(), "VALIDATION");
    assert_eq!(validate_base_url("https://10.0.0.5/v1").unwrap_err().code(), "VALIDATION");
    assert_eq!(validate_base_url("https://0.0.0.0/v1").unwrap_err().code(), "VALIDATION");
}

#[test]
fn rejects_credentials_in_url() {
    assert_eq!(validate_base_url("https://user:pw@api.openai.com/v1").unwrap_err().code(), "VALIDATION");
}

#[test]
fn rejects_unparseable_url() {
    assert_eq!(validate_base_url("not a url").unwrap_err().code(), "VALIDATION");
    assert_eq!(validate_base_url("ftp://example.com/v1").unwrap_err().code(), "VALIDATION");
}

#[test]
fn base_url_setting_clears_or_normalises() {
    assert_eq!(base_url_setting("   ").unwrap(), "");
    assert_eq!(base_url_setting("  https://api.openai.com/v1/  ").unwrap(), "https://api.openai.com/v1");
    assert_eq!(base_url_setting("http://example.com").unwrap_err().code(), "VALIDATION");
}
