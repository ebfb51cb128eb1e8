use pointer_core::config::auth_header;
use pointer_core::config::chat_url;
use pointer_core::config::ingest_url;
use pointer_core::config::search_url;
use pointer_core::text::decimal_string;

#[test]
fn auth_header_is_bearer_token() {
    assert_eq!(auth_header("tok123"), "Bearer tok123");
    assert_eq!(auth_header(""), "Bearer ");
}

#[test]
fn urls_trim_trailing_slashes() {
    assert_eq!(
        chat_url("https://worker.example.com/"),
        "https://worker.example.com/api/chat"
    );
    assert_eq!(
        chat_url("https://worker.example.com///"),
        "https://worker.example.com/api/chat"
    );
    assert_eq!(
        ingest_url("https://worker.example.com"),
        "https://worker.example.com/api/memory/ingest"
    );
    assert_eq!(
        search_url("https://worker.example.com"),
        "https://worker.example.com/api/memory/search"
    );
}

#[test]
fn decimal_rendering() {
    assert_eq!(decimal_string(0), "0");
    assert_eq!(decimal_string(7), "7");
    assert_eq!(decimal_string(500), "500");
    assert_eq!(decimal_string(65535), "65535");
    assert_eq!(decimal_string(18446744073709551615), "18446744073709551615");
}
