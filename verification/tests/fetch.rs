use neko_rss::fetch::{body_preview, user_agent, FetchError};

#[test]
fn user_agent_defaults() {
    assert_eq!(user_agent(None), "NekoRSS/1.0 (+https://github.com/imnyang/memos-rss)");
    assert_eq!(user_agent(Some("Custom/2.0".to_string())), "Custom/2.0");
    assert_eq!(user_agent(Some(String::new())), "");
}

#[test]
fn preview_keeps_200_characters() {
    assert_eq!(body_preview("short"), "short");
    assert_eq!(body_preview(""), "");
    let exact: String = "a".repeat(200);
    assert_eq!(body_preview(&exact), exact);
    let long: String = "b".repeat(201);
    assert_eq!(body_preview(&long), "b".repeat(200));
    let wide: String = "é".repeat(300);
    assert_eq!(body_preview(&wide), "é".repeat(200));
}

#[test]
fn parse_failure_report() {
    let body = format!("<html>{}</html>", "x".repeat(300));
    let e = FetchError::parse_failure("404 Not Found", "no root element", &body);
    assert_eq!(e.status, "404 Not Found");
    assert_eq!(e.reason, "no root element");
    assert_eq!(e.body_preview, format!("<html>{}", "x".repeat(194)));
    assert_eq!(
        e.message(),
        format!("Failed to parse feed (Status: 404 Not Found): no root element | Body preview: <html>{}", "x".repeat(194))
    );
}
