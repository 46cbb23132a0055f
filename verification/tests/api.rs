use kefilex_desk::api::{
    accept_pair_response, api_base_or_default, check_status, endpoint_url, status_error, truncate,
    user_agent, PairResponse, DEFAULT_API_BASE, DEV_API_BASE,
};

#[test]
fn endpoint_urls() {
    assert_eq!(
        endpoint_url("https://app.kefilex.com", "pair"),
        "https://app.kefilex.com/api/desk-companion/pair"
    );
    assert_eq!(
        endpoint_url("http://localhost:3000", "call-event"),
        "http://localhost:3000/api/desk-companion/call-event"
    );
}

#[test]
fn truncate_short_string_unchanged() {
    assert_eq!(truncate("hello", 300), "hello");
    assert_eq!(truncate("hello", 5), "hello");
    assert_eq!(truncate("", 0), "");
}

#[test]
fn truncate_long_string_gets_ellipsis() {
    assert_eq!(truncate("hello world", 5), "hello…");
    let long = "x".repeat(400);
    let t = truncate(&long, 300);
    assert_eq!(t, format!("{}…", "x".repeat(300)));
}

#[test]
fn truncate_counts_bytes() {
    // "é" is two bytes: cutting after it keeps it whole.
    assert_eq!(truncate("éé", 2), "é…");
    assert_eq!(truncate("aé", 3), "aé");
}

#[test]
fn status_error_message() {
    assert_eq!(
        status_error("heartbeat", "401 Unauthorized", "token revoked"),
        "/heartbeat returned 401 Unauthorized: token revoked"
    );
    let long = "y".repeat(310);
    let m = status_error("pair", "500 Internal Server Error", &long);
    assert_eq!(m, format!("/pair returned 500 Internal Server Error: {}…", "y".repeat(300)));
}

#[test]
fn check_status_accepts_success_only() {
    assert_eq!(check_status("call-event", true, "200 OK", "{}"), Ok(()));
    assert_eq!(
        check_status("call-event", false, "404 Not Found", "missing"),
        Err("/call-event returned 404 Not Found: missing".to_string())
    );
}

#[test]
fn pair_response_needs_ok_flag() {
    let good = PairResponse { ok: true, token: "t".to_string(), device_id: "d".to_string() };
    let r = accept_pair_response(good, "{}").expect("accepted");
    assert_eq!(r.token, "t");
    assert_eq!(r.device_id, "d");
    let bad = PairResponse { ok: false, token: String::new(), device_id: String::new() };
    assert_eq!(
        accept_pair_response(bad, "{\"ok\":false}").unwrap_err(),
        "/pair returned ok=false: {\"ok\":false}"
    );
}

#[test]
fn api_base_default_and_override() {
    assert_eq!(api_base_or_default(None, false), DEFAULT_API_BASE);
    assert_eq!(api_base_or_default(None, false), "https://app.kefilex.com");
    assert_eq!(api_base_or_default(None, true), DEV_API_BASE);
    assert_eq!(api_base_or_default(None, true), "http://localhost:3000");
    assert_eq!(
        api_base_or_default(Some("https://staging.example".to_string()), true),
        "https://staging.example"
    );
    assert_eq!(
        api_base_or_default(Some("http://localhost:4000".to_string()), false),
        "http://localhost:4000"
    );
}

#[test]
fn user_agent_format() {
    assert_eq!(user_agent("0.1.0", "windows"), "KefilexDesk/0.1.0 (windows)");
}
