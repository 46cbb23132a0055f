use kefilex_desk::switches::{
    switch_disables, DISABLE_AUDIO_LISTENER_VAR, DISABLE_NOTIFICATION_LISTENER_VAR,
};
use kefilex_desk::api::{status_error, PairResponse};
use kefilex_desk::config::PairingConfig;
use kefilex_desk::config::{DEVICE_ID_KEY, TOKEN_KEY};
use kefilex_desk::heartbeat::{
    handle_heartbeat_failure, heartbeat_step, is_revocation_error, HEARTBEAT_INTERVAL_SECS,
};
use kefilex_desk::tray::{
    click_shows_menu, event_opens_window, menu_action, menu_layout, MenuAction, MenuEntry,
    TrayPointerEvent,
};

fn paired() -> PairingConfig {
    let resp = PairResponse { ok: true, token: "tok".to_string(), device_id: "dev".to_string() };
    PairingConfig::paired(&resp, "Desk".to_string())
}

#[test]
fn revocation_detection() {
    assert!(is_revocation_error("/heartbeat returned 401 Unauthorized: nope"));
    assert!(!is_revocation_error("/heartbeat returned 500 Internal Server Error: oops"));
    assert!(!is_revocation_error("network failure calling /heartbeat"));
    assert_eq!(HEARTBEAT_INTERVAL_SECS, 60);
}

#[test]
fn unauthorized_heartbeat_clears_token() {
    let mut c = paired();
    let msg = status_error("heartbeat", "401 Unauthorized", "revoked");
    let writes = handle_heartbeat_failure(&mut c, &msg).expect("revoked");
    assert!(c.token.is_none());
    assert_eq!(writes.len(), 3);
    assert_eq!(writes[0].key, TOKEN_KEY);
    assert!(writes[0].value.is_none());
    assert_eq!(writes[1].key, DEVICE_ID_KEY);
    assert_eq!(writes[1].value.as_deref(), Some("dev"));
    assert_eq!(c.device_id.as_deref(), Some("dev"));
    assert_eq!(c.device_label.as_deref(), Some("Desk"));
}

#[test]
fn other_failures_keep_token() {
    let mut c = paired();
    assert!(handle_heartbeat_failure(&mut c, "/heartbeat returned 503 Service Unavailable: ").is_none());
    assert_eq!(c.token.as_deref(), Some("tok"));
    assert!(heartbeat_step(&mut c, None).is_none());
    assert_eq!(c.token.as_deref(), Some("tok"));
}

#[test]
fn heartbeat_step_only_acts_while_paired() {
    let mut c = PairingConfig::default();
    assert!(heartbeat_step(&mut c, Some("/heartbeat returned 401 Unauthorized: x")).is_none());
    assert!(c.token.is_none());
    let mut c = paired();
    assert!(heartbeat_step(&mut c, Some("/heartbeat returned 401 Unauthorized: x")).is_some());
    assert!(c.token.is_none());
}

#[test]
fn tray_menu() {
    assert_eq!(menu_action("open"), MenuAction::ShowWindow);
    assert_eq!(menu_action("open_logs"), MenuAction::OpenLogs);
    assert_eq!(menu_action("about"), MenuAction::ShowAbout);
    assert_eq!(menu_action("quit"), MenuAction::Quit);
    assert_eq!(menu_action("Quit"), MenuAction::Nothing);
    let layout = menu_layout();
    assert_eq!(
        layout,
        vec![
            MenuEntry::Item { id: "open", label: "Open Kefilex Desk" },
            MenuEntry::Item { id: "open_logs", label: "Open log file" },
            MenuEntry::Separator,
            MenuEntry::Item { id: "about", label: "About Kefilex Desk…" },
            MenuEntry::Item { id: "quit", label: "Quit" },
        ]
    );
}

#[test]
fn tray_click() {
    assert!(event_opens_window(TrayPointerEvent::Click { left_button: true, released: true }));
    assert!(!event_opens_window(TrayPointerEvent::Click { left_button: true, released: false }));
    assert!(!event_opens_window(TrayPointerEvent::Click { left_button: false, released: true }));
    assert!(!event_opens_window(TrayPointerEvent::Other));
    assert!(!click_shows_menu(true));
    assert!(click_shows_menu(false));
}

#[test]
fn emergency_switches() {
    assert!(switch_disables(Some("1")));
    assert!(!switch_disables(Some("")));
    assert!(!switch_disables(None));
    assert_eq!(DISABLE_AUDIO_LISTENER_VAR, "KEFILEX_DESK_DISABLE_AUDIO_LISTENER");
    assert_eq!(DISABLE_NOTIFICATION_LISTENER_VAR, "KEFILEX_DESK_DISABLE_NOTIFICATION_LISTENER");
}

#[test]
fn heartbeats_stop_after_first_revocation() {
    let mut c = paired();
    let outcomes = [
        None,
        Some("network failure calling /heartbeat"),
        Some("/heartbeat returned 503 Service Unavailable: "),
        Some("/heartbeat returned 401 Unauthorized: revoked"),
        None,
        Some("/heartbeat returned 401 Unauthorized: again"),
    ];
    let mut sent: Vec<String> = Vec::new();
    for outcome in outcomes {
        if let Some(token) = c.current_token() {
            sent.push(token);
            heartbeat_step(&mut c, outcome);
        }
    }
    assert_eq!(sent, vec!["tok", "tok", "tok", "tok"]);
    assert!(c.token.is_none());
    assert_eq!(c.device_id.as_deref(), Some("dev"));
}
