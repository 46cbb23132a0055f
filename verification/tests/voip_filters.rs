use kefilex_desk::voip_filters::{
    builtin_filters, filter_match_from_captures, is_voip_app_id, match_notification,
    match_voip_process, normalise_phone, combine_title_body,
};

#[test]
fn vxt_missed_call_with_name() {
    let m = match_notification(
        "nz.co.vxt.electron",
        "VXT",
        "Missed call from Bal",
    );
    let m = m.expect("should match");
    assert_eq!(m.source_app, "VXT");
    assert_eq!(m.event_type, "missed");
    assert_eq!(m.caller_display_name.as_deref(), Some("Bal"));
    assert!(m.caller_phone_e164.is_none());
}

#[test]
fn vxt_missed_call_with_empty_body() {
    // Real-world: VXT puts the message in the title and leaves
    // the body empty. The "{title} — {body}" join produces
    // "Missed call from Bal — " with trailing whitespace and a
    // dangling em-dash. Name capture must not slurp the em-dash.
    let m = match_notification(
        "nz.co.vxt.electron",
        "Missed call from Bal",
        "",
    );
    let m = m.expect("should match");
    assert_eq!(m.event_type, "missed");
    assert_eq!(
        m.caller_display_name.as_deref(),
        Some("Bal"),
        "name should not include trailing separator"
    );
}

#[test]
fn vxt_missed_call_with_phone() {
    let m = match_notification(
        "nz.co.vxt.electron",
        "VXT",
        "Missed call from +44 7700 900101",
    );
    let m = m.expect("should match");
    assert_eq!(m.event_type, "missed");
    assert_eq!(m.caller_phone_e164.as_deref(), Some("+447700900101"));
}

#[test]
fn vxt_incoming_kept_for_future() {
    // VXT desktop doesn't fire this today, but if/when they add
    // during-ring notifications our filter is ready.
    let m = match_notification(
        "vxt.desktop",
        "Incoming call",
        "Incoming call from +44 7700 900101",
    );
    let m = m.expect("should match");
    assert_eq!(m.event_type, "ringing");
    assert_eq!(m.caller_phone_e164.as_deref(), Some("+447700900101"));
}

#[test]
fn teams_name_only() {
    let m = match_notification(
        "Microsoft.Teams_8wekyb3d8bbwe",
        "Calling…",
        "Incoming call from Jane Smith",
    );
    let m = m.expect("should match");
    assert_eq!(m.source_app, "Microsoft Teams");
    assert_eq!(m.event_type, "ringing");
    assert_eq!(m.caller_display_name.as_deref(), Some("Jane Smith"));
}

#[test]
fn aircall_incoming_with_name_and_phone() {
    let m = match_notification(
        "com.aircall.desktop",
        "Aircall",
        "Incoming call from Jane Smith • +33 1 23 45 67 89",
    );
    let m = m.expect("should match");
    assert_eq!(m.source_app, "Aircall");
    assert_eq!(m.event_type, "ringing");
    assert_eq!(m.caller_display_name.as_deref(), Some("Jane Smith"));
    assert_eq!(m.caller_phone_e164.as_deref(), Some("+33123456789"));
}

#[test]
fn aircall_incoming_phone_only() {
    let m = match_notification(
        "com.aircall.desktop",
        "Aircall",
        "Incoming call from +44 7700 900101",
    );
    let m = m.expect("should match");
    assert_eq!(m.event_type, "ringing");
    assert_eq!(m.caller_phone_e164.as_deref(), Some("+447700900101"));
}

#[test]
fn eight_by_eight_incoming_with_name_and_phone() {
    let m = match_notification(
        "com.8x8.work",
        "8x8 Work",
        "Incoming call from John Doe • +44 20 7946 0958",
    );
    let m = m.expect("should match");
    assert_eq!(m.source_app, "8x8");
    assert_eq!(m.event_type, "ringing");
    assert_eq!(m.caller_display_name.as_deref(), Some("John Doe"));
    assert_eq!(m.caller_phone_e164.as_deref(), Some("+442079460958"));
}

#[test]
fn non_voip_app_ignored() {
    assert!(match_notification("com.slack.app", "DM", "Bob: hello").is_none());
}

#[test]
fn kaspersky_mic_notification_ignored() {
    // From real observed log — we should NOT match Kaspersky's
    // "Mic access for Vxt Desktop is allowed" notification just
    // because "vxt" appears in the body text. The AUMID is
    // Kaspersky's, not VXT's.
    assert!(
        match_notification(
            "KasperskyLab.Kis.UI.Toasts",
            "Kaspersky",
            "Mic access for Vxt Desktop is allowed"
        )
        .is_none()
    );
}

// ── Further scenarios ──────────────────────────────────────────────────────

#[test]
fn vxt_voicemail_from_name() {
    let m = match_notification("nz.co.vxt.electron", "VXT", "New voicemail from Bal")
        .expect("should match");
    assert_eq!(m.source_app, "VXT");
    assert_eq!(m.event_type, "voicemail");
    assert_eq!(m.caller_display_name.as_deref(), Some("Bal"));
    assert!(m.caller_phone_e164.is_none());
}

#[test]
fn ringcentral_incoming_with_phone() {
    let m = match_notification(
        "com.ringcentral.app",
        "RingCentral",
        "Incoming call from Jane Smith — +1 (555) 010-2030",
    )
    .expect("should match");
    assert_eq!(m.source_app, "RingCentral");
    assert_eq!(m.event_type, "ringing");
    assert_eq!(m.caller_display_name.as_deref(), Some("Jane Smith"));
    assert_eq!(m.caller_phone_e164.as_deref(), Some("+15550102030"));
}

#[test]
fn aircall_missed_with_name_and_phone() {
    let m = match_notification(
        "com.aircall.desktop",
        "Aircall",
        "Missed call from Jane Smith • +33 1 23 45 67 89",
    )
    .expect("should match");
    assert_eq!(m.event_type, "missed");
    assert_eq!(m.caller_display_name.as_deref(), Some("Jane Smith"));
    assert_eq!(m.caller_phone_e164.as_deref(), Some("+33123456789"));
}

#[test]
fn zoom_incoming_name_only() {
    let m = match_notification("us.zoom.xos", "Zoom", "Incoming call from Ann Lee")
        .expect("should match");
    assert_eq!(m.source_app, "Zoom Phone");
    assert_eq!(m.caller_display_name.as_deref(), Some("Ann Lee"));
}

#[test]
fn webex_incoming_name_only() {
    let m = match_notification("Cisco.Webex", "Webex", "Incoming call from Bo Chen")
        .expect("should match");
    assert_eq!(m.source_app, "Cisco Webex Calling");
    assert_eq!(m.event_type, "ringing");
    assert_eq!(m.caller_display_name.as_deref(), Some("Bo Chen"));
}

#[test]
fn app_id_match_is_case_insensitive() {
    let m = match_notification("NZ.CO.VXT.ELECTRON", "VXT", "Missed call from Bal")
        .expect("should match");
    assert_eq!(m.source_app, "VXT");
}

#[test]
fn voip_app_text_that_fits_no_pattern_is_ignored() {
    assert!(match_notification("nz.co.vxt.electron", "VXT", "Update available").is_none());
}

#[test]
fn first_matching_filter_wins() {
    // Both Aircall incoming filters accept this text; the more specific one
    // (name and phone) comes first and captures both fields.
    let m = match_notification("aircall", "", "Incoming call from Jo • +44 20 7946 0958")
        .expect("should match");
    assert_eq!(m.caller_display_name.as_deref(), Some("Jo"));
    assert_eq!(m.caller_phone_e164.as_deref(), Some("+442079460958"));
}

#[test]
fn combined_text_trims_both_parts() {
    assert_eq!(combine_title_body("  Missed call from Bal ", "\t"), "Missed call from Bal — ");
    assert_eq!(combine_title_body("a", "b"), "a — b");
}

#[test]
fn normalise_phone_keeps_plus_and_digits() {
    assert_eq!(normalise_phone("+44 (0) 7700-900.101"), "+4407700900101");
    assert_eq!(normalise_phone("020 7946"), "0207946");
    assert_eq!(normalise_phone("1+2"), "12");
    assert_eq!(normalise_phone("+"), "+");
    assert_eq!(normalise_phone(""), "");
}

#[test]
fn normalise_phone_is_idempotent() {
    for raw in ["+44 7700 900101", "(555) 010", "+", "abc"] {
        let once = normalise_phone(raw);
        assert_eq!(normalise_phone(&once), once);
    }
}

#[test]
fn captures_build_clean_fields() {
    let filters = builtin_filters();
    let m = filter_match_from_captures(
        &filters[0],
        Some("+44 7700 900101 ".to_string()),
        Some("  Bal\t".to_string()),
    );
    assert_eq!(m.source_app, "VXT");
    assert_eq!(m.event_type, "missed");
    assert_eq!(m.caller_phone_e164.as_deref(), Some("+447700900101"));
    assert_eq!(m.caller_display_name.as_deref(), Some("Bal"));
}

#[test]
fn empty_captures_are_dropped() {
    let filters = builtin_filters();
    let m = filter_match_from_captures(&filters[3], Some(" - ".to_string()), Some("   ".to_string()));
    assert_eq!(m.source_app, "RingCentral");
    assert!(m.caller_phone_e164.is_none());
    assert!(m.caller_display_name.is_none());
}

#[test]
fn registry_has_every_softphone_in_order() {
    let filters = builtin_filters();
    assert_eq!(filters.len(), 17);
    let names: Vec<&str> = filters.iter().map(|f| f.display_name).collect();
    assert_eq!(names[0], "VXT");
    assert_eq!(names[16], "Cisco Webex Calling");
    for f in filters {
        assert!(["ringing", "answered", "missed", "voicemail", "ended"].contains(&f.event_type));
        assert!(regex::Regex::new(f.text_pattern).is_ok());
    }
}

#[test]
fn voip_process_names_are_recognised() {
    assert_eq!(match_voip_process("VXT.exe"), Some("VXT"));
    assert_eq!(match_voip_process("Microsoft Teams.exe"), Some("Microsoft Teams"));
    assert_eq!(match_voip_process("8x8 Work.exe"), Some("8x8"));
    assert_eq!(match_voip_process("notepad.exe"), None);
    assert!(is_voip_app_id("com.aircall.desktop"));
    assert!(!is_voip_app_id("KasperskyLab.Kis.UI.Toasts"));
}

#[test]
fn matched_apps_are_voip_apps() {
    for app in ["nz.co.vxt.electron", "com.slack.app", "Microsoft.Teams_8wekyb3d8bbwe"] {
        if match_notification(app, "", "Incoming call from Jane Smith").is_some() {
            assert!(is_voip_app_id(app));
        }
        assert_eq!(is_voip_app_id(app), match_voip_process(app).is_some());
    }
}
