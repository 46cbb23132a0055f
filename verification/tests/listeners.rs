use kefilex_desk::api::{CallMetadata};
use kefilex_desk::audio_listener::{
    build_ringing_event, is_candidate_session, leaf_file_name, ringing_event_for_process,
    AudioTracker, PidState, AUDIO_NOTE, AUDIO_TRIGGER,
};
use kefilex_desk::notification_listener::{
    build_call_event, call_event_for_match, split_text_elements, NotificationTracker,
};
use kefilex_desk::voip_filters::match_notification;

#[test]
fn first_poll_only_records() {
    let mut t = NotificationTracker::new();
    assert!(t.poll(&vec![1, 2, 3]).is_empty());
    assert!(t.poll(&vec![1, 2, 3]).is_empty());
    assert_eq!(t.poll(&vec![2, 4, 3, 5]), vec![4, 5]);
    assert!(t.poll(&vec![4, 5]).is_empty());
}

#[test]
fn repeated_id_in_one_poll_dispatched_once() {
    let mut t = NotificationTracker::new();
    t.poll(&vec![]);
    assert_eq!(t.poll(&vec![7, 7, 8, 7]), vec![7, 8]);
}

#[test]
fn text_elements_split() {
    let texts = vec!["Title".to_string(), "a".to_string(), "b".to_string()];
    assert_eq!(split_text_elements(&texts), ("Title".to_string(), "a b".to_string()));
    let texts = vec!["T".to_string(), "".to_string(), "x".to_string()];
    assert_eq!(split_text_elements(&texts), ("T".to_string(), "x".to_string()));
    let texts = vec!["T".to_string(), "a".to_string(), "".to_string()];
    assert_eq!(split_text_elements(&texts), ("T".to_string(), "a ".to_string()));
    assert_eq!(split_text_elements(&vec![]), (String::new(), String::new()));
    assert_eq!(split_text_elements(&vec!["Only".to_string()]), ("Only".to_string(), String::new()));
}

#[test]
fn call_event_from_match() {
    let m = match_notification("com.aircall.desktop", "Aircall", "Incoming call from Jane Smith • +33 1 23 45 67 89")
        .unwrap();
    let e = call_event_for_match(&m, "2026-01-01T00:00:00.000Z".to_string(), "2026-01-01T00:00:01.000Z".to_string());
    assert_eq!(e.event_type, "ringing");
    assert_eq!(e.caller_phone_e164.as_deref(), Some("+33123456789"));
    assert_eq!(e.caller_display_name.as_deref(), Some("Jane Smith"));
    assert_eq!(e.source_app.as_deref(), Some("Aircall"));
    assert!(e.intended_recipient_hint.is_none());
    assert_eq!(e.started_at, "2026-01-01T00:00:00.000Z");
    assert_eq!(e.captured_at, "2026-01-01T00:00:01.000Z");
    assert!(matches!(e.metadata, CallMetadata::Notification));
}

#[test]
fn call_event_carries_no_toast_text() {
    let m = match_notification("nz.co.vxt.electron", "VXT", "Missed call from Bal").unwrap();
    let e = build_call_event(&m).expect("the system clock reads after 1970");
    assert!(matches!(e.metadata, CallMetadata::Notification));
    assert_eq!(e.caller_display_name.as_deref(), Some("Bal"));
    assert!(e.started_at.ends_with('Z'));
    assert_eq!(e.started_at.len(), 24);
    assert_eq!(&e.started_at[19..20], ".");
    assert_eq!(e.captured_at, e.started_at);
}

#[test]
fn audio_fires_on_second_consecutive_poll() {
    let mut t = AudioTracker::new();
    assert_eq!(t.poll(&vec![42]), vec![false]);
    assert_eq!(t.state_of(42), PidState::JustActivated);
    assert_eq!(t.poll(&vec![42]), vec![true]);
    assert_eq!(t.state_of(42), PidState::Sustained);
    assert_eq!(t.poll(&vec![42]), vec![false]);
    assert_eq!(t.poll(&vec![]), Vec::<bool>::new());
    assert_eq!(t.state_of(42), PidState::Inactive);
    assert_eq!(t.poll(&vec![42]), vec![false]);
    assert_eq!(t.poll(&vec![42]), vec![true]);
}

#[test]
fn audio_chime_does_not_fire() {
    let mut t = AudioTracker::new();
    assert_eq!(t.poll(&vec![7]), vec![false]);
    assert_eq!(t.poll(&vec![8]), vec![false]);
    assert_eq!(t.state_of(7), PidState::Inactive);
    assert_eq!(t.state_of(9), PidState::Inactive);
}

#[test]
fn audio_two_sessions_of_one_process() {
    // Two audio sessions of one process still step it once per poll.
    let mut t = AudioTracker::new();
    assert_eq!(t.poll(&vec![5, 5]), vec![false, false]);
    assert_eq!(t.state_of(5), PidState::JustActivated);
    assert_eq!(t.poll(&vec![5, 6, 5]), vec![true, false, false]);
    assert_eq!(t.state_of(5), PidState::Sustained);
    assert_eq!(t.state_of(6), PidState::JustActivated);
    assert_eq!(t.poll(&vec![5, 5, 6]), vec![false, false, true]);
}

#[test]
fn toasts_on_screen_at_start_never_fire() {
    let mut t = NotificationTracker::new();
    assert!(t.poll(&vec![1]).is_empty());
    for _ in 0..3 {
        assert!(t.poll(&vec![1, 2]).iter().all(|id| *id != 1));
    }
}

#[test]
fn candidate_sessions() {
    assert!(is_candidate_session(true, 1234));
    assert!(!is_candidate_session(true, 0));
    assert!(!is_candidate_session(false, 1234));
}

#[test]
fn leaf_names() {
    assert_eq!(leaf_file_name("C:\\Program Files\\VXT\\VXT.exe"), "VXT.exe");
    assert_eq!(leaf_file_name("/usr/bin/zoom"), "zoom");
    assert_eq!(leaf_file_name("teams.exe"), "teams.exe");
    assert_eq!(leaf_file_name("C:\\dir\\"), "");
    assert_eq!(leaf_file_name("a/b\\c"), "c");
}

#[test]
fn ringing_event_for_audio() {
    let e = ringing_event_for_process("VXT", "VXT.exe".to_string(), "t".to_string(), "u".to_string());
    assert_eq!(e.event_type, "ringing");
    assert_eq!(e.source_app.as_deref(), Some("VXT"));
    assert_eq!(e.started_at, "t");
    assert_eq!(e.captured_at, "u");
    assert!(e.caller_phone_e164.is_none() && e.caller_display_name.is_none());
    match e.metadata {
        CallMetadata::AudioSession { trigger, process_name, note } => {
            assert_eq!(trigger, "coreaudio_session_active");
            assert_eq!(trigger, AUDIO_TRIGGER);
            assert_eq!(process_name, "VXT.exe");
            assert_eq!(note, AUDIO_NOTE);
        }
        _ => panic!("wrong metadata"),
    }
    let e = build_ringing_event("Aircall", "Aircall.exe".to_string())
        .expect("the system clock reads after 1970");
    assert_eq!(e.started_at.len(), 24);
    assert_eq!(e.captured_at, e.started_at);
}
