use kefilex_desk::api::PairResponse;
use kefilex_desk::config::{
    store_writes, PairingConfig, PairingStatus, DEVICE_ID_KEY, DEVICE_LABEL_KEY, STORE_FILE,
    TOKEN_KEY,
};
use std::collections::HashMap;

fn apply(store: &mut HashMap<String, String>, cfg: &PairingConfig) {
    for w in store_writes(cfg) {
        match w.value {
            Some(v) => {
                store.insert(w.key.to_string(), v);
            }
            None => {
                store.remove(w.key);
            }
        }
    }
}

fn read(store: &HashMap<String, String>) -> PairingConfig {
    PairingConfig {
        token: store.get(TOKEN_KEY).cloned(),
        device_id: store.get(DEVICE_ID_KEY).cloned(),
        device_label: store.get(DEVICE_LABEL_KEY).cloned(),
    }
}

fn paired() -> PairingConfig {
    let resp = PairResponse { ok: true, token: "tok".to_string(), device_id: "dev-1".to_string() };
    PairingConfig::paired(&resp, "Front desk".to_string())
}

#[test]
fn default_is_unpaired() {
    let c = PairingConfig::default();
    assert!(c.token.is_none() && c.device_id.is_none() && c.device_label.is_none());
    assert!(!c.is_paired());
    assert_eq!(STORE_FILE, "config.json");
}

#[test]
fn status_after_pairing() {
    let s = PairingStatus::from_config(&paired());
    assert!(s.paired);
    assert_eq!(s.device_id.as_deref(), Some("dev-1"));
    assert_eq!(s.device_label.as_deref(), Some("Front desk"));
}

#[test]
fn status_after_clearing() {
    let s = PairingStatus::from_config(&PairingConfig::default());
    assert!(!s.paired);
    assert!(s.device_id.is_none() && s.device_label.is_none());
}

#[test]
fn revocation_keeps_device_metadata() {
    let mut c = paired();
    c.revoke_token();
    assert!(c.current_token().is_none());
    let s = PairingStatus::from_config(&c);
    assert!(!s.paired);
    assert_eq!(s.device_id.as_deref(), Some("dev-1"));
    assert_eq!(s.device_label.as_deref(), Some("Front desk"));
}

#[test]
fn store_writes_set_and_delete() {
    let w = store_writes(&paired());
    assert_eq!(w.len(), 3);
    assert_eq!(w[0].key, "pairing.token");
    assert_eq!(w[0].value.as_deref(), Some("tok"));
    assert_eq!(w[1].key, "pairing.device_id");
    assert_eq!(w[2].key, "pairing.device_label");
    let w = store_writes(&PairingConfig::default());
    assert!(w.iter().all(|x| x.value.is_none()));
}

#[test]
fn store_round_trip() {
    let mut store = HashMap::new();
    store.insert("other".to_string(), "kept".to_string());
    let c = paired();
    apply(&mut store, &c);
    let back = read(&store);
    assert_eq!(back.token, c.token);
    assert_eq!(back.device_id, c.device_id);
    assert_eq!(back.device_label, c.device_label);
    assert_eq!(store.get("other").map(String::as_str), Some("kept"));
    apply(&mut store, &PairingConfig::default());
    let back = read(&store);
    assert!(back.token.is_none() && back.device_id.is_none() && back.device_label.is_none());
}

#[test]
fn current_token_copies() {
    assert_eq!(paired().current_token().as_deref(), Some("tok"));
}
