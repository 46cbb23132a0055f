//! The pairing configuration (token and device metadata), what the pairing
//! window shows of it, and how it is laid out in the persistent key/value
//! store.

use vstd::prelude::*;
use crate::api::PairResponse;

verus! {

/// Store file holding the pairing configuration.
pub const STORE_FILE: &'static str = "config.json";

/// Store key of the companion token.
pub const TOKEN_KEY: &'static str = "pairing.token";

/// Store key of the device id issued at pairing.
pub const DEVICE_ID_KEY: &'static str = "pairing.device_id";

/// Store key of the label the user gave the device.
pub const DEVICE_LABEL_KEY: &'static str = "pairing.device_label";

/// Pairing token and device metadata. All `None` means unpaired.
#[derive(Debug, Clone)]
pub struct PairingConfig {
    pub token: Option<String>,
    pub device_id: Option<String>,
    pub device_label: Option<String>,
}

/// The mathematical content of a [`PairingConfig`].
pub struct PairingConfigView {
    pub token: Option<Seq<char>>,
    pub device_id: Option<Seq<char>>,
    pub device_label: Option<Seq<char>>,
}

impl View for PairingConfig {
    type V = PairingConfigView;

    open spec fn view(&self) -> PairingConfigView {
        PairingConfigView {
            token: self.token.deep_view(),
            device_id: self.device_id.deep_view(),
            device_label: self.device_label.deep_view(),
        }
    }
}

/// The unpaired configuration.
pub open spec fn unpaired_view() -> PairingConfigView {
    PairingConfigView { token: None, device_id: None, device_label: None }
}

impl Default for PairingConfig {
    /// The unpaired configuration.
    fn default() -> (r: Self)
        ensures
            r@ == unpaired_view(),
    {
        PairingConfig { token: None, device_id: None, device_label: None }
    }
}

/// An owned copy of an optional string.
pub fn clone_opt(s: &Option<String>) -> (r: Option<String>)
    ensures
        r.deep_view() == s.deep_view(),
{
    match s {
        Some(x) => Some(x.clone()),
        None => None,
    }
}

/// Configuration after a successful pairing with reply `token`/`device_id`
/// and the label the user typed.
pub open spec fn paired_view(token: Seq<char>, device_id: Seq<char>, device_label: Seq<char>) -> PairingConfigView {
    PairingConfigView { token: Some(token), device_id: Some(device_id), device_label: Some(device_label) }
}

/// Configuration after the token was revoked: unpaired, device metadata kept.
pub open spec fn revoked_view(c: PairingConfigView) -> PairingConfigView {
    PairingConfigView { token: None, ..c }
}

impl PairingConfig {
    /// The configuration stored after a successful `/pair` exchange.
    pub fn paired(result: &PairResponse, device_label: String) -> (r: PairingConfig)
        ensures
            r@ == paired_view(result.token@, result.device_id@, device_label@),
    {
        PairingConfig {
            token: Some(result.token.clone()),
            device_id: Some(result.device_id.clone()),
            device_label: Some(device_label),
        }
    }

    /// Whether a companion token is held.
    pub fn is_paired(&self) -> (r: bool)
        ensures
            r == self@.token is Some,
    {
        self.token.is_some()
    }

    /// A copy of the token, if paired.
    pub fn current_token(&self) -> (r: Option<String>)
        ensures
            r.deep_view() == self@.token,
    {
        clone_opt(&self.token)
    }

    /// Forget the token (it was revoked server-side); the device metadata stays.
    pub fn revoke_token(&mut self)
        ensures
            final(self)@ == revoked_view(old(self)@),
    {
        self.token = None;
    }
}

/// What the pairing window is told about the current configuration.
#[derive(Debug, Clone)]
pub struct PairingStatus {
    pub paired: bool,
    pub device_label: Option<String>,
    pub device_id: Option<String>,
}

/// The mathematical content of a [`PairingStatus`].
pub struct PairingStatusView {
    pub paired: bool,
    pub device_label: Option<Seq<char>>,
    pub device_id: Option<Seq<char>>,
}

impl View for PairingStatus {
    type V = PairingStatusView;

    open spec fn view(&self) -> PairingStatusView {
        PairingStatusView {
            paired: self.paired,
            device_label: self.device_label.deep_view(),
            device_id: self.device_id.deep_view(),
        }
    }
}

/// The status shown for a configuration.
pub open spec fn status_view(c: PairingConfigView) -> PairingStatusView {
    PairingStatusView { paired: c.token is Some, device_label: c.device_label, device_id: c.device_id }
}

impl PairingStatus {
    /// Paired when a token is held; the device label and id are reported as stored.
    pub fn from_config(cfg: &PairingConfig) -> (r: PairingStatus)
        ensures
            r@ == status_view(cfg@),
    {
        PairingStatus {
            paired: cfg.token.is_some(),
            device_label: clone_opt(&cfg.device_label),
            device_id: clone_opt(&cfg.device_id),
        }
    }
}

/// One update of the store: `Some` sets the key, `None` deletes it.
#[derive(Debug, Clone)]
pub struct StoreWrite {
    pub key: &'static str,
    pub value: Option<String>,
}

/// The mathematical content of a [`StoreWrite`].
pub struct StoreWriteView {
    pub key: Seq<char>,
    pub value: Option<Seq<char>>,
}

impl View for StoreWrite {
    type V = StoreWriteView;

    open spec fn view(&self) -> StoreWriteView {
        StoreWriteView { key: self.key@, value: self.value.deep_view() }
    }
}

/// The writes that save a configuration, one per key.
pub open spec fn store_writes_spec(c: PairingConfigView) -> Seq<StoreWriteView> {
    seq![
        StoreWriteView { key: TOKEN_KEY@, value: c.token },
        StoreWriteView { key: DEVICE_ID_KEY@, value: c.device_id },
        StoreWriteView { key: DEVICE_LABEL_KEY@, value: c.device_label },
    ]
}

/// Saving overwrites every key: a present value is set, an absent one is
/// deleted from the store.
pub fn store_writes(cfg: &PairingConfig) -> (r: Vec<StoreWrite>)
    ensures
        r@.map_values(|w: StoreWrite| w@) == store_writes_spec(cfg@),
{
    let mut r: Vec<StoreWrite> = Vec::new();
    r.push(StoreWrite { key: TOKEN_KEY, value: clone_opt(&cfg.token) });
    r.push(StoreWrite { key: DEVICE_ID_KEY, value: clone_opt(&cfg.device_id) });
    r.push(StoreWrite { key: DEVICE_LABEL_KEY, value: clone_opt(&cfg.device_label) });
    assert(r@.map_values(|w: StoreWrite| w@) =~= store_writes_spec(cfg@));
    r
}

/// A key/value store after one write.
pub open spec fn apply_write(store: Map<Seq<char>, Seq<char>>, w: StoreWriteView) -> Map<
    Seq<char>,
    Seq<char>,
> {
    match w.value {
        Some(v) => store.insert(w.key, v),
        None => store.remove(w.key),
    }
}

/// A key/value store after a sequence of writes, in order.
pub open spec fn apply_writes(store: Map<Seq<char>, Seq<char>>, ws: Seq<StoreWriteView>) -> Map<
    Seq<char>,
    Seq<char>,
>
    decreases ws.len(),
{
    if ws.len() == 0 {
        store
    } else {
        apply_write(apply_writes(store, ws.drop_last()), ws.last())
    }
}

/// The value stored under `key`, if any.
pub open spec fn read_key(store: Map<Seq<char>, Seq<char>>, key: Seq<char>) -> Option<Seq<char>> {
    if store.dom().contains(key) {
        Some(store[key])
    } else {
        None
    }
}

/// The configuration read back from a store.
pub open spec fn read_config(store: Map<Seq<char>, Seq<char>>) -> PairingConfigView {
    PairingConfigView {
        token: read_key(store, TOKEN_KEY@),
        device_id: read_key(store, DEVICE_ID_KEY@),
        device_label: read_key(store, DEVICE_LABEL_KEY@),
    }
}

// ── Laws ────────────────────────────────────────────────────────────────────

/// Saving a configuration into any store and reading it back gives the same
/// configuration: the saved pairing survives restarts.
pub proof fn law_store_round_trip(store: Map<Seq<char>, Seq<char>>, c: PairingConfigView)
    ensures
        read_config(apply_writes(store, store_writes_spec(c))) == c,
{
    reveal_strlit("pairing.token");
    reveal_strlit("pairing.device_id");
    reveal_strlit("pairing.device_label");
    assert(TOKEN_KEY@[8] != DEVICE_ID_KEY@[8]);
    assert(TOKEN_KEY@[8] != DEVICE_LABEL_KEY@[8]);
    assert(DEVICE_ID_KEY@.len() != DEVICE_LABEL_KEY@.len());
    let ws = store_writes_spec(c);
    let s0 = store;
    let s1 = apply_write(s0, ws[0]);
    let s2 = apply_write(s1, ws[1]);
    let s3 = apply_write(s2, ws[2]);
    assert(ws.drop_last().drop_last().drop_last() =~= Seq::<StoreWriteView>::empty());
    assert(ws.drop_last().drop_last() =~= seq![ws[0]]);
    assert(ws.drop_last() =~= seq![ws[0], ws[1]]);
    assert(ws.drop_last().drop_last().drop_last() =~= Seq::<StoreWriteView>::empty());
    assert(apply_writes(s0, ws.drop_last().drop_last().drop_last()) == s0);
    assert(ws.drop_last().drop_last().last() == ws[0]);
    assert(apply_writes(s0, ws.drop_last().drop_last()) == s1);
    assert(ws.drop_last().last() == ws[1]);
    assert(apply_writes(s0, ws.drop_last()) == s2);
    assert(apply_writes(s0, ws) == s3);
    assert(read_key(s3, DEVICE_LABEL_KEY@) == c.device_label);
    assert(read_key(s3, DEVICE_ID_KEY@) == read_key(s2, DEVICE_ID_KEY@));
    assert(read_key(s2, DEVICE_ID_KEY@) == c.device_id);
    assert(read_key(s3, TOKEN_KEY@) == read_key(s1, TOKEN_KEY@));
    assert(read_key(s1, TOKEN_KEY@) == c.token);
}

/// After pairing, the window reports the device as paired, with the id the
/// server issued and the label the user typed.
pub proof fn law_status_after_pairing(token: Seq<char>, device_id: Seq<char>, device_label: Seq<char>)
    ensures
        status_view(paired_view(token, device_id, device_label)) == (PairingStatusView {
            paired: true,
            device_label: Some(device_label),
            device_id: Some(device_id),
        }),
{
}

/// After clearing, the window reports the device as unpaired with no metadata.
pub proof fn law_status_after_clearing()
    ensures
        status_view(unpaired_view()) == (PairingStatusView {
            paired: false,
            device_label: None,
            device_id: None,
        }),
{
}

/// A revoked token leaves the device unpaired but keeps its id and label.
pub proof fn law_status_after_revocation(c: PairingConfigView)
    ensures
        status_view(revoked_view(c)) == (PairingStatusView {
            paired: false,
            device_label: c.device_label,
            device_id: c.device_id,
        }),
{
}

} // verus!
