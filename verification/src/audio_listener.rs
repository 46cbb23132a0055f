//! Decisions of the audio-session listener: which audio sessions are worth
//! looking at, the per-process state machine that turns sustained softphone
//! audio into exactly one `ringing` event per activation, and the event
//! posted.
//!
//! Each poll steps every process once, however many audio sessions it owns.
//! A process seen playing audio for the first time is only noted
//! (`JustActivated`): a short notification chime must not count as a call.
//! If it is still playing on the next poll the event fires and the process
//! becomes `Sustained`; no further event fires until it has gone quiet
//! (`Inactive`) and starts again.

use vstd::prelude::*;
use std::collections::HashMap;
use crate::api::{is_rfc3339_utc_millis, is_timestamp_text, utc_now_rfc3339_millis, CallEvent, CallMetadata};
use crate::text::{chars_of, string_of};

verus! {

broadcast use vstd::std_specs::hash::group_hash_axioms;

/// What the listener remembers of one process between polls.
#[derive(Clone, Copy, Debug, PartialEq, Eq, Structural)]
pub enum PidState {
    /// Not playing audio at the last poll (or never seen).
    Inactive,
    /// Seen playing for the first time at the last poll; waiting one more
    /// poll before reporting.
    JustActivated,
    /// Playing over at least two polls; the `ringing` event was sent.
    Sustained,
}

/// The state after a poll in which the process is seen playing audio.
pub open spec fn next_state(s: PidState) -> PidState {
    match s {
        PidState::Inactive => PidState::JustActivated,
        PidState::JustActivated => PidState::Sustained,
        PidState::Sustained => PidState::Sustained,
    }
}

/// The state recorded for `pid`; a process never seen is `Inactive`.
pub open spec fn lookup(m: Map<u32, PidState>, pid: u32) -> PidState {
    if m.dom().contains(pid) {
        m[pid]
    } else {
        PidState::Inactive
    }
}

/// The states once every process listed in `s` has been stepped once.
pub open spec fn stepped(m: Map<u32, PidState>, s: Seq<u32>) -> Map<u32, PidState> {
    Map::new(
        |p: u32| m.dom().contains(p) || s.contains(p),
        |p: u32|
            if s.contains(p) {
                next_state(lookup(m, p))
            } else {
                m[p]
            },
    )
}

/// The states after a whole poll: each process seen playing (however many
/// sessions it has) moves one step, every other known process becomes
/// `Inactive`.
pub open spec fn after_poll(m: Map<u32, PidState>, active: Seq<u32>) -> Map<u32, PidState> {
    Map::new(
        |p: u32| m.dom().contains(p) || active.contains(p),
        |p: u32|
            if active.contains(p) {
                next_state(lookup(m, p))
            } else {
                PidState::Inactive
            },
    )
}

/// Process `p` fires the `ringing` event in a poll: it is seen playing and
/// was `JustActivated` before the poll.
pub open spec fn process_fires(m: Map<u32, PidState>, active: Seq<u32>, p: u32) -> bool {
    active.contains(p) && lookup(m, p) == PidState::JustActivated
}

/// The `i`-th entry of a poll carries its process's event: it is the first
/// entry of that process, and the process fires.
pub open spec fn fires(m: Map<u32, PidState>, active: Seq<u32>, i: int) -> bool {
    !active.take(i).contains(active[i]) && lookup(m, active[i]) == PidState::JustActivated
}

/// Per-process states of the audio listener.
pub struct AudioTracker {
    state: HashMap<u32, PidState>,
    /// Every process id that has a state, so that all can be visited.
    pids: Vec<u32>,
}

/// `v[..n]` holds `x`.
fn prefix_contains(v: &Vec<u32>, n: usize, x: u32) -> (r: bool)
    requires
        n <= v.len(),
    ensures
        r == v@.take(n as int).contains(x),
{
    let mut i: usize = 0;
    while i < n
        invariant
            n <= v.len(),
            i <= n,
            forall|k: int| 0 <= k < i ==> v@[k] != x,
        decreases n - i,
    {
        if v[i] == x {
            assert(v@.take(n as int)[i as int] == x);
            return true;
        }
        i = i + 1;
    }
    proof {
        if v@.take(n as int).contains(x) {
            let k = choose|k: int| 0 <= k < n && v@.take(n as int)[k] == x;
            assert(v@[k] == x);
        }
    }
    false
}

/// `v` holds `x`.
fn contains_u32(v: &Vec<u32>, x: u32) -> (r: bool)
    ensures
        r == v@.contains(x),
{
    let r = prefix_contains(v, v.len(), x);
    assert(v@.take(v.len() as int) =~= v@);
    r
}

impl AudioTracker {
    /// The recorded states.
    pub closed spec fn states(&self) -> Map<u32, PidState> {
        self.state@
    }

    /// `pids` lists exactly the processes that have a state.
    pub closed spec fn wf(&self) -> bool {
        forall|p: u32| #[trigger] self.state@.dom().contains(p) <==> self.pids@.contains(p)
    }

    /// No process known yet.
    pub fn new() -> (r: AudioTracker)
        ensures
            r.wf(),
            r.states() == Map::<u32, PidState>::empty(),
    {
        AudioTracker { state: HashMap::new(), pids: Vec::new() }
    }

    /// The recorded state of one process.
    pub fn state_of(&self, pid: u32) -> (r: PidState)
        ensures
            r == lookup(self.states(), pid),
    {
        match self.state.get(&pid) {
            Some(s) => *s,
            None => PidState::Inactive,
        }
    }

    /// One poll: `active` lists the softphone processes seen playing audio,
    /// one entry per audio session, so a process may appear more than once.
    /// Each listed process moves one step; every other known process becomes
    /// `Inactive`. Returns, for each entry, whether it fires the `ringing`
    /// event: only the first entry of a process that was `JustActivated`.
    pub fn poll(&mut self, active: &Vec<u32>) -> (fired: Vec<bool>)
        requires
            old(self).wf(),
        ensures
            final(self).wf(),
            final(self).states() == after_poll(old(self).states(), active@),
            fired@.len() == active@.len(),
            forall|i: int| 0 <= i < active@.len() ==> fired@[i] == fires(old(self).states(), active@, i),
    {
        let ghost m0 = self.state@;
        let mut fired: Vec<bool> = Vec::new();
        let mut i: usize = 0;
        assert(stepped(m0, active@.take(0)) =~= m0);
        while i < active.len()
            invariant
                i <= active.len(),
                self.wf(),
                self.state@ == stepped(m0, active@.take(i as int)),
                fired@.len() == i,
                forall|k: int| 0 <= k < i ==> fired@[k] == fires(m0, active@, k),
            decreases active.len() - i,
        {
            let pid = active[i];
            let ghost pre = active@.take(i as int);
            let ghost nxt = active@.take(i + 1);
            assert(nxt =~= pre.push(pid));
            assert forall|p: u32| #[trigger] nxt.contains(p) <==> (pre.contains(p) || p == pid) by {
                if nxt.contains(p) && p != pid {
                    let k = choose|k: int| 0 <= k < nxt.len() && nxt[k] == p;
                    assert(pre[k] == p);
                }
                if pre.contains(p) {
                    let k = choose|k: int| 0 <= k < pre.len() && pre[k] == p;
                    assert(nxt[k] == p);
                }
                assert(nxt[i as int] == pid);
            }
            if prefix_contains(active, i, pid) {
                fired.push(false);
                assert(self.state@ =~= stepped(m0, nxt));
            } else {
                let ghost pids0 = self.pids@;
                let ghost before = self.state@;
                let cur = self.state_of(pid);
                assert(cur == lookup(m0, pid));
                let (next, fire) = match cur {
                    PidState::Inactive => (PidState::JustActivated, false),
                    PidState::JustActivated => (PidState::Sustained, true),
                    PidState::Sustained => (PidState::Sustained, false),
                };
                let prev = self.state.insert(pid, next);
                if prev.is_none() {
                    self.pids.push(pid);
                }
                fired.push(fire);
                proof {
                    assert(self.state@ =~= stepped(m0, nxt));
                    assert forall|p: u32| #[trigger] self.state@.dom().contains(p) <==> self.pids@.contains(
                        p,
                    ) by {
                        if prev.is_none() {
                            assert(self.pids@ == pids0.push(pid));
                            assert(self.pids@[pids0.len() as int] == pid);
                            if pids0.contains(p) {
                                let k = choose|k: int| 0 <= k < pids0.len() && pids0[k] == p;
                                assert(self.pids@[k] == p);
                            }
                            if self.pids@.contains(p) && p != pid {
                                let k = choose|k: int| 0 <= k < self.pids@.len() && self.pids@[k] == p;
                                assert(k < pids0.len());
                                assert(pids0[k] == p);
                            }
                        } else {
                            assert(self.pids@ == pids0);
                            assert(before.dom().contains(pid));
                        }
                    }
                }
            }
            i = i + 1;
        }
        assert(active@.take(active.len() as int) =~= active@);
        let ghost m1 = self.state@;
        let mut j: usize = 0;
        assert(self.pids@.take(0) =~= Seq::<u32>::empty());
        while j < self.pids.len()
            invariant
                j <= self.pids.len(),
                self.wf(),
                self.state@.dom() == m1.dom(),
                forall|p: u32|
                    #[trigger] self.state@.dom().contains(p) ==> self.state@[p] == (if self.pids@.take(
                        j as int,
                    ).contains(p) && !active@.contains(p) {
                        PidState::Inactive
                    } else {
                        m1[p]
                    }),
            decreases self.pids.len() - j,
        {
            let pid = self.pids[j];
            let ghost s0 = self.state@;
            let ghost pre = self.pids@.take(j as int);
            let ghost nxt = self.pids@.take(j + 1);
            assert(nxt =~= pre.push(pid));
            assert(self.pids@.contains(pid));
            if !contains_u32(active, pid) {
                self.state.insert(pid, PidState::Inactive);
            }
            proof {
                assert(self.state@.dom() =~= s0.dom());
                assert forall|p: u32| #[trigger] self.state@.dom().contains(p) implies self.state@[p] == (
                if nxt.contains(p) && !active@.contains(p) {
                    PidState::Inactive
                } else {
                    m1[p]
                }) by {
                    if p != pid {
                        if nxt.contains(p) {
                            let k = choose|k: int| 0 <= k < nxt.len() && nxt[k] == p;
                            assert(k < pre.len());
                            assert(pre[k] == p);
                        }
                        if pre.contains(p) {
                            let k = choose|k: int| 0 <= k < pre.len() && pre[k] == p;
                            assert(nxt[k] == p);
                        }
                    } else {
                        assert(nxt[j as int] == pid);
                    }
                }
            }
            j = j + 1;
        }
        proof {
            assert(self.pids@.take(self.pids@.len() as int) =~= self.pids@);
            assert(self.state@ =~= after_poll(m0, active@));
        }
        fired
    }
}

/// Only a playing session of a real process is looked at: the session must be
/// active and not the system session (process id 0).
pub fn is_candidate_session(is_active: bool, pid: u32) -> (r: bool)
    ensures
        r == (is_active && pid != 0),
{
    is_active && pid != 0
}

/// `\` or `/`.
pub open spec fn is_path_separator(c: char) -> bool {
    c == '\\' || c == '/'
}

/// The file name at the end of a path: what follows the last separator, or
/// the whole path when it has none.
pub open spec fn leaf_name_spec(path: Seq<char>) -> Seq<char>
    decreases path.len(),
{
    if path.len() == 0 {
        path
    } else if is_path_separator(path.last()) {
        Seq::<char>::empty()
    } else {
        leaf_name_spec(path.drop_last()).push(path.last())
    }
}

proof fn lemma_leaf_name_suffix(path: Seq<char>, j: int)
    requires
        0 <= j <= path.len(),
        forall|k: int| j <= k < path.len() ==> !is_path_separator(#[trigger] path[k]),
        j == 0 || is_path_separator(path[j - 1]),
    ensures
        leaf_name_spec(path) == path.subrange(j, path.len() as int),
    decreases path.len(),
{
    if path.len() > j {
        lemma_leaf_name_suffix(path.drop_last(), j);
        assert(path.drop_last().subrange(j, path.len() - 1).push(path.last()) =~= path.subrange(
            j,
            path.len() as int,
        ));
    } else if j > 0 {
        assert(path.subrange(j, path.len() as int) =~= Seq::<char>::empty());
    } else {
        assert(path.subrange(0, 0) =~= Seq::<char>::empty());
    }
}

/// The executable's file name from its full path (e.g. `VXT.exe`), so that
/// it can be compared with the registry's application patterns.
pub fn leaf_file_name(path: &str) -> (r: String)
    ensures
        r@ == leaf_name_spec(path@),
{
    let v = chars_of(path);
    let mut j: usize = v.len();
    while j > 0 && !(v[j - 1] == '\\' || v[j - 1] == '/')
        invariant
            j <= v.len(),
            forall|k: int| j <= k < v.len() ==> !is_path_separator(#[trigger] v@[k]),
        decreases j,
    {
        j = j - 1;
    }
    proof {
        lemma_leaf_name_suffix(v@, j as int);
    }
    let mut out: Vec<char> = Vec::new();
    let mut k: usize = j;
    while k < v.len()
        invariant
            j <= k <= v.len(),
            out@ == v@.subrange(j as int, k as int),
        decreases v.len() - k,
    {
        out.push(v[k]);
        k = k + 1;
    }
    string_of(&out)
}

/// Metadata `trigger` of an audio-triggered event.
pub const AUDIO_TRIGGER: &'static str = "coreaudio_session_active";

/// Metadata `note` of an audio-triggered event.
pub const AUDIO_NOTE: &'static str = "Audio-only signal — caller details will be filled in by the notification listener or by reception manually.";

/// The `ringing` event for sustained audio from `process_name`, a process of
/// softphone `source_app`: no caller details and no recipient hint, the given
/// start and capture times, and metadata naming the trigger and the process
/// and explaining that caller details come later.
pub fn ringing_event_for_process(
    source_app: &'static str,
    process_name: String,
    started_at: String,
    captured_at: String,
) -> (e: CallEvent<'static>)
    ensures
        e.event_type@ == "ringing"@,
        e.caller_phone_e164 is None,
        e.caller_display_name is None,
        e.source_app.deep_view() == Some(source_app@),
        e.intended_recipient_hint is None,
        e.started_at@ == started_at@,
        e.captured_at@ == captured_at@,
        e.metadata matches CallMetadata::AudioSession { trigger: t, process_name: p, note: n } && t@
            == AUDIO_TRIGGER@ && p@ == process_name@ && n@ == AUDIO_NOTE@,
{
    CallEvent {
        event_type: "ringing",
        caller_phone_e164: None,
        caller_display_name: None,
        source_app: Some(source_app.to_owned()),
        intended_recipient_hint: None,
        started_at,
        captured_at,
        metadata: CallMetadata::AudioSession {
            trigger: AUDIO_TRIGGER.to_owned(),
            process_name,
            note: AUDIO_NOTE.to_owned(),
        },
    }
}

/// The `ringing` event for sustained audio, started and captured now, or
/// `None` when the system clock cannot be read. Every field of the event is
/// as [`ringing_event_for_process`] states; both times are the same clock
/// reading in RFC 3339 form.
pub fn build_ringing_event(source_app: &'static str, process_name: String) -> (r: Option<
    CallEvent<'static>,
>)
    ensures
        r matches Some(e) ==> {
            &&& e.event_type@ == "ringing"@
            &&& e.caller_phone_e164 is None
            &&& e.caller_display_name is None
            &&& e.source_app.deep_view() == Some(source_app@)
            &&& e.intended_recipient_hint is None
            &&& is_rfc3339_utc_millis(e.started_at@)
            &&& is_timestamp_text(e.started_at@)
            &&& e.captured_at@ == e.started_at@
            &&& e.metadata matches CallMetadata::AudioSession { trigger: t, process_name: p, note: n }
                && t@ == AUDIO_TRIGGER@ && p@ == process_name@ && n@ == AUDIO_NOTE@
        },
{
    match utc_now_rfc3339_millis() {
        Some(now) => {
            let captured = now.clone();
            Some(ringing_event_for_process(source_app, process_name, now, captured))
        },
        None => None,
    }
}

// ── Laws ────────────────────────────────────────────────────────────────────

/// In a poll, a process seen playing moves one step along
/// `Inactive → JustActivated → Sustained → Sustained`, however many sessions
/// it has; a process not seen playing becomes `Inactive`.
pub proof fn law_one_step_per_poll(m: Map<u32, PidState>, active: Seq<u32>, p: u32)
    ensures
        active.contains(p) ==> lookup(after_poll(m, active), p) == next_state(lookup(m, p)),
        !active.contains(p) ==> lookup(after_poll(m, active), p) == PidState::Inactive,
{
}

/// The entries that fire in one poll are exactly one per firing process: the
/// event of a process is carried by its first entry, and by no other.
pub proof fn law_one_event_per_process(m: Map<u32, PidState>, active: Seq<u32>, p: u32)
    ensures
        process_fires(m, active, p) ==> exists|i: int|
            0 <= i < active.len() && active[i] == p && #[trigger] fires(m, active, i),
        forall|i: int| 0 <= i < active.len() && #[trigger] fires(m, active, i) ==> process_fires(m, active, active[i]),
        forall|i: int, k: int|
            0 <= i < k < active.len() && #[trigger] fires(m, active, i) && #[trigger] fires(m, active, k)
                ==> active[i] != active[k],
{
    assert forall|i: int| 0 <= i < active.len() && #[trigger] fires(m, active, i) implies process_fires(
        m,
        active,
        active[i],
    ) by {
        assert(active.contains(active[i]));
    }
    assert forall|i: int, k: int|
        0 <= i < k < active.len() && #[trigger] fires(m, active, i) && #[trigger] fires(m, active, k)
            implies active[i] != active[k] by {
        assert(active.take(k)[i] == active[i]);
    }
    if process_fires(m, active, p) {
        lemma_first_index(active, p);
        let i = choose|i: int| 0 <= i < active.len() && active[i] == p && !active.take(i).contains(p);
        assert(fires(m, active, i));
    }
}

proof fn lemma_first_index(s: Seq<u32>, p: u32)
    requires
        s.contains(p),
    ensures
        exists|i: int| 0 <= i < s.len() && s[i] == p && !s.take(i).contains(p),
    decreases s.len(),
{
    if s.drop_last().contains(p) {
        lemma_first_index(s.drop_last(), p);
        let i = choose|i: int| 0 <= i < s.drop_last().len() && s.drop_last()[i] == p && !s.drop_last().take(i).contains(p);
        assert(s.take(i) =~= s.drop_last().take(i));
        assert(s[i] == p);
    } else {
        let i = s.len() - 1;
        assert(s.take(i) =~= s.drop_last());
        if s[i] != p {
            let k = choose|k: int| 0 <= k < s.len() && s[k] == p;
            assert(s.drop_last()[k] == p);
        }
    }
}

/// The states after a sequence of polls, in order.
pub open spec fn states_after(m: Map<u32, PidState>, polls: Seq<Seq<u32>>) -> Map<u32, PidState>
    decreases polls.len(),
{
    if polls.len() == 0 {
        m
    } else {
        after_poll(states_after(m, polls.drop_last()), polls.last())
    }
}

proof fn lemma_activation_states(m: Map<u32, PidState>, polls: Seq<Seq<u32>>, p: u32, j: int)
    requires
        lookup(m, p) == PidState::Inactive,
        forall|k: int| 0 <= k < polls.len() ==> (#[trigger] polls[k]).contains(p),
        0 <= j <= polls.len(),
    ensures
        lookup(states_after(m, polls.take(j)), p) == (if j == 0 {
            PidState::Inactive
        } else if j == 1 {
            PidState::JustActivated
        } else {
            PidState::Sustained
        }),
    decreases j,
{
    if j == 0 {
        assert(polls.take(0) =~= Seq::<Seq<u32>>::empty());
    } else {
        lemma_activation_states(m, polls, p, j - 1);
        assert(polls.take(j).drop_last() =~= polls.take(j - 1));
        assert(polls.take(j).last() == polls[j - 1]);
        assert(polls[j - 1].contains(p));
    }
}

/// A process that starts playing and keeps playing for a run of polls fires
/// the `ringing` event exactly once, at the second poll of the run.
pub proof fn law_rings_once_at_second_poll(
    m: Map<u32, PidState>,
    polls: Seq<Seq<u32>>,
    p: u32,
    j: int,
)
    requires
        lookup(m, p) == PidState::Inactive,
        forall|k: int| 0 <= k < polls.len() ==> (#[trigger] polls[k]).contains(p),
        0 <= j < polls.len(),
    ensures
        process_fires(states_after(m, polls.take(j)), polls[j], p) <==> j == 1,
{
    lemma_activation_states(m, polls, p, j);
    assert(polls[j].contains(p));
}

/// A process not seen playing in a poll is `Inactive` afterwards, so its
/// next activation must again last two polls before it is reported.
pub proof fn law_quiet_process_resets(m: Map<u32, PidState>, active: Seq<u32>, pid: u32)
    requires
        !active.contains(pid),
    ensures
        lookup(after_poll(m, active), pid) == PidState::Inactive,
{
}

/// A process that has already been reported never fires again while it
/// keeps playing.
pub proof fn law_sustained_stays_silent(m: Map<u32, PidState>, active: Seq<u32>, p: u32)
    requires
        lookup(m, p) == PidState::Sustained,
    ensures
        !process_fires(m, active, p),
        active.contains(p) ==> lookup(after_poll(m, active), p) == PidState::Sustained,
{
}

/// The file name of a path is everything after its last `\\` or `/`, every
/// other character (spaces included) kept; a path with neither is its own
/// file name.
pub proof fn law_leaf_name_after_last_separator(dir: Seq<char>, sep: char, file: Seq<char>)
    requires
        sep == '\\' || sep == '/',
        forall|k: int| 0 <= k < file.len() ==> #[trigger] file[k] != '\\' && file[k] != '/',
    ensures
        leaf_name_spec(dir.push(sep) + file) == file,
        (forall|k: int| 0 <= k < dir.len() ==> #[trigger] dir[k] != '\\' && dir[k] != '/')
            ==> leaf_name_spec(dir) == dir,
{
    let path = dir.push(sep) + file;
    let j: int = dir.len() + 1int;
    assert forall|k: int| j <= k < path.len() implies !is_path_separator(#[trigger] path[k]) by {
        assert(path[k] == file[k - j]);
    }
    assert(path[j - 1] == sep);
    lemma_leaf_name_suffix(path, j);
    assert(path.subrange(j, path.len() as int) =~= file);
    if forall|k: int| 0 <= k < dir.len() ==> #[trigger] dir[k] != '\\' && dir[k] != '/' {
        lemma_leaf_name_suffix(dir, 0);
        assert(dir.subrange(0, dir.len() as int) =~= dir);
    }
}

} // verus!
