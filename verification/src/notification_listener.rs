//! Decisions of the notification listener: which toasts of a poll are new,
//! how a toast's text elements become a title and a body, and the call event
//! posted for a matched toast.
//!
//! The listener polls the OS toast list. The first poll only records the ids
//! already on screen, so that starting the companion does not report every
//! old toast as a fresh call; afterwards every id not seen before is handled
//! exactly once.

use vstd::prelude::*;
use std::collections::HashSet;
use crate::api::{is_rfc3339_utc_millis, is_timestamp_text, utc_now_rfc3339_millis, CallEvent, CallMetadata};
use crate::config::clone_opt;
use crate::text::{chars_of, string_of};
use crate::voip_filters::FilterMatch;

verus! {

broadcast use vstd::std_specs::hash::group_hash_axioms;

/// The ids of `ids` that are neither in `seen` nor repeated from earlier in
/// `ids`, in order of first appearance.
pub open spec fn fresh_ids(seen: Set<u32>, ids: Seq<u32>) -> Seq<u32>
    decreases ids.len(),
{
    if ids.len() == 0 {
        Seq::<u32>::empty()
    } else {
        let prev = fresh_ids(seen, ids.drop_last());
        let x = ids.last();
        if seen.contains(x) || ids.drop_last().contains(x) {
            prev
        } else {
            prev.push(x)
        }
    }
}

/// The listener's memory between polls: the notification ids already seen,
/// and whether the first (recording-only) poll has happened.
pub struct NotificationTracker {
    seen: HashSet<u32>,
    primed: bool,
}

impl NotificationTracker {
    /// Ids recorded so far.
    pub closed spec fn seen_ids(&self) -> Set<u32> {
        self.seen@
    }

    /// Whether the first poll has been made.
    pub closed spec fn is_primed(&self) -> bool {
        self.primed
    }

    /// Nothing seen yet, first poll still to come.
    pub fn new() -> (r: NotificationTracker)
        ensures
            r.seen_ids() == Set::<u32>::empty(),
            !r.is_primed(),
    {
        NotificationTracker { seen: HashSet::new(), primed: false }
    }

    /// Record the ids of the toasts currently listed and return those to
    /// handle: on the first poll none, afterwards each id not seen before,
    /// once, in list order.
    pub fn poll(&mut self, ids: &Vec<u32>) -> (dispatch: Vec<u32>)
        ensures
            forall|x: u32|
                #[trigger] final(self).seen_ids().contains(x) <==> (old(self).seen_ids().contains(x)
                    || ids@.contains(x)),
            final(self).is_primed(),
            dispatch@ == (if old(self).is_primed() {
                fresh_ids(old(self).seen_ids(), ids@)
            } else {
                Seq::<u32>::empty()
            }),
    {
        let ghost seen0 = self.seen@;
        let mut dispatch: Vec<u32> = Vec::new();
        let mut i: usize = 0;
        while i < ids.len()
            invariant
                i <= ids.len(),
                self.primed == old(self).primed,
                seen0 == old(self).seen@,
                forall|x: u32|
                    #[trigger] self.seen@.contains(x) <==> (seen0.contains(x) || ids@.take(
                        i as int,
                    ).contains(x)),
                dispatch@ == (if self.primed {
                    fresh_ids(seen0, ids@.take(i as int))
                } else {
                    Seq::<u32>::empty()
                }),
            decreases ids.len() - i,
        {
            let id = ids[i];
            let ghost prefix = ids@.take(i as int);
            assert(ids@.take(i + 1).drop_last() =~= prefix);
            assert(ids@.take(i + 1).last() == id);
            let inserted = self.seen.insert(id);
            if inserted && self.primed {
                dispatch.push(id);
            }
            assert forall|x: u32| #[trigger] self.seen@.contains(x) <==> (seen0.contains(x)
                || ids@.take(i + 1).contains(x)) by {
                let next = ids@.take(i + 1);
                if next.contains(x) && x != id {
                    let k = choose|k: int| 0 <= k < next.len() && #[trigger] next[k] == x;
                    assert(prefix[k] == x);
                }
                if prefix.contains(x) {
                    let k = choose|k: int| 0 <= k < i && prefix[k] == x;
                    assert(ids@.take(i + 1)[k] == x);
                }
                assert(ids@.take(i + 1)[i as int] == id);
            }
            i = i + 1;
        }
        assert(ids@.take(ids.len() as int) =~= ids@);
        self.primed = true;
        dispatch
    }
}

/// Title and body of a toast from its text elements: the first element is
/// the title; the others are joined by single spaces, an element being
/// appended without a space while the body built so far is still empty.
pub open spec fn body_of(texts: Seq<Seq<char>>) -> Seq<char>
    decreases texts.len(),
{
    if texts.len() <= 1 {
        Seq::<char>::empty()
    } else {
        let prev = body_of(texts.drop_last());
        if prev.len() == 0 {
            texts.last()
        } else {
            prev + seq![' '] + texts.last()
        }
    }
}

/// The title of a toast: its first text element, or empty.
pub open spec fn title_of(texts: Seq<Seq<char>>) -> Seq<char> {
    if texts.len() > 0 {
        texts[0]
    } else {
        Seq::<char>::empty()
    }
}

/// Split a toast's text elements into its title and its body.
pub fn split_text_elements(texts: &Vec<String>) -> (r: (String, String))
    ensures
        r.0@ == title_of(texts.deep_view()),
        r.1@ == body_of(texts.deep_view()),
{
    let ghost tv = texts.deep_view();
    let mut title: Vec<char> = Vec::new();
    let mut body: Vec<char> = Vec::new();
    let mut i: usize = 0;
    if texts.len() > 0 {
        title = chars_of(texts[0].as_str());
        i = 1;
    }
    while i < texts.len()
        invariant
            tv == texts.deep_view(),
            texts.len() > 0 ==> 1 <= i,
            i <= texts.len(),
            title@ == title_of(tv),
            body@ == body_of(tv.take(i as int)),
        decreases texts.len() - i,
    {
        let mut t = chars_of(texts[i].as_str());
        assert(tv.take(i + 1).drop_last() =~= tv.take(i as int));
        assert(tv.take(i + 1).last() == texts@[i as int]@);
        if body.len() > 0 {
            body.push(' ');
        }
        body.append(&mut t);
        i = i + 1;
    }
    proof {
        assert(tv.take(texts.len() as int) =~= tv);
        if texts.len() == 0 {
            assert(tv.take(0) =~= Seq::<Seq<char>>::empty());
        }
    }
    (string_of(&title), string_of(&body))
}

/// The call event for a matched toast: the filter's event type, softphone
/// and caller details, no intended-recipient hint, the given start and
/// capture times, and no notification text.
pub fn call_event_for_match(
    filter_match: &FilterMatch,
    started_at: String,
    captured_at: String,
) -> (e: CallEvent<'static>)
    ensures
        e.event_type@ == filter_match.event_type@,
        e.caller_phone_e164.deep_view() == filter_match.caller_phone_e164.deep_view(),
        e.caller_display_name.deep_view() == filter_match.caller_display_name.deep_view(),
        e.source_app.deep_view() == Some(filter_match.source_app@),
        e.intended_recipient_hint is None,
        e.started_at@ == started_at@,
        e.captured_at@ == captured_at@,
        e.metadata is Notification,
{
    CallEvent {
        event_type: filter_match.event_type,
        caller_phone_e164: clone_opt(&filter_match.caller_phone_e164),
        caller_display_name: clone_opt(&filter_match.caller_display_name),
        source_app: Some(filter_match.source_app.to_owned()),
        intended_recipient_hint: None,
        started_at,
        captured_at,
        metadata: CallMetadata::Notification,
    }
}

/// Build the call event for a matched toast, started and captured now, or
/// `None` when the system clock cannot be read. Every field of the event is
/// as [`call_event_for_match`] states; both times are the same clock reading
/// in RFC 3339 form.
pub fn build_call_event(filter_match: &FilterMatch) -> (r: Option<CallEvent<'static>>)
    ensures
        r matches Some(e) ==> {
            &&& e.event_type@ == filter_match.event_type@
            &&& e.caller_phone_e164.deep_view() == filter_match.caller_phone_e164.deep_view()
            &&& e.caller_display_name.deep_view() == filter_match.caller_display_name.deep_view()
            &&& e.source_app.deep_view() == Some(filter_match.source_app@)
            &&& e.intended_recipient_hint is None
            &&& is_rfc3339_utc_millis(e.started_at@)
            &&& is_timestamp_text(e.started_at@)
            &&& e.captured_at@ == e.started_at@
            &&& e.metadata is Notification
        },
{
    match utc_now_rfc3339_millis() {
        Some(now) => {
            let captured = now.clone();
            Some(call_event_for_match(filter_match, now, captured))
        },
        None => None,
    }
}

// ── Laws ────────────────────────────────────────────────────────────────────

/// Each id handled by a poll was unseen before the poll and is listed in it;
/// no id is handled twice in one poll; and every listed id that was unseen is
/// handled. Since a poll records every listed id as seen, no toast is ever
/// handled twice.
pub proof fn law_fresh_ids(seen: Set<u32>, ids: Seq<u32>)
    ensures
        forall|k: int|
            0 <= k < fresh_ids(seen, ids).len() ==> !seen.contains(#[trigger] fresh_ids(seen, ids)[k])
                && ids.contains(fresh_ids(seen, ids)[k]),
        forall|j: int, k: int|
            0 <= j < k < fresh_ids(seen, ids).len() ==> #[trigger] fresh_ids(seen, ids)[j]
                != #[trigger] fresh_ids(seen, ids)[k],
        forall|x: u32| ids.contains(x) && !seen.contains(x) ==> #[trigger] fresh_ids(seen, ids).contains(x),
    decreases ids.len(),
{
    if ids.len() > 0 {
        let pre = ids.drop_last();
        let x = ids.last();
        law_fresh_ids(seen, pre);
        let prev = fresh_ids(seen, pre);
        let f = fresh_ids(seen, ids);
        assert forall|k: int| 0 <= k < f.len() implies !seen.contains(#[trigger] f[k]) && ids.contains(
            f[k],
        ) by {
            if k < prev.len() {
                assert(f[k] == prev[k]);
                let m = choose|m: int| 0 <= m < pre.len() && pre[m] == prev[k];
                assert(ids[m] == pre[m]);
            } else {
                assert(f[k] == x);
                assert(ids[ids.len() - 1] == x);
            }
        }
        assert forall|j: int, k: int| 0 <= j < k < f.len() implies #[trigger] f[j] != #[trigger] f[k] by {
            if k < prev.len() {
                assert(f[j] == prev[j] && f[k] == prev[k]);
            } else {
                assert(f[j] == prev[j]);
                assert(pre.contains(prev[j]));
            }
        }
        assert forall|y: u32| ids.contains(y) && !seen.contains(y) implies #[trigger] f.contains(y) by {
            let m = choose|m: int| 0 <= m < ids.len() && ids[m] == y;
            if m < ids.len() - 1 {
                assert(pre[m] == y);
                assert(prev.contains(y));
                let q = choose|q: int| 0 <= q < prev.len() && prev[q] == y;
                assert(f[q] == y);
            } else if pre.contains(y) {
                assert(prev.contains(y));
                let q = choose|q: int| 0 <= q < prev.len() && prev[q] == y;
                assert(f[q] == y);
            } else {
                assert(f[f.len() - 1] == y);
            }
        }
    }
}

/// Across two consecutive polls no toast is handled twice: whatever the first
/// poll hands out is recorded as seen, so the second poll does not hand it
/// out again.
pub proof fn law_no_toast_handled_twice(seen: Set<u32>, first: Seq<u32>, second: Seq<u32>, x: u32)
    requires
        fresh_ids(seen, first).contains(x),
    ensures
        !fresh_ids(seen.union(first.to_set()), second).contains(x),
{
    law_fresh_ids(seen, first);
    let f = fresh_ids(seen, first);
    let k = choose|k: int| 0 <= k < f.len() && f[k] == x;
    assert(first.contains(f[k]));
    assert(first.to_set().contains(x));
    let seen2 = seen.union(first.to_set());
    law_fresh_ids(seen2, second);
    if fresh_ids(seen2, second).contains(x) {
        let j = choose|j: int| 0 <= j < fresh_ids(seen2, second).len() && fresh_ids(seen2, second)[j] == x;
        assert(!seen2.contains(fresh_ids(seen2, second)[j]));
    }
}

/// The ids listed in any of `polls`.
pub open spec fn all_ids(polls: Seq<Seq<u32>>) -> Set<u32>
    decreases polls.len(),
{
    if polls.len() == 0 {
        Set::<u32>::empty()
    } else {
        all_ids(polls.drop_last()).union(polls.last().to_set())
    }
}

/// What a tracker made by `new` hands out at poll `j` of the sequence
/// `polls`, by the contract of `poll`: nothing at the first poll; afterwards
/// the fresh ids of that poll against every id listed before it.
pub open spec fn dispatched_at(polls: Seq<Seq<u32>>, j: int) -> Seq<u32> {
    if j == 0 {
        Seq::<u32>::empty()
    } else {
        fresh_ids(all_ids(polls.take(j)), polls[j])
    }
}

proof fn lemma_all_ids(polls: Seq<Seq<u32>>, x: u32)
    ensures
        all_ids(polls).contains(x) <==> exists|j: int| 0 <= j < polls.len() && (#[trigger] polls[j]).contains(x),
    decreases polls.len(),
{
    if polls.len() > 0 {
        let pre = polls.drop_last();
        lemma_all_ids(pre, x);
        if exists|j: int| 0 <= j < polls.len() && (#[trigger] polls[j]).contains(x) {
            let j = choose|j: int| 0 <= j < polls.len() && (#[trigger] polls[j]).contains(x);
            if j < polls.len() - 1 {
                assert(pre[j] == polls[j]);
            } else {
                assert(polls.last().to_set().contains(x));
            }
        }
        if all_ids(pre).contains(x) {
            let j = choose|j: int| 0 <= j < pre.len() && (#[trigger] pre[j]).contains(x);
            assert(polls[j] == pre[j]);
        }
        if polls.last().to_set().contains(x) {
            assert(polls[polls.len() - 1].contains(x));
        }
    }
}

/// A toast already on screen at the first poll is never handled, at any
/// later poll.
pub proof fn law_toasts_present_at_start_never_handled(polls: Seq<Seq<u32>>, x: u32, j: int)
    requires
        polls.len() > 0,
        polls[0].contains(x),
        0 <= j < polls.len(),
    ensures
        !dispatched_at(polls, j).contains(x),
{
    if j > 0 {
        lemma_all_ids(polls.take(j), x);
        assert(polls.take(j)[0] == polls[0]);
        law_fresh_ids(all_ids(polls.take(j)), polls[j]);
        let f = dispatched_at(polls, j);
        if f.contains(x) {
            let k = choose|k: int| 0 <= k < f.len() && f[k] == x;
            assert(!all_ids(polls.take(j)).contains(f[k]));
        }
    }
}

/// Over any run of polls, each toast is handled at most once.
pub proof fn law_each_toast_handled_at_most_once(polls: Seq<Seq<u32>>, x: u32, j: int, k: int)
    requires
        0 <= j < k < polls.len(),
        dispatched_at(polls, j).contains(x),
    ensures
        !dispatched_at(polls, k).contains(x),
{
    let fj = dispatched_at(polls, j);
    law_fresh_ids(all_ids(polls.take(j)), polls[j]);
    let q = choose|q: int| 0 <= q < fj.len() && fj[q] == x;
    assert(polls[j].contains(fj[q]));
    lemma_all_ids(polls.take(k), x);
    assert(polls.take(k)[j] == polls[j]);
    law_fresh_ids(all_ids(polls.take(k)), polls[k]);
    let fk = dispatched_at(polls, k);
    if fk.contains(x) {
        let r = choose|r: int| 0 <= r < fk.len() && fk[r] == x;
        assert(!all_ids(polls.take(k)).contains(fk[r]));
    }
}

/// After the first poll, every toast that was never listed before is
/// handled when it first appears.
pub proof fn law_new_toasts_handled(polls: Seq<Seq<u32>>, x: u32, j: int)
    requires
        0 < j < polls.len(),
        polls[j].contains(x),
        forall|i: int| 0 <= i < j ==> !(#[trigger] polls[i]).contains(x),
    ensures
        dispatched_at(polls, j).contains(x),
{
    lemma_all_ids(polls.take(j), x);
    if all_ids(polls.take(j)).contains(x) {
        let i = choose|i: int| 0 <= i < polls.take(j).len() && (#[trigger] polls.take(j)[i]).contains(x);
        assert(polls.take(j)[i] == polls[i]);
    }
    law_fresh_ids(all_ids(polls.take(j)), polls[j]);
}

} // verus!
