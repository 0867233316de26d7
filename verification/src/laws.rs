//! Laws of the state machine, stated over `spec_step`: terminal states are
//! reached at most once per id and leave no cancellation handle behind, and
//! progress never goes backwards for a record that already exists.

use vstd::prelude::*;

use crate::control::spec_reconciled;
use crate::events::spec_step;
use crate::events::spec_status_update;
use crate::events::StatusEventView;
use crate::record::DownloadInfoView;
use crate::record::DownloadStatus;
use crate::record::PROGRESS_FULL;
use crate::registry::RegistryView;

verus! {

/// No record in a terminal state holds a cancellation handle.  A fresh
/// registry has it trivially, and `lemma_step_keeps_handles_settled` shows
/// every status event keeps it.
pub open spec fn spec_handles_settled(reg: RegistryView) -> bool {
    forall|k: Seq<char>| #[trigger]
        reg.downloads.contains_key(k) && reg.downloads[k].status.spec_is_terminal()
            ==> !reg.handles.contains(k)
}

/// A status event never changes the id of the record it updates.
pub proof fn lemma_status_update_keeps_id(
    r: DownloadInfoView,
    ev: StatusEventView,
    now: Seq<char>,
    created: bool,
)
    ensures
        spec_status_update(r, ev, now, created).0.id == r.id,
{
}

/// Law: after any status event, a record in a terminal state still holds no
/// cancellation handle.
pub proof fn lemma_step_keeps_handles_settled(
    reg: RegistryView,
    ev: StatusEventView,
    now: Seq<char>,
)
    requires
        spec_handles_settled(reg),
    ensures
        spec_handles_settled(spec_step(reg, ev, now).reg),
{
}

/// A status event keeps every record sitting under its own id.
pub proof fn lemma_step_keeps_keys_consistent(
    reg: RegistryView,
    ev: StatusEventView,
    now: Seq<char>,
)
    requires
        reg.keys_consistent(),
    ensures
        spec_step(reg, ev, now).reg.keys_consistent(),
{
    lemma_status_update_keeps_id(crate::events::spec_fresh_started(ev), ev, now, true);
    if reg.downloads.contains_key(ev.download_id) {
        lemma_status_update_keeps_id(reg.downloads[ev.download_id], ev, now, false);
    }
}

/// Law: a terminal status is reached in at most one transition per id.  Once
/// a record is terminal, any further status event leaves it exactly as it
/// is, and its cancellation handle stays absent.
pub proof fn lemma_terminal_states_sticky(
    reg: RegistryView,
    ev: StatusEventView,
    now: Seq<char>,
    id: Seq<char>,
)
    requires
        reg.keys_consistent(),
        spec_handles_settled(reg),
        reg.downloads.contains_key(id),
        reg.downloads[id].status.spec_is_terminal(),
    ensures
        spec_step(reg, ev, now).reg.downloads.contains_key(id),
        spec_step(reg, ev, now).reg.downloads[id] == reg.downloads[id],
        !spec_step(reg, ev, now).reg.handles.contains(id),
{
    let res = spec_step(reg, ev, now);
    lemma_status_update_keeps_id(crate::events::spec_fresh_started(ev), ev, now, true);
    if reg.downloads.contains_key(ev.download_id) {
        lemma_status_update_keeps_id(reg.downloads[ev.download_id], ev, now, false);
    }
    if ev.download_id == id {
        assert(res.reg == reg);
    } else {
        assert(res.reg.downloads[id] == reg.downloads[id]);
        assert(!reg.handles.contains(id));
        assert(!res.reg.handles.contains(id));
    }
}

/// Law: progress is non-decreasing per id.  For a record that already
/// exists, no status event lowers its progress; only the creation of a
/// record on a start notification writes an absolute value.
pub proof fn lemma_progress_monotone(
    reg: RegistryView,
    ev: StatusEventView,
    now: Seq<char>,
    id: Seq<char>,
)
    requires
        reg.keys_consistent(),
        reg.downloads.contains_key(id),
        reg.downloads[id].progress <= PROGRESS_FULL,
    ensures
        spec_step(reg, ev, now).reg.downloads.contains_key(id),
        reg.downloads[id].progress <= spec_step(reg, ev, now).reg.downloads[id].progress,
        spec_step(reg, ev, now).reg.downloads[id].progress <= PROGRESS_FULL,
{
    let res = spec_step(reg, ev, now);
    lemma_status_update_keeps_id(crate::events::spec_fresh_started(ev), ev, now, true);
    if reg.downloads.contains_key(ev.download_id) {
        lemma_status_update_keeps_id(reg.downloads[ev.download_id], ev, now, false);
    }
    if ev.download_id == id {
        let r = reg.downloads[id];
        if !r.status.spec_is_terminal() {
            let (r1, em1) = spec_status_update(r, ev, now, false);
            assert(res.reg.downloads[id] == r1);
            assert(r.progress <= r1.progress <= PROGRESS_FULL);
        }
    } else {
        assert(res.reg.downloads[id] == reg.downloads[id]);
    }
}

/// Every well-formed registry satisfies the laws' hypotheses: each record
/// sits under its own id, and no terminal record holds a handle.
pub proof fn lemma_wf_registry_satisfies_laws(s: &crate::registry::ActiveDownloads)
    requires
        s.wf(),
    ensures
        s@.keys_consistent(),
        spec_handles_settled(s@),
{
    crate::registry::lemma_records_map_keys_consistent(s.recs());
    assert forall|k: Seq<char>| #[trigger]
        s@.downloads.contains_key(k) && s@.downloads[k].status.spec_is_terminal()
            implies !s@.handles.contains(k) by {
        crate::registry::lemma_records_map_contains(s.recs(), k);
        let i = choose|i: int| 0 <= i < s.recs().len() && s.recs()[i].id == k;
        crate::registry::lemma_records_map_index(s.recs(), i);
        crate::registry::lemma_to_set_contains(s.tok_ids(), k);
    }
}

/// A sequence of status events, each with the timestamp it arrived at.
pub ghost struct TimedEvent {
    pub ev: StatusEventView,
    pub now: Seq<char>,
}

/// The registry after a whole sequence of status events.
pub open spec fn spec_run(reg: RegistryView, evs: Seq<TimedEvent>) -> RegistryView
    decreases evs.len(),
{
    if evs.len() == 0 {
        reg
    } else {
        spec_run(spec_step(reg, evs[0].ev, evs[0].now).reg, evs.drop_first())
    }
}

/// Law over whole sequences: in a registry whose terminal records hold no
/// handles, a record that reached a terminal state is never touched again by
/// any further sequence of status events, and its handle stays absent.  With
/// `lemma_step_keeps_handles_settled` this covers every registry grown from
/// a fresh one.
pub proof fn lemma_run_terminal_states_sticky(
    reg: RegistryView,
    evs: Seq<TimedEvent>,
    id: Seq<char>,
)
    requires
        reg.keys_consistent(),
        spec_handles_settled(reg),
        reg.downloads.contains_key(id),
        reg.downloads[id].status.spec_is_terminal(),
    ensures
        spec_run(reg, evs).downloads.contains_key(id),
        spec_run(reg, evs).downloads[id] == reg.downloads[id],
        !spec_run(reg, evs).handles.contains(id),
        spec_handles_settled(spec_run(reg, evs)),
    decreases evs.len(),
{
    if evs.len() > 0 {
        lemma_step_keeps_handles_settled(reg, evs[0].ev, evs[0].now);
        lemma_step_keeps_keys_consistent(reg, evs[0].ev, evs[0].now);
        lemma_terminal_states_sticky(reg, evs[0].ev, evs[0].now, id);
        lemma_run_terminal_states_sticky(
            spec_step(reg, evs[0].ev, evs[0].now).reg,
            evs.drop_first(),
            id,
        );
    }
}

/// Law over whole sequences: progress is non-decreasing per id across any
/// event sequence, for a record that exists before the sequence begins.
pub proof fn lemma_run_progress_monotone(reg: RegistryView, evs: Seq<TimedEvent>, id: Seq<char>)
    requires
        reg.keys_consistent(),
        reg.downloads.contains_key(id),
        reg.downloads[id].progress <= PROGRESS_FULL,
    ensures
        spec_run(reg, evs).downloads.contains_key(id),
        reg.downloads[id].progress <= spec_run(reg, evs).downloads[id].progress,
        spec_run(reg, evs).downloads[id].progress <= PROGRESS_FULL,
    decreases evs.len(),
{
    if evs.len() > 0 {
        lemma_progress_monotone(reg, evs[0].ev, evs[0].now, id);
        lemma_step_keeps_keys_consistent(reg, evs[0].ev, evs[0].now);
        lemma_run_progress_monotone(spec_step(reg, evs[0].ev, evs[0].now).reg, evs.drop_first(), id);
    }
}

/// Law: reconciliation after a restart turns a record left in Starting or
/// Downloading into that same record with status Failed and a non-empty
/// reason; every other field is kept.
pub proof fn lemma_restart_fails_in_flight(r: DownloadInfoView)
    requires
        r.status == DownloadStatus::Starting || r.status == DownloadStatus::Downloading,
    ensures
        spec_reconciled(r).status == DownloadStatus::Failed,
        spec_reconciled(r).error is Some,
        spec_reconciled(r).error->Some_0.len() > 0,
        spec_reconciled(r) == (DownloadInfoView {
            status: DownloadStatus::Failed,
            error: spec_reconciled(r).error,
            ..r
        }),
{
    reveal_strlit("Download interrupted due to application restart");
}



} // verus!
