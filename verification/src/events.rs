//! The reconciliation engine: status events coming back from the helper
//! process drive a state machine over the registry, and every transition
//! yields the outward notifications owed to the presentation layer.
//!
//! Terminal states are sticky: once a record is Completed, Failed or
//! Cancelled, further status events for its id are ignored.

use vstd::prelude::*;
use vstd::string::StringExecFns;

use crate::record::clone_opt;
use crate::record::DownloadInfo;
use crate::record::DownloadInfoView;
use crate::record::DownloadStatus;
use crate::record::ExtractionStatus;
use crate::record::PROGRESS_CONFIRMED;
use crate::record::PROGRESS_FULL;
use crate::record::PROGRESS_STARTED;
use crate::registry::ActiveDownloads;
use crate::registry::RegistryView;

verus! {

/// The `status` word of a status event from the helper process.
pub enum EventStatus {
    /// `"success"`: the download finished (a path is attached) or was
    /// confirmed (no path yet).
    Success,
    /// `"error"`: the download failed; a message may be attached.
    Error,
    /// `"progress"`: a progress report.
    Progress,
    /// Any other word; it is carried along for the error message.
    Other(String),
}

/// The mathematical value of an `EventStatus`.
pub ghost enum EventStatusView {
    Success,
    Error,
    Progress,
    Other(Seq<char>),
}

impl View for EventStatus {
    type V = EventStatusView;

    open spec fn view(&self) -> EventStatusView {
        match self {
            EventStatus::Success => EventStatusView::Success,
            EventStatus::Error => EventStatusView::Error,
            EventStatus::Progress => EventStatusView::Progress,
            EventStatus::Other(s) => EventStatusView::Other(s@),
        }
    }
}

/// One status event, as decoded from a line of the helper's output.
/// Progress is in hundredths of a percent.
pub struct StatusEvent {
    pub download_id: String,
    pub status: EventStatus,
    pub progress: Option<u32>,
    pub path: Option<String>,
    pub filename: Option<String>,
    pub message: Option<String>,
    pub download_started: bool,
}

/// The mathematical value of a `StatusEvent`.
pub ghost struct StatusEventView {
    pub download_id: Seq<char>,
    pub status: EventStatusView,
    pub progress: Option<u32>,
    pub path: Option<Seq<char>>,
    pub filename: Option<Seq<char>>,
    pub message: Option<Seq<char>>,
    pub download_started: bool,
}

impl View for StatusEvent {
    type V = StatusEventView;

    open spec fn view(&self) -> StatusEventView {
        StatusEventView {
            download_id: self.download_id@,
            status: self.status@,
            progress: self.progress,
            path: crate::record::opt_view(self.path),
            filename: crate::record::opt_view(self.filename),
            message: crate::record::opt_view(self.message),
            download_started: self.download_started,
        }
    }
}

/// One outward notification owed to the presentation layer.
#[allow(inconsistent_fields)]
pub enum Emission {
    /// `download-progress`: progress in hundredths of a percent; the filename
    /// is attached only on creation.
    DownloadProgress { id: String, progress: u32, filename: Option<String> },
    /// `download-complete`.
    DownloadComplete { id: String, filename: String, path: String },
    /// `download-error`.
    DownloadError { id: String, error: Option<String> },
    /// `extraction-progress`.
    ExtractionProgress { id: String, status: ExtractionStatus, progress: u32, error: Option<String> },
    /// A user-facing notification.
    Notify { title: String, body: String },
}

/// The mathematical value of an `Emission`.
#[allow(inconsistent_fields)]
pub ghost enum EmissionView {
    DownloadProgress { id: Seq<char>, progress: u32, filename: Option<Seq<char>> },
    DownloadComplete { id: Seq<char>, filename: Seq<char>, path: Seq<char> },
    DownloadError { id: Seq<char>, error: Option<Seq<char>> },
    ExtractionProgress { id: Seq<char>, status: ExtractionStatus, progress: u32, error: Option<Seq<char>> },
    Notify { title: Seq<char>, body: Seq<char> },
}

impl View for Emission {
    type V = EmissionView;

    open spec fn view(&self) -> EmissionView {
        match self {
            Emission::DownloadProgress { id, progress, filename } => EmissionView::DownloadProgress {
                id: id@,
                progress: *progress,
                filename: crate::record::opt_view(*filename),
            },
            Emission::DownloadComplete { id, filename, path } => EmissionView::DownloadComplete {
                id: id@,
                filename: filename@,
                path: path@,
            },
            Emission::DownloadError { id, error } => EmissionView::DownloadError {
                id: id@,
                error: crate::record::opt_view(*error),
            },
            Emission::ExtractionProgress { id, status, progress, error } => EmissionView::ExtractionProgress {
                id: id@,
                status: *status,
                progress: *progress,
                error: crate::record::opt_view(*error),
            },
            Emission::Notify { title, body } => EmissionView::Notify { title: title@, body: body@ },
        }
    }
}

/// An error of the library itself.
#[derive(Clone, Copy, Debug, PartialEq, Eq, Structural)]
pub enum CoreError {
    /// The id names no live download or saved game.
    NotFound,
    /// A launch method word outside the known four.
    InvalidLaunchMethod,
    /// A custom launch without a command to run.
    MissingCustomCommand,
}

impl CoreError {
    /// The error as text.
    pub fn message(&self) -> (r: String)
        ensures
            *self == CoreError::NotFound ==> r@ == "not found"@,
            *self == CoreError::InvalidLaunchMethod ==> r@ == "invalid launch method"@,
            *self == CoreError::MissingCustomCommand ==> r@ == "custom command not provided"@,
    {
        match self {
            CoreError::NotFound => String::from_str("not found"),
            CoreError::InvalidLaunchMethod => String::from_str("invalid launch method"),
            CoreError::MissingCustomCommand => String::from_str("custom command not provided"),
        }
    }
}

/// Progress clamped to 100%.
pub open spec fn spec_clamp_progress(p: u32) -> u32 {
    if p > PROGRESS_FULL {
        PROGRESS_FULL
    } else {
        p
    }
}

/// The filename an event carries, or the placeholder for an unnamed one.
pub open spec fn spec_event_filename(ev: StatusEventView) -> Seq<char> {
    match ev.filename {
        Some(f) => f,
        None => "Unknown file"@,
    }
}

/// The record created when a start notification arrives for an unknown id:
/// Downloading, with the progress floor of 0.1%.
pub open spec fn spec_fresh_started(ev: StatusEventView) -> DownloadInfoView {
    DownloadInfoView {
        id: ev.download_id,
        filename: spec_event_filename(ev),
        url: Seq::<char>::empty(),
        progress: PROGRESS_STARTED,
        status: DownloadStatus::Downloading,
        path: None,
        error: None,
        provider: Some("webview2"@),
        downloaded_at: None,
        extracted: false,
        extracted_path: None,
        extraction_status: ExtractionStatus::Idle,
        extraction_progress: 0,
    }
}

/// What one status event does to one known (or just created) record, and the
/// notifications it yields.  `created` says whether the record was created by
/// this very event's start notification.
pub open spec fn spec_status_update(
    r: DownloadInfoView,
    ev: StatusEventView,
    now: Seq<char>,
    created: bool,
) -> (DownloadInfoView, Seq<EmissionView>) {
    match ev.status {
        EventStatusView::Success => match ev.path {
            Some(p) => {
                let fname = match ev.filename {
                    Some(f) => f,
                    None => r.filename,
                };
                let r1 = DownloadInfoView {
                    status: DownloadStatus::Completed,
                    progress: PROGRESS_FULL,
                    path: Some(p),
                    downloaded_at: Some(now),
                    filename: fname,
                    ..r
                };
                (
                    r1,
                    seq![
                        EmissionView::DownloadComplete { id: r.id, filename: fname, path: p },
                        EmissionView::Notify {
                            title: "Download Complete"@,
                            body: "Downloaded: "@ + fname,
                        },
                    ],
                )
            },
            None => {
                let p1 = if r.progress < PROGRESS_CONFIRMED {
                    PROGRESS_CONFIRMED
                } else {
                    r.progress
                };
                let r1 = DownloadInfoView { status: DownloadStatus::Downloading, progress: p1, ..r };
                (
                    r1,
                    seq![
                        EmissionView::DownloadProgress { id: r.id, progress: p1, filename: None },
                    ],
                )
            },
        },
        EventStatusView::Error => {
            let r1 = DownloadInfoView { status: DownloadStatus::Failed, error: ev.message, ..r };
            (
                r1,
                seq![
                    EmissionView::DownloadError { id: r.id, error: ev.message },
                    EmissionView::Notify {
                        title: "Download Failed"@,
                        body: "Failed to download: "@ + r.filename,
                    },
                ],
            )
        },
        EventStatusView::Progress => match ev.progress {
            Some(p0) => {
                let p = spec_clamp_progress(p0);
                if p > r.progress || created {
                    let r1 = DownloadInfoView {
                        status: DownloadStatus::Downloading,
                        progress: p,
                        ..r
                    };
                    (
                        r1,
                        seq![
                            EmissionView::DownloadProgress { id: r.id, progress: p, filename: None },
                        ],
                    )
                } else {
                    (r, Seq::<EmissionView>::empty())
                }
            },
            None => (r, Seq::<EmissionView>::empty()),
        },
        EventStatusView::Other(s) => {
            let msg = "Unknown status: "@ + s;
            let r1 = DownloadInfoView {
                status: DownloadStatus::Unknown,
                error: Some(msg),
                ..r
            };
            (
                r1,
                seq![
                    EmissionView::DownloadError { id: r.id, error: Some(msg) },
                ],
            )
        },
    }
}

/// Whether an event for an unknown id is worth a synthesized record.
pub open spec fn spec_event_synthesizes(ev: StatusEventView) -> bool {
    ev.download_id.len() > 0 && (ev.status is Success || ev.status is Error
        || ev.status is Progress)
}

/// The record synthesized for an event whose id the registry does not know.
pub open spec fn spec_synth_record(ev: StatusEventView) -> DownloadInfoView {
    let progress = match ev.status {
        EventStatusView::Progress => match ev.progress {
            Some(p) => spec_clamp_progress(p),
            None => 0,
        },
        _ => 0,
    };
    let status = match ev.status {
        EventStatusView::Success => if ev.path is Some {
            DownloadStatus::Completed
        } else {
            DownloadStatus::Downloading
        },
        EventStatusView::Progress => DownloadStatus::Downloading,
        _ => DownloadStatus::Failed,
    };
    DownloadInfoView {
        id: ev.download_id,
        filename: spec_event_filename(ev),
        url: Seq::<char>::empty(),
        progress: progress,
        status: status,
        path: ev.path,
        error: if ev.status is Error {
            ev.message
        } else {
            None
        },
        provider: Some("webview2"@),
        downloaded_at: None,
        extracted: false,
        extracted_path: None,
        extraction_status: ExtractionStatus::Idle,
        extraction_progress: 0,
    }
}

/// The notifications a synthesized record yields.
pub open spec fn spec_synth_emits(ev: StatusEventView) -> Seq<EmissionView> {
    match ev.status {
        EventStatusView::Progress => seq![
            EmissionView::DownloadProgress {
                id: ev.download_id,
                progress: spec_synth_record(ev).progress,
                filename: None,
            },
        ],
        EventStatusView::Success => match ev.path {
            Some(p) => seq![
                EmissionView::DownloadComplete {
                    id: ev.download_id,
                    filename: spec_event_filename(ev),
                    path: p,
                },
            ],
            None => Seq::<EmissionView>::empty(),
        },
        _ => Seq::<EmissionView>::empty(),
    }
}

/// The registry after inserting a record, with the id's handle removed when
/// the record is terminal.
pub open spec fn spec_insert_settled(
    reg: RegistryView,
    r: DownloadInfoView,
) -> RegistryView {
    RegistryView {
        downloads: reg.downloads.insert(r.id, r),
        handles: if r.status.spec_is_terminal() {
            reg.handles.remove(r.id)
        } else {
            reg.handles
        },
    }
}

/// The result of one step of the state machine.
pub ghost struct StepResult {
    pub reg: RegistryView,
    pub emits: Seq<EmissionView>,
}

/// One step of the state machine: what a status event does to the registry,
/// and the notifications it yields.
pub open spec fn spec_step(
    reg: RegistryView,
    ev: StatusEventView,
    now: Seq<char>,
) -> StepResult {
    let known = reg.downloads.contains_key(ev.download_id);
    if ev.download_started && !known {
        let r0 = spec_fresh_started(ev);
        let creation = EmissionView::DownloadProgress {
            id: ev.download_id,
            progress: PROGRESS_STARTED,
            filename: Some(spec_event_filename(ev)),
        };
        let (r1, em1) = spec_status_update(r0, ev, now, true);
        StepResult { reg: spec_insert_settled(reg, r1), emits: seq![creation] + em1 }
    } else if known {
        let r = reg.downloads[ev.download_id];
        if r.status.spec_is_terminal() {
            StepResult { reg, emits: Seq::<EmissionView>::empty() }
        } else {
            let (r1, em1) = spec_status_update(r, ev, now, false);
            StepResult { reg: spec_insert_settled(reg, r1), emits: em1 }
        }
    } else {
        if spec_event_synthesizes(ev) {
            StepResult {
                reg: spec_insert_settled(reg, spec_synth_record(ev)),
                emits: spec_synth_emits(ev),
            }
        } else {
            StepResult { reg, emits: Seq::<EmissionView>::empty() }
        }
    }
}

impl ActiveDownloads {
    /// Apply one status event, as `spec_step` describes: create a record on a
    /// start notification for an unknown id, apply the status to the record
    /// (terminal records are left alone), synthesize a record for an unknown
    /// id, and drop the cancellation handle of a record that turned terminal.
    pub fn apply_event(&mut self, ev: &StatusEvent, now: &String) -> (em: Vec<Emission>)
        requires
            old(self).wf(),
        ensures
            final(self).wf(),
            final(self)@ == spec_step(old(self)@, ev@, now@).reg,
            em@.map_values(|e: Emission| e@) == spec_step(old(self)@, ev@, now@).emits,
    {
        let ghost step = spec_step(old(self)@, ev@, now@);
        let mut em: Vec<Emission> = Vec::new();
        let idx0 = self.find_index(&ev.download_id);
        proof {
            if idx0 is Some {
                crate::registry::lemma_records_map_contains(self.recs(), ev.download_id@);
            }
        }
        if ev.download_started && idx0.is_none() {
            let fname = event_filename(ev);
            em.push(Emission::DownloadProgress {
                id: ev.download_id.clone(),
                progress: PROGRESS_STARTED,
                filename: Some(fname.clone()),
            });
            let rec0 = fresh_started(ev, fname);
            let (rec1, em1) = status_update(rec0, ev, now, true);
            self.settle(rec1);
            push_all(&mut em, &em1);
            proof {
                assert(em@.map_values(|e: Emission| e@) =~= step.emits);
            }
        } else if let Some(i) = idx0 {
            let terminal = self.downloads[i].status.is_terminal();
            proof {
                crate::registry::lemma_records_map_index(self.recs(), i as int);
            }
            if !terminal {
                let rec = self.downloads[i].clone();
                let (rec1, em1) = status_update(rec, ev, now, false);
                self.settle(rec1);
                push_all(&mut em, &em1);
            }
            proof {
                assert(em@.map_values(|e: Emission| e@) =~= step.emits);
            }
        } else {
            let synthesizes = match &ev.status {
                EventStatus::Success => true,
                EventStatus::Error => true,
                EventStatus::Progress => true,
                EventStatus::Other(_) => false,
            };
            if synthesizes && !ev.download_id.as_str().is_empty() {
                let fname = event_filename(ev);
                let progress: u32 = match &ev.status {
                    EventStatus::Progress => match &ev.progress {
                        Some(p) => clamp_progress(*p),
                        None => 0,
                    },
                    _ => 0,
                };
                let status = match &ev.status {
                    EventStatus::Success => {
                        if ev.path.is_some() {
                            DownloadStatus::Completed
                        } else {
                            DownloadStatus::Downloading
                        }
                    },
                    EventStatus::Progress => DownloadStatus::Downloading,
                    _ => DownloadStatus::Failed,
                };
                let error = match &ev.status {
                    EventStatus::Error => clone_opt(&ev.message),
                    _ => None,
                };
                let rec = DownloadInfo {
                    id: ev.download_id.clone(),
                    filename: fname.clone(),
                    url: String::new(),
                    progress,
                    status,
                    path: clone_opt(&ev.path),
                    error,
                    provider: Some(String::from_str("webview2")),
                    downloaded_at: None,
                    extracted: false,
                    extracted_path: None,
                    extraction_status: ExtractionStatus::Idle,
                    extraction_progress: 0,
                };
                match &ev.status {
                    EventStatus::Progress => {
                        em.push(Emission::DownloadProgress {
                            id: ev.download_id.clone(),
                            progress,
                            filename: None,
                        });
                    },
                    EventStatus::Success => {
                        if let Some(p) = &ev.path {
                            em.push(Emission::DownloadComplete {
                                id: ev.download_id.clone(),
                                filename: fname.clone(),
                                path: p.clone(),
                            });
                        }
                    },
                    _ => {},
                }
                self.settle(rec);
            }
            proof {
                assert(em@.map_values(|e: Emission| e@) =~= step.emits);
            }
        }
        em
    }

    /// Insert a record under its id and, when it is terminal, drop the id's
    /// cancellation handle.
    fn settle(&mut self, rec: DownloadInfo)
        requires
            old(self).wf(),
            rec@.wf(),
        ensures
            final(self).wf(),
            final(self)@ == spec_insert_settled(old(self)@, rec@),
    {
        if rec.status.is_terminal() {
            let _token = self.remove_token(&rec.id);
            self.upsert(rec);
        } else {
            self.upsert(rec);
        }
    }
}

/// Append a copy of every element of `more` to `em`.
fn push_all(em: &mut Vec<Emission>, more: &Vec<Emission>)
    ensures
        final(em)@.map_values(|e: Emission| e@) == old(em)@.map_values(|e: Emission| e@)
            + more@.map_values(|e: Emission| e@),
{
    let n = more.len();
    let mut i: usize = 0;
    let ghost emv = em@.map_values(|e: Emission| e@);
    let ghost morev = more@.map_values(|e: Emission| e@);
    while i < n
        invariant
            n == more@.len(),
            morev == more@.map_values(|e: Emission| e@),
            i <= n,
            em@.map_values(|e: Emission| e@) =~= emv + morev.take(i as int),
        decreases n - i,
    {
        let ghost prev = em@;
        em.push(clone_emission(&more[i]));
        proof {
            assert(em@ =~= prev.push(em@.last()));
            assert(em@.map_values(|e: Emission| e@) =~= prev.map_values(|e: Emission| e@).push(
                em@.last()@,
            ));
            assert(em@.map_values(|e: Emission| e@) =~= emv + morev.take(i + 1 as int));
        }
        i = i + 1;
    }
    proof {
        assert(morev.take(n as int) =~= morev);
    }
}

/// A clone of one emission, equal in value.
fn clone_emission(e: &Emission) -> (r: Emission)
    ensures
        r@ == e@,
{
    match e {
        Emission::DownloadProgress { id, progress, filename } => Emission::DownloadProgress {
            id: id.clone(),
            progress: *progress,
            filename: clone_opt(filename),
        },
        Emission::DownloadComplete { id, filename, path } => Emission::DownloadComplete {
            id: id.clone(),
            filename: filename.clone(),
            path: path.clone(),
        },
        Emission::DownloadError { id, error } => Emission::DownloadError {
            id: id.clone(),
            error: clone_opt(error),
        },
        Emission::ExtractionProgress { id, status, progress, error } => Emission::ExtractionProgress {
            id: id.clone(),
            status: *status,
            progress: *progress,
            error: clone_opt(error),
        },
        Emission::Notify { title, body } => Emission::Notify {
            title: title.clone(),
            body: body.clone(),
        },
    }
}

/// Progress clamped to 100%.
pub fn clamp_progress(p: u32) -> (r: u32)
    ensures
        r == spec_clamp_progress(p),
{
    if p > PROGRESS_FULL {
        PROGRESS_FULL
    } else {
        p
    }
}

/// The filename an event carries, or the placeholder for an unnamed one.
fn event_filename(ev: &StatusEvent) -> (r: String)
    ensures
        r@ == spec_event_filename(ev@),
{
    match &ev.filename {
        Some(f) => f.clone(),
        None => String::from_str("Unknown file"),
    }
}

/// The record created for a bare start notification; `fname` is the event's
/// filename already resolved.
fn fresh_started(ev: &StatusEvent, fname: String) -> (r: DownloadInfo)
    requires
        fname@ == spec_event_filename(ev@),
    ensures
        r@ == spec_fresh_started(ev@),
        r@.wf(),
{
    DownloadInfo {
        id: ev.download_id.clone(),
        filename: fname,
        url: String::new(),
        progress: PROGRESS_STARTED,
        status: DownloadStatus::Downloading,
        path: None,
        error: None,
        provider: Some(String::from_str("webview2")),
        downloaded_at: None,
        extracted: false,
        extracted_path: None,
        extraction_status: ExtractionStatus::Idle,
        extraction_progress: 0,
    }
}

/// Apply one status word to one record; mirrors `spec_status_update`.
fn status_update(rec: DownloadInfo, ev: &StatusEvent, now: &String, created: bool) -> (r: (
    DownloadInfo,
    Vec<Emission>,
))
    requires
        rec@.wf(),
    ensures
        (r.0@, r.1@.map_values(|e: Emission| e@)) == spec_status_update(rec@, ev@, now@, created),
        r.0@.wf(),
{
    let mut em: Vec<Emission> = Vec::new();
    match &ev.status {
        EventStatus::Success => match &ev.path {
            Some(p) => {
                let fname = match &ev.filename {
                    Some(f) => f.clone(),
                    None => rec.filename.clone(),
                };
                let r1 = DownloadInfo {
                    status: DownloadStatus::Completed,
                    progress: PROGRESS_FULL,
                    path: Some(p.clone()),
                    downloaded_at: Some(now.clone()),
                    filename: fname.clone(),
                    ..rec
                };
                em.push(Emission::DownloadComplete {
                    id: r1.id.clone(),
                    filename: fname.clone(),
                    path: p.clone(),
                });
                em.push(Emission::Notify {
                    title: String::from_str("Download Complete"),
                    body: String::from_str("Downloaded: ").concat(fname.as_str()),
                });
                proof {
                    assert(em@.map_values(|e: Emission| e@) =~= spec_status_update(
                        rec@,
                        ev@,
                        now@,
                        created,
                    ).1);
                }
                (r1, em)
            },
            None => {
                let p1 = if rec.progress < PROGRESS_CONFIRMED {
                    PROGRESS_CONFIRMED
                } else {
                    rec.progress
                };
                let r1 = DownloadInfo {
                    status: DownloadStatus::Downloading,
                    progress: p1,
                    ..rec
                };
                em.push(Emission::DownloadProgress {
                    id: r1.id.clone(),
                    progress: p1,
                    filename: None,
                });
                proof {
                    assert(em@.map_values(|e: Emission| e@) =~= spec_status_update(
                        rec@,
                        ev@,
                        now@,
                        created,
                    ).1);
                }
                (r1, em)
            },
        },
        EventStatus::Error => {
            let r1 = DownloadInfo {
                status: DownloadStatus::Failed,
                error: clone_opt(&ev.message),
                ..rec
            };
            em.push(Emission::DownloadError {
                id: r1.id.clone(),
                error: clone_opt(&ev.message),
            });
            em.push(Emission::Notify {
                title: String::from_str("Download Failed"),
                body: String::from_str("Failed to download: ").concat(r1.filename.as_str()),
            });
            proof {
                assert(em@.map_values(|e: Emission| e@) =~= spec_status_update(
                    rec@,
                    ev@,
                    now@,
                    created,
                ).1);
            }
            (r1, em)
        },
        EventStatus::Progress => match &ev.progress {
            Some(p0) => {
                let p = clamp_progress(*p0);
                if p > rec.progress || created {
                    let r1 = DownloadInfo {
                        status: DownloadStatus::Downloading,
                        progress: p,
                        ..rec
                    };
                    em.push(Emission::DownloadProgress {
                        id: r1.id.clone(),
                        progress: p,
                        filename: None,
                    });
                    proof {
                        assert(em@.map_values(|e: Emission| e@) =~= spec_status_update(
                            rec@,
                            ev@,
                            now@,
                            created,
                        ).1);
                    }
                    (r1, em)
                } else {
                    proof {
                        assert(em@.map_values(|e: Emission| e@) =~= spec_status_update(
                            rec@,
                            ev@,
                            now@,
                            created,
                        ).1);
                    }
                    (rec, em)
                }
            },
            None => {
                proof {
                    assert(em@.map_values(|e: Emission| e@) =~= spec_status_update(
                        rec@,
                        ev@,
                        now@,
                        created,
                    ).1);
                }
                (rec, em)
            },
        },
        EventStatus::Other(s) => {
            let msg = String::from_str("Unknown status: ").concat(s.as_str());
            let r1 = DownloadInfo {
                status: DownloadStatus::Unknown,
                error: Some(msg.clone()),
                ..rec
            };
            em.push(Emission::DownloadError {
                id: r1.id.clone(),
                error: Some(msg),
            });
            proof {
                assert(em@.map_values(|e: Emission| e@) =~= spec_status_update(
                    rec@,
                    ev@,
                    now@,
                    created,
                ).1);
            }
            (r1, em)
        },
    }
}

} // verus!
