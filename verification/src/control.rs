//! Operations driven by the presentation layer: starting a download,
//! cancelling one, registering a finished file by hand, recording extraction
//! progress, and the crash recovery applied to a registry loaded at startup.

use vstd::prelude::*;
use vstd::string::StringExecFns;

use crate::events::spec_step;
use crate::wire::LineError;
use crate::wire::parse_status_line;
use crate::wire::spec_event_of_pairs;
use crate::wire::spec_parse_flat_object;

use crate::events::CoreError;
use crate::events::Emission;
use crate::events::EmissionView;
use crate::events::EventStatus;
use crate::events::EventStatusView;
use crate::events::StatusEvent;
use crate::events::StatusEventView;
use crate::record::DownloadInfo;
use crate::record::DownloadInfoView;
use crate::record::DownloadStatus;
use crate::record::ExtractionStatus;
use crate::record::PROGRESS_FULL;
use crate::registry::ActiveDownloads;

verus! {

/// The record a freshly started download gets: Starting, at zero progress.
pub open spec fn spec_start_record(
    url: Seq<char>,
    filename: Seq<char>,
    id: Seq<char>,
) -> DownloadInfoView {
    DownloadInfoView {
        id: id,
        filename: filename,
        url: url,
        progress: 0,
        status: DownloadStatus::Starting,
        path: None,
        error: None,
        provider: Some("webview2"@),
        downloaded_at: None,
        extracted: false,
        extracted_path: None,
        extraction_status: ExtractionStatus::Idle,
        extraction_progress: 0,
    }
}

/// A record after a user-triggered cancellation.
pub open spec fn spec_cancelled(r: DownloadInfoView) -> DownloadInfoView {
    DownloadInfoView {
        status: DownloadStatus::Cancelled,
        progress: 0,
        error: Some("Download cancelled by user"@),
        ..r
    }
}

/// The reason written into records interrupted by a restart.
pub open spec fn spec_restart_reason() -> Seq<char> {
    "Download interrupted due to application restart"@
}

/// Crash recovery for one record: a record still in Starting or Downloading
/// cannot have survived the restart, so it is forced to Failed.
pub open spec fn spec_reconciled(r: DownloadInfoView) -> DownloadInfoView {
    if r.status == DownloadStatus::Starting || r.status == DownloadStatus::Downloading {
        DownloadInfoView {
            status: DownloadStatus::Failed,
            error: Some(spec_restart_reason()),
            ..r
        }
    } else {
        r
    }
}

/// The record registered for a file that already lies on disk:
/// Completed, with the extraction state inferred from whether the
/// `_extracted` sibling directory exists.
pub open spec fn spec_manual_record(
    id: Seq<char>,
    filename: Seq<char>,
    path: Seq<char>,
    extracted_exists: bool,
    now: Seq<char>,
) -> DownloadInfoView {
    DownloadInfoView {
        id: id,
        filename: filename,
        url: Seq::<char>::empty(),
        progress: PROGRESS_FULL,
        status: DownloadStatus::Completed,
        path: Some(path),
        error: None,
        provider: None,
        downloaded_at: Some(now),
        extracted: extracted_exists,
        extracted_path: if extracted_exists {
            Some(path + "_extracted"@)
        } else {
            None
        },
        extraction_status: if extracted_exists {
            ExtractionStatus::Completed
        } else {
            ExtractionStatus::Idle
        },
        extraction_progress: if extracted_exists {
            PROGRESS_FULL
        } else {
            0
        },
    }
}

/// A record once its extraction begins.
pub open spec fn spec_extraction_started(r: DownloadInfoView) -> DownloadInfoView {
    DownloadInfoView { extraction_status: ExtractionStatus::Extracting, extraction_progress: 0, ..r }
}

/// A record once its extraction finished into `dir`.
pub open spec fn spec_extraction_completed(r: DownloadInfoView, dir: Seq<char>) -> DownloadInfoView {
    DownloadInfoView {
        extraction_status: ExtractionStatus::Completed,
        extraction_progress: PROGRESS_FULL,
        extracted: true,
        extracted_path: Some(dir),
        ..r
    }
}

/// A record once its extraction failed.
pub open spec fn spec_extraction_failed(r: DownloadInfoView) -> DownloadInfoView {
    DownloadInfoView { extraction_status: ExtractionStatus::Failed, extraction_progress: 0, ..r }
}

/// Relies on chrono's Utc::now and to_rfc3339: the moment of the call as an
/// RFC 3339 timestamp.  The result depends on the clock, so nothing is
/// promised of it.
#[verifier::external_body]
pub fn now_rfc3339() -> (r: String) {
    chrono::Utc::now().to_rfc3339()
}

/// The sibling path probed to infer that an archive was already extracted.
pub fn extracted_sibling_path(path: &String) -> (r: String)
    ensures
        r@ == path@ + "_extracted"@,
{
    path.clone().concat("_extracted")
}

impl ActiveDownloads {
    /// Begin a download: insert a Starting record under the id, and a fresh
    /// cancellation handle beside it.  A record already under the id is
    /// replaced, as a repeated start supersedes the old attempt.
    pub fn start_download(&mut self, url: String, filename: String, download_id: String)
        requires
            old(self).wf(),
        ensures
            final(self).wf(),
            final(self)@.downloads == old(self)@.downloads.insert(
                download_id@,
                spec_start_record(url@, filename@, download_id@),
            ),
            final(self)@.handles == old(self)@.handles.insert(download_id@),
    {
        let rec = DownloadInfo {
            id: download_id.clone(),
            filename: filename,
            url: url,
            progress: 0,
            status: DownloadStatus::Starting,
            path: None,
            error: None,
            provider: Some(String::from_str("webview2")),
            downloaded_at: None,
            extracted: false,
            extracted_path: None,
            extraction_status: ExtractionStatus::Idle,
            extraction_progress: 0,
        };
        self.upsert(rec);
        let token = tokio_util::sync::CancellationToken::new();
        self.insert_token(download_id, token);
    }

    /// Cancel a download: signal and drop its handle, mark its record
    /// Cancelled, and hand back the notification owed to the user.  With no
    /// handle under the id, the registry is left untouched and NotFound comes
    /// back.
    pub fn cancel_active_download(&mut self, download_id: &String) -> (r: Result<
        Vec<Emission>,
        CoreError,
    >)
        requires
            old(self).wf(),
        ensures
            final(self).wf(),
            old(self)@.handles.contains(download_id@) ==> {
                &&& r is Ok
                &&& final(self)@.handles == old(self)@.handles.remove(download_id@)
                &&& final(self)@.downloads == if old(self)@.downloads.contains_key(download_id@) {
                    old(self)@.downloads.insert(
                        download_id@,
                        spec_cancelled(old(self)@.downloads[download_id@]),
                    )
                } else {
                    old(self)@.downloads
                }
                &&& r->Ok_0@.map_values(|e: Emission| e@) == seq![
                    EmissionView::Notify {
                        title: "Download Cancelled"@,
                        body: "Download "@ + download_id@ + " was cancelled"@,
                    },
                ]
            },
            !old(self)@.handles.contains(download_id@) ==> {
                &&& r == Err::<Vec<Emission>, CoreError>(CoreError::NotFound)
                &&& final(self)@ == old(self)@
            },
    {
        let token = self.remove_token(download_id);
        match token {
            None => {
                proof {
                    assert(old(self)@.handles.remove(download_id@) =~= old(self)@.handles);
                }
                Err(CoreError::NotFound)
            },
            Some(tok) => {
                tok.cancel();
                let idx = self.find_index(download_id);
                proof {
                    if idx is Some {
                        crate::registry::lemma_records_map_contains(self.recs(), download_id@);
                        crate::registry::lemma_records_map_index(self.recs(), idx->Some_0 as int);
                    }
                }
                if let Some(i) = idx {
                    let rec = self.downloads[i].clone();
                    let cancelled = DownloadInfo {
                        status: DownloadStatus::Cancelled,
                        progress: 0,
                        error: Some(String::from_str("Download cancelled by user")),
                        ..rec
                    };
                    self.upsert(cancelled);
                }
                let mut em: Vec<Emission> = Vec::new();
                em.push(Emission::Notify {
                    title: String::from_str("Download Cancelled"),
                    body: String::from_str("Download ").concat(download_id.as_str()).concat(
                        " was cancelled",
                    ),
                });
                proof {
                    assert(em@.map_values(|e: Emission| e@) =~= seq![
                        EmissionView::Notify {
                            title: "Download Cancelled"@,
                            body: "Download "@ + download_id@ + " was cancelled"@,
                        },
                    ]);
                }
                Ok(em)
            },
        }
    }

    /// Register a file that already lies on disk as a completed download.
    /// `extracted_exists` reports whether the `_extracted` sibling of `path`
    /// exists; the record's extraction state is inferred from it.
    pub fn register_manual_download(
        &mut self,
        download_id: String,
        filename: String,
        path: String,
        extracted_exists: bool,
        now: String,
    )
        requires
            old(self).wf(),
            !old(self)@.handles.contains(download_id@),
        ensures
            final(self).wf(),
            final(self)@.downloads == old(self)@.downloads.insert(
                download_id@,
                spec_manual_record(download_id@, filename@, path@, extracted_exists, now@),
            ),
            final(self)@.handles == old(self)@.handles,
    {
        let sibling = if extracted_exists {
            Some(extracted_sibling_path(&path))
        } else {
            None
        };
        let rec = DownloadInfo {
            id: download_id,
            filename: filename,
            url: String::new(),
            progress: PROGRESS_FULL,
            status: DownloadStatus::Completed,
            path: Some(path),
            error: None,
            provider: None,
            downloaded_at: Some(now),
            extracted: extracted_exists,
            extracted_path: sibling,
            extraction_status: if extracted_exists {
                ExtractionStatus::Completed
            } else {
                ExtractionStatus::Idle
            },
            extraction_progress: if extracted_exists {
                PROGRESS_FULL
            } else {
                0
            },
        };
        self.upsert(rec);
    }

    /// Record that extraction of a download began; the record, if the id has
    /// one, moves to Extracting at zero progress.  Hands back the extraction
    /// progress notification owed either way.
    pub fn extraction_started(&mut self, download_id: &String) -> (em: Vec<Emission>)
        requires
            old(self).wf(),
        ensures
            final(self).wf(),
            final(self)@.downloads == if old(self)@.downloads.contains_key(download_id@) {
                old(self)@.downloads.insert(
                    download_id@,
                    spec_extraction_started(old(self)@.downloads[download_id@]),
                )
            } else {
                old(self)@.downloads
            },
            final(self)@.handles == old(self)@.handles,
            em@.map_values(|e: Emission| e@) == seq![
                EmissionView::ExtractionProgress {
                    id: download_id@,
                    status: ExtractionStatus::Extracting,
                    progress: 0,
                    error: None,
                },
            ],
    {
        let idx = self.find_index(download_id);
        proof {
            if idx is Some {
                crate::registry::lemma_records_map_contains(self.recs(), download_id@);
                crate::registry::lemma_records_map_index(self.recs(), idx->Some_0 as int);
            }
        }
        if let Some(i) = idx {
            let rec = self.downloads[i].clone();
            let updated = DownloadInfo {
                extraction_status: ExtractionStatus::Extracting,
                extraction_progress: 0,
                ..rec
            };
            proof {
                lemma_no_handle_for(self, i as int);
            }
            self.upsert(updated);
        }
        let mut em: Vec<Emission> = Vec::new();
        em.push(Emission::ExtractionProgress {
            id: download_id.clone(),
            status: ExtractionStatus::Extracting,
            progress: 0,
            error: None,
        });
        proof {
            assert(em@.map_values(|e: Emission| e@) =~= seq![
                EmissionView::ExtractionProgress {
                    id: download_id@,
                    status: ExtractionStatus::Extracting,
                    progress: 0,
                    error: None,
                },
            ]);
        }
        em
    }

    /// Record that extraction finished into `output_dir`; the record, if the
    /// id has one, is marked extracted.  Hands back the extraction progress
    /// notification and the user-facing one.
    pub fn extraction_completed(&mut self, download_id: &String, output_dir: &String) -> (em: Vec<
        Emission,
    >)
        requires
            old(self).wf(),
        ensures
            final(self).wf(),
            final(self)@.downloads == if old(self)@.downloads.contains_key(download_id@) {
                old(self)@.downloads.insert(
                    download_id@,
                    spec_extraction_completed(old(self)@.downloads[download_id@], output_dir@),
                )
            } else {
                old(self)@.downloads
            },
            final(self)@.handles == old(self)@.handles,
            em@.map_values(|e: Emission| e@) == seq![
                EmissionView::ExtractionProgress {
                    id: download_id@,
                    status: ExtractionStatus::Completed,
                    progress: PROGRESS_FULL,
                    error: None,
                },
                EmissionView::Notify {
                    title: "Extraction Complete"@,
                    body: "File extracted to "@ + output_dir@,
                },
            ],
    {
        let idx = self.find_index(download_id);
        proof {
            if idx is Some {
                crate::registry::lemma_records_map_contains(self.recs(), download_id@);
                crate::registry::lemma_records_map_index(self.recs(), idx->Some_0 as int);
            }
        }
        if let Some(i) = idx {
            let rec = self.downloads[i].clone();
            let updated = DownloadInfo {
                extraction_status: ExtractionStatus::Completed,
                extraction_progress: PROGRESS_FULL,
                extracted: true,
                extracted_path: Some(output_dir.clone()),
                ..rec
            };
            proof {
                lemma_no_handle_for(self, i as int);
            }
            self.upsert(updated);
        }
        let mut em: Vec<Emission> = Vec::new();
        em.push(Emission::ExtractionProgress {
            id: download_id.clone(),
            status: ExtractionStatus::Completed,
            progress: PROGRESS_FULL,
            error: None,
        });
        em.push(Emission::Notify {
            title: String::from_str("Extraction Complete"),
            body: String::from_str("File extracted to ").concat(output_dir.as_str()),
        });
        proof {
            assert(em@.map_values(|e: Emission| e@) =~= seq![
                EmissionView::ExtractionProgress {
                    id: download_id@,
                    status: ExtractionStatus::Completed,
                    progress: PROGRESS_FULL,
                    error: None,
                },
                EmissionView::Notify {
                    title: "Extraction Complete"@,
                    body: "File extracted to "@ + output_dir@,
                },
            ]);
        }
        em
    }

    /// Record that extraction failed; the record, if the id has one, moves to
    /// a Failed extraction state.  Hands back the extraction progress
    /// notification carrying the reason.
    pub fn extraction_failed(&mut self, download_id: &String, reason: String) -> (em: Vec<Emission>)
        requires
            old(self).wf(),
        ensures
            final(self).wf(),
            final(self)@.downloads == if old(self)@.downloads.contains_key(download_id@) {
                old(self)@.downloads.insert(
                    download_id@,
                    spec_extraction_failed(old(self)@.downloads[download_id@]),
                )
            } else {
                old(self)@.downloads
            },
            final(self)@.handles == old(self)@.handles,
            em@.map_values(|e: Emission| e@) == seq![
                EmissionView::ExtractionProgress {
                    id: download_id@,
                    status: ExtractionStatus::Failed,
                    progress: 0,
                    error: Some(reason@),
                },
            ],
    {
        let idx = self.find_index(download_id);
        proof {
            if idx is Some {
                crate::registry::lemma_records_map_contains(self.recs(), download_id@);
                crate::registry::lemma_records_map_index(self.recs(), idx->Some_0 as int);
            }
        }
        if let Some(i) = idx {
            let rec = self.downloads[i].clone();
            let updated = DownloadInfo {
                extraction_status: ExtractionStatus::Failed,
                extraction_progress: 0,
                ..rec
            };
            proof {
                lemma_no_handle_for(self, i as int);
            }
            self.upsert(updated);
        }
        let mut em: Vec<Emission> = Vec::new();
        em.push(Emission::ExtractionProgress {
            id: download_id.clone(),
            status: ExtractionStatus::Failed,
            progress: 0,
            error: Some(reason),
        });
        proof {
            assert(em@.map_values(|e: Emission| e@) =~= seq![
                EmissionView::ExtractionProgress {
                    id: download_id@,
                    status: ExtractionStatus::Failed,
                    progress: 0,
                    error: Some(em@[0]->ExtractionProgress_error->Some_0@),
                },
            ]);
        }
        em
    }

    /// Decode one line of helper output and, when it is a status event,
    /// apply it to the registry stamped with the current clock time.  A line
    /// that is not a flat JSON object, or carries no download id, leaves the
    /// registry untouched.
    pub fn handle_helper_line(&mut self, line: &str) -> (r: Result<Vec<Emission>, LineError>)
        requires
            old(self).wf(),
        ensures
            final(self).wf(),
            match r {
                Ok(em) => {
                    &&& spec_parse_flat_object(line@) is Some
                    &&& spec_event_of_pairs(spec_parse_flat_object(line@)->Some_0) is Some
                    &&& exists|now: Seq<char>|
                        {
                            &&& final(self)@ == (#[trigger] spec_step(
                                old(self)@,
                                spec_event_of_pairs(
                                    spec_parse_flat_object(line@)->Some_0,
                                )->Some_0,
                                now,
                            )).reg
                            &&& em@.map_values(|e: Emission| e@) == spec_step(
                                old(self)@,
                                spec_event_of_pairs(
                                    spec_parse_flat_object(line@)->Some_0,
                                )->Some_0,
                                now,
                            ).emits
                        }
                },
                Err(e) => {
                    &&& final(self)@ == old(self)@
                    &&& (e == LineError::NotJson <==> spec_parse_flat_object(line@) is None)
                    &&& (e == LineError::MissingDownloadId <==> (spec_parse_flat_object(line@)
                        is Some && spec_event_of_pairs(
                        spec_parse_flat_object(line@)->Some_0,
                    ) is None))
                },
            },
    {
        match parse_status_line(line) {
            Err(e) => Err(e),
            Ok(ev) => {
                let now = now_rfc3339();
                let ghost nowv = now@;
                let em = self.apply_event(&ev, &now);
                proof {
                    let evv = spec_event_of_pairs(spec_parse_flat_object(line@)->Some_0)->Some_0;
                    assert(evv == ev@);
                    assert(self@ == spec_step(old(self)@, evv, nowv).reg);
                    assert(em@.map_values(|e: Emission| e@) == spec_step(
                        old(self)@,
                        evv,
                        nowv,
                    ).emits);
                }
                Ok(em)
            },
        }
    }

    /// The error event to feed back when the helper process died with a
    /// non-zero exit code: owed exactly when the id's record exists and is
    /// not yet terminal, so that no record stays stuck in flight.
    pub fn termination_event(&self, download_id: &String, message: String) -> (r: Option<
        StatusEvent,
    >)
        requires
            self.wf(),
        ensures
            r is Some <==> (self@.downloads.contains_key(download_id@)
                && !self@.downloads[download_id@].status.spec_is_terminal()),
            r is Some ==> r->Some_0@ == (StatusEventView {
                download_id: download_id@,
                status: EventStatusView::Error,
                progress: None,
                path: None,
                filename: None,
                message: Some(message@),
                download_started: false,
            }),
    {
        let idx = self.find_index(download_id);
        proof {
            if idx is Some {
                crate::registry::lemma_records_map_contains(self.recs(), download_id@);
                crate::registry::lemma_records_map_index(self.recs(), idx->Some_0 as int);
            }
        }
        match idx {
            Some(i) => {
                if self.downloads[i].status.is_terminal() {
                    None
                } else {
                    Some(StatusEvent {
                        download_id: download_id.clone(),
                        status: EventStatus::Error,
                        progress: None,
                        path: None,
                        filename: None,
                        message: Some(message),
                        download_started: false,
                    })
                }
            },
            None => None,
        }
    }
}

/// Under well-formedness, a record that is terminal holds no handle; stated
/// for the record at one index.
proof fn lemma_no_handle_for(s: &ActiveDownloads, i: int)
    requires
        s.wf(),
        0 <= i < s.recs().len(),
    ensures
        s.recs()[i].status.spec_is_terminal() ==> !s@.handles.contains(s.recs()[i].id),
{
    if s.recs()[i].status.spec_is_terminal() {
        crate::registry::lemma_to_set_contains(s.tok_ids(), s.recs()[i].id);
    }
}

/// Crash recovery at startup: every record still in Starting or Downloading
/// is forced to Failed with an interrupted-by-restart reason, since the
/// helper processes did not survive the restart.  Handles are process local,
/// so a freshly loaded registry has none.
pub fn cleanup_active_downloads(active_downloads: &mut ActiveDownloads)
    requires
        old(active_downloads).wf(),
        old(active_downloads)@.handles == Set::<Seq<char>>::empty(),
    ensures
        final(active_downloads).wf(),
        final(active_downloads)@.downloads.dom() == old(active_downloads)@.downloads.dom(),
        forall|k: Seq<char>| #[trigger]
            old(active_downloads)@.downloads.contains_key(k)
                ==> final(active_downloads)@.downloads[k] == spec_reconciled(
                old(active_downloads)@.downloads[k],
            ),
        final(active_downloads)@.handles == old(active_downloads)@.handles,
{
    let ghost oldrecs = active_downloads.recs();
    let n = active_downloads.downloads.len();
    let mut i: usize = 0;
    while i < n
        invariant
            n == active_downloads.recs().len(),
            i <= n,
            active_downloads.tokens@ == old(active_downloads).tokens@,
            oldrecs == old(active_downloads).recs(),
            oldrecs.len() == n,
            forall|j: int|
                0 <= j < i ==> active_downloads.recs()[j] == spec_reconciled(oldrecs[j]),
            forall|j: int| i <= j < n ==> active_downloads.recs()[j] == oldrecs[j],
        decreases n - i,
    {
        let interrupted = match active_downloads.downloads[i].status {
            DownloadStatus::Starting => true,
            DownloadStatus::Downloading => true,
            _ => false,
        };
        if interrupted {
            let ghost prev = active_downloads.recs();
            let rec = active_downloads.downloads[i].clone();
            let repaired = DownloadInfo {
                status: DownloadStatus::Failed,
                error: Some(String::from_str("Download interrupted due to application restart")),
                ..rec
            };
            active_downloads.downloads[i] = repaired;
            proof {
                assert(active_downloads.recs() =~= prev.update(i as int, spec_reconciled(
                    oldrecs[i as int],
                )));
            }
        }
        i = i + 1;
    }
    proof {
        let newrecs = active_downloads.recs();
        assert forall|j: int, k: int|
            0 <= j < k < newrecs.len() implies newrecs[j].id != newrecs[k].id by {
            assert(newrecs[j].id == oldrecs[j].id);
            assert(newrecs[k].id == oldrecs[k].id);
        }
        assert forall|j: int| 0 <= j < newrecs.len() implies (#[trigger] newrecs[j]).wf() by {
            assert(oldrecs[j].wf());
        }
        let oldmap = crate::registry::records_map_of(oldrecs);
        let newmap = crate::registry::records_map_of(newrecs);
        assert forall|k: Seq<char>| #[trigger] oldmap.contains_key(k) implies newmap.contains_key(k)
            && newmap[k] == spec_reconciled(oldmap[k]) by {
            crate::registry::lemma_records_map_contains(oldrecs, k);
            let j = choose|j: int| 0 <= j < oldrecs.len() && oldrecs[j].id == k;
            crate::registry::lemma_records_map_index(oldrecs, j);
            assert(newrecs[j].id == k);
            crate::registry::lemma_records_map_contains(newrecs, k);
            crate::registry::lemma_records_map_index(newrecs, j);
        }
        assert forall|k: Seq<char>| #[trigger] newmap.contains_key(k) implies oldmap.contains_key(
            k,
        ) by {
            crate::registry::lemma_records_map_contains(newrecs, k);
            let j = choose|j: int| 0 <= j < newrecs.len() && newrecs[j].id == k;
            assert(oldrecs[j].id == k);
            crate::registry::lemma_records_map_contains(oldrecs, k);
        }
        assert(newmap.dom() =~= oldmap.dom());
        assert(active_downloads.tok_ids() == old(active_downloads).tok_ids());
        assert forall|j: int|
            0 <= j < newrecs.len() && (#[trigger] newrecs[j]).status.spec_is_terminal()
                implies !active_downloads.tok_ids().contains(newrecs[j].id) by {
            crate::registry::lemma_to_set_contains(active_downloads.tok_ids(), newrecs[j].id);
            assert(!old(active_downloads)@.handles.contains(newrecs[j].id));
        }
    }
}

} // verus!
