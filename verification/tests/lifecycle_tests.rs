use download_core::control::cleanup_active_downloads;
use download_core::events::Emission;
use download_core::events::EventStatus;
use download_core::events::StatusEvent;
use download_core::events::CoreError;
use download_core::record::DownloadInfo;
use download_core::record::DownloadStatus;
use download_core::record::ExtractionStatus;
use download_core::registry::ActiveDownloads;

fn ev(id: &str, status: EventStatus) -> StatusEvent {
    StatusEvent {
        download_id: id.to_string(),
        status,
        progress: None,
        path: None,
        filename: None,
        message: None,
        download_started: false,
    }
}

fn find<'a>(recs: &'a [DownloadInfo], id: &str) -> &'a DownloadInfo {
    recs.iter().find(|r| r.id == id).expect("record missing")
}

#[test]
fn start_then_progress_then_success() {
    let mut reg = ActiveDownloads::new();
    reg.start_download(
        "http://x/file.zip".to_string(),
        "file.zip".to_string(),
        "d1".to_string(),
    );
    let recs = reg.get_all();
    assert_eq!(recs.len(), 1);
    let r = find(&recs, "d1");
    assert_eq!(r.status, DownloadStatus::Starting);
    assert_eq!(r.progress, 0);
    assert_eq!(r.url, "http://x/file.zip");
    assert!(reg.has_token(&"d1".to_string()));

    let mut progress_ev = ev("d1", EventStatus::Progress);
    progress_ev.progress = Some(4200);
    let now = "2024-01-01T00:00:00+00:00".to_string();
    reg.apply_event(&progress_ev, &now);
    let r = find(&reg.get_all(), "d1").clone();
    assert_eq!(r.status, DownloadStatus::Downloading);
    assert_eq!(r.progress, 4200);

    let mut success_ev = ev("d1", EventStatus::Success);
    success_ev.path = Some("/tmp/file.zip".to_string());
    let em = reg.apply_event(&success_ev, &now);
    let r = find(&reg.get_all(), "d1").clone();
    assert_eq!(r.status, DownloadStatus::Completed);
    assert_eq!(r.progress, 10000);
    assert_eq!(r.path.as_deref(), Some("/tmp/file.zip"));
    assert_eq!(r.downloaded_at.as_deref(), Some("2024-01-01T00:00:00+00:00"));
    assert!(!reg.has_token(&"d1".to_string()));
    assert!(em.iter().any(|e| matches!(e,
        Emission::DownloadComplete { id, path, .. } if id == "d1" && path == "/tmp/file.zip")));
    assert!(em.iter().any(|e| matches!(e, Emission::Notify { .. })));
}

#[test]
fn error_event_synthesizes_failed_record() {
    let mut reg = ActiveDownloads::new();
    let mut e = ev("d2", EventStatus::Error);
    e.message = Some("disk full".to_string());
    let now = "t".to_string();
    reg.apply_event(&e, &now);
    let recs = reg.get_all();
    assert_eq!(recs.len(), 1);
    let r = find(&recs, "d2");
    assert_eq!(r.status, DownloadStatus::Failed);
    assert_eq!(r.error.as_deref(), Some("disk full"));
}

#[test]
fn cancel_without_handle_is_not_found() {
    let mut reg = ActiveDownloads::new();
    let mut e = ev("d9", EventStatus::Error);
    e.message = Some("boom".to_string());
    let now = "t".to_string();
    reg.apply_event(&e, &now);
    let before = reg.get_all();

    let r = reg.cancel_active_download(&"d3".to_string());
    assert!(matches!(r, Err(CoreError::NotFound)));
    let after = reg.get_all();
    assert_eq!(before.len(), after.len());
    assert_eq!(find(&after, "d9").status, DownloadStatus::Failed);
    assert_eq!(find(&after, "d9").error.as_deref(), Some("boom"));
}

#[test]
fn cancel_live_download() {
    let mut reg = ActiveDownloads::new();
    reg.start_download("u".to_string(), "f".to_string(), "d4".to_string());
    let em = reg.cancel_active_download(&"d4".to_string()).expect("cancel should succeed");
    let r = find(&reg.get_all(), "d4").clone();
    assert_eq!(r.status, DownloadStatus::Cancelled);
    assert_eq!(r.progress, 0);
    assert_eq!(r.error.as_deref(), Some("Download cancelled by user"));
    assert!(!reg.has_token(&"d4".to_string()));
    assert!(em.iter().any(|e| matches!(e,
        Emission::Notify { title, body } if title == "Download Cancelled"
            && body == "Download d4 was cancelled")));
}

#[test]
fn manual_register_with_extracted_sibling() {
    let mut reg = ActiveDownloads::new();
    let now = "2024-05-05T12:00:00+00:00".to_string();
    reg.register_manual_download(
        "d4".to_string(),
        "a.zip".to_string(),
        "/tmp/a.zip".to_string(),
        true,
        now,
    );
    let r = find(&reg.get_all(), "d4").clone();
    assert_eq!(r.status, DownloadStatus::Completed);
    assert_eq!(r.progress, 10000);
    assert!(r.extracted);
    assert_eq!(r.extraction_status, ExtractionStatus::Completed);
    assert_eq!(r.extraction_progress, 10000);
    assert_eq!(r.extracted_path.as_deref(), Some("/tmp/a.zip_extracted"));
}

#[test]
fn manual_register_without_extracted_sibling() {
    let mut reg = ActiveDownloads::new();
    reg.register_manual_download(
        "d5".to_string(),
        "b.zip".to_string(),
        "/tmp/b.zip".to_string(),
        false,
        "t".to_string(),
    );
    let r = find(&reg.get_all(), "d5").clone();
    assert_eq!(r.status, DownloadStatus::Completed);
    assert!(!r.extracted);
    assert_eq!(r.extraction_status, ExtractionStatus::Idle);
    assert_eq!(r.extraction_progress, 0);
    assert_eq!(r.extracted_path, None);
}

#[test]
fn reconcile_marks_in_flight_as_failed() {
    let mut reg = ActiveDownloads::new();
    let now = "t".to_string();
    // d1 left Downloading, d2 left Starting, d3 already Completed.
    let mut started = ev("d1", EventStatus::Progress);
    started.progress = Some(500);
    started.download_started = true;
    reg.apply_event(&started, &now);
    reg.start_download("u".to_string(), "f".to_string(), "d2".to_string());
    let mut done = ev("d3", EventStatus::Success);
    done.path = Some("/tmp/d3".to_string());
    reg.apply_event(&done, &now);

    // Reconciliation applies to a freshly loaded registry, which holds no
    // handles; drop the one d2 got from start_download first.
    reg.cancel_active_download(&"d2".to_string()).unwrap();
    let mut loaded = download_core::persist::registry_from_json(
        &download_core::persist::registry_to_json(&reg),
    )
    .expect("persisted registry should load");

    // Force d2 back into Starting for the scenario.
    let mut d2 = find(&loaded.get_all(), "d2").clone();
    d2.status = DownloadStatus::Starting;
    d2.error = None;
    loaded.upsert(d2);

    cleanup_active_downloads(&mut loaded);
    let recs = loaded.get_all();
    let d1 = find(&recs, "d1");
    assert_eq!(d1.status, DownloadStatus::Failed);
    assert!(!d1.error.as_deref().unwrap_or("").is_empty());
    assert_eq!(
        d1.error.as_deref(),
        Some("Download interrupted due to application restart")
    );
    let d2 = find(&recs, "d2");
    assert_eq!(d2.status, DownloadStatus::Failed);
    let d3 = find(&recs, "d3");
    assert_eq!(d3.status, DownloadStatus::Completed);
    assert_eq!(d3.error, None);
}

#[test]
fn terminal_state_is_sticky() {
    let mut reg = ActiveDownloads::new();
    let now = "t".to_string();
    let mut done = ev("d1", EventStatus::Success);
    done.path = Some("/tmp/out".to_string());
    reg.apply_event(&done, &now);
    let before = find(&reg.get_all(), "d1").clone();
    assert_eq!(before.status, DownloadStatus::Completed);

    // A stale progress report after completion changes nothing.
    let mut stale = ev("d1", EventStatus::Progress);
    stale.progress = Some(100);
    let em = reg.apply_event(&stale, &now);
    assert!(em.is_empty());
    let after = find(&reg.get_all(), "d1").clone();
    assert_eq!(after.status, DownloadStatus::Completed);
    assert_eq!(after.progress, before.progress);
    assert_eq!(after.path, before.path);
}

#[test]
fn progress_never_goes_backwards() {
    let mut reg = ActiveDownloads::new();
    let now = "t".to_string();
    let mut p = ev("d1", EventStatus::Progress);
    p.progress = Some(5000);
    reg.apply_event(&p, &now);
    assert_eq!(find(&reg.get_all(), "d1").progress, 5000);
    let mut stale = ev("d1", EventStatus::Progress);
    stale.progress = Some(3000);
    let em = reg.apply_event(&stale, &now);
    assert!(em.is_empty());
    assert_eq!(find(&reg.get_all(), "d1").progress, 5000);
}

#[test]
fn success_without_path_raises_floor() {
    let mut reg = ActiveDownloads::new();
    let now = "t".to_string();
    let mut started = ev("d1", EventStatus::Progress);
    started.progress = Some(200);
    started.download_started = true;
    reg.apply_event(&started, &now);
    let confirm = ev("d1", EventStatus::Success);
    reg.apply_event(&confirm, &now);
    let r = find(&reg.get_all(), "d1").clone();
    assert_eq!(r.status, DownloadStatus::Downloading);
    assert_eq!(r.progress, 1000);
}

#[test]
fn start_notification_creates_record() {
    let mut reg = ActiveDownloads::new();
    let now = "t".to_string();
    let mut started = ev("d7", EventStatus::Other("info".to_string()));
    started.download_started = true;
    started.filename = Some("x.bin".to_string());
    reg.apply_event(&started, &now);
    let r = find(&reg.get_all(), "d7").clone();
    // Created in Downloading, then the unknown status word applies.
    assert_eq!(r.status, DownloadStatus::Unknown);
    assert_eq!(r.filename, "x.bin");
    assert_eq!(r.error.as_deref(), Some("Unknown status: info"));
}

#[test]
fn unknown_status_on_known_record() {
    let mut reg = ActiveDownloads::new();
    let now = "t".to_string();
    reg.start_download("u".to_string(), "f".to_string(), "d1".to_string());
    let weird = ev("d1", EventStatus::Other("paused".to_string()));
    let em = reg.apply_event(&weird, &now);
    let r = find(&reg.get_all(), "d1").clone();
    assert_eq!(r.status, DownloadStatus::Unknown);
    assert_eq!(r.error.as_deref(), Some("Unknown status: paused"));
    // A non-terminal status keeps the handle.
    assert!(reg.has_token(&"d1".to_string()));
    assert!(em.iter().any(|e| matches!(e, Emission::DownloadError { .. })));
}

#[test]
fn unknown_id_with_empty_id_is_dropped() {
    let mut reg = ActiveDownloads::new();
    let now = "t".to_string();
    let e = ev("", EventStatus::Error);
    reg.apply_event(&e, &now);
    assert!(reg.get_all().is_empty());
}

#[test]
fn termination_event_only_for_live_records() {
    let mut reg = ActiveDownloads::new();
    reg.start_download("u".to_string(), "f".to_string(), "d1".to_string());
    let t = reg.termination_event(&"d1".to_string(), "helper died".to_string());
    let t = t.expect("non-terminal record deserves an error event");
    assert!(matches!(t.status, EventStatus::Error));
    assert_eq!(t.message.as_deref(), Some("helper died"));
    assert_eq!(t.download_id, "d1");

    let now = "t".to_string();
    let mut done = ev("d1", EventStatus::Success);
    done.path = Some("/tmp/x".to_string());
    reg.apply_event(&done, &now);
    assert!(reg
        .termination_event(&"d1".to_string(), "late".to_string())
        .is_none());
    assert!(reg
        .termination_event(&"absent".to_string(), "late".to_string())
        .is_none());
}

#[test]
fn extraction_lifecycle() {
    let mut reg = ActiveDownloads::new();
    reg.register_manual_download(
        "d1".to_string(),
        "a.zip".to_string(),
        "/tmp/a.zip".to_string(),
        false,
        "t".to_string(),
    );
    let em = reg.extraction_started(&"d1".to_string());
    assert!(em.iter().any(|e| matches!(e,
        Emission::ExtractionProgress { id, status, progress, .. }
            if id == "d1" && *status == ExtractionStatus::Extracting && *progress == 0)));
    let r = find(&reg.get_all(), "d1").clone();
    assert_eq!(r.extraction_status, ExtractionStatus::Extracting);

    let em = reg.extraction_completed(&"d1".to_string(), &"/tmp/a_out".to_string());
    let r = find(&reg.get_all(), "d1").clone();
    assert_eq!(r.extraction_status, ExtractionStatus::Completed);
    assert_eq!(r.extraction_progress, 10000);
    assert!(r.extracted);
    assert_eq!(r.extracted_path.as_deref(), Some("/tmp/a_out"));
    assert!(em.iter().any(|e| matches!(e,
        Emission::Notify { title, body } if title == "Extraction Complete"
            && body == "File extracted to /tmp/a_out")));

    let em = reg.extraction_failed(&"d1".to_string(), "bad archive".to_string());
    let r = find(&reg.get_all(), "d1").clone();
    assert_eq!(r.extraction_status, ExtractionStatus::Failed);
    assert_eq!(r.extraction_progress, 0);
    assert!(em.iter().any(|e| matches!(e,
        Emission::ExtractionProgress { error, .. } if error.as_deref() == Some("bad archive"))));
}

#[test]
fn handle_helper_line_applies_event() {
    let mut reg = ActiveDownloads::new();
    let line = "{\"downloadId\":\"d1\",\"status\":\"progress\",\"progress\":42.0,\"downloadStarted\":true}";
    reg.handle_helper_line(line).expect("a flat object line is an event");
    let r = find(&reg.get_all(), "d1").clone();
    assert_eq!(r.status, DownloadStatus::Downloading);
    assert_eq!(r.progress, 4200);
}

#[test]
fn core_error_message() {
    assert_eq!(CoreError::NotFound.message(), "not found");
    assert_eq!(CoreError::InvalidLaunchMethod.message(), "invalid launch method");
    assert_eq!(
        CoreError::MissingCustomCommand.message(),
        "custom command not provided"
    );
}
