use download_core::events::EventStatus;
use download_core::events::StatusEvent;
use download_core::persist::registry_from_json;
use download_core::persist::registry_to_json;
use download_core::record::DownloadStatus;
use download_core::registry::ActiveDownloads;

fn assert_same_records(a: &ActiveDownloads, b: &ActiveDownloads) {
    let ra = a.get_all();
    let rb = b.get_all();
    assert_eq!(ra.len(), rb.len());
    for (x, y) in ra.iter().zip(rb.iter()) {
        assert_eq!(x.id, y.id);
        assert_eq!(x.filename, y.filename);
        assert_eq!(x.url, y.url);
        assert_eq!(x.progress, y.progress);
        assert_eq!(x.status, y.status);
        assert_eq!(x.path, y.path);
        assert_eq!(x.error, y.error);
        assert_eq!(x.provider, y.provider);
        assert_eq!(x.downloaded_at, y.downloaded_at);
        assert_eq!(x.extracted, y.extracted);
        assert_eq!(x.extracted_path, y.extracted_path);
        assert_eq!(x.extraction_status, y.extraction_status);
        assert_eq!(x.extraction_progress, y.extraction_progress);
    }
}

#[test]
fn empty_registry_roundtrip() {
    let reg = ActiveDownloads::new();
    let text = registry_to_json(&reg);
    assert_eq!(text, "{\"downloads\":{}}");
    let loaded = registry_from_json(&text).expect("the empty document loads");
    assert!(loaded.get_all().is_empty());
}

#[test]
fn populated_registry_roundtrip() {
    let mut reg = ActiveDownloads::new();
    let now = "2024-03-03T09:00:00+00:00".to_string();
    reg.start_download(
        "http://host/one.zip".to_string(),
        "one.zip".to_string(),
        "a".to_string(),
    );
    let done = StatusEvent {
        download_id: "a".to_string(),
        status: EventStatus::Success,
        progress: None,
        path: Some("/tmp/one.zip".to_string()),
        filename: None,
        message: None,
        download_started: false,
    };
    reg.apply_event(&done, &now);
    reg.register_manual_download(
        "b".to_string(),
        "two.zip".to_string(),
        "/tmp/two.zip".to_string(),
        true,
        now.clone(),
    );
    let failed = StatusEvent {
        download_id: "c".to_string(),
        status: EventStatus::Error,
        progress: None,
        path: None,
        filename: Some("three.bin".to_string()),
        message: Some("no space".to_string()),
        download_started: false,
    };
    reg.apply_event(&failed, &now);

    let text = registry_to_json(&reg);
    let loaded = registry_from_json(&text).expect("the persisted registry loads");
    assert_same_records(&reg, &loaded);
    // Handles are process local: none exist after a load.
    assert!(!loaded.has_token(&"a".to_string()));
    assert!(!loaded.has_token(&"b".to_string()));
}

#[test]
fn roundtrip_with_awkward_characters() {
    let mut reg = ActiveDownloads::new();
    reg.register_manual_download(
        "we\"ird\\id".to_string(),
        "na\"me\\.zip".to_string(),
        "/tmp/pa\"th\\".to_string(),
        false,
        "t".to_string(),
    );
    let text = registry_to_json(&reg);
    let loaded = registry_from_json(&text).expect("escaping round-trips");
    assert_same_records(&reg, &loaded);
    let r = &loaded.get_all()[0];
    assert_eq!(r.id, "we\"ird\\id");
    assert_eq!(r.filename, "na\"me\\.zip");
    assert_eq!(r.path.as_deref(), Some("/tmp/pa\"th\\"));
}

#[test]
fn persisted_document_shape() {
    let mut reg = ActiveDownloads::new();
    reg.register_manual_download(
        "d1".to_string(),
        "a.zip".to_string(),
        "/tmp/a.zip".to_string(),
        false,
        "now".to_string(),
    );
    let text = registry_to_json(&reg);
    assert_eq!(
        text,
        "{\"downloads\":{\"d1\":{\"id\":\"d1\",\"filename\":\"a.zip\",\"url\":\"\",\
         \"progress\":10000,\"status\":\"completed\",\"path\":\"/tmp/a.zip\",\"error\":null,\
         \"provider\":null,\"downloaded_at\":\"now\",\"extracted\":false,\
         \"extracted_path\":null,\"extraction_status\":\"idle\",\"extraction_progress\":0}}}"
    );
}

#[test]
fn malformed_documents_do_not_load() {
    assert!(registry_from_json("").is_none());
    assert!(registry_from_json("{}").is_none());
    assert!(registry_from_json("{\"downloads\":{}").is_none());
    assert!(registry_from_json("{\"downloads\":{}}x").is_none());
    // A key that disagrees with the record's own id is rejected.
    let mut reg = ActiveDownloads::new();
    reg.register_manual_download(
        "d1".to_string(),
        "a".to_string(),
        "/tmp/a".to_string(),
        false,
        "t".to_string(),
    );
    let text = registry_to_json(&reg).replace("\"d1\":{", "\"dX\":{");
    assert!(registry_from_json(&text).is_none());
}

#[test]
fn out_of_range_progress_does_not_load() {
    let mut reg = ActiveDownloads::new();
    reg.register_manual_download(
        "d1".to_string(),
        "a".to_string(),
        "/tmp/a".to_string(),
        false,
        "t".to_string(),
    );
    let text = registry_to_json(&reg).replace("\"progress\":10000", "\"progress\":20000");
    assert!(registry_from_json(&text).is_none());
}

#[test]
fn duplicate_ids_do_not_load() {
    let mut reg = ActiveDownloads::new();
    reg.register_manual_download(
        "d1".to_string(),
        "a".to_string(),
        "/tmp/a".to_string(),
        false,
        "t".to_string(),
    );
    let text = registry_to_json(&reg);
    let entry_start = text.find("\"d1\":{").unwrap();
    let entry = &text[entry_start..text.len() - 2];
    let doubled = format!("{{\"downloads\":{{{},{}}}}}", entry, entry);
    assert!(registry_from_json(&doubled).is_none());
}
