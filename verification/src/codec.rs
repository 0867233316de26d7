//! The registry's persistent form: a JSON object `{"downloads":{id:record}}`
//! with every record's fields in a fixed order.  The serializer and the
//! parser are both proved equal to their spec twins, and the round-trip
//! lemmas show that loading what was persisted gives the records back
//! unchanged.

use vstd::prelude::*;
use vstd::string::StringExecFns;

use crate::json::parse_bool_at;
use crate::json::parse_lit_at;
use crate::json::parse_string_at;
use crate::json::parse_u32_at;
use crate::json::push_str_chars;
use crate::json::ser_bool;
use crate::json::ser_string;
use crate::json::ser_u32;
use crate::json::spec_dec_digits;
use crate::json::spec_parse_bool;
use crate::json::spec_parse_lit;
use crate::json::spec_parse_string;
use crate::json::spec_parse_u32;
use crate::json::spec_ser_bool;
use crate::json::spec_ser_string;
use crate::json::lemma_bool_roundtrip;
use crate::json::lemma_parse_lit_self;
use crate::json::lemma_string_roundtrip;
use crate::json::lemma_u32_roundtrip;
use crate::record::DownloadInfo;
use crate::record::DownloadInfoView;
use crate::record::DownloadStatus;
use crate::record::ExtractionStatus;
use crate::record::opt_view;

verus! {

// ---------------------------------------------------------------------------
// Optional strings.
// ---------------------------------------------------------------------------

/// An optional string: `null`, or the quoted string.
pub open spec fn spec_ser_opt_string(o: Option<Seq<char>>) -> Seq<char> {
    match o {
        None => "null"@,
        Some(s) => spec_ser_string(s),
    }
}

/// Parse `null` or a quoted string.
pub open spec fn spec_parse_opt_string(s: Seq<char>) -> Option<(Option<Seq<char>>, Seq<char>)> {
    match spec_parse_lit(s, "null"@) {
        Some(rest) => Some((None, rest)),
        None => match spec_parse_string(s) {
            Some((t, rest)) => Some((Some(t), rest)),
            None => None,
        },
    }
}

/// The optional-string parser inverts its serializer.
pub proof fn lemma_opt_string_roundtrip(o: Option<Seq<char>>, rest: Seq<char>)
    ensures
        spec_parse_opt_string(spec_ser_opt_string(o) + rest) == Some((o, rest)),
{
    reveal_strlit("null");
    match o {
        None => {
            lemma_parse_lit_self("null"@, rest);
        },
        Some(s) => {
            let t = spec_ser_string(s) + rest;
            assert(t[0] == '"');
            if t.len() >= 4 && t.take(4) == "null"@ {
                assert(t.take(4)[0] == 'n');
            }
            lemma_string_roundtrip(s, rest);
        },
    }
}

/// Write an optional string.
pub fn ser_opt_string(out: &mut Vec<char>, o: &Option<String>)
    ensures
        final(out)@ == old(out)@ + spec_ser_opt_string(opt_view(*o)),
{
    match o {
        None => push_str_chars(out, "null"),
        Some(s) => ser_string(out, s.as_str()),
    }
}

/// Parse an optional string at `i`.
pub fn parse_opt_string_at(v: &Vec<char>, i: usize) -> (r: Option<(Option<String>, usize)>)
    requires
        i <= v@.len(),
    ensures
        match r {
            Some((o, j)) => {
                &&& i <= j <= v@.len()
                &&& spec_parse_opt_string(v@.skip(i as int)) == Some(
                    (opt_view(o), v@.skip(j as int)),
                )
            },
            None => spec_parse_opt_string(v@.skip(i as int)) is None,
        },
{
    match parse_lit_at(v, i, "null") {
        Some(j) => Some((None, j)),
        None => match parse_string_at(v, i) {
            Some((s, j)) => Some((Some(s), j)),
            None => None,
        },
    }
}

// ---------------------------------------------------------------------------
// Status words.
// ---------------------------------------------------------------------------

/// The word a download status is stored as.
pub open spec fn spec_status_word(st: DownloadStatus) -> Seq<char> {
    match st {
        DownloadStatus::Starting => "starting"@,
        DownloadStatus::Downloading => "downloading"@,
        DownloadStatus::Completed => "completed"@,
        DownloadStatus::Failed => "failed"@,
        DownloadStatus::Cancelled => "cancelled"@,
        DownloadStatus::Unknown => "unknown"@,
    }
}

/// The status a stored word stands for.
pub open spec fn spec_word_status(w: Seq<char>) -> Option<DownloadStatus> {
    if w == "starting"@ {
        Some(DownloadStatus::Starting)
    } else if w == "downloading"@ {
        Some(DownloadStatus::Downloading)
    } else if w == "completed"@ {
        Some(DownloadStatus::Completed)
    } else if w == "failed"@ {
        Some(DownloadStatus::Failed)
    } else if w == "cancelled"@ {
        Some(DownloadStatus::Cancelled)
    } else if w == "unknown"@ {
        Some(DownloadStatus::Unknown)
    } else {
        None
    }
}

/// The word an extraction status is stored as.
pub open spec fn spec_ext_word(st: ExtractionStatus) -> Seq<char> {
    match st {
        ExtractionStatus::Idle => "idle"@,
        ExtractionStatus::Extracting => "extracting"@,
        ExtractionStatus::Completed => "completed"@,
        ExtractionStatus::Failed => "failed"@,
    }
}

/// The extraction status a stored word stands for.
pub open spec fn spec_word_ext(w: Seq<char>) -> Option<ExtractionStatus> {
    if w == "idle"@ {
        Some(ExtractionStatus::Idle)
    } else if w == "extracting"@ {
        Some(ExtractionStatus::Extracting)
    } else if w == "completed"@ {
        Some(ExtractionStatus::Completed)
    } else if w == "failed"@ {
        Some(ExtractionStatus::Failed)
    } else {
        None
    }
}

/// Each status word reads back as its status.
pub proof fn lemma_status_word_roundtrip(st: DownloadStatus)
    ensures
        spec_word_status(spec_status_word(st)) == Some(st),
{
    reveal_strlit("starting");
    reveal_strlit("downloading");
    reveal_strlit("completed");
    reveal_strlit("failed");
    reveal_strlit("cancelled");
    reveal_strlit("unknown");
    assert("starting"@.len() == 8);
    assert("downloading"@.len() == 11);
    assert("completed"@.len() == 9);
    assert("failed"@.len() == 6);
    assert("cancelled"@.len() == 9);
    assert("unknown"@.len() == 7);
    assert("cancelled"@[1] == 'a' && "completed"@[1] == 'o');
    assert("cancelled"@ != "completed"@);
}

/// Each extraction word reads back as its status.
pub proof fn lemma_ext_word_roundtrip(st: ExtractionStatus)
    ensures
        spec_word_ext(spec_ext_word(st)) == Some(st),
{
    reveal_strlit("idle");
    reveal_strlit("extracting");
    reveal_strlit("completed");
    reveal_strlit("failed");
    assert("idle"@.len() == 4);
    assert("extracting"@.len() == 10);
    assert("completed"@.len() == 9);
    assert("failed"@.len() == 6);
}

/// The word for a download status, as a string slice.
pub fn status_word(st: DownloadStatus) -> (r: &'static str)
    ensures
        r@ == spec_status_word(st),
{
    match st {
        DownloadStatus::Starting => "starting",
        DownloadStatus::Downloading => "downloading",
        DownloadStatus::Completed => "completed",
        DownloadStatus::Failed => "failed",
        DownloadStatus::Cancelled => "cancelled",
        DownloadStatus::Unknown => "unknown",
    }
}

/// The word for an extraction status, as a string slice.
pub fn ext_word(st: ExtractionStatus) -> (r: &'static str)
    ensures
        r@ == spec_ext_word(st),
{
    match st {
        ExtractionStatus::Idle => "idle",
        ExtractionStatus::Extracting => "extracting",
        ExtractionStatus::Completed => "completed",
        ExtractionStatus::Failed => "failed",
    }
}

/// Whether a string equals a literal.
pub fn string_eq_lit(s: &String, lit: &str) -> (r: bool)
    ensures
        r == (s@ == lit@),
{
    s.eq(&String::from_str(lit))
}

/// The download status a word stands for, if any.
pub fn status_of_word(w: &String) -> (r: Option<DownloadStatus>)
    ensures
        r == spec_word_status(w@),
{
    if string_eq_lit(w, "starting") {
        Some(DownloadStatus::Starting)
    } else if string_eq_lit(w, "downloading") {
        Some(DownloadStatus::Downloading)
    } else if string_eq_lit(w, "completed") {
        Some(DownloadStatus::Completed)
    } else if string_eq_lit(w, "failed") {
        Some(DownloadStatus::Failed)
    } else if string_eq_lit(w, "cancelled") {
        Some(DownloadStatus::Cancelled)
    } else if string_eq_lit(w, "unknown") {
        Some(DownloadStatus::Unknown)
    } else {
        None
    }
}

/// The extraction status a word stands for, if any.
pub fn ext_of_word(w: &String) -> (r: Option<ExtractionStatus>)
    ensures
        r == spec_word_ext(w@),
{
    if string_eq_lit(w, "idle") {
        Some(ExtractionStatus::Idle)
    } else if string_eq_lit(w, "extracting") {
        Some(ExtractionStatus::Extracting)
    } else if string_eq_lit(w, "completed") {
        Some(ExtractionStatus::Completed)
    } else if string_eq_lit(w, "failed") {
        Some(ExtractionStatus::Failed)
    } else {
        None
    }
}

// ---------------------------------------------------------------------------
// One record.
// ---------------------------------------------------------------------------

/// The stored form's opening segment: id, filename and url.
pub open spec fn spec_ser_record_head(r: DownloadInfoView) -> Seq<char> {
    "{\"id\":"@ + spec_ser_string(r.id) + ",\"filename\":"@ + spec_ser_string(r.filename)
        + ",\"url\":"@ + spec_ser_string(r.url)
}

/// The stored form's middle segment: progress, status, path and error.
pub open spec fn spec_ser_record_mid(r: DownloadInfoView) -> Seq<char> {
    ",\"progress\":"@ + spec_dec_digits(r.progress as nat) + ",\"status\":"@ + spec_ser_string(
        spec_status_word(r.status),
    ) + ",\"path\":"@ + spec_ser_opt_string(r.path) + ",\"error\":"@ + spec_ser_opt_string(
        r.error,
    )
}

/// The stored form's closing segment: provider, timestamp and the extraction
/// fields.
pub open spec fn spec_ser_record_close(r: DownloadInfoView) -> Seq<char> {
    ",\"provider\":"@ + spec_ser_opt_string(r.provider) + ",\"downloaded_at\":"@
        + spec_ser_opt_string(r.downloaded_at) + ",\"extracted\":"@ + spec_ser_bool(r.extracted)
        + ",\"extracted_path\":"@ + spec_ser_opt_string(r.extracted_path)
        + ",\"extraction_status\":"@ + spec_ser_string(spec_ext_word(r.extraction_status))
        + ",\"extraction_progress\":"@ + spec_dec_digits(r.extraction_progress as nat) + "}"@
}

/// One record in its stored form: a JSON object with the fields in a fixed
/// order.
pub open spec fn spec_ser_record(r: DownloadInfoView) -> Seq<char> {
    spec_ser_record_head(r) + spec_ser_record_mid(r) + spec_ser_record_close(r)
}

/// Parse one stored record.
pub open spec fn spec_parse_record(s: Seq<char>) -> Option<(DownloadInfoView, Seq<char>)> {
    match spec_parse_lit(s, "{\"id\":"@) {
        None => None,
        Some(s1) => match spec_parse_string(s1) {
            None => None,
            Some((id, s2)) => match spec_parse_lit(s2, ",\"filename\":"@) {
                None => None,
                Some(s3) => match spec_parse_string(s3) {
                    None => None,
                    Some((filename, s4)) => match spec_parse_lit(s4, ",\"url\":"@) {
                        None => None,
                        Some(s5) => match spec_parse_string(s5) {
                            None => None,
                            Some((url, s6)) => spec_parse_record_tail(
                                s6,
                                id,
                                filename,
                                url,
                            ),
                        },
                    },
                },
            },
        },
    }
}

/// Parse a stored record from its `progress` field on.
pub open spec fn spec_parse_record_tail(
    s: Seq<char>,
    id: Seq<char>,
    filename: Seq<char>,
    url: Seq<char>,
) -> Option<(DownloadInfoView, Seq<char>)> {
    match spec_parse_lit(s, ",\"progress\":"@) {
        None => None,
        Some(s7) => match spec_parse_u32(s7) {
            None => None,
            Some((progress, s8)) => match spec_parse_lit(s8, ",\"status\":"@) {
                None => None,
                Some(s9) => match spec_parse_string(s9) {
                    None => None,
                    Some((stw, s10)) => match spec_word_status(stw) {
                        None => None,
                        Some(status) => match spec_parse_lit(s10, ",\"path\":"@) {
                            None => None,
                            Some(s11) => match spec_parse_opt_string(s11) {
                                None => None,
                                Some((path, s12)) => match spec_parse_lit(s12, ",\"error\":"@) {
                                    None => None,
                                    Some(s13) => match spec_parse_opt_string(s13) {
                                        None => None,
                                        Some((error, s14)) => spec_parse_record_tail2(
                                            s14,
                                            DownloadInfoView {
                                                id,
                                                filename,
                                                url,
                                                progress,
                                                status,
                                                path,
                                                error,
                                                provider: None,
                                                downloaded_at: None,
                                                extracted: false,
                                                extracted_path: None,
                                                extraction_status: ExtractionStatus::Idle,
                                                extraction_progress: 0,
                                            },
                                        ),
                                    },
                                },
                            },
                        },
                    },
                },
            },
        },
    }
}

/// Parse a stored record from its `provider` field on; `acc` holds the
/// fields already read.
pub open spec fn spec_parse_record_tail2(s: Seq<char>, acc: DownloadInfoView) -> Option<
    (DownloadInfoView, Seq<char>),
> {
    match spec_parse_lit(s, ",\"provider\":"@) {
        None => None,
        Some(s15) => match spec_parse_opt_string(s15) {
            None => None,
            Some((provider, s16)) => match spec_parse_lit(s16, ",\"downloaded_at\":"@) {
                None => None,
                Some(s17) => match spec_parse_opt_string(s17) {
                    None => None,
                    Some((downloaded_at, s18)) => match spec_parse_lit(s18, ",\"extracted\":"@) {
                        None => None,
                        Some(s19) => match spec_parse_bool(s19) {
                            None => None,
                            Some((extracted, s20)) => match spec_parse_lit(
                                s20,
                                ",\"extracted_path\":"@,
                            ) {
                                None => None,
                                Some(s21) => match spec_parse_opt_string(s21) {
                                    None => None,
                                    Some((extracted_path, s22)) => match spec_parse_lit(
                                        s22,
                                        ",\"extraction_status\":"@,
                                    ) {
                                        None => None,
                                        Some(s23) => match spec_parse_string(s23) {
                                            None => None,
                                            Some((extw, s24)) => match spec_word_ext(extw) {
                                                None => None,
                                                Some(extraction_status) => match spec_parse_lit(
                                                    s24,
                                                    ",\"extraction_progress\":"@,
                                                ) {
                                                    None => None,
                                                    Some(s25) => match spec_parse_u32(s25) {
                                                        None => None,
                                                        Some((extraction_progress, s26)) => match
                                                            spec_parse_lit(s26, "}"@) {
                                                            None => None,
                                                            Some(s27) => Some(
                                                                (
                                                                    DownloadInfoView {
                                                                        provider,
                                                                        downloaded_at,
                                                                        extracted,
                                                                        extracted_path,
                                                                        extraction_status,
                                                                        extraction_progress,
                                                                        ..acc
                                                                    },
                                                                    s27,
                                                                ),
                                                            ),
                                                        },
                                                    },
                                                },
                                            },
                                        },
                                    },
                                },
                            },
                        },
                    },
                },
            },
        },
    }
}

/// The closing-segment parser inverts its serializer, merging the parsed
/// fields into the accumulated record.
#[verifier::rlimit(100)]
pub proof fn lemma_record_close_roundtrip(r: DownloadInfoView, acc: DownloadInfoView, rest: Seq<char>)
    ensures
        spec_parse_record_tail2(spec_ser_record_close(r) + rest, acc) == Some(
            (
                DownloadInfoView {
                    provider: r.provider,
                    downloaded_at: r.downloaded_at,
                    extracted: r.extracted,
                    extracted_path: r.extracted_path,
                    extraction_status: r.extraction_status,
                    extraction_progress: r.extraction_progress,
                    ..acc
                },
                rest,
            ),
        ),
{
    reveal_strlit(",\"provider\":");
    reveal_strlit(",\"downloaded_at\":");
    reveal_strlit(",\"extracted\":");
    reveal_strlit(",\"extracted_path\":");
    reveal_strlit(",\"extraction_status\":");
    reveal_strlit(",\"extraction_progress\":");
    reveal_strlit("}");
    let t27 = rest;
    let t26 = "}"@ + t27;
    let t25 = spec_dec_digits(r.extraction_progress as nat) + t26;
    let t24 = ",\"extraction_progress\":"@ + t25;
    let t23 = spec_ser_string(spec_ext_word(r.extraction_status)) + t24;
    let t22 = ",\"extraction_status\":"@ + t23;
    let t21 = spec_ser_opt_string(r.extracted_path) + t22;
    let t20 = ",\"extracted_path\":"@ + t21;
    let t19 = spec_ser_bool(r.extracted) + t20;
    let t18 = ",\"extracted\":"@ + t19;
    let t17 = spec_ser_opt_string(r.downloaded_at) + t18;
    let t16 = ",\"downloaded_at\":"@ + t17;
    let t15 = spec_ser_opt_string(r.provider) + t16;
    let t14 = ",\"provider\":"@ + t15;
    assert(spec_ser_record_close(r) + rest =~= t14);
    lemma_parse_lit_self(",\"provider\":"@, t15);
    lemma_opt_string_roundtrip(r.provider, t16);
    lemma_parse_lit_self(",\"downloaded_at\":"@, t17);
    lemma_opt_string_roundtrip(r.downloaded_at, t18);
    lemma_parse_lit_self(",\"extracted\":"@, t19);
    lemma_bool_roundtrip(r.extracted, t20);
    lemma_parse_lit_self(",\"extracted_path\":"@, t21);
    lemma_opt_string_roundtrip(r.extracted_path, t22);
    lemma_parse_lit_self(",\"extraction_status\":"@, t23);
    lemma_string_roundtrip(spec_ext_word(r.extraction_status), t24);
    lemma_ext_word_roundtrip(r.extraction_status);
    lemma_parse_lit_self(",\"extraction_progress\":"@, t25);
    assert(t26[0] == '}');
    lemma_u32_roundtrip(r.extraction_progress, t26);
    lemma_parse_lit_self("}"@, t27);
}

/// The middle-segment parser inverts its serializer.
#[verifier::rlimit(100)]
pub proof fn lemma_record_mid_roundtrip(r: DownloadInfoView, rest: Seq<char>)
    ensures
        spec_parse_record_tail(
            spec_ser_record_mid(r) + spec_ser_record_close(r) + rest,
            r.id,
            r.filename,
            r.url,
        ) == Some((r, rest)),
{
    reveal_strlit(",\"progress\":");
    reveal_strlit(",\"status\":");
    reveal_strlit(",\"path\":");
    reveal_strlit(",\"error\":");
    let t14 = spec_ser_record_close(r) + rest;
    let t13 = spec_ser_opt_string(r.error) + t14;
    let t12 = ",\"error\":"@ + t13;
    let t11 = spec_ser_opt_string(r.path) + t12;
    let t10 = ",\"path\":"@ + t11;
    let t9 = spec_ser_string(spec_status_word(r.status)) + t10;
    let t8 = ",\"status\":"@ + t9;
    let t7 = spec_dec_digits(r.progress as nat) + t8;
    let t6 = ",\"progress\":"@ + t7;
    assert(spec_ser_record_mid(r) + spec_ser_record_close(r) + rest =~= t6);
    lemma_parse_lit_self(",\"progress\":"@, t7);
    assert(t8[0] == ',');
    lemma_u32_roundtrip(r.progress, t8);
    lemma_parse_lit_self(",\"status\":"@, t9);
    lemma_string_roundtrip(spec_status_word(r.status), t10);
    lemma_status_word_roundtrip(r.status);
    lemma_parse_lit_self(",\"path\":"@, t11);
    lemma_opt_string_roundtrip(r.path, t12);
    lemma_parse_lit_self(",\"error\":"@, t13);
    lemma_opt_string_roundtrip(r.error, t14);
    let acc = DownloadInfoView {
        id: r.id,
        filename: r.filename,
        url: r.url,
        progress: r.progress,
        status: r.status,
        path: r.path,
        error: r.error,
        provider: None,
        downloaded_at: None,
        extracted: false,
        extracted_path: None,
        extraction_status: ExtractionStatus::Idle,
        extraction_progress: 0,
    };
    lemma_record_close_roundtrip(r, acc, rest);
}

/// The record parser inverts the record serializer.
#[verifier::rlimit(100)]
pub proof fn lemma_record_roundtrip(r: DownloadInfoView, rest: Seq<char>)
    ensures
        spec_parse_record(spec_ser_record(r) + rest) == Some((r, rest)),
{
    reveal_strlit("{\"id\":");
    reveal_strlit(",\"filename\":");
    reveal_strlit(",\"url\":");
    let t6 = spec_ser_record_mid(r) + spec_ser_record_close(r) + rest;
    let t5 = spec_ser_string(r.url) + t6;
    let t4 = ",\"url\":"@ + t5;
    let t3 = spec_ser_string(r.filename) + t4;
    let t2 = ",\"filename\":"@ + t3;
    let t1 = spec_ser_string(r.id) + t2;
    let t0 = "{\"id\":"@ + t1;
    assert(spec_ser_record(r) + rest =~= t0);
    lemma_parse_lit_self("{\"id\":"@, t1);
    lemma_string_roundtrip(r.id, t2);
    lemma_parse_lit_self(",\"filename\":"@, t3);
    lemma_string_roundtrip(r.filename, t4);
    lemma_parse_lit_self(",\"url\":"@, t5);
    lemma_string_roundtrip(r.url, t6);
    lemma_record_mid_roundtrip(r, rest);
}

/// Write one record in its stored form.
#[verifier::rlimit(100)]
pub fn ser_record(out: &mut Vec<char>, r: &DownloadInfo)
    ensures
        final(out)@ == old(out)@ + spec_ser_record(r@),
{
    push_str_chars(out, "{\"id\":");
    ser_string(out, r.id.as_str());
    push_str_chars(out, ",\"filename\":");
    ser_string(out, r.filename.as_str());
    push_str_chars(out, ",\"url\":");
    ser_string(out, r.url.as_str());
    push_str_chars(out, ",\"progress\":");
    ser_u32(out, r.progress);
    push_str_chars(out, ",\"status\":");
    ser_string(out, status_word(r.status));
    push_str_chars(out, ",\"path\":");
    ser_opt_string(out, &r.path);
    push_str_chars(out, ",\"error\":");
    ser_opt_string(out, &r.error);
    push_str_chars(out, ",\"provider\":");
    ser_opt_string(out, &r.provider);
    push_str_chars(out, ",\"downloaded_at\":");
    ser_opt_string(out, &r.downloaded_at);
    push_str_chars(out, ",\"extracted\":");
    ser_bool(out, r.extracted);
    push_str_chars(out, ",\"extracted_path\":");
    ser_opt_string(out, &r.extracted_path);
    push_str_chars(out, ",\"extraction_status\":");
    ser_string(out, ext_word(r.extraction_status));
    push_str_chars(out, ",\"extraction_progress\":");
    ser_u32(out, r.extraction_progress);
    push_str_chars(out, "}");
    proof {
        assert(final(out)@ =~= old(out)@ + spec_ser_record(r@));
    }
}

/// Parse one stored record at `i`.
#[verifier::rlimit(60)]
pub fn parse_record_at(v: &Vec<char>, i: usize) -> (r: Option<(DownloadInfo, usize)>)
    requires
        i <= v@.len(),
    ensures
        match r {
            Some((rec, j)) => {
                &&& i <= j <= v@.len()
                &&& spec_parse_record(v@.skip(i as int)) == Some((rec@, v@.skip(j as int)))
            },
            None => spec_parse_record(v@.skip(i as int)) is None,
        },
{
    let s1 = match parse_lit_at(v, i, "{\"id\":") {
        Some(j) => j,
        None => {
            return None;
        },
    };
    let (id, s2) = match parse_string_at(v, s1) {
        Some(x) => x,
        None => {
            return None;
        },
    };
    let s3 = match parse_lit_at(v, s2, ",\"filename\":") {
        Some(j) => j,
        None => {
            return None;
        },
    };
    let (filename, s4) = match parse_string_at(v, s3) {
        Some(x) => x,
        None => {
            return None;
        },
    };
    let s5 = match parse_lit_at(v, s4, ",\"url\":") {
        Some(j) => j,
        None => {
            return None;
        },
    };
    let (url, s6) = match parse_string_at(v, s5) {
        Some(x) => x,
        None => {
            return None;
        },
    };
    let s7 = match parse_lit_at(v, s6, ",\"progress\":") {
        Some(j) => j,
        None => {
            return None;
        },
    };
    let (progress, s8) = match parse_u32_at(v, s7) {
        Some(x) => x,
        None => {
            return None;
        },
    };
    let s9 = match parse_lit_at(v, s8, ",\"status\":") {
        Some(j) => j,
        None => {
            return None;
        },
    };
    let (stw, s10) = match parse_string_at(v, s9) {
        Some(x) => x,
        None => {
            return None;
        },
    };
    let status = match status_of_word(&stw) {
        Some(st) => st,
        None => {
            return None;
        },
    };
    let s11 = match parse_lit_at(v, s10, ",\"path\":") {
        Some(j) => j,
        None => {
            return None;
        },
    };
    let (path, s12) = match parse_opt_string_at(v, s11) {
        Some(x) => x,
        None => {
            return None;
        },
    };
    let s13 = match parse_lit_at(v, s12, ",\"error\":") {
        Some(j) => j,
        None => {
            return None;
        },
    };
    let (error, s14) = match parse_opt_string_at(v, s13) {
        Some(x) => x,
        None => {
            return None;
        },
    };
    let s15 = match parse_lit_at(v, s14, ",\"provider\":") {
        Some(j) => j,
        None => {
            return None;
        },
    };
    let (provider, s16) = match parse_opt_string_at(v, s15) {
        Some(x) => x,
        None => {
            return None;
        },
    };
    let s17 = match parse_lit_at(v, s16, ",\"downloaded_at\":") {
        Some(j) => j,
        None => {
            return None;
        },
    };
    let (downloaded_at, s18) = match parse_opt_string_at(v, s17) {
        Some(x) => x,
        None => {
            return None;
        },
    };
    let s19 = match parse_lit_at(v, s18, ",\"extracted\":") {
        Some(j) => j,
        None => {
            return None;
        },
    };
    let (extracted, s20) = match parse_bool_at(v, s19) {
        Some(x) => x,
        None => {
            return None;
        },
    };
    let s21 = match parse_lit_at(v, s20, ",\"extracted_path\":") {
        Some(j) => j,
        None => {
            return None;
        },
    };
    let (extracted_path, s22) = match parse_opt_string_at(v, s21) {
        Some(x) => x,
        None => {
            return None;
        },
    };
    let s23 = match parse_lit_at(v, s22, ",\"extraction_status\":") {
        Some(j) => j,
        None => {
            return None;
        },
    };
    let (extw, s24) = match parse_string_at(v, s23) {
        Some(x) => x,
        None => {
            return None;
        },
    };
    let extraction_status = match ext_of_word(&extw) {
        Some(st) => st,
        None => {
            return None;
        },
    };
    let s25 = match parse_lit_at(v, s24, ",\"extraction_progress\":") {
        Some(j) => j,
        None => {
            return None;
        },
    };
    let (extraction_progress, s26) = match parse_u32_at(v, s25) {
        Some(x) => x,
        None => {
            return None;
        },
    };
    let s27 = match parse_lit_at(v, s26, "}") {
        Some(j) => j,
        None => {
            return None;
        },
    };
    let rec = DownloadInfo {
        id,
        filename,
        url,
        progress,
        status,
        path,
        error,
        provider,
        downloaded_at,
        extracted,
        extracted_path,
        extraction_status,
        extraction_progress,
    };
    Some((rec, s27))
}

} // verus!
