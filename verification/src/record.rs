//! The lifecycle record of one download attempt.
//!
//! Progress values are kept in hundredths of a percent (0 ..= 10_000), so
//! that 10_000 stands for 100%.  The helper process reports fractional
//! percentages on its wire protocol; the codec converts them to this fixed
//! point form on the way in.

use vstd::prelude::*;

verus! {

/// Full progress: 100%, in hundredths of a percent.
pub const PROGRESS_FULL: u32 = 10000;

/// Progress floor given to a record created from a bare start notification:
/// 0.1%, in hundredths of a percent.
pub const PROGRESS_STARTED: u32 = 10;

/// Progress floor once the helper confirms a download without a final path:
/// 10%, in hundredths of a percent.
pub const PROGRESS_CONFIRMED: u32 = 1000;

/// Lifecycle state of a download.
#[derive(Clone, Copy, Debug, PartialEq, Eq, Structural)]
pub enum DownloadStatus {
    Starting,
    Downloading,
    Completed,
    Failed,
    Cancelled,
    Unknown,
}

impl DownloadStatus {
    /// Completed, Failed and Cancelled are terminal: no further transition is
    /// expected for the record.
    pub open spec fn spec_is_terminal(self) -> bool {
        self == DownloadStatus::Completed || self == DownloadStatus::Failed
            || self == DownloadStatus::Cancelled
    }

    #[verifier::when_used_as_spec(spec_is_terminal)]
    pub fn is_terminal(self) -> (r: bool)
        ensures
            r == self.spec_is_terminal(),
    {
        match self {
            DownloadStatus::Completed => true,
            DownloadStatus::Failed => true,
            DownloadStatus::Cancelled => true,
            _ => false,
        }
    }
}

/// State of the archive extraction attached to a completed download.
#[derive(Clone, Copy, Debug, PartialEq, Eq, Structural)]
pub enum ExtractionStatus {
    Idle,
    Extracting,
    Completed,
    Failed,
}

/// One download attempt, as tracked by the registry and written to disk.
pub struct DownloadInfo {
    pub id: String,
    pub filename: String,
    pub url: String,
    pub progress: u32,
    pub status: DownloadStatus,
    pub path: Option<String>,
    pub error: Option<String>,
    pub provider: Option<String>,
    pub downloaded_at: Option<String>,
    pub extracted: bool,
    pub extracted_path: Option<String>,
    pub extraction_status: ExtractionStatus,
    pub extraction_progress: u32,
}

/// The mathematical value of a `DownloadInfo`: every text field as a
/// sequence of characters.
pub ghost struct DownloadInfoView {
    pub id: Seq<char>,
    pub filename: Seq<char>,
    pub url: Seq<char>,
    pub progress: u32,
    pub status: DownloadStatus,
    pub path: Option<Seq<char>>,
    pub error: Option<Seq<char>>,
    pub provider: Option<Seq<char>>,
    pub downloaded_at: Option<Seq<char>>,
    pub extracted: bool,
    pub extracted_path: Option<Seq<char>>,
    pub extraction_status: ExtractionStatus,
    pub extraction_progress: u32,
}

pub open spec fn opt_view(o: Option<String>) -> Option<Seq<char>> {
    match o {
        Some(s) => Some(s@),
        None => None,
    }
}

impl View for DownloadInfo {
    type V = DownloadInfoView;

    open spec fn view(&self) -> DownloadInfoView {
        DownloadInfoView {
            id: self.id@,
            filename: self.filename@,
            url: self.url@,
            progress: self.progress,
            status: self.status,
            path: opt_view(self.path),
            error: opt_view(self.error),
            provider: opt_view(self.provider),
            downloaded_at: opt_view(self.downloaded_at),
            extracted: self.extracted,
            extracted_path: opt_view(self.extracted_path),
            extraction_status: self.extraction_status,
            extraction_progress: self.extraction_progress,
        }
    }
}

impl DownloadInfoView {
    /// Well-formedness of a record: progress values stay within 100% and an
    /// extracted record always carries the path it was extracted to.
    pub open spec fn wf(self) -> bool {
        &&& self.progress <= PROGRESS_FULL
        &&& self.extraction_progress <= PROGRESS_FULL
        &&& self.extracted ==> self.extracted_path is Some
    }
}

impl Clone for DownloadInfo {
    fn clone(&self) -> (r: Self)
        ensures
            r@ == self@,
    {
        DownloadInfo {
            id: self.id.clone(),
            filename: self.filename.clone(),
            url: self.url.clone(),
            progress: self.progress,
            status: self.status,
            path: clone_opt(&self.path),
            error: clone_opt(&self.error),
            provider: clone_opt(&self.provider),
            downloaded_at: clone_opt(&self.downloaded_at),
            extracted: self.extracted,
            extracted_path: clone_opt(&self.extracted_path),
            extraction_status: self.extraction_status,
            extraction_progress: self.extraction_progress,
        }
    }
}

/// A clone of an optional string, equal in value.
pub fn clone_opt(o: &Option<String>) -> (r: Option<String>)
    ensures
        opt_view(r) == opt_view(*o),
{
    match o {
        Some(s) => Some(s.clone()),
        None => None,
    }
}

} // verus!
