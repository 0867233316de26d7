//! Core of a download coordinator: an external helper process performs the
//! transfers, while this library tracks each download's lifecycle in a
//! registry, reconciles that state across restarts, speaks the line-delimited
//! JSON protocol used with the helper, and renders the registry to the JSON
//! text that is persisted to disk.

pub mod codec;
pub mod config;
pub mod control;
pub mod events;
pub mod json;
pub mod laws;
pub mod persist;
pub mod record;
pub mod registry;
pub mod settings;
pub mod wire;

pub use config::state_from_json;
pub use config::state_to_json;
pub use control::cleanup_active_downloads;
pub use events::CoreError;
pub use events::Emission;
pub use events::EventStatus;
pub use events::StatusEvent;
pub use persist::registry_from_json;
pub use persist::registry_to_json;
pub use record::DownloadInfo;
pub use record::DownloadStatus;
pub use record::ExtractionStatus;
pub use registry::ActiveDownloads;
pub use settings::AppState;
pub use settings::ArticleResponse;
pub use settings::CloudinaryConfig;
pub use settings::DownloadedGameInfo;
pub use settings::LaunchConfig;
pub use wire::parse_status_line;
pub use wire::LineError;
