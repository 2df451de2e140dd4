//! Core logic for ingesting photos from removable media: eligibility
//! filtering, folder-rename normalization, copy planning with throttled
//! progress accounting, and card-reader discovery over disk metadata.
pub mod discovery;
pub mod engine;
pub mod listing;
pub mod media;
pub mod paths;
pub mod progress;
pub mod rename;
pub mod volumes;
