//! Folder crawling: size classification, permission rendering, path
//! validation decisions, crawl result collection, exclusion filtering,
//! reporting and the partitioning used by the concurrent root scan.
pub mod decimal;
pub mod errors;
pub mod file_size;
pub mod folder;
pub mod folder_crawler;
pub mod laws;
pub mod scan;

pub use errors::FileError;
pub use file_size::{ConvError, FileSize};
pub use folder::{EntryFilter, FileMeta, Folder, PathProbe};
pub use folder_crawler::FolderCrawler;
pub use scan::{filter_out, list_items, partition, scan_mode, worker_count, ScanMode};
