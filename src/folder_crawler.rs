use vstd::prelude::*;

use crate::file_size::FileSize;

verus! {

/// The settings of a crawl.
#[derive(Clone, Debug)]
pub struct FolderCrawler {
    /// The directory to crawl; the working directory where absent.
    pub path: Option<String>,
    /// The one unit to show, or `Unbounded` for all.
    pub data_size: FileSize,
    /// Crawl subdirectories too.
    pub sub_dir: bool,
    /// The least magnitude, in the entry's own unit, to show.
    pub size: u64,
    /// A path whose textual prefixes are left out.
    pub exclude: Option<String>,
}

} // verus!
