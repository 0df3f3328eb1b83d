//! The decisions behind the app's commands; the commands themselves (the
//! IPC layer, files, windows) stay with the caller.
pub mod updater;
pub mod downloader;
pub mod media;
pub mod scraper;
pub mod system;
pub mod cf;

use vstd::prelude::*;

verus! {

/// A Cloudflare clearance saved for a domain.
#[derive(Debug, Clone)]
pub struct CfConfig {
    pub cf_clearance: String,
    pub user_agent: String,
}

} // verus!
