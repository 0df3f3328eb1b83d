use vstd::prelude::*;
use crate::scraper::Site;

verus! {

/// The request of the listing commands.
#[derive(Debug, Clone)]
pub struct ScraperRequest {
    pub site: Site,
    pub url: Option<String>,
    pub keyword: Option<String>,
    pub page: Option<usize>,
    pub sort_by: Option<String>,
    pub lang: String,
}

} // verus!
