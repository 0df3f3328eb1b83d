use vstd::prelude::*;
use crate::scraper::Site;

verus! {

/// A request for a card's preview clip.
#[derive(Debug, Clone)]
pub struct PreviewVideoRequest {
    pub site: Site,
    pub url: String,
}

} // verus!
