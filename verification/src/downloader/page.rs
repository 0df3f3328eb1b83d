//! The page information that a download starts from.
use vstd::prelude::*;
use crate::downloader::parsers::JableVideoPageInfo;

verus! {

/// Title + stream URL extracted from a video page.
#[derive(Debug, Clone)]
pub struct PageInfo {
    pub title: String,
    pub m3u8_url: String,
}

impl PageInfo {
    /// The same title and URL.
    pub fn from_parsed(info: JableVideoPageInfo) -> (p: PageInfo)
        ensures
            p.title == info.title,
            p.m3u8_url == info.m3u8_url,
    {
        PageInfo { title: info.title, m3u8_url: info.m3u8_url }
    }
}

} // verus!
