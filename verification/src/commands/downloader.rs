//! Download commands: the requests, the settings a download resumes with,
//! and what an interrupted download found on disk is taken to be.
use vstd::prelude::*;
use crate::text;
use crate::text::{chars_of, concat, starts_with_at, string_of};
use crate::pattern::{extract_video_code, video_code};
use crate::scraper::Site;

verus! {

/// A download found in the download folder that did not finish.
#[derive(Debug, Clone)]
pub struct UnfinishedTask {
    pub site: Option<Site>,
    pub url: String,
    pub title: String,
    pub save_dir: String,
    pub max_concurrent: usize,
    pub resolution: String,
    pub total_segments: usize,
    pub completed_segments: usize,
    pub m3u8_url: String,
}

/// A request to start a download.
#[derive(Debug, Clone)]
pub struct DownloadRequest {
    pub site: Site,
    pub url: String,
    pub save_dir: String,
    pub max_concurrent: usize,
    pub resolution: String,
}

/// What a download's saved metadata tells of its settings.
#[derive(Debug, Clone)]
pub struct SavedTaskMeta {
    pub site: Option<Site>,
    pub save_dir: String,
    pub title: String,
    pub max_concurrent: usize,
    pub resolution: String,
}

pub open spec fn opt_site_or(a: Option<Site>, b: Option<Site>) -> Site {
    match a {
        Some(s) => s,
        None => match b {
            Some(s) => s,
            None => Site::Jable,
        },
    }
}

/// Resuming a download that the registry does not know: the saved
/// metadata's settings when found (the site given by the caller first),
/// else the caller's, with the download folder, 3 connections and the
/// highest resolution by default, and Jable as the site.
pub fn resume_settings(
    site: Option<Site>,
    save_dir: Option<String>,
    max_concurrent: Option<usize>,
    resolution: Option<String>,
    recovered: Option<SavedTaskMeta>,
) -> (r: (Site, String, usize, String))
    ensures
        match recovered {
            Some(m) => r.0 == opt_site_or(site, m.site) && r.1@ == m.save_dir@ && r.2
                == m.max_concurrent && r.3@ == m.resolution@,
            None => r.0 == opt_site_or(site, None) && r.1@ == (match save_dir {
                Some(d) => d@,
                None => "download"@,
            }) && r.2 == (match max_concurrent {
                Some(m) => m,
                None => 3,
            }) && r.3@ == (match resolution {
                Some(x) => x@,
                None => "highest"@,
            }),
        },
{
    match recovered {
        Some(m) => {
            let s = match site {
                Some(s) => s,
                None => match m.site {
                    Some(s) => s,
                    None => Site::Jable,
                },
            };
            (s, m.save_dir, m.max_concurrent, m.resolution)
        },
        None => {
            let s = match site {
                Some(s) => s,
                None => Site::Jable,
            };
            let d = match save_dir {
                Some(d) => d,
                None => "download".to_string(),
            };
            let m = match max_concurrent {
                Some(m) => m,
                None => 3,
            };
            let x = match resolution {
                Some(x) => x,
                None => "highest".to_string(),
            };
            (s, d, m, x)
        },
    }
}

/// A temporary folder's title: its name without the `temp_` prefix.
pub open spec fn folder_title(name: Seq<char>) -> Seq<char> {
    if text::starts_with(name, "temp_"@) {
        name.skip("temp_"@.len() as int)
    } else {
        name
    }
}

/// The page URL of an interrupted download known only by its folder: the
/// Jable page of the title's video code, else a Jable search for the title.
pub open spec fn folder_page_url(title: Seq<char>) -> Seq<char> {
    match video_code(title) {
        Some(c) => "https://jable.tv/videos/"@ + c + "/"@,
        None => "https://jable.tv/search/"@ + title + "/"@,
    }
}

/// An interrupted download known only by its temporary folder `name`
/// (without saved metadata), holding `completed_segments` segment files:
/// the segment count is guessed as ten more than those present, or 100.
pub fn unfinished_from_folder(name: &str, save_dir: &str, completed_segments: usize) -> (r: UnfinishedTask)
    requires
        completed_segments <= usize::MAX - 10,
    ensures
        r.site is None,
        r.title@ == folder_title(name@),
        r.url@ == folder_page_url(folder_title(name@)),
        r.save_dir@ == save_dir@,
        r.max_concurrent == 3,
        r.resolution@ == "highest"@,
        r.total_segments == (if completed_segments > 0 {
            completed_segments + 10
        } else {
            100
        }),
        r.completed_segments == completed_segments,
        r.m3u8_url@ == Seq::<char>::empty(),
{
    let n = chars_of(name);
    let prefix = chars_of("temp_");
    let title = if starts_with_at(&n, &prefix) {
        string_of(&n[prefix.len()..n.len()])
    } else {
        string_of(&n)
    };
    let url = match extract_video_code(title.as_str()) {
        Some(c) => string_of(&concat(&concat(&chars_of("https://jable.tv/videos/"), &chars_of(c.as_str())), &chars_of("/"))),
        None => string_of(&concat(&concat(&chars_of("https://jable.tv/search/"), &chars_of(title.as_str())), &chars_of("/"))),
    };
    let total = if completed_segments > 0 {
        completed_segments + 10
    } else {
        100
    };
    UnfinishedTask {
        site: None,
        url,
        title,
        save_dir: save_dir.to_string(),
        max_concurrent: 3,
        resolution: "highest".to_string(),
        total_segments: total,
        completed_segments,
        m3u8_url: String::new(),
    }
}

} // verus!
