pub mod text;
pub mod pattern;
pub mod weburl;
pub mod html;
pub mod proxy;
pub mod downloader;
pub mod scraper;
pub mod commands;
pub mod error;
