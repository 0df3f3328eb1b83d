pub mod utils;
pub mod task;
pub mod m3u8;
pub mod parsers;
pub mod page;
pub mod engine;
