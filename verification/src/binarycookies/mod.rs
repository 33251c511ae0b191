//! The binary cookie container: cookie records, grouped into pages, grouped
//! into one file.

pub mod binarycookies;
pub mod cookie;
pub mod page;
pub mod utils;

pub use binarycookies::BinaryCookies;
pub use cookie::Cookie;
pub use page::Page;
