//! Search-result listing extraction, pagination classification and
//! selection parsing for a torrent index site.

pub mod arg_parser;
pub mod html_parser;
pub mod markup;
pub mod text;
pub mod types;
pub mod utils;
