//! Verified core of the dweb command line and local web server: the parsing
//! of dweb URLs and command arguments, ETag construction, the DWEB-NAME
//! registry, request parameter handling and the small decision procedures of
//! the server's request handlers.

pub mod text;
pub mod links;
pub mod entries;
pub mod etag;
pub mod keys;
pub mod names;
pub mod api_dweb;
pub mod objects;
pub mod results;
pub mod mutations;
pub mod archive;
pub mod hosts;
pub mod open;
pub mod commands;
