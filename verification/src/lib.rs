//! Core of a sequential-page image viewer: page sources (zip/rar/pdf/folder),
//! natural ordering of page names, pagination under single/double/shifted
//! modes, lookahead/lookbehind prefetch buffers, and sibling navigation.
pub mod config;
pub mod cursor;
pub mod decode;
pub mod dialog;
pub mod natural;
pub mod prefetch;
pub mod siblings;
pub mod source;
pub mod zipsrc;
