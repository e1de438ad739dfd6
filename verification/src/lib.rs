//! Catalogue of a local music library.
//!
//! The library keeps the record of each track, remembers records in a cache
//! so that no file is read twice, filters records by criteria that are
//! wildcards when absent, reduces album covers to palettes by k-means
//! clustering, and computes what the reports, playlists and collages show.
//! Reading and writing files, decoding images and printing are left to the
//! program that uses it.
//!
//! Every function states what it returns, and the statement is proved. What
//! the library has from other crates, from the clock and from chance is set
//! apart in a few functions that say which outside function they call and
//! what is taken for granted of it.

pub mod accg;
pub mod cache;
pub mod count;
pub mod covers;
pub mod data;
pub mod date;
pub mod digits;
pub mod error;
pub mod filters;
pub mod info;
pub mod kmeans;
pub mod lexical;
pub mod missing;
pub mod playlist;
pub mod release;
pub mod songs;
pub mod sort;
pub mod tally;
pub mod text;
pub mod time;
pub mod words;
pub mod wtp;
