//! Finding a playable source for an episode of a show, streaming a torrent
//! as a seekable HTTP resource, and keeping the shows in a persistent map.
//!
//! The pieces, leaves first:
//!
//! - `text`, `number`: characters, splitting, decimal numbers.
//! - `category`, `nyaa`, `scrape`: the torrent index, its queries and its pages.
//! - `title`, `resolve`: what a release name says, and which file of a
//!   torrent holds which episode.
//! - `score`, `board`, `source`: the filter, the score and the ranking of
//!   candidates, and the choice between them.
//! - `storage`: torrent storage in memory.
//! - `range`, `bridge`: the table of streams and the answer to a request.
//! - `lifecycle`: pausing, resuming and destroying a stream.
//! - `tree`, `cache`: the persistent map with its mirror in memory.
//! - `show`, `media`, `config`: the data of the program.
//! - `presence`, `allanime`, `syncplay`, `util`: what is shown to others, the
//!   hosted-file source, the shared-playback greeting and small helpers.

pub mod allanime;
pub mod anilist;
pub mod board;
pub mod bridge;
pub mod cache;
pub mod category;
pub mod config;
pub mod lifecycle;
pub mod media;
pub mod number;
pub mod presence;
pub mod nyaa;
pub mod range;
pub mod resolve;
pub mod score;
pub mod scrape;
pub mod show;
pub mod source;
pub mod storage;
pub mod syncplay;
pub mod text;
pub mod title;
pub mod tree;
pub mod util;
