//! The media of a show and what is needed to play them.

use crate::number::{decimal_text, format_unsigned};
use crate::show::ShowId;
use crate::text::{chars_of, push_chars, push_text, string_of};
use std::collections::HashMap;
use vstd::prelude::*;

verus! {

broadcast use vstd::std_specs::hash::group_hash_axioms;

/// What the player is given to open.
#[derive(Debug, Clone)]
pub enum Playable {
    Url(String),
    File(String),
}

/// Where a magnet link was found.
#[derive(Debug, Clone, Copy, PartialEq, Eq, Structural)]
pub enum MagnetSource {
    /// The number of the upload at the index.
    Nyaa(u64),
    User,
}

/// What is known of a torrent beside its files.
#[derive(Debug, Clone)]
pub struct TorrentMeta {
    pub title: String,
    pub magnet_source: Option<MagnetSource>,
    pub seeders: u32,
    pub leechers: u32,
}

/// A torrent that holds episodes of a show.
#[derive(Debug, Clone)]
pub struct TorrentMedia {
    /// The file of each episode, both counted from 0.
    pub files_for_episode_idx: HashMap<u32, u32>,
    pub magnet: String,
    pub meta: TorrentMeta,
}

/// What is known of a hosted file.
#[derive(Debug, Clone)]
pub struct UrlMeta {
    pub source_name: String,
    pub file_name: String,
    pub resolution: Option<String>,
}

/// One episode, hosted at an address.
#[derive(Debug, Clone)]
pub struct UrlMedia {
    pub episode: u32,
    pub url: String,
    pub meta: UrlMeta,
}

/// A medium of either kind.
#[derive(Debug, Clone)]
pub enum AnyMedia {
    Torrent(TorrentMedia),
    Url(UrlMedia),
}

/// What is known of the source of a medium that is being played.
#[derive(Debug, Clone)]
pub enum SourceMeta {
    Torrent(TorrentMeta),
    Url(UrlMeta),
}

/// A request to play an episode.
#[derive(Debug, Clone, Copy, PartialEq, Eq, Structural)]
pub struct PlayRequest {
    pub show: ShowId,
    /// The episode, counted from 0.
    pub episode_idx: u32,
    /// Where to start, in seconds from the start of the file.
    pub pos: u32,
}

/// A medium that is ready to be played.
#[derive(Debug, Clone)]
pub struct PlayableMedia {
    pub playable: Playable,
    pub file_name: Option<String>,
    pub file_size: Option<u64>,
    pub meta: SourceMeta,
}

/// What every kind of medium can say of itself.
pub trait Media {
    /// The text that tells this medium from every other.
    spec fn spec_identifier(&self) -> Seq<char>;

    /// Whether the medium holds the episode, counted from 0.
    spec fn spec_has_ep(&self, idx: u32) -> bool;

    fn identifier(&self) -> (id: String)
        ensures
            id@ == self.spec_identifier(),
    ;

    fn has_ep(&self, idx: u32) -> (b: bool)
        ensures
            b == self.spec_has_ep(idx),
    ;
}

impl Media for TorrentMedia {
    open spec fn spec_identifier(&self) -> Seq<char> {
        self.magnet@
    }

    open spec fn spec_has_ep(&self, idx: u32) -> bool {
        self.files_for_episode_idx@.contains_key(idx)
    }

    fn identifier(&self) -> (id: String) {
        self.magnet.clone()
    }

    fn has_ep(&self, idx: u32) -> (b: bool) {
        self.files_for_episode_idx.contains_key(&idx)
    }
}

impl Media for UrlMedia {
    open spec fn spec_identifier(&self) -> Seq<char> {
        self.url@
    }

    open spec fn spec_has_ep(&self, idx: u32) -> bool {
        self.episode == idx
    }

    fn identifier(&self) -> (id: String) {
        self.url.clone()
    }

    fn has_ep(&self, idx: u32) -> (b: bool) {
        self.episode == idx
    }
}

impl Media for AnyMedia {
    open spec fn spec_identifier(&self) -> Seq<char> {
        match self {
            AnyMedia::Torrent(t) => t.spec_identifier(),
            AnyMedia::Url(u) => u.spec_identifier(),
        }
    }

    open spec fn spec_has_ep(&self, idx: u32) -> bool {
        match self {
            AnyMedia::Torrent(t) => t.spec_has_ep(idx),
            AnyMedia::Url(u) => u.spec_has_ep(idx),
        }
    }

    fn identifier(&self) -> (id: String) {
        match self {
            AnyMedia::Torrent(t) => t.identifier(),
            AnyMedia::Url(u) => u.identifier(),
        }
    }

    fn has_ep(&self, idx: u32) -> (b: bool) {
        match self {
            AnyMedia::Torrent(t) => t.has_ep(idx),
            AnyMedia::Url(u) => u.has_ep(idx),
        }
    }
}

/// Where the bridge listens.
pub open spec fn stream_root() -> Seq<char> {
    "http://127.0.0.1:9000/stream/"@
}

/// The path under which the bridge serves an episode of a show.
pub open spec fn stream_path(show: u64, episode_idx: u32) -> Seq<char> {
    decimal_text(show as nat) + "_e"@ + decimal_text(episode_idx as nat)
}

/// How an episode of a torrent is streamed.
#[derive(Debug, Clone)]
pub struct StreamPlan {
    /// The number of the file in the torrent.
    pub file_idx: u32,
    /// The path at the bridge.
    pub subpath: String,
    /// The address for the player.
    pub url: String,
}

impl TorrentMedia {
    /// Plans the streaming of the episode that a request asks for; `None`
    /// where the torrent has no file for the episode.
    pub fn play(&self, for_show: &PlayRequest) -> (r: Option<StreamPlan>)
        ensures
            r is Some <==> self.spec_has_ep(for_show.episode_idx),
            r matches Some(plan) ==> plan.file_idx == self.files_for_episode_idx@[for_show.episode_idx]
                && plan.subpath@ == stream_path(for_show.show.0, for_show.episode_idx) && plan.url@
                == stream_root() + stream_path(for_show.show.0, for_show.episode_idx),
    {
        let file_idx: u32 = match self.files_for_episode_idx.get(&for_show.episode_idx) {
            Some(f) => *f,
            None => { return None; },
        };
        let mut subpath: Vec<char> = format_unsigned(for_show.show.0);
        push_text(&mut subpath, "_e");
        push_chars(&mut subpath, &format_unsigned(for_show.episode_idx as u64));
        let mut url: Vec<char> = chars_of("http://127.0.0.1:9000/stream/");
        push_chars(&mut url, &subpath);
        Some(StreamPlan { file_idx, subpath: string_of(&subpath), url: string_of(&url) })
    }

    /// The medium once its stream is planned, with the name and the size of
    /// the file where the torrent tells them.
    pub fn playable(&self, plan: &StreamPlan, file_name: Option<String>, file_size: Option<u64>) -> (r:
        PlayableMedia)
        ensures
            r.playable matches Playable::Url(u) && u@ == plan.url@,
            r.file_name == file_name,
            r.file_size == file_size,
            r.meta matches SourceMeta::Torrent(m) && m.title@ == self.meta.title@ && m.seeders
                == self.meta.seeders && m.leechers == self.meta.leechers && m.magnet_source
                == self.meta.magnet_source,
    {
        PlayableMedia {
            playable: Playable::Url(plan.url.clone()),
            file_name,
            file_size,
            meta: SourceMeta::Torrent(
                TorrentMeta {
                    title: self.meta.title.clone(),
                    magnet_source: self.meta.magnet_source,
                    seeders: self.meta.seeders,
                    leechers: self.meta.leechers,
                },
            ),
        }
    }
}

impl UrlMedia {
    /// The medium for the episode that a request asks for; `None` where this
    /// is another episode.
    pub fn play(&self, for_show: &PlayRequest) -> (r: Option<PlayableMedia>)
        ensures
            r is Some <==> self.spec_has_ep(for_show.episode_idx),
            r matches Some(p) ==> (p.playable matches Playable::Url(u) && u@ == self.url@)
                && (p.file_name matches Some(n) && n@ == self.meta.file_name@) && p.file_size is None
                && (p.meta matches SourceMeta::Url(m) && m.source_name@ == self.meta.source_name@
                && m.file_name@ == self.meta.file_name@),
    {
        if for_show.episode_idx != self.episode {
            return None;
        }
        Some(
            PlayableMedia {
                playable: Playable::Url(self.url.clone()),
                file_name: Some(self.meta.file_name.clone()),
                file_size: None,
                meta: SourceMeta::Url(
                    UrlMeta {
                        source_name: self.meta.source_name.clone(),
                        file_name: self.meta.file_name.clone(),
                        resolution: self.meta.resolution.clone(),
                    },
                ),
            },
        )
    }
}

} // verus!
