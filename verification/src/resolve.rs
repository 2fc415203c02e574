//! Which file of a torrent holds which episode.

use crate::media::{MagnetSource, TorrentMedia, TorrentMeta};
use crate::number::{parse_unsigned, unsigned_value};
use crate::nyaa::Item;
use crate::text::{chars_of, opt_text, same_text};
use crate::title::{parse_title, title_reads, TitleInfo};
use std::collections::HashMap;
use vstd::prelude::*;

verus! {

broadcast use vstd::std_specs::hash::group_hash_axioms;

/// What `str::to_lowercase` makes of a text.
pub uninterp spec fn lowercase_of(text: Seq<char>) -> Seq<char>;

/// `str::to_lowercase`: the lowercase form of the text, by the rules of
/// Unicode. The result depends on the text alone.
#[verifier::external_body]
pub(crate) fn to_lowercase(text: &str) -> (r: String)
    ensures
        r@ == lowercase_of(text@),
{
    text.to_lowercase()
}

/// Whether a file extension is one of a video container.
pub open spec fn is_video_extension(ext: Seq<char>) -> bool {
    ext == "mp4"@ || ext == "mkv"@ || ext == "webm"@ || ext == "mov"@
}

/// Decides `is_video_extension`.
pub fn video_extension(ext: &str) -> (b: bool)
    ensures
        b == is_video_extension(ext@),
{
    let e = chars_of(ext);
    same_text(&e, &chars_of("mp4")) || same_text(&e, &chars_of("mkv")) || same_text(
        &e,
        &chars_of("webm"),
    ) || same_text(&e, &chars_of("mov"))
}

/// What was found in the name of one file of a torrent: its episode number and
/// its extension, each as text. `None` for a file without a readable name.
pub type FileFacts = Option<(Option<Seq<char>>, Option<Seq<char>>)>;

/// The episode that a file holds, counted from 1. A file counts only with the
/// extension of a video container. Its own episode number goes before the one
/// of the torrent's title; the number must be written as an unsigned 32-bit
/// number and must not be 0, which stands for no episode.
pub open spec fn file_episode(facts: FileFacts, title_episode: Option<Seq<char>>) -> Option<u32> {
    match facts {
        Some((own_episode, Some(ext))) => if is_video_extension(ext) {
            let text = match own_episode {
                Some(e) => Some(e),
                None => title_episode,
            };
            match text {
                Some(t) => match unsigned_value(t, u32::MAX as nat) {
                    Some(n) => if n == 0 {
                        None
                    } else {
                        Some(n as u32)
                    },
                    None => None,
                },
                None => None,
            }
        } else {
            None
        },
        _ => None,
    }
}

/// The file of each episode, both counted from 0: the files are taken in
/// order, a later file of an episode replaces an earlier one, and files beyond
/// the 32-bit range are left out.
pub open spec fn episode_files(files: Seq<FileFacts>, title_episode: Option<Seq<char>>) -> Map<
    u32,
    u32,
>
    decreases files.len(),
{
    if files.len() == 0 {
        Map::empty()
    } else {
        let before = episode_files(files.drop_last(), title_episode);
        match file_episode(files.last(), title_episode) {
            Some(ep) => if files.len() - 1 <= u32::MAX {
                before.insert((ep - 1) as u32, (files.len() - 1) as u32)
            } else {
                before
            },
            None => before,
        }
    }
}

/// The facts that a parsed file name holds.
pub open spec fn facts_of(info: Option<TitleInfo>) -> FileFacts {
    match info {
        Some(i) => Some(i@),
        None => None,
    }
}

/// The facts of each file, in order.
pub open spec fn all_facts(infos: Seq<Option<TitleInfo>>) -> Seq<FileFacts> {
    Seq::new(infos.len(), |i: int| facts_of(infos[i]))
}

fn episode_in(info: &Option<TitleInfo>, title_episode: &Option<String>) -> (r: Option<u32>)
    ensures
        r == file_episode(
            facts_of(*info),
            opt_text(*title_episode),
        ),
{
    let info = match info {
        Some(i) => i,
        None => { return None; },
    };
    let ext = match &info.file_extension {
        Some(e) => e,
        None => { return None; },
    };
    if !video_extension(ext.as_str()) {
        return None;
    }
    let text = match &info.episode {
        Some(e) => e,
        None => match title_episode {
            Some(t) => t,
            None => { return None; },
        },
    };
    match parse_unsigned(&chars_of(text.as_str()), 0xffff_ffff) {
        Some(n) => if n == 0 {
            None
        } else {
            Some(n as u32)
        },
        None => None,
    }
}

/// Maps episodes to files, given what the title parser found in the name of
/// each file and in the title of the torrent.
pub fn map_episodes(infos: &Vec<Option<TitleInfo>>, title_episode: &Option<String>) -> (m: HashMap<
    u32,
    u32,
>)
    ensures
        m@ == episode_files(
            all_facts(infos@),
            opt_text(*title_episode),
        ),
{
    let ghost title = opt_text(*title_episode);
    let mut m: HashMap<u32, u32> = HashMap::new();
    let mut i: usize = 0;
    assert(all_facts(infos@).subrange(0, 0) =~= Seq::<FileFacts>::empty());
    while i < infos.len()
        invariant
            i <= infos.len(),
            title == opt_text(*title_episode),
            m@ == episode_files(all_facts(infos@).subrange(0, i as int), title),
        decreases infos.len() - i,
    {
        proof {
            let now = all_facts(infos@).subrange(0, i + 1);
            assert(now.drop_last() == all_facts(infos@).subrange(0, i as int));
            assert(now.last() == facts_of(infos@[i as int]));
        }
        match episode_in(&infos[i], title_episode) {
            Some(ep) => {
                if i <= 0xffff_ffff {
                    m.insert(ep - 1, i as u32);
                }
            },
            None => {},
        }
        i += 1;
    }
    assert(all_facts(infos@).subrange(0, infos.len() as int) == all_facts(infos@));
    m
}

/// Whether `facts` may be what is found in the last component of the path of
/// a file: the component in lowercase, parsed as a title; nothing for a file
/// without such a component.
pub open spec fn name_reads(name: Option<Seq<char>>, facts: FileFacts) -> bool {
    match name {
        Some(n) => facts matches Some(info) && title_reads(lowercase_of(n), info),
        None => facts is None,
    }
}

/// Whether `m` may be the map of a torrent with this title and these file
/// names: the map that `episode_files` gives for facts that the names and the
/// title may be read as. Names and titles of ASCII characters are read in one
/// way only.
pub open spec fn resolves_to(title: Seq<char>, file_names: Seq<Option<String>>, m: Map<u32, u32>) -> bool {
    exists|facts: Seq<FileFacts>, read_title: (Option<Seq<char>>, Option<Seq<char>>)|
        {
            &&& facts.len() == file_names.len()
            &&& forall|i: int|
                0 <= i < facts.len() ==> name_reads(opt_text(file_names[i]), #[trigger] facts[i])
            &&& title_reads(title, read_title)
            &&& m == #[trigger] episode_files(facts, read_title.0)
        }
}

/// Maps the episodes of a torrent to its files. `file_names` holds the last
/// component of the path of each file, `None` for a file without one. Both
/// episodes and files are counted from 0.
pub fn resolve_files(title: &str, file_names: &Vec<Option<String>>) -> (m: HashMap<u32, u32>)
    ensures
        resolves_to(title@, file_names@, m@),
{
    let parsed = parse_title(title);
    let mut infos: Vec<Option<TitleInfo>> = Vec::new();
    let mut i: usize = 0;
    while i < file_names.len()
        invariant
            i <= file_names.len(),
            infos.len() == i,
            forall|k: int|
                0 <= k < i ==> name_reads(opt_text(file_names@[k]), facts_of(#[trigger] infos[k])),
        decreases file_names.len() - i,
    {
        let info = match &file_names[i] {
            Some(name) => {
                let lower = to_lowercase(name.as_str());
                Some(parse_title(lower.as_str()))
            },
            None => None,
        };
        infos.push(info);
        i += 1;
    }
    let m = map_episodes(&infos, &parsed.episode);
    proof {
        let facts = all_facts(infos@);
        assert forall|k: int| 0 <= k < facts.len() implies name_reads(
            opt_text(file_names@[k]),
            #[trigger] facts[k],
        ) by {
            assert(facts[k] == facts_of(infos[k]));
        }
        assert(m@ == episode_files(facts, parsed@.0));
    }
    m
}

/// Resolves a candidate into a torrent medium: maps its episodes to the files
/// of the torrent and keeps its magnet link and what the index said of it.
/// `nyaa_id` is the number of the upload at the index, where it is known.
pub fn resolve_torrent(item: &Item, file_names: &Vec<Option<String>>, nyaa_id: Option<u64>) -> (m:
    TorrentMedia)
    ensures
        resolves_to(item.title@, file_names@, m.files_for_episode_idx@),
        m.magnet@ == item.magnet_link@,
        m.meta.title@ == item.title@,
        m.meta.seeders == item.seeders,
        m.meta.leechers == item.leechers,
        m.meta.magnet_source == match nyaa_id {
            Some(id) => Some(MagnetSource::Nyaa(id)),
            None => None,
        },
{
    TorrentMedia {
        files_for_episode_idx: resolve_files(item.title.as_str(), file_names),
        magnet: item.magnet_link.clone(),
        meta: TorrentMeta {
            title: item.title.clone(),
            magnet_source: match nyaa_id {
                Some(id) => Some(MagnetSource::Nyaa(id)),
                None => None,
            },
            seeders: item.seeders,
            leechers: item.leechers,
        },
    }
}

} // verus!
