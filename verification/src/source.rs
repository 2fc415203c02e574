//! Searching the index for a show: the queries, the limits and the filter.

use crate::board::{board_of, lemma_board_is_whole, values_of, ScoreBoard};
use crate::category::{AnimeKind, MediaCategory};
use crate::number::{format_two_digits, two_digit_text};
use crate::nyaa::{Filter, Item, NyaaClientConfig, SearchQuery, Sort, SortBy, SortOrder};
use crate::score::{score_value, scorable, try_score};
use crate::show::{Name, Show};
use crate::text::{chars_of, contains, contains_text, push_chars, push_text, string_of};
use crate::title::{parse_title, title_reads};
use vstd::prelude::*;

verus! {

/// Where a candidate comes from.
#[derive(Debug, Clone, Copy, PartialEq, Eq, Structural)]
pub enum SourceKind {
    Nyaa,
    File,
}

/// A candidate that passed the filter.
#[derive(Debug, Clone)]
pub struct QueryItem {
    pub source: SourceKind,
    /// The name shown to the user.
    pub name: String,
    pub file_size: Option<u64>,
    /// The result of the index that the candidate is resolved from.
    pub media: Item,
}

/// What the search accepts and prefers.
#[derive(Debug, Clone)]
pub struct Config {
    /// Results with fewer seeders are ignored.
    pub min_seeders: u32,
    /// Results larger than this are ignored.
    pub max_size: u64,
    /// The size that scores best.
    pub preferred_size: u64,
    pub nyaa: NyaaClientConfig,
}

/// The number of bytes in a mebibyte.
pub const MIB: u64 = 1048576;

impl Default for Config {
    fn default() -> (c: Config)
        ensures
            c.min_seeders == 5,
            c.max_size == 900 * MIB,
            c.preferred_size == 400 * MIB,
            c.nyaa.instance_url@ == "https://nyaa.si"@,
            c.nyaa.timeout is None,
    {
        Config {
            min_seeders: 5,
            max_size: 900 * MIB,
            preferred_size: 400 * MIB,
            nyaa: NyaaClientConfig::default(),
        }
    }
}

/// The limits of one search, scaled for the show.
#[derive(Debug, Clone, Copy, PartialEq, Eq, Structural)]
pub struct Limits {
    pub min_seeders: u32,
    pub max_size: u64,
    pub preferred_size: u64,
}

/// The factor by which the sizes of a search grow: the number of episodes for
/// a search for the whole season (1 where it is unknown), times 10 for a show
/// of a single episode.
pub open spec fn size_factor(num_episodes: Option<u32>, is_batch: bool) -> nat {
    let by_episodes: nat = if is_batch {
        match num_episodes {
            Some(n) => n as nat,
            None => 1,
        }
    } else {
        1
    };
    if num_episodes == Some(1u32) {
        by_episodes * 10
    } else {
        by_episodes
    }
}

/// `size` times `factor`, held at the largest 64-bit value.
pub open spec fn scaled_size(size: u64, factor: nat) -> u64 {
    if size * factor > u64::MAX {
        u64::MAX
    } else {
        (size * factor) as u64
    }
}

fn scale(size: u64, factor: u64) -> (r: u64)
    ensures
        r == scaled_size(size, factor as nat),
{
    match size.checked_mul(factor) {
        Some(v) => v,
        None => u64::MAX,
    }
}

impl Config {
    /// The limits of a search for a show with `num_episodes` episodes; a
    /// search for no single episode is one for the whole season.
    pub fn limits(&self, num_episodes: Option<u32>, is_batch: bool) -> (l: Limits)
        ensures
            l.min_seeders == self.min_seeders,
            l.max_size == scaled_size(self.max_size, size_factor(num_episodes, is_batch)),
            l.preferred_size == scaled_size(
                self.preferred_size,
                size_factor(num_episodes, is_batch),
            ),
    {
        let by_episodes: u64 = if is_batch {
            match num_episodes {
                Some(n) => n as u64,
                None => 1,
            }
        } else {
            1
        };
        let factor: u64 = if num_episodes == Some(1u32) {
            by_episodes * 10
        } else {
            by_episodes
        };
        Limits {
            min_seeders: self.min_seeders,
            max_size: scale(self.max_size, factor),
            preferred_size: scale(self.preferred_size, factor),
        }
    }
}

/// One query for one name of the show, with what it was built from.
#[derive(Debug, Clone)]
pub struct QueryWithMeta {
    /// Whether the query names an episode.
    pub has_episode: bool,
    /// Whether the query names a season.
    pub has_season: bool,
    /// The name of the show that the query was built from.
    pub used_name: String,
    pub query: SearchQuery,
}

/// The season that a query names: none for no guess and none for the first
/// season of a search for a whole season, which is searched by name alone.
pub open spec fn season_in_query(season: Option<u32>, episode: Option<u32>) -> Option<u32> {
    if season == Some(1u32) && episode is None {
        None
    } else {
        season
    }
}

/// The words of a query for `name`. `episode` is an index from 0 and is
/// written as a number from 1. One of four forms: the name; the name and the
/// episode; the name and the season; the name, the season and the episode.
pub open spec fn query_text(name: Seq<char>, season: Option<u32>, episode: Option<u32>) -> Seq<char> {
    match (season_in_query(season, episode), episode) {
        (None, None) => name,
        (None, Some(e)) => name + " - "@ + two_digit_text((e + 1) as nat) + " E"@ + two_digit_text(
            (e + 1) as nat,
        ),
        (Some(s), None) => name + " S"@ + two_digit_text(s as nat),
        (Some(s), Some(e)) => name + " S"@ + two_digit_text(s as nat) + "E"@ + two_digit_text(
            (e + 1) as nat,
        ),
    }
}

/// Whether `name` has only ASCII characters.
pub open spec fn ascii_name(name: Seq<char>) -> bool {
    forall|i: int| 0 <= i < name.len() ==> (#[trigger] name[i]) as u32 <= 127
}

fn name_is_ascii(name: &Vec<char>) -> (b: bool)
    ensures
        b == ascii_name(name@),
{
    let mut i: usize = 0;
    while i < name.len()
        invariant
            i <= name.len(),
            forall|k: int| 0 <= k < i ==> (#[trigger] name@[k]) as u32 <= 127,
        decreases name.len() - i,
    {
        if name[i] as u32 > 127 {
            return false;
        }
        i += 1;
    }
    true
}

impl QueryWithMeta {
    /// Whether this is the query for `name`, the guessed season and the
    /// episode asked for.
    pub open spec fn built_from(&self, name: Seq<char>, season: Option<u32>, episode: Option<u32>) -> bool {
        &&& self.used_name@ == name
        &&& self.has_episode == episode is Some
        &&& self.has_season == season_in_query(season, episode) is Some
        &&& self.query.query@ == query_text(name, season, episode)
        &&& self.query.category == MediaCategory::Anime(Some(AnimeKind::SubEnglish))
        &&& self.query.filter == Filter::NoFilter
        &&& self.query.max_page_idx == Some(5usize)
        &&& self.query.sort == (Sort { by: SortBy::Id, order: SortOrder::Desc })
        &&& self.query.user is None
    }

    /// Builds the query for one name of a show.
    pub fn build(name: &str, season: Option<u32>, episode: Option<u32>) -> (q: QueryWithMeta)
        ensures
            q.built_from(name@, season, episode),
            q.query.wf(),
    {
        let season_used: Option<u32> = match (season, episode) {
            (Some(1), None) => None,
            _ => season,
        };
        let mut text: Vec<char> = chars_of(name);
        match (season_used, episode) {
            (None, None) => {},
            (None, Some(e)) => {
                let number = format_two_digits(e as u64 + 1);
                push_text(&mut text, " - ");
                push_chars(&mut text, &number);
                push_text(&mut text, " E");
                push_chars(&mut text, &number);
            },
            (Some(s), None) => {
                push_text(&mut text, " S");
                push_chars(&mut text, &format_two_digits(s as u64));
            },
            (Some(s), Some(e)) => {
                push_text(&mut text, " S");
                push_chars(&mut text, &format_two_digits(s as u64));
                push_text(&mut text, "E");
                push_chars(&mut text, &format_two_digits(e as u64 + 1));
            },
        }
        QueryWithMeta {
            has_episode: episode.is_some(),
            has_season: season_used.is_some(),
            used_name: name.to_owned(),
            query: SearchQuery {
                query: string_of(&text),
                category: MediaCategory::Anime(Some(AnimeKind::SubEnglish)),
                filter: Filter::NoFilter,
                max_page_idx: Some(5),
                sort: Sort { by: SortBy::Id, order: SortOrder::Desc },
                user: None,
            },
        }
    }
}

/// The names of `names` that have only ASCII characters, in order.
pub open spec fn ascii_names(names: Seq<String>) -> Seq<String> {
    names.filter(|n: String| ascii_name(n@))
}

/// The queries of a search: one for each name of the show that has only ASCII
/// characters, in the order of the names.
pub fn build_queries(names: &Vec<String>, season: Option<u32>, episode: Option<u32>) -> (r: Vec<
    QueryWithMeta,
>)
    ensures
        r.len() == ascii_names(names@).len(),
        forall|i: int|
            0 <= i < r.len() ==> (#[trigger] r[i]).built_from(
                ascii_names(names@)[i]@,
                season,
                episode,
            ),
        forall|i: int| 0 <= i < r.len() ==> (#[trigger] r[i]).query.wf(),
{
    let mut out: Vec<QueryWithMeta> = Vec::new();
    let mut i: usize = 0;
    proof {
        reveal(Seq::filter);
        assert(names@.subrange(0, 0) =~= Seq::<String>::empty());
    }
    while i < names.len()
        invariant
            i <= names.len(),
            out.len() == ascii_names(names@.subrange(0, i as int)).len(),
            forall|k: int|
                0 <= k < out.len() ==> (#[trigger] out[k]).built_from(
                    ascii_names(names@.subrange(0, i as int))[k]@,
                    season,
                    episode,
                ),
            forall|k: int| 0 <= k < out.len() ==> (#[trigger] out[k]).query.wf(),
        decreases names.len() - i,
    {
        let name = &names[i];
        let chars = chars_of(name.as_str());
        proof {
            reveal(Seq::filter);
            assert(names@.subrange(0, i + 1).drop_last() == names@.subrange(0, i as int));
            assert(names@.subrange(0, i + 1).last() == *name);
        }
        if name_is_ascii(&chars) {
            out.push(QueryWithMeta::build(name.as_str(), season, episode));
        }
        i += 1;
    }
    assert(names@.subrange(0, names.len() as int) == names@);
    out
}

/// Why a result of the index is no candidate.
#[derive(Debug, Clone, Copy, PartialEq, Eq, Structural)]
pub enum Rejection {
    /// Fewer seeders than the limit.
    FewSeeders,
    /// Larger than the limit, or of a size that could not be read.
    TooLarge,
    /// The title does not hold the name that the query was built from.
    NameMissing,
    /// The title speaks of a season, and neither the query nor the name does.
    SeasonMentioned,
    /// The title names one episode, and the search is for a whole season.
    SingleEpisode,
    /// Smaller than 10 bytes, or with a score beyond 64 bits.
    Unscorable,
}

/// Whether a text speaks of a season.
pub open spec fn mentions_season(s: Seq<char>) -> bool {
    contains_text(s, "season"@) || contains_text(s, "Season"@)
}

/// Whether a result has enough seeders and a known size within the limit.
pub open spec fn healthy(item: Item, limits: Limits) -> bool {
    &&& item.seeders >= limits.min_seeders
    &&& item.size matches Ok(size)
    &&& size <= limits.max_size
}

/// The score of a result, or the first reason that rejects it. `names_episode`
/// says whether the title parser finds an episode number in the title.
pub open spec fn verdict(
    item: Item,
    used_name: Seq<char>,
    has_season: bool,
    limits: Limits,
    is_batch: bool,
    names_episode: bool,
) -> Result<i64, Rejection> {
    if item.seeders < limits.min_seeders {
        Err(Rejection::FewSeeders)
    } else if !healthy(item, limits) {
        Err(Rejection::TooLarge)
    } else if !contains_text(item.title@, used_name) {
        Err(Rejection::NameMissing)
    } else if !has_season && !mentions_season(used_name) && mentions_season(item.title@) {
        Err(Rejection::SeasonMentioned)
    } else if is_batch && names_episode {
        Err(Rejection::SingleEpisode)
    } else if !scorable(item.size->Ok_0, item.seeders, item.leechers, limits.preferred_size) {
        Err(Rejection::Unscorable)
    } else {
        Ok(score_value(item.size->Ok_0, item.seeders, item.leechers, limits.preferred_size) as i64)
    }
}

/// A result with too few seeders is rejected, whatever else holds of it; one
/// with enough seeders and a known size within the limit is rejected neither
/// for its seeders nor for its size.
pub proof fn lemma_health_decides(
    item: Item,
    used_name: Seq<char>,
    has_season: bool,
    limits: Limits,
    is_batch: bool,
    names_episode: bool,
)
    ensures
        item.seeders < limits.min_seeders ==> verdict(
            item,
            used_name,
            has_season,
            limits,
            is_batch,
            names_episode,
        ) == Err::<i64, Rejection>(Rejection::FewSeeders),
        healthy(item, limits) ==> verdict(
            item,
            used_name,
            has_season,
            limits,
            is_batch,
            names_episode,
        ) != Err::<i64, Rejection>(Rejection::FewSeeders) && verdict(
            item,
            used_name,
            has_season,
            limits,
            is_batch,
            names_episode,
        ) != Err::<i64, Rejection>(Rejection::TooLarge),
{
}

fn speaks_of_season(s: &Vec<char>) -> (b: bool)
    ensures
        b == mentions_season(s@),
{
    let lower = chars_of("season");
    let upper = chars_of("Season");
    contains(s, &lower) || contains(s, &upper)
}

/// Judges one result of a query, given whether its title names an episode.
pub fn assess(
    item: &Item,
    query: &QueryWithMeta,
    limits: &Limits,
    is_batch: bool,
    names_episode: bool,
) -> (r: Result<i64, Rejection>)
    ensures
        r == verdict(*item, query.used_name@, query.has_season, *limits, is_batch, names_episode),
{
    if item.seeders < limits.min_seeders {
        return Err(Rejection::FewSeeders);
    }
    let size: u64 = match &item.size {
        Ok(size) => *size,
        Err(_) => { return Err(Rejection::TooLarge); },
    };
    if size > limits.max_size {
        return Err(Rejection::TooLarge);
    }
    let title = chars_of(item.title.as_str());
    let name = chars_of(query.used_name.as_str());
    if !contains(&title, &name) {
        return Err(Rejection::NameMissing);
    }
    if !query.has_season && !speaks_of_season(&name) && speaks_of_season(&title) {
        return Err(Rejection::SeasonMentioned);
    }
    if is_batch && names_episode {
        return Err(Rejection::SingleEpisode);
    }
    match try_score(size, item.seeders, item.leechers, limits.preferred_size) {
        Some(score) => Ok(score),
        None => Err(Rejection::Unscorable),
    }
}

/// Whether `named` may be the answer to whether the title parser finds an
/// episode number in a title. A title of ASCII characters has one answer.
pub open spec fn may_name_episode(title: Seq<char>, named: bool) -> bool {
    exists|info: (Option<Seq<char>>, Option<Seq<char>>)|
        title_reads(title, info) && named == #[trigger] info.0 is Some
}

/// Judges one result of a query: parses its title, then decides as `assess`.
pub fn judge(item: &Item, query: &QueryWithMeta, limits: &Limits, is_batch: bool) -> (r: Result<
    i64,
    Rejection,
>)
    ensures
        exists|named: bool|
            may_name_episode(item.title@, named) && r == #[trigger] verdict(
                *item,
                query.used_name@,
                query.has_season,
                *limits,
                is_batch,
                named,
            ),
{
    let info = parse_title(item.title.as_str());
    let named = info.episode.is_some();
    assert(title_reads(item.title@, info@) && named == info@.0 is Some);
    assess(item, query, limits, is_batch, named)
}

/// The candidate that a result of the index becomes.
pub open spec fn candidate_of(item: Item) -> QueryItem {
    QueryItem {
        source: SourceKind::Nyaa,
        name: item.title,
        file_size: item.size_value(),
        media: item,
    }
}

/// A result of the index with whether its title was found to name an
/// episode.
pub type Inspected = (Item, bool);

/// The results of one query that pass the filter, each with its score, in the
/// order of the results.
pub open spec fn passing(query: QueryWithMeta, items: Seq<Inspected>, limits: Limits, is_batch: bool) -> Seq<
    (i64, QueryItem),
> {
    items.filter_map(
        |seen: Inspected|
            match verdict(seen.0, query.used_name@, query.has_season, limits, is_batch, seen.1) {
                Ok(score) => Some((score, candidate_of(seen.0))),
                Err(_) => None,
            },
    )
}

/// The results of all queries that pass the filter, query after query.
pub open spec fn all_passing(
    responses: Seq<(QueryWithMeta, Vec<Inspected>)>,
    limits: Limits,
    is_batch: bool,
) -> Seq<(i64, QueryItem)>
    decreases responses.len(),
{
    if responses.len() == 0 {
        Seq::empty()
    } else {
        all_passing(responses.drop_last(), limits, is_batch) + passing(
            responses.last().0,
            responses.last().1@,
            limits,
            is_batch,
        )
    }
}

/// Whether `seen` are the results `items`, in order, each with an answer that
/// the title parser may give for its title.
pub open spec fn items_inspected(items: Seq<Item>, seen: Seq<Inspected>) -> bool {
    &&& seen.len() == items.len()
    &&& forall|j: int|
        0 <= j < seen.len() ==> (#[trigger] seen[j]).0 == items[j] && may_name_episode(
            items[j].title@,
            seen[j].1,
        )
}

/// Whether `seen` are the responses `responses`, query by query, with their
/// results inspected.
pub open spec fn inspected(
    responses: Seq<(QueryWithMeta, Vec<Item>)>,
    seen: Seq<(QueryWithMeta, Vec<Inspected>)>,
) -> bool {
    &&& seen.len() == responses.len()
    &&& forall|i: int|
        0 <= i < seen.len() ==> (#[trigger] seen[i]).0 == responses[i].0 && items_inspected(
            responses[i].1@,
            seen[i].1@,
        )
}

/// The search of the index for a show.
pub struct Nyaa;

/// What a search of the index is made of.
#[derive(Debug, Clone)]
pub struct SearchPlan {
    /// The queries to send, one for each name that is searched.
    pub queries: Vec<QueryWithMeta>,
    /// The limits of the filter.
    pub limits: Limits,
    /// Whether the search is for the whole season.
    pub is_batch: bool,
}

/// The texts of the names of a show, in order.
pub open spec fn name_strings(names: Seq<Name>) -> Seq<String> {
    Seq::new(names.len(), |i: int| names[i].1)
}

impl Nyaa {
    /// Plans the search for an episode of a show, or for its whole season
    /// where no episode is given: a query for each name of ASCII characters,
    /// with the season that the show is guessed to be, and the limits of the
    /// configuration scaled for the show.
    pub fn plan(show: &Show, config: &Config, filter_episode: Option<u32>) -> (p: SearchPlan)
        ensures
            p.is_batch == filter_episode is None,
            p.limits.min_seeders == config.min_seeders,
            p.limits.max_size == scaled_size(
                config.max_size,
                size_factor(show.num_episodes, filter_episode is None),
            ),
            p.limits.preferred_size == scaled_size(
                config.preferred_size,
                size_factor(show.num_episodes, filter_episode is None),
            ),
            p.queries.len() == ascii_names(name_strings(show.names@)).len(),
            forall|i: int|
                0 <= i < p.queries.len() ==> (#[trigger] p.queries[i]).built_from(
                    ascii_names(name_strings(show.names@))[i]@,
                    show.season_guess(),
                    filter_episode,
                ) && p.queries[i].query.wf(),
    {
        let mut names: Vec<String> = Vec::new();
        let mut i: usize = 0;
        while i < show.names.len()
            invariant
                i <= show.names.len(),
                names.len() == i,
                forall|k: int| 0 <= k < i ==> #[trigger] names[k] == show.names[k].1,
            decreases show.names.len() - i,
        {
            names.push(show.names[i].1.clone());
            i += 1;
        }
        assert(names@ =~= name_strings(show.names@));
        let is_batch = filter_episode.is_none();
        SearchPlan {
            queries: build_queries(&names, show.season_number_guess(), filter_episode),
            limits: config.limits(show.num_episodes, is_batch),
            is_batch,
        }
    }

    /// Parses the title of every result, to see whether it names an episode.
    pub fn inspect(responses: Vec<(QueryWithMeta, Vec<Item>)>) -> (seen: Vec<
        (QueryWithMeta, Vec<Inspected>),
    >)
        ensures
            inspected(responses@, seen@),
    {
        let mut seen: Vec<(QueryWithMeta, Vec<Inspected>)> = Vec::new();
        let ghost all = responses@;
        for response in outer: responses
            invariant
                outer.seq() == all,
                seen.len() == outer.index(),
                forall|i: int|
                    0 <= i < seen.len() ==> (#[trigger] seen[i]).0 == all[i].0 && items_inspected(
                        all[i].1@,
                        seen[i].1@,
                    ),
        {
            let (query, items) = response;
            let ghost these = items@;
            let mut looked: Vec<Inspected> = Vec::new();
            for item in inner: items
                invariant
                    inner.seq() == these,
                    looked.len() == inner.index(),
                    forall|j: int|
                        0 <= j < looked.len() ==> (#[trigger] looked[j]).0 == these[j]
                            && may_name_episode(these[j].title@, looked[j].1),
            {
                let info = parse_title(item.title.as_str());
                let named = info.episode.is_some();
                assert(title_reads(item.title@, info@) && named == info@.0 is Some);
                looked.push((item, named));
            }
            seen.push((query, looked));
        }
        seen
    }

    /// Filters and scores the inspected results of every query and merges
    /// what passes into one list, best score first. Every result that passes
    /// is in the list, and results of one score stand in the order in which
    /// they were found.
    pub fn rank_inspected(seen: Vec<(QueryWithMeta, Vec<Inspected>)>, limits: &Limits, is_batch: bool) -> (r:
        Vec<QueryItem>)
        ensures
            r@ == values_of(board_of(all_passing(seen@, *limits, is_batch))),
            r.len() == all_passing(seen@, *limits, is_batch).len(),
    {
        let mut board: ScoreBoard<QueryItem> = ScoreBoard::new();
        let ghost all = seen@;
        for response in outer: seen
            invariant
                outer.seq() == all,
                board.wf(),
                board@ == board_of(all_passing(all.take(outer.index()), *limits, is_batch)),
        {
            let ghost before = all_passing(all.take(outer.index()), *limits, is_batch);
            let (query, items) = response;
            let ghost these = items@;
            assert(passing(query, these.take(0), *limits, is_batch) =~= Seq::empty());
            assert(before + Seq::<(i64, QueryItem)>::empty() == before);
            for entry in inner: items
                invariant
                    inner.seq() == these,
                    board.wf(),
                    board@ == board_of(
                        before + passing(query, these.take(inner.index()), *limits, is_batch),
                    ),
            {
                let ghost found = passing(query, these.take(inner.index()), *limits, is_batch);
                proof {
                    assert(these.take(inner.index() + 1).drop_last() == these.take(inner.index()));
                    assert(these.take(inner.index() + 1).last() == entry);
                }
                let (item, named) = entry;
                match assess(&item, &query, limits, is_batch, named) {
                    Ok(score) => {
                        let candidate = QueryItem {
                            source: SourceKind::Nyaa,
                            name: item.title.clone(),
                            file_size: match &item.size {
                                Ok(size) => Some(*size),
                                Err(_) => None,
                            },
                            media: item,
                        };
                        assert(candidate == candidate_of(item));
                        board.insert(score, candidate);
                        proof {
                            let now = before + (found + seq![(score, candidate)]);
                            assert(now.drop_last() =~= before + found);
                            assert(now.last() == (score, candidate));
                        }
                    },
                    Err(_) => {},
                }
            }
            proof {
                assert(these.take(these.len() as int) == these);
                assert(all.take(outer.index() + 1).drop_last() == all.take(outer.index()));
                assert(all.take(outer.index() + 1).last() == (query, items));
            }
        }
        proof {
            assert(all.take(all.len() as int) == all);
            lemma_board_is_whole(all_passing(all, *limits, is_batch));
        }
        board.into_values()
    }

    /// Inspects, filters and scores the results of every query and merges
    /// what passes into one list, best score first.
    pub fn rank(responses: Vec<(QueryWithMeta, Vec<Item>)>, limits: &Limits, is_batch: bool) -> (r:
        Vec<QueryItem>)
        ensures
            exists|seen: Seq<(QueryWithMeta, Vec<Inspected>)>|
                inspected(responses@, seen) && r@ == values_of(
                    board_of(#[trigger] all_passing(seen, *limits, is_batch)),
                ) && r.len() == all_passing(seen, *limits, is_batch).len(),
    {
        let seen = Self::inspect(responses);
        let ghost witness = seen@;
        let r = Self::rank_inspected(seen, limits, is_batch);
        assert(inspected(responses@, witness) && r@ == values_of(
            board_of(all_passing(witness, *limits, is_batch)),
        ));
        r
    }
}

/// What follows the search for one episode.
#[derive(Debug, Clone)]
pub enum Selection {
    /// The best candidate of the search for the episode.
    Chosen(QueryItem),
    /// The search gave nothing: search for the whole season next.
    NeedBatch,
}

/// No candidate passed the filter, in the search for the episode and in the
/// search for the whole season.
#[derive(Debug, Clone, Copy, PartialEq, Eq, Structural)]
pub struct NoCandidate;

/// The first entry of a list, where it has one.
pub open spec fn first_of(list: Seq<QueryItem>) -> Option<QueryItem> {
    if list.len() > 0 {
        Some(list[0])
    } else {
        None
    }
}

/// The candidate to play, given the ranked results of the search for the
/// episode and of the search for the whole season: the best of the first,
/// else the best of the second.
pub open spec fn selected(episode: Seq<QueryItem>, batch: Seq<QueryItem>) -> Option<QueryItem> {
    match first_of(episode) {
        Some(c) => Some(c),
        None => first_of(batch),
    }
}

fn take_first(list: Vec<QueryItem>) -> (r: Option<QueryItem>)
    ensures
        r == first_of(list@),
{
    let mut list = list;
    if list.len() > 0 {
        Some(list.remove(0))
    } else {
        None
    }
}

impl Selection {
    /// Decides after the search for the episode: its best candidate, or the
    /// search for the whole season where it gave none.
    pub fn after_episode_search(results: Vec<QueryItem>) -> (s: Selection)
        ensures
            match first_of(results@) {
                Some(c) => s == Selection::Chosen(c),
                None => s is NeedBatch,
            },
    {
        match take_first(results) {
            Some(c) => Selection::Chosen(c),
            None => Selection::NeedBatch,
        }
    }

    /// Decides after the search for the whole season: its best candidate, or
    /// the failure of the whole search.
    pub fn after_batch_search(results: Vec<QueryItem>) -> (r: Result<QueryItem, NoCandidate>)
        ensures
            match first_of(results@) {
                Some(c) => r == Ok::<QueryItem, NoCandidate>(c),
                None => r is Err,
            },
    {
        match take_first(results) {
            Some(c) => Ok(c),
            None => Err(NoCandidate),
        }
    }
}

/// Picks the candidate to play from the ranked results of both searches.
pub fn select(episode: Vec<QueryItem>, batch: Vec<QueryItem>) -> (r: Result<QueryItem, NoCandidate>)
    ensures
        match selected(episode@, batch@) {
            Some(c) => r == Ok::<QueryItem, NoCandidate>(c),
            None => r is Err,
        },
{
    match Selection::after_episode_search(episode) {
        Selection::Chosen(c) => Ok(c),
        Selection::NeedBatch => Selection::after_batch_search(batch),
    }
}

/// Where the search for the episode gives nothing, the best candidate of the
/// search for the whole season is selected.
pub proof fn lemma_batch_is_the_fallback(batch: Seq<QueryItem>)
    ensures
        selected(Seq::empty(), batch) == first_of(batch),
{
}

} // verus!
