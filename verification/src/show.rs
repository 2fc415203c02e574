//! A show of the library: its names, its episodes and what was watched.

use crate::category::{AnimeKind, MediaCategory};
use crate::media::{AnyMedia, Media};
use crate::number::{format_two_digits, parse_unsigned, two_digit_text, unsigned_value};
use crate::nyaa::{Filter, SearchQuery, Sort, SortBy, SortOrder};
use crate::resolve::{lowercase_of, to_lowercase};
use crate::text::{chars_of, push_chars, push_text, same_text, split, split_on, string_of, texts};
use vstd::prelude::*;

verus! {

/// The kind of a name of a show.
#[derive(Debug, Clone, Copy, PartialEq, Eq, Structural)]
pub enum NameKind {
    English,
    Romaji,
    Synonym,
    Native,
}

impl NameKind {
    /// The place of the kind in the order of kinds.
    pub open spec fn rank(self) -> u8 {
        match self {
            NameKind::English => 0,
            NameKind::Romaji => 1,
            NameKind::Synonym => 2,
            NameKind::Native => 3,
        }
    }

    pub fn to_rank(self) -> (r: u8)
        ensures
            r == self.rank(),
    {
        match self {
            NameKind::English => 0,
            NameKind::Romaji => 1,
            NameKind::Synonym => 2,
            NameKind::Native => 3,
        }
    }
}

impl Default for NameKind {
    fn default() -> (k: NameKind)
        ensures
            k == NameKind::English,
    {
        NameKind::English
    }
}

/// The identifier of a show in the database.
#[derive(Debug, Clone, Copy, PartialEq, Eq, Hash, Structural)]
pub struct ShowId(pub u64);

impl crate::cache::Key for ShowId {
    open spec fn to_id(self) -> u64 {
        self.0
    }

    open spec fn of_id(id: u64) -> ShowId {
        ShowId(id)
    }

    proof fn lemma_bijection(self, id: u64) {
    }

    fn id(self) -> (r: u64) {
        self.0
    }

    fn from_id(id: u64) -> (r: ShowId) {
        ShowId(id)
    }
}

/// A moment: seconds and nanoseconds since the start of 1970.
#[derive(Debug, Clone, Copy, PartialEq, Eq, Hash, Structural)]
pub struct EpochInstant(pub u64, pub u32);

impl EpochInstant {
    /// Whether this moment lies before `other`.
    pub open spec fn before(self, other: EpochInstant) -> bool {
        self.0 < other.0 || (self.0 == other.0 && self.1 < other.1)
    }

    /// Decides `before`.
    pub fn is_before(self, other: EpochInstant) -> (b: bool)
        ensures
            b == self.before(other),
    {
        self.0 < other.0 || (self.0 == other.0 && self.1 < other.1)
    }

    /// The moment that a reading of the clock stands for: its seconds and
    /// nanoseconds since the start of 1970. No moment where there is no
    /// reading, or where the nanoseconds do not lie within one second.
    pub fn from_reading(reading: Option<(u64, u32)>) -> (r: Option<EpochInstant>)
        ensures
            r == match reading {
                Some((secs, nanos)) => if nanos < 1_000_000_000 {
                    Some(EpochInstant(secs, nanos))
                } else {
                    None
                },
                None => None,
            },
    {
        match reading {
            Some((secs, nanos)) => if nanos < 1_000_000_000 {
                Some(EpochInstant(secs, nanos))
            } else {
                None
            },
            None => None,
        }
    }

    /// The moment that the system clock shows; `None` where the clock stands
    /// before the start of 1970.
    pub fn now() -> (r: Option<EpochInstant>)
        ensures
            r matches Some(t) ==> t.1 < 1_000_000_000,
    {
        Self::from_reading(system_clock())
    }

    /// The seconds of the moment.
    pub fn secs(self) -> (s: u64)
        ensures
            s == self.0,
    {
        self.0
    }
}

/// `SystemTime::elapsed` on the start of 1970: the time since then as the
/// clock shows it, in seconds and nanoseconds; `None` where the clock stands
/// before it. Nothing is known of it beforehand.
#[verifier::external_body]
fn system_clock() -> (r: Option<(u64, u32)>) {
    match std::time::UNIX_EPOCH.elapsed() {
        Ok(d) => Some((d.as_secs(), d.subsec_nanos())),
        Err(_) => None,
    }
}

/// Another show, in the database or at the metadata provider.
#[derive(Debug, Clone, Copy, PartialEq, Eq, Structural)]
pub enum RelationId {
    Local(ShowId),
    Anilist(i32),
}

/// The shows before and after a show.
#[derive(Debug, Clone, Copy, PartialEq, Eq, Structural)]
pub struct Relations {
    pub prequel: Option<RelationId>,
    pub sequel: Option<RelationId>,
}

/// What happened to an episode in the player.
#[derive(Debug, Clone, Copy, PartialEq, Eq, Structural)]
pub enum WatchEventType {
    Opened,
    /// Closed, with the position in seconds where known.
    Closed(Option<u32>),
}

#[derive(Debug, Clone, Copy, PartialEq, Eq, Structural)]
pub struct WatchEvent {
    pub episode: u32,
    pub ty: WatchEventType,
}

/// A request to the database about what is watched.
#[derive(Debug, Clone, Copy, PartialEq, Eq, Structural)]
pub enum Watch {
    Event(WatchEvent),
}

/// Where a medium comes from.
#[derive(Debug, Clone)]
pub enum MediaSource {
    Magnet(String),
    DirectUrl(String),
    File(String),
}

/// Where the picture of a show is.
#[derive(Debug, Clone)]
pub enum ThumbnailPath {
    File(String),
    Url(String),
}

/// How one value stands to another in an order.
#[derive(Debug, Clone, Copy, PartialEq, Eq, Structural)]
pub enum Sign {
    Before,
    Same,
    After,
}

/// Whether the text `a` comes before the text `b`: at the first place where
/// they differ `a` has the lower character, or `a` ends there and `b` goes on.
pub open spec fn text_before(a: Seq<char>, b: Seq<char>) -> bool
    decreases a.len(),
{
    if b.len() == 0 {
        false
    } else if a.len() == 0 {
        true
    } else if a[0] != b[0] {
        a[0] < b[0]
    } else {
        text_before(a.skip(1), b.skip(1))
    }
}

/// Of two texts one comes before the other, or they are the same.
pub proof fn lemma_text_order(a: Seq<char>, b: Seq<char>)
    ensures
        text_before(a, b) || text_before(b, a) || a == b,
        !(text_before(a, b) && text_before(b, a)),
        !text_before(a, a),
    decreases a.len(),
{
    if a.len() > 0 && b.len() > 0 && a[0] == b[0] {
        lemma_text_order(a.skip(1), b.skip(1));
        if a.skip(1) == b.skip(1) {
            assert(a =~= seq![a[0]] + a.skip(1));
            assert(b =~= seq![b[0]] + b.skip(1));
            assert(a =~= b);
        }
    } else if a.len() == 0 && b.len() == 0 {
        assert(a =~= b);
    }
    if a.len() > 0 {
        lemma_text_order(a.skip(1), a.skip(1));
    }
}

/// How the text `a` stands to the text `b`.
pub fn order_texts(a: &Vec<char>, b: &Vec<char>) -> (r: Sign)
    ensures
        r == Sign::Before <==> text_before(a@, b@),
        r == Sign::After <==> text_before(b@, a@),
        r == Sign::Same <==> a@ == b@,
{
    let mut i: usize = 0;
    proof {
        lemma_text_order(a@, b@);
        assert(a@.skip(0) =~= a@ && b@.skip(0) =~= b@);
    }
    while i < a.len() && i < b.len()
        invariant
            i <= a.len(),
            i <= b.len(),
            text_before(a@, b@) == text_before(a@.skip(i as int), b@.skip(i as int)),
            text_before(b@, a@) == text_before(b@.skip(i as int), a@.skip(i as int)),
            a@ == b@ <==> a@.skip(i as int) == b@.skip(i as int),
        decreases a.len() - i,
    {
        let ghost ra = a@.skip(i as int);
        let ghost rb = b@.skip(i as int);
        proof {
            assert(ra[0] == a@[i as int] && rb[0] == b@[i as int]);
            assert(ra.skip(1) =~= a@.skip(i + 1) && rb.skip(1) =~= b@.skip(i + 1));
            lemma_text_order(ra, rb);
        }
        if a[i] != b[i] {
            if a[i] < b[i] {
                return Sign::Before;
            } else {
                return Sign::After;
            }
        }
        proof {
            if ra.skip(1) == rb.skip(1) {
                assert(ra =~= seq![ra[0]] + ra.skip(1));
                assert(rb =~= seq![rb[0]] + rb.skip(1));
            }
        }
        i += 1;
    }
    proof {
        lemma_text_order(a@.skip(i as int), b@.skip(i as int));
    }
    if i < b.len() {
        Sign::Before
    } else if i < a.len() {
        Sign::After
    } else {
        assert(a@.skip(i as int) =~= b@.skip(i as int));
        Sign::Same
    }
}

/// A name of a show with its kind.
pub type Name = (NameKind, String);

/// Whether the name `a` comes before the name `b`: by kind, then by text.
pub open spec fn name_before(a: Name, b: Name) -> bool {
    a.0.rank() < b.0.rank() || (a.0 == b.0 && text_before(a.1@, b.1@))
}

/// Whether two names have the same kind and the same text.
pub open spec fn same_name(a: Name, b: Name) -> bool {
    a.0 == b.0 && a.1@ == b.1@
}

/// Whether each name comes before the next.
pub open spec fn names_ordered(names: Seq<Name>) -> bool {
    forall|i: int| 0 <= i < names.len() - 1 ==> name_before(#[trigger] names[i], names[i + 1])
}

fn order_names(a: &Name, b: &Name) -> (r: Sign)
    ensures
        r == Sign::Before <==> name_before(*a, *b),
        r == Sign::After <==> name_before(*b, *a),
        r == Sign::Same <==> same_name(*a, *b),
{
    let (ra, rb) = (a.0.to_rank(), b.0.to_rank());
    proof {
        lemma_text_order(a.1@, b.1@);
    }
    if ra < rb {
        Sign::Before
    } else if ra > rb {
        Sign::After
    } else {
        order_texts(&chars_of(a.1.as_str()), &chars_of(b.1.as_str()))
    }
}

/// The season that a word in lowercase names: a number below 15, or one of
/// the words for the first ten seasons.
pub open spec fn season_of_word(word: Seq<char>) -> Option<u32> {
    match unsigned_value(word, u32::MAX as nat) {
        Some(v) => if v >= 15 {
            None
        } else {
            Some(v as u32)
        },
        None => if word == "first"@ || word == "one"@ {
            Some(1u32)
        } else if word == "second"@ || word == "two"@ {
            Some(2u32)
        } else if word == "third"@ || word == "three"@ {
            Some(3u32)
        } else if word == "fourth"@ || word == "four"@ {
            Some(4u32)
        } else if word == "fifth"@ || word == "five"@ {
            Some(5u32)
        } else if word == "sixth"@ || word == "six"@ {
            Some(6u32)
        } else if word == "seventh"@ || word == "seven"@ {
            Some(7u32)
        } else if word == "eighth"@ || word == "eight"@ {
            Some(8u32)
        } else if word == "ninth"@ || word == "nine"@ {
            Some(9u32)
        } else if word == "tenth"@ || word == "ten"@ {
            Some(10u32)
        } else {
            None
        },
    }
}

fn is_word(word: &Vec<char>, a: &str, b: &str) -> (r: bool)
    ensures
        r == (word@ == a@ || word@ == b@),
{
    same_text(word, &chars_of(a)) || same_text(word, &chars_of(b))
}

/// Computes `season_of_word`.
pub fn parse_season(word: &str) -> (r: Option<u32>)
    ensures
        r == season_of_word(word@),
{
    let w = chars_of(word);
    match parse_unsigned(&w, 0xffff_ffff) {
        Some(v) => if v >= 15 {
            None
        } else {
            Some(v as u32)
        },
        None => if is_word(&w, "first", "one") {
            Some(1)
        } else if is_word(&w, "second", "two") {
            Some(2)
        } else if is_word(&w, "third", "three") {
            Some(3)
        } else if is_word(&w, "fourth", "four") {
            Some(4)
        } else if is_word(&w, "fifth", "five") {
            Some(5)
        } else if is_word(&w, "sixth", "six") {
            Some(6)
        } else if is_word(&w, "seventh", "seven") {
            Some(7)
        } else if is_word(&w, "eighth", "eight") {
            Some(8)
        } else if is_word(&w, "ninth", "nine") {
            Some(9)
        } else if is_word(&w, "tenth", "ten") {
            Some(10)
        } else {
            None
        },
    }
}

/// The season named by the words from place `from` on. Before the word
/// `season` was seen, words are only looked at for being that word; after it,
/// the first word that names a season decides.
pub open spec fn season_after(words: Seq<Seq<char>>, from: int, seen: bool) -> Option<u32>
    decreases words.len() - from,
{
    if from < 0 || from >= words.len() {
        None
    } else if seen {
        match season_of_word(words[from]) {
            Some(s) => Some(s),
            None => season_after(words, from + 1, true),
        }
    } else {
        season_after(words, from + 1, words[from] == "season"@)
    }
}

/// The season that the words of a name, in lowercase, name: that of the last
/// word, else that of the first word after `season` that names one.
pub open spec fn season_in_words(words: Seq<Seq<char>>) -> Option<u32> {
    if words.len() == 0 {
        None
    } else {
        match season_of_word(words.last()) {
            Some(s) => Some(s),
            None => season_after(words, 0, false),
        }
    }
}

/// The texts of the strings of `v`, in order.
pub open spec fn string_texts(v: Seq<String>) -> Seq<Seq<char>> {
    Seq::new(v.len(), |i: int| v[i]@)
}

/// Computes `season_in_words`.
pub fn find_season(words: &Vec<String>) -> (r: Option<u32>)
    ensures
        r == season_in_words(string_texts(words@)),
{
    if words.len() == 0 {
        return None;
    }
    let ghost w = string_texts(words@);
    let last = parse_season(words[words.len() - 1].as_str());
    if last.is_some() {
        return last;
    }
    let mut seen = false;
    let mut i: usize = 0;
    while i < words.len()
        invariant
            i <= words.len(),
            w == string_texts(words@),
            words.len() > 0,
            season_of_word(w.last()) is None,
            season_after(w, 0, false) == season_after(w, i as int, seen),
        decreases words.len() - i,
    {
        assert(w[i as int] == words@[i as int]@);
        if seen {
            let s = parse_season(words[i].as_str());
            if s.is_some() {
                return s;
            }
        } else {
            seen = same_text(&chars_of(words[i].as_str()), &chars_of("season"));
        }
        i += 1;
    }
    None
}

/// The words of a name, each in lowercase.
pub open spec fn lowered_words(name: Seq<char>) -> Seq<Seq<char>> {
    split_on(name, ' ').map_values(|w: Seq<char>| lowercase_of(w))
}

/// The season that a name of a show names. Only English and Romaji names
/// count.
pub open spec fn season_of_name(name: Name) -> Option<u32> {
    if name.0 == NameKind::English || name.0 == NameKind::Romaji {
        season_in_words(lowered_words(name.1@))
    } else {
        None
    }
}

/// Computes `season_of_name`.
pub fn name_season(name: &Name) -> (r: Option<u32>)
    ensures
        r == season_of_name(*name),
{
    match name.0 {
        NameKind::English | NameKind::Romaji => {},
        _ => { return None; },
    }
    let parts = split(&chars_of(name.1.as_str()), ' ');
    let mut lowered: Vec<String> = Vec::new();
    let mut i: usize = 0;
    while i < parts.len()
        invariant
            i <= parts.len(),
            lowered.len() == i,
            texts(parts@) == split_on(name.1@, ' '),
            forall|k: int| 0 <= k < i ==> (#[trigger] lowered[k])@ == lowercase_of(parts[k]@),
        decreases parts.len() - i,
    {
        let word = string_of(&parts[i]);
        lowered.push(to_lowercase(word.as_str()));
        i += 1;
    }
    proof {
        assert forall|k: int| 0 <= k < parts.len() implies texts(parts@)[k] == parts[k]@ by {}
        assert(string_texts(lowered@) =~= lowered_words(name.1@));
    }
    find_season(&lowered)
}

/// The season that the first of the names names that names one.
pub open spec fn first_season(names: Seq<Name>) -> Option<u32>
    decreases names.len(),
{
    if names.len() == 0 {
        None
    } else {
        match season_of_name(names[0]) {
            Some(s) => Some(s),
            None => first_season(names.skip(1)),
        }
    }
}

/// A name that comes before the entry at `at` and after all entries before
/// it is none of the names.
pub proof fn lemma_not_present(names: Seq<Name>, entry: Name, at: int)
    requires
        names_ordered(names),
        0 <= at <= names.len(),
        forall|k: int| 0 <= k < at ==> name_before(#[trigger] names[k], entry),
        at < names.len() ==> name_before(entry, names[at]),
    ensures
        forall|i: int| 0 <= i < names.len() ==> !same_name(#[trigger] names[i], entry),
{
    assert forall|i: int| 0 <= i < names.len() implies !same_name(#[trigger] names[i], entry) by {
        lemma_text_order(names[i].1@, entry.1@);
        if i >= at {
            lemma_after(names, entry, at, i);
            lemma_text_order(entry.1@, names[i].1@);
        }
    }
}

/// Every entry from `at` on comes after a name that comes before the entry at
/// `at`.
pub proof fn lemma_after(names: Seq<Name>, entry: Name, at: int, i: int)
    requires
        names_ordered(names),
        0 <= at <= i < names.len(),
        name_before(entry, names[at]),
    ensures
        name_before(entry, names[i]),
    decreases i - at,
{
    if i > at {
        lemma_after(names, entry, at, i - 1);
        assert(name_before(names[i - 1], names[i]));
        lemma_name_order_passes(entry, names[i - 1], names[i]);
    }
}

/// A text before a text that is before a third is before the third.
pub proof fn lemma_text_order_passes(a: Seq<char>, b: Seq<char>, c: Seq<char>)
    requires
        text_before(a, b),
        text_before(b, c),
    ensures
        text_before(a, c),
    decreases a.len(),
{
    if a.len() > 0 && b.len() > 0 && c.len() > 0 && a[0] == b[0] && b[0] == c[0] {
        lemma_text_order_passes(a.skip(1), b.skip(1), c.skip(1));
    }
}

/// A name before a name that is before a third is before the third.
pub proof fn lemma_name_order_passes(a: Name, b: Name, c: Name)
    requires
        name_before(a, b),
        name_before(b, c),
    ensures
        name_before(a, c),
{
    if a.0 == b.0 && b.0 == c.0 {
        lemma_text_order_passes(a.1@, b.1@, c.1@);
    }
}

/// The words of a query for one episode of a season, as a number written
/// behind `E`; the season is 1 where none is known.
pub open spec fn episode_query_text(name: Seq<char>, season: Option<u32>, episode: u32) -> Seq<char> {
    let s: nat = match season {
        Some(s) => s as nat,
        None => 1,
    };
    name + " S"@ + two_digit_text(s) + "E"@ + two_digit_text(episode as nat)
}

/// A show.
#[derive(Debug, Clone)]
pub struct Show {
    pub anilist_id: Option<i32>,
    /// The names, each before the next by kind and text.
    pub names: Vec<Name>,
    pub thumbnail: Option<ThumbnailPath>,
    /// What happened in the player, by rising time.
    pub watch_history: Vec<(EpochInstant, WatchEvent)>,
    /// For each episode whether it was watched.
    pub watched_episodes: Vec<bool>,
    /// The number of episodes where known; never `Some(0)`.
    pub num_episodes: Option<u32>,
    /// The media that were resolved for the show.
    pub media_cache: Vec<AnyMedia>,
    pub relations: Relations,
}

/// Whether the moments of a history rise from each entry to the next.
pub open spec fn history_ordered(history: Seq<(EpochInstant, WatchEvent)>) -> bool {
    forall|i: int|
        0 <= i < history.len() - 1 ==> (#[trigger] history[i]).0.before(history[i + 1].0)
}

/// The first name of the kind `kind`, empty where there is none.
pub open spec fn preferred_name(names: Seq<Name>, kind: NameKind) -> Seq<char>
    decreases names.len(),
{
    if names.len() == 0 {
        Seq::empty()
    } else if names[0].0 == kind {
        names[0].1@
    } else {
        preferred_name(names.skip(1), kind)
    }
}

/// The index of the episode to watch next in a list of `n > 0` episodes:
/// the one after the last watched episode before the final one, or the first.
pub open spec fn next_unwatched(watched: Seq<bool>, from: int) -> int
    decreases from,
{
    if from <= 0 {
        0
    } else if watched[from - 1] {
        from
    } else {
        next_unwatched(watched, from - 1)
    }
}

/// The position at which the episode was last closed with a known position,
/// looking at the first `upto` entries of the history.
pub open spec fn last_pause(history: Seq<(EpochInstant, WatchEvent)>, episode: u32, upto: int) -> Option<u32>
    decreases upto,
{
    if upto <= 0 || upto > history.len() {
        None
    } else {
        let event = history[upto - 1].1;
        match event.ty {
            WatchEventType::Closed(Some(at)) => if event.episode == episode {
                Some(at)
            } else {
                last_pause(history, episode, upto - 1)
            },
            _ => last_pause(history, episode, upto - 1),
        }
    }
}

/// Whether `after` is `before` with the name `entry` at its place: put in
/// where it was new, and unchanged where the show had it.
pub open spec fn name_placed(before: Seq<Name>, after: Seq<Name>, entry: Name, added: bool) -> bool {
    &&& added == !(exists|i: int| 0 <= i < before.len() && same_name(#[trigger] before[i], entry))
    &&& exists|at: int|
        0 <= at < after.len() && same_name(#[trigger] after[at], entry) && if added {
            after == before.insert(at, entry)
        } else {
            after == before
        }
}

/// Whether `after` is `before` with an event at its moment: in place of the
/// entry of that moment, which is `replaced`, or put in where there was none.
pub open spec fn event_placed(
    before: Seq<(EpochInstant, WatchEvent)>,
    after: Seq<(EpochInstant, WatchEvent)>,
    at: EpochInstant,
    event: WatchEvent,
    replaced: Option<WatchEvent>,
) -> bool {
    exists|i: int|
        0 <= i < after.len() && #[trigger] after[i] == (at, event) && match replaced {
            Some(e) => before.len() > i && before[i] == (at, e) && after == before.update(
                i,
                (at, event),
            ),
            None => after == before.insert(i, (at, event)),
        }
}

/// Adds a name, at its place in the order. A name that the show has
/// already is not added again. Returns whether the name was new.
pub fn insert_name(names: &mut Vec<Name>, kind: NameKind, name: String) -> (added: bool)
    requires
        names_ordered(old(names)@),
    ensures
        names_ordered(final(names)@),
        name_placed(old(names)@, final(names)@, (kind, name), added),
{
    let entry: Name = (kind, name);
    let mut i: usize = 0;
    while i < names.len()
        invariant
            i <= names.len(),
            names@ == old(names)@,
            names_ordered(names@),
            entry == (kind, name),
            forall|k: int| 0 <= k < i ==> name_before(#[trigger] names@[k], entry),
        decreases names.len() - i,
    {
        match order_names(&names[i], &entry) {
            Sign::Before => {},
            Sign::Same => {
                proof {
                    assert forall|k: int| 0 <= k < names@.len() && same_name(
                        #[trigger] names@[k],
                        entry,
                    ) implies true by {}
                }
                assert(same_name(names@[i as int], entry));
                return false;
            },
            Sign::After => {
                proof {
                    lemma_not_present(names@, entry, i as int);
                }
                names.insert(i, entry);
                assert(names@[i as int] == entry);
                assert forall|k: int| 0 <= k < names@.len() - 1 implies name_before(
                    #[trigger] names@[k],
                    names@[k + 1],
                ) by {
                    let before = old(names)@;
                    if k < i - 1 {
                        assert(names@[k] == before[k] && names@[k + 1] == before[k + 1]);
                    } else if k == i - 1 {
                        assert(names@[k] == before[k]);
                    } else if k == i {
                        assert(names@[k + 1] == before[k]);
                    } else {
                        assert(names@[k] == before[k - 1] && names@[k + 1] == before[k]);
                        assert(name_before(before[k - 1], before[k]));
                    }
                }
                return true;
            },
        }
        i += 1;
    }
    proof {
        lemma_not_present(names@, entry, names@.len() as int);
    }
    names.push(entry);
    assert(names@ =~= old(names)@.insert(old(names)@.len() as int, entry));
    assert(same_name(names@[old(names)@.len() as int], entry));
    assert forall|k: int| 0 <= k < names@.len() - 1 implies name_before(
        #[trigger] names@[k],
        names@[k + 1],
    ) by {
        let before = old(names)@;
        if k < before.len() - 1 {
            assert(names@[k] == before[k] && names@[k + 1] == before[k + 1]);
        } else {
            assert(names@[k] == before[k]);
        }
    }
    true
}

/// Records what happened in the player at a moment. An entry of the same
/// moment is replaced and returned.
pub fn insert_event(history: &mut Vec<(EpochInstant, WatchEvent)>, at: EpochInstant, event: WatchEvent) -> (replaced: Option<
    WatchEvent,
>)
    requires
        history_ordered(old(history)@),
    ensures
        history_ordered(final(history)@),
        event_placed(old(history)@, final(history)@, at, event, replaced),
{
    let mut i: usize = 0;
    while i < history.len() && history[i].0.is_before(at)
        invariant
            i <= history.len(),
            history@ == old(history)@,
            forall|k: int| 0 <= k < i ==> (#[trigger] history@[k]).0.before(at),
        decreases history.len() - i,
    {
        i += 1;
    }
    let ghost before = old(history)@;
    if i < history.len() && history[i].0 == at {
        let previous = history[i].1;
        history.set(i, (at, event));
        assert forall|k: int| 0 <= k < history@.len() - 1 implies (
        #[trigger] history@[k]).0.before(history@[k + 1].0) by {
            assert(before[k].0.before(before[k + 1].0));
        }
        assert(history@[i as int] == (at, event));
        Some(previous)
    } else {
        history.insert(i, (at, event));
        assert(history@[i as int] == (at, event));
        assert forall|k: int| 0 <= k < history@.len() - 1 implies (
        #[trigger] history@[k]).0.before(history@[k + 1].0) by {
            if k < i - 1 {
                assert(history@[k] == before[k] && history@[k + 1]
                    == before[k + 1]);
            } else if k == i - 1 {
                assert(history@[k] == before[k]);
            } else if k == i {
                assert(history@[k + 1] == before[k]);
            } else {
                assert(history@[k] == before[k - 1] && history@[k + 1]
                    == before[k]);
                assert(before[k - 1].0.before(before[k].0));
            }
        }
        None
    }
}


impl Show {
    /// The names and the history are in order, and a known number of
    /// episodes is not 0.
    pub open spec fn wf(&self) -> bool {
        &&& names_ordered(self.names@)
        &&& history_ordered(self.watch_history@)
        &&& self.num_episodes != Some(0u32)
    }

    /// The season of the show: what the first name that names one says, else
    /// 1 where the show follows no other show.
    pub open spec fn season_guess(&self) -> Option<u32> {
        match first_season(self.names@) {
            Some(s) => Some(s),
            None => if self.relations.prequel is None {
                Some(1u32)
            } else {
                None
            },
        }
    }

    /// The number of episodes, 1 where it is not known.
    pub open spec fn episode_count(&self) -> nat {
        match self.num_episodes {
            Some(n) => n as nat,
            None => 1,
        }
    }

    /// Decides `wf`, for callers that cannot know it otherwise.
    pub fn well_formed(&self) -> (b: bool)
        ensures
            b == self.wf(),
    {
        match self.num_episodes {
            Some(0) => { return false; },
            _ => {},
        }
        let mut i: usize = 1;
        while i < self.names.len()
            invariant
                1 <= i,
                forall|k: int| 0 <= k < i - 1 && k < self.names.len() - 1 ==> name_before(
                    #[trigger] self.names@[k],
                    self.names@[k + 1],
                ),
            decreases self.names.len() - i,
        {
            match order_names(&self.names[i - 1], &self.names[i]) {
                Sign::Before => {},
                _ => {
                    assert(!name_before(self.names@[i - 1], self.names@[i - 1 + 1]));
                    return false;
                },
            }
            i += 1;
        }
        let mut j: usize = 1;
        while j < self.watch_history.len()
            invariant
                1 <= j,
                names_ordered(self.names@),
                forall|k: int|
                    0 <= k < j - 1 && k < self.watch_history.len() - 1 ==> (
                    #[trigger] self.watch_history@[k]).0.before(self.watch_history@[k + 1].0),
            decreases self.watch_history.len() - j,
        {
            if !self.watch_history[j - 1].0.is_before(self.watch_history[j].0) {
                assert(!self.watch_history@[j - 1].0.before(self.watch_history@[j - 1 + 1].0));
                return false;
            }
            j += 1;
        }
        true
    }

    /// A show of which nothing is known.
    pub fn new() -> (s: Show)
        ensures
            s.wf(),
            s.names@.len() == 0,
            s.watch_history@.len() == 0,
            s.watched_episodes@.len() == 0,
            s.media_cache@.len() == 0,
            s.num_episodes is None,
            s.anilist_id is None,
            s.thumbnail is None,
            s.relations == (Relations { prequel: None, sequel: None }),
    {
        Show {
            anilist_id: None,
            names: Vec::new(),
            thumbnail: None,
            watch_history: Vec::new(),
            watched_episodes: Vec::new(),
            num_episodes: None,
            media_cache: Vec::new(),
            relations: Relations { prequel: None, sequel: None },
        }
    }

    /// Adds a name, at its place in the order. A name that the show has
    /// already is not added again. Returns whether the name was new.
    pub fn add_name(&mut self, kind: NameKind, name: String) -> (added: bool)
        requires
            names_ordered(old(self).names@),
        ensures
            names_ordered(final(self).names@),
            name_placed(old(self).names@, final(self).names@, (kind, name), added),
            final(self).anilist_id == old(self).anilist_id,
            final(self).thumbnail == old(self).thumbnail,
            final(self).watch_history == old(self).watch_history,
            final(self).watched_episodes == old(self).watched_episodes,
            final(self).num_episodes == old(self).num_episodes,
            final(self).media_cache == old(self).media_cache,
            final(self).relations == old(self).relations,
    {
        insert_name(&mut self.names, kind, name)
    }

    /// Records what happened in the player at a moment. An entry of the same
    /// moment is replaced and returned.
    pub fn record_watch(&mut self, at: EpochInstant, event: WatchEvent) -> (replaced: Option<
        WatchEvent,
    >)
        requires
            history_ordered(old(self).watch_history@),
        ensures
            history_ordered(final(self).watch_history@),
            event_placed(
                old(self).watch_history@,
                final(self).watch_history@,
                at,
                event,
                replaced,
            ),
            final(self).anilist_id == old(self).anilist_id,
            final(self).thumbnail == old(self).thumbnail,
            final(self).names == old(self).names,
            final(self).watched_episodes == old(self).watched_episodes,
            final(self).num_episodes == old(self).num_episodes,
            final(self).media_cache == old(self).media_cache,
            final(self).relations == old(self).relations,
    {
        insert_event(&mut self.watch_history, at, event)
    }

    /// The place in the cache of the first medium that holds the episode.
    pub fn cached_source(&self, episode_idx: u32) -> (r: Option<usize>)
        ensures
            match r {
                Some(i) => i < self.media_cache.len() && self.media_cache[i as int].spec_has_ep(
                    episode_idx,
                ) && forall|k: int|
                    0 <= k < i ==> !(#[trigger] self.media_cache[k]).spec_has_ep(episode_idx),
                None => forall|k: int|
                    0 <= k < self.media_cache.len() ==> !(#[trigger] self.media_cache[k]).spec_has_ep(
                        episode_idx,
                    ),
            },
    {
        let mut i: usize = 0;
        while i < self.media_cache.len()
            invariant
                i <= self.media_cache.len(),
                forall|k: int| 0 <= k < i ==> !(#[trigger] self.media_cache[k]).spec_has_ep(episode_idx),
            decreases self.media_cache.len() - i,
        {
            if self.media_cache[i].has_ep(episode_idx) {
                return Some(i);
            }
            i += 1;
        }
        None
    }

    /// Whether the cache holds a medium with this identifier.
    pub fn knows_media(&self, identifier: &str) -> (b: bool)
        ensures
            b == exists|k: int|
                0 <= k < self.media_cache.len() && (#[trigger] self.media_cache[k]).spec_identifier()
                    == identifier@,
    {
        let wanted = identifier.to_owned();
        let mut i: usize = 0;
        while i < self.media_cache.len()
            invariant
                i <= self.media_cache.len(),
                wanted@ == identifier@,
                forall|k: int|
                    0 <= k < i ==> (#[trigger] self.media_cache[k]).spec_identifier() != identifier@,
            decreases self.media_cache.len() - i,
        {
            if self.media_cache[i].identifier() == wanted {
                return true;
            }
            i += 1;
        }
        false
    }

    /// Puts a medium into the cache, behind the others, unless the cache
    /// holds one with the same identifier. Returns whether it was put in.
    pub fn cache_media(&mut self, media: AnyMedia) -> (added: bool)
        ensures
            added == !(exists|k: int|
                0 <= k < old(self).media_cache.len() && (#[trigger] old(self).media_cache[k]).spec_identifier() == media.spec_identifier()),
            final(self).media_cache@ == if added {
                old(self).media_cache@.push(media)
            } else {
                old(self).media_cache@
            },
            final(self).names == old(self).names,
            final(self).watch_history == old(self).watch_history,
            final(self).watched_episodes == old(self).watched_episodes,
            final(self).num_episodes == old(self).num_episodes,
            final(self).relations == old(self).relations,
            final(self).anilist_id == old(self).anilist_id,
            final(self).thumbnail == old(self).thumbnail,
    {
        let id = media.identifier();
        if self.knows_media(id.as_str()) {
            false
        } else {
            self.media_cache.push(media);
            true
        }
    }

    /// Marks an episode as watched or not. An episode that the show does not
    /// have changes nothing; returns whether the show has it.
    pub fn set_watched(&mut self, episode_idx: u32, watched: bool) -> (known: bool)
        ensures
            known == (episode_idx < old(self).watched_episodes.len()),
            final(self).watched_episodes@ == if known {
                old(self).watched_episodes@.update(episode_idx as int, watched)
            } else {
                old(self).watched_episodes@
            },
            final(self).names == old(self).names,
            final(self).watch_history == old(self).watch_history,
            final(self).media_cache == old(self).media_cache,
            final(self).num_episodes == old(self).num_episodes,
            final(self).relations == old(self).relations,
            final(self).anilist_id == old(self).anilist_id,
            final(self).thumbnail == old(self).thumbnail,
    {
        if (episode_idx as usize) < self.watched_episodes.len() {
            self.watched_episodes.set(episode_idx as usize, watched);
            true
        } else {
            false
        }
    }

    /// The queries for one episode of the show, by seeders: one for each
    /// name, each naming the season that the names tell, 1 where they tell
    /// none, and the episode as it is given.
    pub fn nyaa_query_for(&self, episode: u32, cat: AnimeKind) -> (r: Vec<SearchQuery>)
        ensures
            r.len() == self.names.len(),
            forall|i: int|
                0 <= i < r.len() ==> (#[trigger] r[i]).query@ == episode_query_text(
                    self.names[i].1@,
                    first_season(self.names@),
                    episode,
                ) && r[i].category == MediaCategory::Anime(Some(cat)) && r[i].filter
                    == Filter::NoFilter && r[i].max_page_idx == Some(5usize) && r[i].sort == (Sort {
                    by: SortBy::Seeders,
                    order: SortOrder::Desc,
                }) && r[i].user is None,
    {
        let mut season: Option<u32> = None;
        let mut k: usize = 0;
        assert(self.names@.skip(0) =~= self.names@);
        while k < self.names.len() && season.is_none()
            invariant
                k <= self.names.len(),
                match season {
                    Some(s) => first_season(self.names@) == Some(s),
                    None => first_season(self.names@) == first_season(self.names@.skip(k as int)),
                },
            decreases self.names.len() - k,
        {
            assert(self.names@.skip(k as int).skip(1) =~= self.names@.skip(k + 1));
            season = name_season(&self.names[k]);
            k += 1;
        }
        let season_number: u32 = match season {
            Some(s) => s,
            None => 1,
        };
        let mut out: Vec<SearchQuery> = Vec::new();
        let mut i: usize = 0;
        while i < self.names.len()
            invariant
                i <= self.names.len(),
                out.len() == i,
                season_number == match first_season(self.names@) {
                    Some(s) => s,
                    None => 1u32,
                },
                forall|j: int|
                    0 <= j < i ==> (#[trigger] out[j]).query@ == episode_query_text(
                        self.names[j].1@,
                        first_season(self.names@),
                        episode,
                    ) && out[j].category == MediaCategory::Anime(Some(cat)) && out[j].filter
                        == Filter::NoFilter && out[j].max_page_idx == Some(5usize) && out[j].sort
                        == (Sort { by: SortBy::Seeders, order: SortOrder::Desc }) && out[j].user
                        is None,
            decreases self.names.len() - i,
        {
            let mut text: Vec<char> = chars_of(self.names[i].1.as_str());
            push_text(&mut text, " S");
            push_chars(&mut text, &format_two_digits(season_number as u64));
            push_text(&mut text, "E");
            push_chars(&mut text, &format_two_digits(episode as u64));
            out.push(
                SearchQuery {
                    query: string_of(&text),
                    category: MediaCategory::Anime(Some(cat)),
                    filter: Filter::NoFilter,
                    max_page_idx: Some(5),
                    sort: Sort { by: SortBy::Seeders, order: SortOrder::Desc },
                    user: None,
                },
            );
            i += 1;
        }
        out
    }

    /// The first name of the kind that the configuration prefers, empty where
    /// the show has none.
    pub fn get_preferred_name(&self, config: &crate::config::Config) -> (name: String)
        ensures
            name@ == preferred_name(self.names@, config.preferred_name_kind),
    {
        let mut i: usize = 0;
        assert(self.names@.skip(0) =~= self.names@);
        while i < self.names.len()
            invariant
                i <= self.names.len(),
                preferred_name(self.names@, config.preferred_name_kind) == preferred_name(
                    self.names@.skip(i as int),
                    config.preferred_name_kind,
                ),
            decreases self.names.len() - i,
        {
            assert(self.names@.skip(i as int).skip(1) =~= self.names@.skip(i + 1));
            if self.names[i].0 == config.preferred_name_kind {
                return self.names[i].1.clone();
            }
            i += 1;
        }
        String::new()
    }

    /// Guesses the season of the show from its names and its prequel.
    pub fn season_number_guess(&self) -> (r: Option<u32>)
        ensures
            r == self.season_guess(),
    {
        let mut i: usize = 0;
        assert(self.names@.skip(0) =~= self.names@);
        while i < self.names.len()
            invariant
                i <= self.names.len(),
                first_season(self.names@) == first_season(self.names@.skip(i as int)),
            decreases self.names.len() - i,
        {
            assert(self.names@.skip(i as int).skip(1) =~= self.names@.skip(i + 1));
            let s = name_season(&self.names[i]);
            if s.is_some() {
                return s;
            }
            i += 1;
        }
        match self.relations.prequel {
            None => Some(1),
            Some(_) => None,
        }
    }

    /// The episode to watch next and where it was last paused. `None` where
    /// the list of watched episodes does not have one entry for each episode,
    /// or where the last of several episodes was watched.
    pub fn episode_to_watch(&self) -> (r: Option<(u32, Option<u32>)>)
        requires
            self.num_episodes != Some(0u32),
        ensures
            match r {
                Some((ep, pause)) => self.watched_episodes@.len() == self.episode_count() && !(
                self.episode_count() > 1 && self.watched_episodes@.last()) && ep == next_unwatched(
                    self.watched_episodes@,
                    self.episode_count() - 1,
                ) && pause == last_pause(
                    self.watch_history@,
                    ep,
                    self.watch_history@.len() as int,
                ),
                None => self.watched_episodes@.len() != self.episode_count() || (
                self.episode_count() > 1 && self.watched_episodes@.last()),
            },
    {
        let count: u32 = match self.num_episodes {
            Some(n) => n,
            None => 1,
        };
        if self.watched_episodes.len() as u64 != count as u64 {
            return None;
        }
        let mut ep: u32 = count - 1;
        if ep != 0 && self.watched_episodes[ep as usize] {
            return None;
        }
        while ep != 0 && !self.watched_episodes[(ep - 1) as usize]
            invariant
                ep < count,
                self.watched_episodes@.len() == count,
                next_unwatched(self.watched_episodes@, count - 1) == next_unwatched(
                    self.watched_episodes@,
                    ep as int,
                ),
            decreases ep,
        {
            ep -= 1;
        }
        let mut at: usize = self.watch_history.len();
        let mut pause: Option<u32> = None;
        while at > 0
            invariant
                at <= self.watch_history.len(),
                pause is None,
                count == self.episode_count(),
                self.watched_episodes@.len() == count,
                !(count > 1 && self.watched_episodes@.last()),
                ep == next_unwatched(self.watched_episodes@, count - 1),
                last_pause(self.watch_history@, ep, self.watch_history@.len() as int) == last_pause(
                    self.watch_history@,
                    ep,
                    at as int,
                ),
            decreases at,
        {
            let event = self.watch_history[at - 1].1;
            match event.ty {
                WatchEventType::Closed(Some(t)) => {
                    if event.episode == ep {
                        return Some((ep, Some(t)));
                    }
                },
                _ => {},
            }
            at -= 1;
        }
        Some((ep, pause))
    }
}

} // verus!
