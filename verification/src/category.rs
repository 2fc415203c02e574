//! Media categories of the torrent index and their two-number code.

use crate::number::{parse_unsigned, unsigned_value};
use crate::text::{chars_of, split, split_on, texts};
use vstd::prelude::*;

verus! {

#[derive(Debug, Clone, Copy, PartialEq, Eq, Structural)]
pub enum AnimeKind {
    MusicVideo,
    SubEnglish,
    SubNonEnglish,
    Raw,
}

#[derive(Debug, Clone, Copy, PartialEq, Eq, Structural)]
pub enum AudioKind {
    Lossless,
    Lossy,
}

#[derive(Debug, Clone, Copy, PartialEq, Eq, Structural)]
pub enum LiteratureKind {
    TranslatedEnglish,
    TranslatedNonEnglish,
    Raw,
}

#[derive(Debug, Clone, Copy, PartialEq, Eq, Structural)]
pub enum LiveActionKind {
    TranslatedEnglish,
    TranslatedNonEnglish,
    IdolPromoVideo,
}

#[derive(Debug, Clone, Copy, PartialEq, Eq, Structural)]
pub enum PictureKind {
    Graphic,
    Photo,
}

#[derive(Debug, Clone, Copy, PartialEq, Eq, Structural)]
pub enum SoftwareKind {
    Application,
    Game,
}

/// A kind of media in the index's model. `None` inside a variant stands for
/// every item of that category.
#[derive(Debug, Clone, Copy, PartialEq, Eq)]
pub enum MediaCategory {
    All,
    Anime(Option<AnimeKind>),
    Audio(Option<AudioKind>),
    Literature(Option<LiteratureKind>),
    LiveAction(Option<LiveActionKind>),
    Picture(Option<PictureKind>),
    Software(Option<SoftwareKind>),
}

/// Why a category could not be read.
#[derive(Debug, Clone, PartialEq, Eq)]
pub enum ParseMediaCategoryError {
    /// The first number names no category.
    InvalidCategory(u8),
    /// The second number names no kind of the category, given without a kind.
    InvalidSubCategory(MediaCategory, u8),
    /// The text is not two numbers joined by `_`.
    InvalidString(String),
}

impl AnimeKind {
    pub open spec fn code(self) -> u8 {
        match self {
            AnimeKind::MusicVideo => 1,
            AnimeKind::SubEnglish => 2,
            AnimeKind::SubNonEnglish => 3,
            AnimeKind::Raw => 4,
        }
    }

    pub open spec fn of_code(n: u8) -> Option<AnimeKind> {
        if n == 1 {
            Some(AnimeKind::MusicVideo)
        } else if n == 2 {
            Some(AnimeKind::SubEnglish)
        } else if n == 3 {
            Some(AnimeKind::SubNonEnglish)
        } else if n == 4 {
            Some(AnimeKind::Raw)
        } else {
            None
        }
    }

    /// The number of this kind, counted from 1.
    pub fn to_repr(self) -> (n: u8)
        ensures
            n == self.code(),
            Self::of_code(n) == Some(self),
    {
        match self {
            AnimeKind::MusicVideo => 1,
            AnimeKind::SubEnglish => 2,
            AnimeKind::SubNonEnglish => 3,
            AnimeKind::Raw => 4,
        }
    }

    /// The kind with number `n`, if there is one.
    pub fn from_repr(n: u8) -> (k: Option<AnimeKind>)
        ensures
            k == Self::of_code(n),
    {
        match n {
            1 => Some(AnimeKind::MusicVideo),
            2 => Some(AnimeKind::SubEnglish),
            3 => Some(AnimeKind::SubNonEnglish),
            4 => Some(AnimeKind::Raw),
            _ => None,
        }
    }
}

impl AudioKind {
    pub open spec fn code(self) -> u8 {
        match self {
            AudioKind::Lossless => 1,
            AudioKind::Lossy => 2,
        }
    }

    pub open spec fn of_code(n: u8) -> Option<AudioKind> {
        if n == 1 {
            Some(AudioKind::Lossless)
        } else if n == 2 {
            Some(AudioKind::Lossy)
        } else {
            None
        }
    }

    /// The number of this kind, counted from 1.
    pub fn to_repr(self) -> (n: u8)
        ensures
            n == self.code(),
            Self::of_code(n) == Some(self),
    {
        match self {
            AudioKind::Lossless => 1,
            AudioKind::Lossy => 2,
        }
    }

    /// The kind with number `n`, if there is one.
    pub fn from_repr(n: u8) -> (k: Option<AudioKind>)
        ensures
            k == Self::of_code(n),
    {
        match n {
            1 => Some(AudioKind::Lossless),
            2 => Some(AudioKind::Lossy),
            _ => None,
        }
    }
}

impl LiteratureKind {
    pub open spec fn code(self) -> u8 {
        match self {
            LiteratureKind::TranslatedEnglish => 1,
            LiteratureKind::TranslatedNonEnglish => 2,
            LiteratureKind::Raw => 3,
        }
    }

    pub open spec fn of_code(n: u8) -> Option<LiteratureKind> {
        if n == 1 {
            Some(LiteratureKind::TranslatedEnglish)
        } else if n == 2 {
            Some(LiteratureKind::TranslatedNonEnglish)
        } else if n == 3 {
            Some(LiteratureKind::Raw)
        } else {
            None
        }
    }

    /// The number of this kind, counted from 1.
    pub fn to_repr(self) -> (n: u8)
        ensures
            n == self.code(),
            Self::of_code(n) == Some(self),
    {
        match self {
            LiteratureKind::TranslatedEnglish => 1,
            LiteratureKind::TranslatedNonEnglish => 2,
            LiteratureKind::Raw => 3,
        }
    }

    /// The kind with number `n`, if there is one.
    pub fn from_repr(n: u8) -> (k: Option<LiteratureKind>)
        ensures
            k == Self::of_code(n),
    {
        match n {
            1 => Some(LiteratureKind::TranslatedEnglish),
            2 => Some(LiteratureKind::TranslatedNonEnglish),
            3 => Some(LiteratureKind::Raw),
            _ => None,
        }
    }
}

impl LiveActionKind {
    pub open spec fn code(self) -> u8 {
        match self {
            LiveActionKind::TranslatedEnglish => 1,
            LiveActionKind::TranslatedNonEnglish => 2,
            LiveActionKind::IdolPromoVideo => 3,
        }
    }

    pub open spec fn of_code(n: u8) -> Option<LiveActionKind> {
        if n == 1 {
            Some(LiveActionKind::TranslatedEnglish)
        } else if n == 2 {
            Some(LiveActionKind::TranslatedNonEnglish)
        } else if n == 3 {
            Some(LiveActionKind::IdolPromoVideo)
        } else {
            None
        }
    }

    /// The number of this kind, counted from 1.
    pub fn to_repr(self) -> (n: u8)
        ensures
            n == self.code(),
            Self::of_code(n) == Some(self),
    {
        match self {
            LiveActionKind::TranslatedEnglish => 1,
            LiveActionKind::TranslatedNonEnglish => 2,
            LiveActionKind::IdolPromoVideo => 3,
        }
    }

    /// The kind with number `n`, if there is one.
    pub fn from_repr(n: u8) -> (k: Option<LiveActionKind>)
        ensures
            k == Self::of_code(n),
    {
        match n {
            1 => Some(LiveActionKind::TranslatedEnglish),
            2 => Some(LiveActionKind::TranslatedNonEnglish),
            3 => Some(LiveActionKind::IdolPromoVideo),
            _ => None,
        }
    }
}

impl PictureKind {
    pub open spec fn code(self) -> u8 {
        match self {
            PictureKind::Graphic => 1,
            PictureKind::Photo => 2,
        }
    }

    pub open spec fn of_code(n: u8) -> Option<PictureKind> {
        if n == 1 {
            Some(PictureKind::Graphic)
        } else if n == 2 {
            Some(PictureKind::Photo)
        } else {
            None
        }
    }

    /// The number of this kind, counted from 1.
    pub fn to_repr(self) -> (n: u8)
        ensures
            n == self.code(),
            Self::of_code(n) == Some(self),
    {
        match self {
            PictureKind::Graphic => 1,
            PictureKind::Photo => 2,
        }
    }

    /// The kind with number `n`, if there is one.
    pub fn from_repr(n: u8) -> (k: Option<PictureKind>)
        ensures
            k == Self::of_code(n),
    {
        match n {
            1 => Some(PictureKind::Graphic),
            2 => Some(PictureKind::Photo),
            _ => None,
        }
    }
}

impl SoftwareKind {
    pub open spec fn code(self) -> u8 {
        match self {
            SoftwareKind::Application => 1,
            SoftwareKind::Game => 2,
        }
    }

    pub open spec fn of_code(n: u8) -> Option<SoftwareKind> {
        if n == 1 {
            Some(SoftwareKind::Application)
        } else if n == 2 {
            Some(SoftwareKind::Game)
        } else {
            None
        }
    }

    /// The number of this kind, counted from 1.
    pub fn to_repr(self) -> (n: u8)
        ensures
            n == self.code(),
            Self::of_code(n) == Some(self),
    {
        match self {
            SoftwareKind::Application => 1,
            SoftwareKind::Game => 2,
        }
    }

    /// The kind with number `n`, if there is one.
    pub fn from_repr(n: u8) -> (k: Option<SoftwareKind>)
        ensures
            k == Self::of_code(n),
    {
        match n {
            1 => Some(SoftwareKind::Application),
            2 => Some(SoftwareKind::Game),
            _ => None,
        }
    }
}

impl MediaCategory {
    /// The category's own number: 0 for `All`, then 1 to 6.
    pub open spec fn major(self) -> u8 {
        match self {
            MediaCategory::All => 0,
            MediaCategory::Anime(_) => 1,
            MediaCategory::Audio(_) => 2,
            MediaCategory::Literature(_) => 3,
            MediaCategory::LiveAction(_) => 4,
            MediaCategory::Picture(_) => 5,
            MediaCategory::Software(_) => 6,
        }
    }

    /// The number of the kind inside the category; 0 where there is none.
    pub open spec fn minor(self) -> u8 {
        match self {
            MediaCategory::All => 0,
            MediaCategory::Anime(k) => match k {
                Some(k) => k.code(),
                None => 0,
            },
            MediaCategory::Audio(k) => match k {
                Some(k) => k.code(),
                None => 0,
            },
            MediaCategory::Literature(k) => match k {
                Some(k) => k.code(),
                None => 0,
            },
            MediaCategory::LiveAction(k) => match k {
                Some(k) => k.code(),
                None => 0,
            },
            MediaCategory::Picture(k) => match k {
                Some(k) => k.code(),
                None => 0,
            },
            MediaCategory::Software(k) => match k {
                Some(k) => k.code(),
                None => 0,
            },
        }
    }

    /// The category that a pair of numbers names, or the reason why it names
    /// none. A second number of 0 names the whole category, and `All` takes
    /// any second number.
    pub open spec fn of_pair(a: u8, b: u8) -> Result<MediaCategory, ParseMediaCategoryError> {
        if a == 0 {
            Ok(MediaCategory::All)
        } else if a == 1 {
            if b == 0 {
                Ok(MediaCategory::Anime(None))
            } else {
                match AnimeKind::of_code(b) {
                    Some(k) => Ok(MediaCategory::Anime(Some(k))),
                    None => Err(ParseMediaCategoryError::InvalidSubCategory(MediaCategory::Anime(None), b)),
                }
            }
        } else if a == 2 {
            if b == 0 {
                Ok(MediaCategory::Audio(None))
            } else {
                match AudioKind::of_code(b) {
                    Some(k) => Ok(MediaCategory::Audio(Some(k))),
                    None => Err(ParseMediaCategoryError::InvalidSubCategory(MediaCategory::Audio(None), b)),
                }
            }
        } else if a == 3 {
            if b == 0 {
                Ok(MediaCategory::Literature(None))
            } else {
                match LiteratureKind::of_code(b) {
                    Some(k) => Ok(MediaCategory::Literature(Some(k))),
                    None => Err(ParseMediaCategoryError::InvalidSubCategory(MediaCategory::Literature(None), b)),
                }
            }
        } else if a == 4 {
            if b == 0 {
                Ok(MediaCategory::LiveAction(None))
            } else {
                match LiveActionKind::of_code(b) {
                    Some(k) => Ok(MediaCategory::LiveAction(Some(k))),
                    None => Err(ParseMediaCategoryError::InvalidSubCategory(MediaCategory::LiveAction(None), b)),
                }
            }
        } else if a == 5 {
            if b == 0 {
                Ok(MediaCategory::Picture(None))
            } else {
                match PictureKind::of_code(b) {
                    Some(k) => Ok(MediaCategory::Picture(Some(k))),
                    None => Err(ParseMediaCategoryError::InvalidSubCategory(MediaCategory::Picture(None), b)),
                }
            }
        } else if a == 6 {
            if b == 0 {
                Ok(MediaCategory::Software(None))
            } else {
                match SoftwareKind::of_code(b) {
                    Some(k) => Ok(MediaCategory::Software(Some(k))),
                    None => Err(ParseMediaCategoryError::InvalidSubCategory(MediaCategory::Software(None), b)),
                }
            }
        } else {
            Err(ParseMediaCategoryError::InvalidCategory(a))
        }
    }

    /// The two numbers that name this category.
    pub fn encode(self) -> (pair: (u8, u8))
        ensures
            pair.0 == self.major(),
            pair.1 == self.minor(),
    {
        match self {
            MediaCategory::All => (0, 0),
            MediaCategory::Anime(k) => (
                1,
                match k {
                    Some(k) => k.to_repr(),
                    None => 0,
                },
            ),
            MediaCategory::Audio(k) => (
                2,
                match k {
                    Some(k) => k.to_repr(),
                    None => 0,
                },
            ),
            MediaCategory::Literature(k) => (
                3,
                match k {
                    Some(k) => k.to_repr(),
                    None => 0,
                },
            ),
            MediaCategory::LiveAction(k) => (
                4,
                match k {
                    Some(k) => k.to_repr(),
                    None => 0,
                },
            ),
            MediaCategory::Picture(k) => (
                5,
                match k {
                    Some(k) => k.to_repr(),
                    None => 0,
                },
            ),
            MediaCategory::Software(k) => (
                6,
                match k {
                    Some(k) => k.to_repr(),
                    None => 0,
                },
            ),
        }
    }

    /// Reads a category from its two numbers.
    pub fn decode(pair: [u8; 2]) -> (r: Result<MediaCategory, ParseMediaCategoryError>)
        ensures
            r == Self::of_pair(pair[0], pair[1]),
    {
        let a = pair[0];
        let b = pair[1];
        match a {
            0 => Ok(MediaCategory::All),
            1 => {
                if b == 0 {
                    Ok(MediaCategory::Anime(None))
                } else {
                    match AnimeKind::from_repr(b) {
                        Some(k) => Ok(MediaCategory::Anime(Some(k))),
                        None => Err(
                            ParseMediaCategoryError::InvalidSubCategory(MediaCategory::Anime(None), b),
                        ),
                    }
                }
            },
            2 => {
                if b == 0 {
                    Ok(MediaCategory::Audio(None))
                } else {
                    match AudioKind::from_repr(b) {
                        Some(k) => Ok(MediaCategory::Audio(Some(k))),
                        None => Err(
                            ParseMediaCategoryError::InvalidSubCategory(MediaCategory::Audio(None), b),
                        ),
                    }
                }
            },
            3 => {
                if b == 0 {
                    Ok(MediaCategory::Literature(None))
                } else {
                    match LiteratureKind::from_repr(b) {
                        Some(k) => Ok(MediaCategory::Literature(Some(k))),
                        None => Err(
                            ParseMediaCategoryError::InvalidSubCategory(MediaCategory::Literature(None), b),
                        ),
                    }
                }
            },
            4 => {
                if b == 0 {
                    Ok(MediaCategory::LiveAction(None))
                } else {
                    match LiveActionKind::from_repr(b) {
                        Some(k) => Ok(MediaCategory::LiveAction(Some(k))),
                        None => Err(
                            ParseMediaCategoryError::InvalidSubCategory(MediaCategory::LiveAction(None), b),
                        ),
                    }
                }
            },
            5 => {
                if b == 0 {
                    Ok(MediaCategory::Picture(None))
                } else {
                    match PictureKind::from_repr(b) {
                        Some(k) => Ok(MediaCategory::Picture(Some(k))),
                        None => Err(
                            ParseMediaCategoryError::InvalidSubCategory(MediaCategory::Picture(None), b),
                        ),
                    }
                }
            },
            6 => {
                if b == 0 {
                    Ok(MediaCategory::Software(None))
                } else {
                    match SoftwareKind::from_repr(b) {
                        Some(k) => Ok(MediaCategory::Software(Some(k))),
                        None => Err(
                            ParseMediaCategoryError::InvalidSubCategory(MediaCategory::Software(None), b),
                        ),
                    }
                }
            },
            _ => Err(ParseMediaCategoryError::InvalidCategory(a)),
        }
    }
}

/// The two numbers that a text of the form `<number>_<number>` holds. What
/// follows a second `_` is not read.
pub open spec fn pair_of_text(s: Seq<char>) -> Option<(u8, u8)> {
    let parts = split_on(s, '_');
    if parts.len() >= 2 {
        match (unsigned_value(parts[0], 255), unsigned_value(parts[1], 255)) {
            (Some(a), Some(b)) => Some((a as u8, b as u8)),
            _ => None,
        }
    } else {
        None
    }
}

impl MediaCategory {
    /// Reads a category from a text of the form `<number>_<number>`.
    pub fn parse(s: &str) -> (r: Result<MediaCategory, ParseMediaCategoryError>)
        ensures
            match pair_of_text(s@) {
                Some(p) => r == Self::of_pair(p.0, p.1),
                None => r matches Err(ParseMediaCategoryError::InvalidString(t)) && t@ == s@,
            },
    {
        let chars = chars_of(s);
        let parts = split(&chars, '_');
        assert(texts(parts@)[0] == parts@[0]@);
        if parts.len() < 2 {
            return Err(ParseMediaCategoryError::InvalidString(s.to_owned()));
        }
        assert(texts(parts@)[1] == parts@[1]@);
        let a = parse_unsigned(&parts[0], 255);
        let b = parse_unsigned(&parts[1], 255);
        match (a, b) {
            (Some(a), Some(b)) => Self::decode([a as u8, b as u8]),
            _ => Err(ParseMediaCategoryError::InvalidString(s.to_owned())),
        }
    }
}

impl std::str::FromStr for MediaCategory {
    type Err = ParseMediaCategoryError;

    /// Reads a category from a text of the form `<number>_<number>`.
    fn from_str(s: &str) -> (r: Result<MediaCategory, ParseMediaCategoryError>)
        ensures
            match pair_of_text(s@) {
                Some(p) => r == MediaCategory::of_pair(p.0, p.1),
                None => r matches Err(ParseMediaCategoryError::InvalidString(t)) && t@ == s@,
            },
    {
        MediaCategory::parse(s)
    }
}

/// Decoding the two numbers of a category gives the category back.
pub proof fn lemma_category_round_trip(c: MediaCategory)
    ensures
        MediaCategory::of_pair(c.major(), c.minor()) == Ok::<MediaCategory, ParseMediaCategoryError>(c),
{
}

/// Two categories with the same two numbers are the same category.
pub proof fn lemma_category_code_injective(c: MediaCategory, d: MediaCategory)
    requires
        c.major() == d.major(),
        c.minor() == d.minor(),
    ensures
        c == d,
{
    lemma_category_round_trip(c);
    lemma_category_round_trip(d);
}

} // verus!
