//! What the title parser finds in a release or file name.

use crate::text::chars_of;
use vstd::prelude::*;

verus! {

/// The episode number and the file extension that a name holds, each as the
/// parser found it.
#[derive(Debug, Clone)]
pub struct TitleInfo {
    pub episode: Option<String>,
    pub file_extension: Option<String>,
}

/// What Anitomy, with its default options, finds in a name of ASCII
/// characters without a NUL character: the first episode number and the first
/// file extension.
pub uninterp spec fn title_elements(name: Seq<char>) -> (Option<Seq<char>>, Option<Seq<char>>);

impl TitleInfo {
    /// The two texts as plain values.
    pub open spec fn view(&self) -> (Option<Seq<char>>, Option<Seq<char>>) {
        (
            match self.episode {
                Some(e) => Some(e@),
                None => None,
            },
            match self.file_extension {
                Some(e) => Some(e@),
                None => None,
            },
        )
    }
}

/// Whether every character of `s` is an ASCII character.
pub open spec fn ascii_text(s: Seq<char>) -> bool {
    forall|i: int| 0 <= i < s.len() ==> (#[trigger] s[i]) <= '\x7f'
}

/// `anitomy::Anitomy::parse` on a fresh parser, then `Elements::get` for the
/// episode number and for the file extension. The parser classifies a name as
/// parsed or not and hands out the elements either way; both are read alike.
/// On ASCII characters the parser changes case by its own table, so the
/// result depends on the name alone. On other characters it goes by the rules
/// of the process's locale, so nothing is said of what it finds in a name
/// that has such. It panics on a NUL character, which `requires` leaves out.
#[verifier::external_body]
fn anitomy_parse(name: &str) -> (r: TitleInfo)
    requires
        !name@.contains('\0'),
    ensures
        ascii_text(name@) ==> r@ == title_elements(name@),
{
    let found = match anitomy::Anitomy::new().parse(name) {
        Ok(e) => e,
        Err(e) => e,
    };
    TitleInfo {
        episode: found.get(anitomy::ElementCategory::EpisodeNumber).map(String::from),
        file_extension: found.get(anitomy::ElementCategory::FileExtension).map(String::from),
    }
}

/// Whether `info` may be what parsing `name` gives: nothing for a name with a
/// NUL character; what the parser finds for a name of ASCII characters; and
/// anything for a name with other characters, which the parser reads by the
/// locale.
pub open spec fn title_reads(name: Seq<char>, info: (Option<Seq<char>>, Option<Seq<char>>)) -> bool {
    if name.contains('\0') {
        info == (None::<Seq<char>>, None::<Seq<char>>)
    } else if ascii_text(name) {
        info == title_elements(name)
    } else {
        true
    }
}

/// Whether `c` occurs in `s`.
pub fn has_char(s: &Vec<char>, c: char) -> (b: bool)
    ensures
        b == s@.contains(c),
{
    let mut i: usize = 0;
    while i < s.len()
        invariant
            i <= s.len(),
            forall|k: int| 0 <= k < i ==> s@[k] != c,
        decreases s.len() - i,
    {
        if s[i] == c {
            return true;
        }
        i += 1;
    }
    false
}

/// Parses a release or file name.
pub fn parse_title(name: &str) -> (r: TitleInfo)
    ensures
        title_reads(name@, r@),
{
    let chars = chars_of(name);
    if has_char(&chars, '\0') {
        TitleInfo { episode: None, file_extension: None }
    } else {
        anitomy_parse(name)
    }
}

} // verus!
