//! The hosted-file source: its addresses and how they are unscrambled.

use crate::text::{chars_of, split, split_on, string_of, texts};
use vstd::prelude::*;

verus! {

/// The host of a file.
#[derive(Debug, Clone)]
pub enum AllanimeHosterName {
    Default,
    OkRu,
    Mp4,
    Ac,
    Ak,
    Kir,
    Rab,
    LufMp4,
    SiHls,
    SMp4,
    AcHls,
    UvMp4,
    PnHls,
    VidMp4,
    YtMp4,
    Other(String),
}

/// How an address is to be opened.
#[derive(Debug, Clone, Copy, PartialEq, Eq, Structural)]
pub enum AllanimeType {
    Player,
    IFrame,
}

/// The hosted-file source.
#[derive(Debug, Clone, Copy, PartialEq, Eq, Structural)]
pub struct AllAnime;

/// The value of a hexadecimal digit, in either case.
pub open spec fn hex_value(c: char) -> Option<u8> {
    if '0' <= c <= '9' {
        Some((c as u32 - '0' as u32) as u8)
    } else if 'a' <= c <= 'f' {
        Some((c as u32 - 'a' as u32 + 10) as u8)
    } else if 'A' <= c <= 'F' {
        Some((c as u32 - 'A' as u32 + 10) as u8)
    } else {
        None
    }
}

/// The byte that two characters write in hexadecimal: two digits, or `+` and
/// one digit.
pub open spec fn hex_pair(high: char, low: char) -> Option<u8> {
    match (hex_value(high), hex_value(low)) {
        (Some(h), Some(l)) => Some((h * 16 + l) as u8),
        (None, Some(l)) => if high == '+' {
            Some(l)
        } else {
            None
        },
        _ => None,
    }
}

/// Whether every pair of characters of `code` writes a byte.
pub open spec fn all_pairs_hex(code: Seq<char>) -> bool {
    forall|i: int| 0 <= i < code.len() / 2 ==> hex_pair(#[trigger] code[2 * i], code[2 * i + 1]) is Some
}

/// The text that a scrambled code holds: each pair of characters is a byte in
/// hexadecimal, and the byte with the bits of 56 flipped is a character.
pub open spec fn unscrambled(code: Seq<char>) -> Seq<char> {
    Seq::new(code.len() / 2, |i: int| (hex_pair(code[2 * i], code[2 * i + 1])->0 ^ 56u8) as char)
}

/// Whether every character of `s` is an ASCII character.
pub open spec fn all_ascii(s: Seq<char>) -> bool {
    forall|i: int| 0 <= i < s.len() ==> (#[trigger] s[i]) <= '\x7f'
}

/// The code of a scrambled address: what follows its last `-`. Only an
/// address that starts with `-` is scrambled, and the code must be ASCII
/// characters in pairs that write bytes.
pub open spec fn scrambled_code(address: Seq<char>) -> Option<Seq<char>> {
    let code = split_on(address, '-').last();
    if address.len() > 0 && address[0] == '-' && all_ascii(code) && code.len() % 2 == 0
        && all_pairs_hex(code) {
        Some(code)
    } else {
        None
    }
}

fn hex_digit(c: char) -> (r: Option<u8>)
    ensures
        r == hex_value(c),
{
    if c >= '0' && c <= '9' {
        Some((c as u32 - '0' as u32) as u8)
    } else if c >= 'a' && c <= 'f' {
        Some((c as u32 - 'a' as u32 + 10) as u8)
    } else if c >= 'A' && c <= 'F' {
        Some((c as u32 - 'A' as u32 + 10) as u8)
    } else {
        None
    }
}

fn hex_byte(high: char, low: char) -> (r: Option<u8>)
    ensures
        r == hex_pair(high, low),
{
    match (hex_digit(high), hex_digit(low)) {
        (Some(h), Some(l)) => Some(h * 16 + l),
        (None, Some(l)) => if high == '+' {
            Some(l)
        } else {
            None
        },
        _ => None,
    }
}

/// Unscrambles an address of the source. `None` for an address that is not
/// scrambled.
pub fn quote_unquote_decrypt(s: &str) -> (r: Option<String>)
    ensures
        match scrambled_code(s@) {
            Some(code) => r matches Some(t) && t@ == unscrambled(code),
            None => r is None,
        },
{
    let chars = chars_of(s);
    if chars.len() == 0 || chars[0] != '-' {
        return None;
    }
    let parts = split(&chars, '-');
    let code = &parts[parts.len() - 1];
    assert(texts(parts@)[parts.len() - 1] == code@);
    let mut k: usize = 0;
    while k < code.len()
        invariant
            k <= code.len(),
            code@ == split_on(s@, '-').last(),
            forall|i: int| 0 <= i < k ==> (#[trigger] code@[i]) <= '\x7f',
        decreases code.len() - k,
    {
        if code[k] > '\x7f' {
            assert(!(code@[k as int] <= '\x7f'));
            return None;
        }
        k += 1;
    }
    if code.len() % 2 != 0 {
        return None;
    }
    let mut out: Vec<char> = Vec::new();
    let mut i: usize = 0;
    while i < code.len() / 2
        invariant
            i <= code.len() / 2,
            code.len() % 2 == 0,
            code@ == split_on(s@, '-').last(),
            chars@ == s@,
            chars.len() > 0 && chars[0] == '-',
            all_ascii(code@),
            out.len() == i,
            forall|j: int| 0 <= j < i ==> hex_pair(#[trigger] code@[2 * j], code@[2 * j + 1]) is Some,
            forall|j: int|
                0 <= j < i ==> #[trigger] out@[j] == (hex_pair(code@[2 * j], code@[2 * j + 1])->0
                    ^ 56u8) as char,
        decreases code.len() / 2 - i,
    {
        match hex_byte(code[2 * i], code[2 * i + 1]) {
            Some(b) => {
                out.push((b ^ 56u8) as char);
            },
            None => {
                assert(hex_pair(code@[2 * (i as int)], code@[2 * (i as int) + 1]) is None);
                return None;
            },
        }
        i += 1;
    }
    assert(out@ =~= unscrambled(code@));
    Some(string_of(&out))
}

} // verus!
