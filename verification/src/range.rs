//! Answering a request for the bytes of a streamed file.

use crate::number::{decimal_text, format_unsigned, parse_unsigned, unsigned_value};
use crate::text::{chars_of, has_prefix, push_chars, push_text, starts_with, string_of};
use vstd::prelude::*;

verus! {

/// The offset that a `Range` value of the form `bytes=<offset>-` names.
pub open spec fn range_offset(value: Seq<char>) -> Option<u64> {
    if starts_with(value, "bytes="@) && value.len() >= 7 && value.last() == '-' {
        match unsigned_value(value.subrange(6, value.len() - 1), u64::MAX as nat) {
            Some(n) => Some(n as u64),
            None => None,
        }
    } else {
        None
    }
}

/// Reads the offset of a `Range` value.
pub fn parse_range(value: &str) -> (r: Option<u64>)
    ensures
        r == range_offset(value@),
{
    proof {
        reveal_strlit("bytes=");
    }
    let v = chars_of(value);
    let prefix = chars_of("bytes=");
    if !has_prefix(&v, &prefix) || v.len() < 7 || v[v.len() - 1] != '-' {
        return None;
    }
    let mut digits: Vec<char> = Vec::new();
    let mut i: usize = 6;
    while i < v.len() - 1
        invariant
            6 <= i <= v.len() - 1,
            digits@ == v@.subrange(6, i as int),
        decreases v.len() - i,
    {
        digits.push(v[i]);
        i += 1;
    }
    parse_unsigned(&digits, u64::MAX)
}

/// The `Range` header of a request.
#[derive(Debug, Clone)]
pub enum RangeHeader {
    /// The request has no such header.
    Absent,
    /// The header is there and its value is not readable text.
    Unreadable,
    /// The value of the header.
    Value(String),
}

/// Why a request could not be answered.
#[derive(Debug, Clone, Copy, PartialEq, Eq, Structural)]
pub enum StreamError {
    /// No stream is registered under the path.
    NoRoute,
    /// The path is registered and its file is gone.
    NoFile,
    /// The offset lies behind the end of the file.
    Seek,
}

impl StreamError {
    /// The status that answers a request that failed.
    pub fn status(&self) -> (s: u16)
        ensures
            s == 500,
    {
        500
    }
}

/// How to answer a request.
#[derive(Debug, Clone)]
pub struct ResponsePlan {
    /// 200 for the whole file, 206 for its rest from an offset.
    pub status: u16,
    /// The headers of the answer, in order, as name and value.
    pub headers: Vec<(String, String)>,
    /// Where the body starts in the file.
    pub start: u64,
}

/// A header as plain text.
pub type HeaderText = (Seq<char>, Seq<char>);

/// The offset that a request asks for, where it asks for one.
pub open spec fn asked_offset(range: RangeHeader) -> Option<u64> {
    match range {
        RangeHeader::Value(v) => range_offset(v@),
        _ => None,
    }
}

/// The headers that every answer starts with: that ranges are accepted, the
/// two answers to DLNA players where asked for, and the type of the content.
pub open spec fn common_headers(mime: Seq<char>, streaming: bool, features: bool) -> Seq<HeaderText> {
    let first = seq![("Accept-Ranges"@, "bytes"@)];
    let second = if streaming {
        first.push(("transferMode.dlna.org"@, "Streaming"@))
    } else {
        first
    };
    let third = if features {
        second.push(("contentFeatures.dlna.org"@, "DLNA.ORG_OP=01"@))
    } else {
        second
    };
    third.push(("Content-Type"@, mime))
}

/// The value of `Content-Range` for the rest of a file of `total` bytes from
/// `offset`.
pub open spec fn content_range(offset: u64, total: u64) -> Seq<char> {
    let last: nat = if total == 0 {
        0
    } else {
        (total - 1) as nat
    };
    "bytes "@ + decimal_text(offset as nat) + "-"@ + decimal_text(last) + "/"@ + decimal_text(
        total as nat,
    )
}

/// The headers of the answer to a request that can be answered.
pub open spec fn planned_headers(
    total: u64,
    mime: Seq<char>,
    range: RangeHeader,
    streaming: bool,
    features: bool,
) -> Seq<HeaderText> {
    let common = common_headers(mime, streaming, features);
    match asked_offset(range) {
        Some(offset) => common.push(
            ("Content-Length"@, decimal_text((total - offset) as nat)),
        ).push(("Content-Range"@, content_range(offset, total))),
        None => if range is Absent {
            common.push(("Content-Length"@, decimal_text(total as nat)))
        } else {
            common
        },
    }
}

/// The headers of a plan as plain text.
pub open spec fn header_texts(headers: Seq<(String, String)>) -> Seq<HeaderText> {
    Seq::new(headers.len(), |i: int| (headers[i].0@, headers[i].1@))
}

fn push_header(headers: &mut Vec<(String, String)>, name: &str, value: String)
    ensures
        header_texts(final(headers)@) == header_texts(old(headers)@).push((name@, value@)),
{
    headers.push((name.to_owned(), value));
    assert(header_texts(headers@) =~= header_texts(old(headers)@).push((name@, value@)));
}

/// Whether a request asks for the DLNA transfer mode that is served.
pub open spec fn asks_streaming(value: Option<Seq<char>>) -> bool {
    value == Some("Streaming"@) || value == Some("streaming"@)
}

/// Whether a request asks for the DLNA content features.
pub open spec fn asks_features(value: Option<Seq<char>>) -> bool {
    value == Some("1"@)
}

/// Plans the answer to a request for a file of `total` bytes. With an offset
/// the answer is partial: it starts there and says which bytes it holds. An
/// offset behind the end of the file cannot be sought.
pub fn plan_response(
    total: u64,
    mime: &str,
    range: &RangeHeader,
    transfer_mode: Option<&str>,
    content_features: Option<&str>,
) -> (r: Result<ResponsePlan, StreamError>)
    ensures
        match asked_offset(*range) {
            Some(offset) => if offset > total {
                r == Err::<ResponsePlan, StreamError>(StreamError::Seek)
            } else {
                r matches Ok(plan) && plan.status == 206 && plan.start == offset
            },
            None => r matches Ok(plan) && plan.status == 200 && plan.start == 0,
        },
        r matches Ok(plan) ==> header_texts(plan.headers@) == planned_headers(
            total,
            mime@,
            *range,
            asks_streaming(
                match transfer_mode {
                    Some(v) => Some(v@),
                    None => None,
                },
            ),
            asks_features(
                match content_features {
                    Some(v) => Some(v@),
                    None => None,
                },
            ),
        ),
{
    let mut headers: Vec<(String, String)> = Vec::new();
    assert(header_texts(headers@) =~= Seq::<HeaderText>::empty());
    push_header(&mut headers, "Accept-Ranges", "bytes".to_owned());
    assert(header_texts(headers@) =~= seq![("Accept-Ranges"@, "bytes"@)]);
    let streaming = match transfer_mode {
        Some(v) => {
            let c = chars_of(v);
            crate::text::same_text(&c, &chars_of("Streaming")) || crate::text::same_text(
                &c,
                &chars_of("streaming"),
            )
        },
        None => false,
    };
    if streaming {
        push_header(&mut headers, "transferMode.dlna.org", "Streaming".to_owned());
    }
    let features = match content_features {
        Some(v) => crate::text::same_text(&chars_of(v), &chars_of("1")),
        None => false,
    };
    if features {
        push_header(&mut headers, "contentFeatures.dlna.org", "DLNA.ORG_OP=01".to_owned());
    }
    push_header(&mut headers, "Content-Type", mime.to_owned());
    let offset: Option<u64> = match range {
        RangeHeader::Value(v) => parse_range(v.as_str()),
        _ => None,
    };
    match offset {
        Some(offset) => {
            if offset > total {
                return Err(StreamError::Seek);
            }
            push_header(
                &mut headers,
                "Content-Length",
                string_of(&format_unsigned(total - offset)),
            );
            let mut value: Vec<char> = chars_of("bytes ");
            push_chars(&mut value, &format_unsigned(offset));
            push_text(&mut value, "-");
            push_chars(&mut value, &format_unsigned(if total == 0 { 0 } else { total - 1 }));
            push_text(&mut value, "/");
            push_chars(&mut value, &format_unsigned(total));
            push_header(&mut headers, "Content-Range", string_of(&value));
            Ok(ResponsePlan { status: 206, headers, start: offset })
        },
        None => {
            match range {
                RangeHeader::Absent => {
                    push_header(&mut headers, "Content-Length", string_of(&format_unsigned(total)));
                },
                _ => {},
            }
            Ok(ResponsePlan { status: 200, headers, start: 0 })
        },
    }
}

} // verus!
