//! Small helpers.

use crate::text::{chars_of, string_of};
use vstd::prelude::*;

verus! {

/// The name of a type without the path before it. The name is read from the
/// left: each `::` starts a new piece, and the first `<` ends the search, so
/// that the arguments of a generic type keep their paths. What is returned
/// runs from the start of the piece that the search ended in to the end of
/// the name.
pub open spec fn trimmed(full: Seq<char>, at: int, start: int) -> Seq<char>
    decreases full.len() - at,
{
    if at < 0 || at >= full.len() || start < 0 || start > at {
        if 0 <= start <= full.len() {
            full.subrange(start, full.len() as int)
        } else {
            full
        }
    } else if full[at] == '<' {
        full.subrange(start, full.len() as int)
    } else if full[at] == ':' && at + 1 < full.len() && full[at + 1] == ':' {
        trimmed(full, at + 2, at + 2)
    } else {
        trimmed(full, at + 1, start)
    }
}

/// Trims the path from the name of a type.
pub fn trimmed_name(full: &str) -> (r: String)
    ensures
        r@ == trimmed(full@, 0, 0),
{
    let s = chars_of(full);
    let mut at: usize = 0;
    let mut start: usize = 0;
    while at < s.len() && s[at] != '<'
        invariant
            start <= at <= s.len(),
            trimmed(s@, 0, 0) == trimmed(s@, at as int, start as int),
        decreases s.len() - at,
    {
        if s[at] == ':' && at + 1 < s.len() && s[at + 1] == ':' {
            at = at + 2;
            start = at;
        } else {
            at = at + 1;
        }
    }
    let mut out: Vec<char> = Vec::new();
    let mut i: usize = start;
    while i < s.len()
        invariant
            start <= i <= s.len(),
            out@ == s@.subrange(start as int, i as int),
        decreases s.len() - i,
    {
        out.push(s[i]);
        i += 1;
    }
    string_of(&out)
}

/// A value kept out of debug output.
#[derive(Clone, Copy, PartialEq, Eq, Hash)]
pub struct NoDebug<T> {
    inner: T,
}

impl<T> NoDebug<T> {
    /// The value that is kept.
    pub closed spec fn view(&self) -> T {
        self.inner
    }

    /// Wraps a value.
    pub fn new(value: T) -> (r: NoDebug<T>)
        ensures
            r@ == value,
    {
        NoDebug { inner: value }
    }

    /// Hands the value out.
    pub fn into_inner(value: NoDebug<T>) -> (r: T)
        ensures
            r == value@,
    {
        value.inner
    }

    /// The value, borrowed.
    pub fn get(&self) -> (r: &T)
        ensures
            *r == self@,
    {
        &self.inner
    }
}

/// A direction of layout.
#[derive(Debug, Clone, Copy, PartialEq, Eq, Structural)]
pub enum Axis {
    Horizontal,
    Vertical,
}

impl Axis {
    /// The other direction.
    pub open spec fn inverted(self) -> Axis {
        match self {
            Axis::Horizontal => Axis::Vertical,
            Axis::Vertical => Axis::Horizontal,
        }
    }

    /// The other direction.
    pub fn invert(self) -> (r: Axis)
        ensures
            r == self.inverted(),
    {
        match self {
            Axis::Horizontal => Axis::Vertical,
            Axis::Vertical => Axis::Horizontal,
        }
    }
}

/// Inverting a direction twice gives it back.
pub proof fn lemma_invert_twice(axis: Axis)
    ensures
        axis.inverted().inverted() == axis,
{
}

} // verus!
