//! What is shown of the playback to others: the decisions, not the sending.

use crate::number::{decimal_text, format_unsigned};
use crate::text::{chars_of, push_chars, push_text, string_of};
use vstd::prelude::*;

verus! {

/// A change of what is shown.
#[derive(Debug, Clone)]
pub enum UpdatePresence {
    /// Nothing is played any more.
    Clear,
    /// Another show or episode is played.
    Show { title: String, thumb_url: Option<String>, episode_idx: Option<u32> },
    /// The player reports where it is.
    Timestamp { timestamp_secs: u32, remaining_secs: u32 },
}

/// What is sent after a change.
#[derive(Debug, Clone, Copy, PartialEq, Eq, Structural)]
pub enum PresenceAction {
    /// Take the activity down.
    Clear,
    /// Show the activity as the state describes it.
    Transmit,
}

/// What is shown at the moment.
#[derive(Debug, Clone)]
pub struct PresenceState {
    pub title: String,
    pub thumb_url: Option<String>,
    /// The line below the title: the title, and the episode where known.
    pub episode: String,
    pub timestamp_secs: u32,
    pub remaining_secs: u32,
    /// How many reports in a row showed the same time left.
    pub paused_count: u32,
}

/// The line below the title: the title itself, followed by the number of the
/// episode, counted from 1, where the episode is known.
pub open spec fn episode_line(title: Seq<char>, episode_idx: Option<u32>) -> Seq<char> {
    match episode_idx {
        Some(e) => title + " \u{2022} Episode "@ + decimal_text((e + 1) as nat),
        None => title,
    }
}

/// The number of equal reports after a report: one more where the time left
/// has not changed, held at the largest number; none where it has.
pub open spec fn paused_after(count: u32, was: u32, now: u32) -> u32 {
    if was == now {
        if count == u32::MAX {
            count
        } else {
            (count + 1) as u32
        }
    } else {
        0
    }
}

impl PresenceState {
    /// Nothing shown yet.
    pub fn new() -> (s: PresenceState)
        ensures
            s.title@.len() == 0,
            s.thumb_url is None,
            s.episode@.len() == 0,
            s.timestamp_secs == 0,
            s.remaining_secs == 0,
            s.paused_count == 0,
    {
        PresenceState {
            title: String::new(),
            thumb_url: None,
            episode: String::new(),
            timestamp_secs: 0,
            remaining_secs: 0,
            paused_count: 0,
        }
    }

    /// Takes a change in and says what to send. A playback whose time left
    /// stays the same for more than five reports counts as paused and is
    /// taken down.
    pub fn apply(&mut self, change: UpdatePresence) -> (action: PresenceAction)
        ensures
            match change {
                UpdatePresence::Clear => action == PresenceAction::Clear && *final(self) == *old(self),
                UpdatePresence::Show { title, thumb_url, episode_idx } => action
                    == PresenceAction::Transmit && final(self).title == title && final(self).thumb_url == thumb_url && final(self).episode@ == episode_line(
                    title@,
                    episode_idx,
                ) && final(self).paused_count == 0 && final(self).timestamp_secs == old(self).timestamp_secs && final(self).remaining_secs == old(self).remaining_secs,
                UpdatePresence::Timestamp { timestamp_secs, remaining_secs } => final(self).paused_count == paused_after(
                    old(self).paused_count,
                    old(self).remaining_secs,
                    remaining_secs,
                ) && final(self).timestamp_secs == timestamp_secs && final(self).remaining_secs
                    == remaining_secs && final(self).title == old(self).title && final(self).thumb_url == old(self).thumb_url && final(self).episode == old(self).episode
                    && action == if final(self).paused_count > 5 {
                    PresenceAction::Clear
                } else {
                    PresenceAction::Transmit
                },
            },
    {
        match change {
            UpdatePresence::Clear => PresenceAction::Clear,
            UpdatePresence::Show { title, thumb_url, episode_idx } => {
                let mut line: Vec<char> = chars_of(title.as_str());
                match episode_idx {
                    Some(e) => {
                        push_text(&mut line, " \u{2022} Episode ");
                        push_chars(&mut line, &format_unsigned(e as u64 + 1));
                    },
                    None => {},
                }
                self.episode = string_of(&line);
                self.title = title;
                self.thumb_url = thumb_url;
                self.paused_count = 0;
                PresenceAction::Transmit
            },
            UpdatePresence::Timestamp { timestamp_secs, remaining_secs } => {
                if self.remaining_secs == remaining_secs {
                    if self.paused_count < u32::MAX {
                        self.paused_count = self.paused_count + 1;
                    }
                } else {
                    self.paused_count = 0;
                }
                self.remaining_secs = remaining_secs;
                self.timestamp_secs = timestamp_secs;
                if self.paused_count > 5 {
                    PresenceAction::Clear
                } else {
                    PresenceAction::Transmit
                }
            },
        }
    }
}

/// The start and the end of the activity in milliseconds since the start of
/// 1970, for a playback that is `timestamp_secs` in and has `remaining_secs`
/// left at the moment `now_secs`. `None` where the start would lie before
/// 1970 or the end beyond what 63 bits hold.
pub open spec fn window_of(now_secs: u64, timestamp_secs: u32, remaining_secs: u32) -> Option<
    (i64, i64),
> {
    let start = now_secs * 1000 - timestamp_secs * 1000;
    let end = now_secs * 1000 + remaining_secs * 1000;
    if start >= 0 && end <= i64::MAX {
        Some((start as i64, end as i64))
    } else {
        None
    }
}

/// Computes `window_of`.
pub fn activity_window(now_secs: u64, timestamp_secs: u32, remaining_secs: u32) -> (r: Option<
    (i64, i64),
>)
    ensures
        r == window_of(now_secs, timestamp_secs, remaining_secs),
{
    let now: u128 = now_secs as u128 * 1000;
    let past: u128 = timestamp_secs as u128 * 1000;
    let left: u128 = remaining_secs as u128 * 1000;
    if past > now || now + left > i64::MAX as u128 {
        None
    } else {
        Some(((now - past) as i64, (now + left) as i64))
    }
}

} // verus!
