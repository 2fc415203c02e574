use monsoon::presence::{activity_window, PresenceAction, PresenceState, UpdatePresence};

#[test]
fn a_show_is_shown_with_its_episode() {
    let mut s = PresenceState::new();
    let a = s.apply(UpdatePresence::Show {
        title: "Show".to_string(),
        thumb_url: Some("https://x/y.png".to_string()),
        episode_idx: Some(4),
    });
    assert_eq!(a, PresenceAction::Transmit);
    assert_eq!(s.title, "Show");
    assert_eq!(s.episode, "Show • Episode 5");
    assert_eq!(s.thumb_url.as_deref(), Some("https://x/y.png"));
    let a = s.apply(UpdatePresence::Show { title: "Film".to_string(), thumb_url: None, episode_idx: None });
    assert_eq!(a, PresenceAction::Transmit);
    assert_eq!(s.episode, "Film");
    assert_eq!(s.thumb_url, None);
    s.apply(UpdatePresence::Show { title: "T".to_string(), thumb_url: None, episode_idx: Some(u32::MAX) });
    assert_eq!(s.episode, "T • Episode 4294967296");
}

#[test]
fn a_paused_playback_is_taken_down() {
    let mut s = PresenceState::new();
    s.apply(UpdatePresence::Show { title: "Show".to_string(), thumb_url: None, episode_idx: None });
    let report = |s: &mut PresenceState, ts, rem| {
        s.apply(UpdatePresence::Timestamp { timestamp_secs: ts, remaining_secs: rem })
    };
    assert_eq!(report(&mut s, 1, 100), PresenceAction::Transmit);
    assert_eq!(s.paused_count, 0);
    for n in 1..=5 {
        assert_eq!(report(&mut s, 1, 100), PresenceAction::Transmit);
        assert_eq!(s.paused_count, n);
    }
    assert_eq!(report(&mut s, 1, 100), PresenceAction::Clear);
    assert_eq!(report(&mut s, 1, 100), PresenceAction::Clear);
    assert_eq!(report(&mut s, 2, 99), PresenceAction::Transmit);
    assert_eq!((s.timestamp_secs, s.remaining_secs, s.paused_count), (2, 99, 0));
    assert_eq!(s.apply(UpdatePresence::Clear), PresenceAction::Clear);
    assert_eq!(s.title, "Show");
    s.paused_count = u32::MAX;
    assert_eq!(report(&mut s, 2, 99), PresenceAction::Clear);
    assert_eq!(s.paused_count, u32::MAX);
}

#[test]
fn a_new_state_after_nothing_was_left() {
    let mut s = PresenceState::new();
    let a = s.apply(UpdatePresence::Timestamp { timestamp_secs: 5, remaining_secs: 0 });
    assert_eq!(a, PresenceAction::Transmit);
    assert_eq!(s.paused_count, 1);
}

#[test]
fn the_window_of_an_activity() {
    assert_eq!(activity_window(1_700_000_000, 60, 120), Some((1_699_999_940_000, 1_700_000_120_000)));
    assert_eq!(activity_window(10, 11, 0), None);
    assert_eq!(activity_window(10, 10, 0), Some((0, 10_000)));
    assert_eq!(activity_window(u64::MAX, 0, 0), None);
    assert_eq!(activity_window(9_223_372_036_854_775, 0, 0), Some((9_223_372_036_854_775_000, 9_223_372_036_854_775_000)));
    assert_eq!(activity_window(9_223_372_036_854_775, 0, 1), None);
}
