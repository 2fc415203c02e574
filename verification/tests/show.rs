use monsoon::category::{AnimeKind, MediaCategory};
use monsoon::config::{Config, PlayerConfig, SourceType};
use monsoon::nyaa::{Filter, Sort, SortBy, SortOrder};
use monsoon::show::{
    find_season, insert_name, name_season, order_texts, parse_season, EpochInstant, NameKind,
    RelationId, Show, ShowId, Sign, WatchEvent, WatchEventType,
};

fn cv(s: &str) -> Vec<char> {
    s.chars().collect()
}

fn named(names: &[(NameKind, &str)]) -> Show {
    let mut s = Show::new();
    for (k, n) in names {
        s.add_name(*k, n.to_string());
    }
    s
}

#[test]
fn words_that_name_a_season() {
    assert_eq!(parse_season("2"), Some(2));
    assert_eq!(parse_season("0"), Some(0));
    assert_eq!(parse_season("14"), Some(14));
    assert_eq!(parse_season("15"), None);
    assert_eq!(parse_season("2024"), None);
    assert_eq!(parse_season("second"), Some(2));
    assert_eq!(parse_season("ten"), Some(10));
    assert_eq!(parse_season("tenth"), Some(10));
    assert_eq!(parse_season("eleven"), None);
    assert_eq!(parse_season("Second"), None);
    assert_eq!(parse_season(""), None);
}

#[test]
fn season_in_the_words_of_a_name() {
    let w = |s: &str| s.split(' ').map(String::from).collect::<Vec<_>>();
    assert_eq!(find_season(&w("show 2")), Some(2));
    assert_eq!(find_season(&w("show season 3 part two")), Some(2));
    assert_eq!(find_season(&w("show season three extra")), Some(3));
    assert_eq!(find_season(&w("show season of the 4 winds")), Some(4));
    assert_eq!(find_season(&w("2 show")), None);
    assert_eq!(find_season(&w("show")), None);
    assert_eq!(find_season(&vec![]), None);
}

#[test]
fn season_of_a_name() {
    assert_eq!(name_season(&(NameKind::English, "Show SEASON Two Extra".to_string())), Some(2));
    assert_eq!(name_season(&(NameKind::Romaji, "Show 3".to_string())), Some(3));
    assert_eq!(name_season(&(NameKind::Synonym, "Show 3".to_string())), None);
    assert_eq!(name_season(&(NameKind::Native, "Show 3".to_string())), None);
    assert_eq!(name_season(&(NameKind::English, "Show".to_string())), None);
}

#[test]
fn season_number_guess_of_a_show() {
    let mut s = named(&[(NameKind::Romaji, "Shou 2nd"), (NameKind::English, "Show Season 2"), (NameKind::Native, "3")]);
    assert_eq!(s.season_number_guess(), Some(2));
    let mut plain = named(&[(NameKind::English, "Show")]);
    assert_eq!(plain.season_number_guess(), Some(1));
    plain.relations.prequel = Some(RelationId::Anilist(5));
    assert_eq!(plain.season_number_guess(), None);
    s.relations.prequel = Some(RelationId::Local(ShowId(1)));
    assert_eq!(s.season_number_guess(), Some(2));
}

#[test]
fn names_stay_in_order() {
    let mut s = Show::new();
    assert!(s.add_name(NameKind::Native, "b".to_string()));
    assert!(s.add_name(NameKind::English, "z".to_string()));
    assert!(s.add_name(NameKind::English, "a".to_string()));
    assert!(s.add_name(NameKind::English, "ab".to_string()));
    assert!(!s.add_name(NameKind::English, "a".to_string()));
    assert!(s.add_name(NameKind::Romaji, "a".to_string()));
    let names: Vec<(NameKind, &str)> = s.names.iter().map(|n| (n.0, n.1.as_str())).collect();
    assert_eq!(
        names,
        vec![
            (NameKind::English, "a"),
            (NameKind::English, "ab"),
            (NameKind::English, "z"),
            (NameKind::Romaji, "a"),
            (NameKind::Native, "b"),
        ]
    );
    let mut v = Vec::new();
    assert!(insert_name(&mut v, NameKind::Synonym, "x".to_string()));
    assert!(!insert_name(&mut v, NameKind::Synonym, "x".to_string()));
    assert_eq!(v.len(), 1);
}

#[test]
fn texts_in_order() {
    assert_eq!(order_texts(&cv("a"), &cv("b")), Sign::Before);
    assert_eq!(order_texts(&cv("b"), &cv("a")), Sign::After);
    assert_eq!(order_texts(&cv("a"), &cv("ab")), Sign::Before);
    assert_eq!(order_texts(&cv("ab"), &cv("a")), Sign::After);
    assert_eq!(order_texts(&cv("ab"), &cv("ab")), Sign::Same);
    assert_eq!(order_texts(&cv(""), &cv("")), Sign::Same);
    assert_eq!(order_texts(&cv("Z"), &cv("a")), Sign::Before);
    for (a, b) in [("abc", "abd"), ("", "a"), ("é", "z"), ("z", "é"), ("same", "same")] {
        let expected = match a.cmp(b) {
            std::cmp::Ordering::Less => Sign::Before,
            std::cmp::Ordering::Equal => Sign::Same,
            std::cmp::Ordering::Greater => Sign::After,
        };
        assert_eq!(order_texts(&cv(a), &cv(b)), expected);
    }
}

#[test]
fn preferred_name() {
    let s = named(&[(NameKind::Romaji, "Shou"), (NameKind::English, "Show"), (NameKind::English, "A Show")]);
    let mut c = Config::default();
    assert_eq!(s.get_preferred_name(&c), "A Show");
    c.preferred_name_kind = NameKind::Romaji;
    assert_eq!(s.get_preferred_name(&c), "Shou");
    c.preferred_name_kind = NameKind::Native;
    assert_eq!(s.get_preferred_name(&c), "");
}

#[test]
fn episode_to_watch() {
    let mut s = Show::new();
    assert_eq!(s.episode_to_watch(), None);
    s.watched_episodes = vec![false];
    assert_eq!(s.episode_to_watch(), Some((0, None)));
    s.watched_episodes = vec![true];
    assert_eq!(s.episode_to_watch(), Some((0, None)));
    s.num_episodes = Some(4);
    assert_eq!(s.episode_to_watch(), None);
    s.watched_episodes = vec![false, false, false, false];
    assert_eq!(s.episode_to_watch(), Some((0, None)));
    s.watched_episodes = vec![true, true, false, false];
    assert_eq!(s.episode_to_watch(), Some((2, None)));
    s.watched_episodes = vec![true, false, true, false];
    assert_eq!(s.episode_to_watch(), Some((3, None)));
    s.watched_episodes = vec![true, true, true, true];
    assert_eq!(s.episode_to_watch(), None);
    s.watched_episodes = vec![false, false, false, true];
    assert_eq!(s.episode_to_watch(), None);
}

#[test]
fn the_last_pause_of_the_episode() {
    let mut s = Show::new();
    s.num_episodes = Some(3);
    s.watched_episodes = vec![true, false, false];
    let ev = |episode, ty| WatchEvent { episode, ty };
    assert_eq!(s.record_watch(EpochInstant(10, 0), ev(1, WatchEventType::Closed(Some(100)))), None);
    assert_eq!(s.record_watch(EpochInstant(5, 0), ev(1, WatchEventType::Closed(Some(50)))), None);
    assert_eq!(s.record_watch(EpochInstant(20, 0), ev(1, WatchEventType::Closed(None))), None);
    assert_eq!(s.record_watch(EpochInstant(30, 0), ev(0, WatchEventType::Closed(Some(7)))), None);
    assert_eq!(s.record_watch(EpochInstant(15, 5), ev(1, WatchEventType::Opened)), None);
    let moments: Vec<u64> = s.watch_history.iter().map(|e| e.0.secs()).collect();
    assert_eq!(moments, vec![5, 10, 15, 20, 30]);
    assert_eq!(s.episode_to_watch(), Some((1, Some(100))));
    assert_eq!(
        s.record_watch(EpochInstant(10, 0), ev(1, WatchEventType::Closed(Some(101)))),
        Some(ev(1, WatchEventType::Closed(Some(100))))
    );
    assert_eq!(s.watch_history.len(), 5);
    assert_eq!(s.episode_to_watch(), Some((1, Some(101))));
    assert!(EpochInstant(1, 9).is_before(EpochInstant(2, 0)));
    assert!(EpochInstant(1, 1).is_before(EpochInstant(1, 2)));
    assert!(!EpochInstant(1, 1).is_before(EpochInstant(1, 1)));
}

#[test]
fn configuration_defaults() {
    let c = Config::default();
    assert_eq!(c.default_source_type, SourceType::RqNyaa);
    assert_eq!(c.preferred_name_kind, NameKind::English);
    assert_eq!(c.player, PlayerConfig { max_remaining_to_complete: 120 });
    assert_eq!(c.db_path, None);
    assert!(c.player.completes(120, false));
    assert!(!c.player.completes(121, false));
    assert!(!c.player.completes(0, true));
    assert_eq!(NameKind::default(), NameKind::English);
    assert_eq!(NameKind::Native.to_rank(), 3);
}

#[test]
fn queries_for_an_episode_by_seeders() {
    let s = named(&[(NameKind::English, "Show Season 2"), (NameKind::Native, "ショー")]);
    let qs = s.nyaa_query_for(7, AnimeKind::SubEnglish);
    assert_eq!(qs.len(), 2);
    assert_eq!(qs[0].query, "Show Season 2 S02E07");
    assert_eq!(qs[1].query, "ショー S02E07");
    assert_eq!(qs[0].category, MediaCategory::Anime(Some(AnimeKind::SubEnglish)));
    assert_eq!(qs[0].filter, Filter::NoFilter);
    assert_eq!(qs[0].max_page_idx, Some(5));
    assert_eq!(qs[0].sort, Sort { by: SortBy::Seeders, order: SortOrder::Desc });
    assert_eq!(qs[0].user, None);
    let plain = named(&[(NameKind::English, "Show")]);
    assert_eq!(plain.nyaa_query_for(12, AnimeKind::Raw)[0].query, "Show S01E12");
    assert!(Show::new().nyaa_query_for(1, AnimeKind::Raw).is_empty());
}

#[test]
fn the_clock_shows_a_moment_after_2020() {
    let now = EpochInstant::now().unwrap();
    assert!(now.secs() > 1_577_836_800);
    assert!(now.1 < 1_000_000_000);
    let later = EpochInstant::now().unwrap();
    assert!(!later.is_before(now));
}

fn torrent_with(magnet: &str, episodes: &[u32]) -> monsoon::media::AnyMedia {
    monsoon::media::AnyMedia::Torrent(monsoon::media::TorrentMedia {
        files_for_episode_idx: episodes.iter().map(|e| (*e, 0)).collect(),
        magnet: magnet.to_string(),
        meta: monsoon::media::TorrentMeta {
            title: String::new(),
            magnet_source: None,
            seeders: 0,
            leechers: 0,
        },
    })
}

#[test]
fn the_media_cache_of_a_show() {
    let mut s = Show::new();
    assert_eq!(s.cached_source(0), None);
    assert!(!s.knows_media("m1"));
    assert!(s.cache_media(torrent_with("m1", &[0, 1])));
    assert!(s.cache_media(torrent_with("m2", &[1, 2])));
    assert!(!s.cache_media(torrent_with("m1", &[5])));
    assert_eq!(s.media_cache.len(), 2);
    assert!(s.knows_media("m2"));
    assert_eq!(s.cached_source(0), Some(0));
    assert_eq!(s.cached_source(1), Some(0));
    assert_eq!(s.cached_source(2), Some(1));
    assert_eq!(s.cached_source(5), None);
    s.watched_episodes = vec![false, false];
    assert!(s.set_watched(1, true));
    assert!(!s.set_watched(2, true));
    assert_eq!(s.watched_episodes, vec![false, true]);
    assert!(s.set_watched(1, false));
    assert_eq!(s.watched_episodes, vec![false, false]);
}

#[test]
fn shows_in_and_out_of_order() {
    let mut s = named(&[(NameKind::English, "b"), (NameKind::English, "a"), (NameKind::Native, "c")]);
    assert!(s.well_formed());
    s.names.swap(0, 1);
    assert!(!s.well_formed());
    s.names.swap(0, 1);
    s.names.push((NameKind::Native, "c".to_string()));
    assert!(!s.well_formed());
    s.names.pop();
    s.num_episodes = Some(0);
    assert!(!s.well_formed());
    s.num_episodes = Some(3);
    let ev = WatchEvent { episode: 0, ty: WatchEventType::Opened };
    s.watch_history = vec![(EpochInstant(2, 0), ev), (EpochInstant(1, 0), ev)];
    assert!(!s.well_formed());
    s.watch_history = vec![(EpochInstant(1, 0), ev), (EpochInstant(1, 1), ev)];
    assert!(s.well_formed());
    assert!(Show::new().well_formed());
}

#[test]
fn readings_of_the_clock() {
    assert_eq!(EpochInstant::from_reading(Some((5, 7))), Some(EpochInstant(5, 7)));
    assert_eq!(EpochInstant::from_reading(Some((0, 999_999_999))), Some(EpochInstant(0, 999_999_999)));
    assert_eq!(EpochInstant::from_reading(Some((5, 1_000_000_000))), None);
    assert_eq!(EpochInstant::from_reading(None), None);
    assert!(Show::new().thumbnail.is_none());
}
