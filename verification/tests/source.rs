use monsoon::category::MediaCategory;
use monsoon::nyaa::Item;
use monsoon::source::{
    assess, build_queries, judge, select, Config, Limits, NoCandidate, Nyaa, QueryItem,
    QueryWithMeta, Rejection, Selection, SourceKind,
};

const MIB: u64 = 1024 * 1024;

fn item(title: &str, size: u64, seeders: u32) -> Item {
    Item {
        seeders,
        leechers: 0,
        downloads: 0,
        category: MediaCategory::All,
        magnet_link: format!("magnet:{title}"),
        torrent_file_link: String::new(),
        title: title.to_string(),
        size: Ok(size),
        date: String::new(),
    }
}

fn limits() -> Limits {
    Limits { min_seeders: 5, max_size: 900 * MIB, preferred_size: 400 * MIB }
}

fn candidate(name: &str) -> QueryItem {
    QueryItem { source: SourceKind::Nyaa, name: name.to_string(), file_size: None, media: item(name, 0, 0) }
}

#[test]
fn default_config() {
    let c = Config::default();
    assert_eq!((c.min_seeders, c.max_size, c.preferred_size), (5, 900 * MIB, 400 * MIB));
    assert_eq!(c.nyaa.instance_url, "https://nyaa.si");
    assert_eq!(c.nyaa.timeout, None);
}

#[test]
fn limits_scale_with_the_show() {
    let c = Config::default();
    assert_eq!(c.limits(Some(12), false), limits());
    assert_eq!(
        c.limits(Some(12), true),
        Limits { min_seeders: 5, max_size: 12 * 900 * MIB, preferred_size: 12 * 400 * MIB }
    );
    assert_eq!(c.limits(None, true), limits());
    assert_eq!(
        c.limits(Some(1), false),
        Limits { min_seeders: 5, max_size: 9000 * MIB, preferred_size: 4000 * MIB }
    );
    assert_eq!(
        c.limits(Some(1), true),
        Limits { min_seeders: 5, max_size: 9000 * MIB, preferred_size: 4000 * MIB }
    );
    let big = Config { max_size: u64::MAX / 2, ..Config::default() };
    assert_eq!(big.limits(Some(3), true).max_size, u64::MAX);
}

#[test]
fn the_four_forms_of_a_query() {
    let q = |season, episode| QueryWithMeta::build("Show", season, episode);
    let a = q(None, None);
    assert_eq!((a.query.query.as_str(), a.has_season, a.has_episode), ("Show", false, false));
    let a = q(Some(1), None);
    assert_eq!((a.query.query.as_str(), a.has_season, a.has_episode), ("Show", false, false));
    let a = q(None, Some(4));
    assert_eq!((a.query.query.as_str(), a.has_season, a.has_episode), ("Show - 05 E05", false, true));
    let a = q(Some(2), None);
    assert_eq!((a.query.query.as_str(), a.has_season, a.has_episode), ("Show S02", true, false));
    let a = q(Some(1), Some(0));
    assert_eq!((a.query.query.as_str(), a.has_season, a.has_episode), ("Show S01E01", true, true));
    let a = q(Some(12), Some(99));
    assert_eq!(a.query.query, "Show S12E100");
    assert_eq!(a.used_name, "Show");
    assert_eq!(a.query.max_page_idx, Some(5));
    assert_eq!(a.query.query_string(0), "q=Show S12E100&c=1_2&f=0&p=0&s=id&o=desc&u=");
    let a = q(None, Some(u32::MAX));
    assert_eq!(a.query.query, "Show - 4294967296 E4294967296");
}

#[test]
fn only_ascii_names_are_searched() {
    let names = vec!["Sousou no Frieren".to_string(), "葬送のフリーレン".to_string(), "Frieren".to_string()];
    let qs = build_queries(&names, Some(1), Some(0));
    assert_eq!(qs.len(), 2);
    assert_eq!(qs[0].query.query, "Sousou no Frieren S01E01");
    assert_eq!(qs[1].used_name, "Frieren");
    assert!(build_queries(&vec![], None, None).is_empty());
}

#[test]
fn each_rejection() {
    let q = QueryWithMeta::build("Show", None, Some(0));
    let l = limits();
    assert_eq!(assess(&item("Show - 01", 100 * MIB, 4), &q, &l, false, true), Err(Rejection::FewSeeders));
    assert_eq!(assess(&item("Show - 01", 901 * MIB, 5), &q, &l, false, true), Err(Rejection::TooLarge));
    let mut unknown = item("Show - 01", 0, 5);
    unknown.size = Err("?".to_string());
    assert_eq!(assess(&unknown, &q, &l, false, true), Err(Rejection::TooLarge));
    assert_eq!(assess(&item("Other - 01", 100 * MIB, 5), &q, &l, false, true), Err(Rejection::NameMissing));
    assert_eq!(
        assess(&item("Show Season 2 - 01", 100 * MIB, 5), &q, &l, false, true),
        Err(Rejection::SeasonMentioned)
    );
    assert_eq!(assess(&item("Show - 01", 100 * MIB, 5), &q, &l, true, true), Err(Rejection::SingleEpisode));
    assert_eq!(assess(&item("Show - 01", 9, 5), &q, &l, false, true), Err(Rejection::Unscorable));
    assert_eq!(assess(&item("Show - 01", 900 * MIB, 5), &q, &l, false, true), Ok(5 - 75));
    assert_eq!(assess(&item("Show - 01", 0, 5), &q, &l, false, true), Ok(i64::MAX));
    assert_eq!(assess(&item("Show batch", 100 * MIB, 5), &q, &l, true, false), Ok(-30 - 75));
}

#[test]
fn a_season_in_the_query_or_the_name_allows_seasons() {
    let l = limits();
    let it = item("Show Season 2 - 01", 400 * MIB, 5);
    let with_season = QueryWithMeta::build("Show", Some(2), Some(0));
    assert_eq!(assess(&it, &with_season, &l, false, true), Ok(-75));
    let name_has_it = QueryWithMeta::build("Show Season 2", None, Some(0));
    assert_eq!(assess(&it, &name_has_it, &l, false, true), Ok(-75));
}

#[test]
fn judging_parses_the_title() {
    let l = limits();
    let q = QueryWithMeta::build("Toradora", Some(1), None);
    let single = item("[TaigaSubs] Toradora! - 01 [1280x720].mkv", 400 * MIB, 10);
    assert_eq!(judge(&single, &q, &l, true), Err(Rejection::SingleEpisode));
    assert_eq!(judge(&single, &q, &l, false), Ok(-150));
    let batch = item("Toradora!", 400 * MIB, 10);
    assert_eq!(judge(&batch, &q, &l, true), Ok(-150));
}

#[test]
fn scenario_large_item_is_filtered() {
    let q = QueryWithMeta::build("Show", Some(1), Some(0));
    let a = item("[Grp] Show - 01", 420 * MIB, 50);
    let b = item("[Grp] Show - 01 (BD)", 1638 * MIB, 5);
    let ranked = Nyaa::rank(vec![(q, vec![b, a])], &limits(), false);
    assert_eq!(ranked.len(), 1);
    assert_eq!(ranked[0].name, "[Grp] Show - 01");
    assert_eq!(ranked[0].file_size, Some(420 * MIB));
    assert_eq!(ranked[0].source, SourceKind::Nyaa);
    assert_eq!(ranked[0].media.magnet_link, "magnet:[Grp] Show - 01");
}

#[test]
fn ranking_is_by_score_and_ties_by_discovery() {
    let q1 = QueryWithMeta::build("Show", Some(1), Some(0));
    let q2 = QueryWithMeta::build("Shou", Some(1), Some(0));
    let r = vec![
        (q1, vec![item("Show a", 400 * MIB, 10), item("Show b", 400 * MIB, 30), item("Show c", 400 * MIB, 20)]),
        (q2, vec![item("Shou d", 400 * MIB, 10), item("Show e", 400 * MIB, 99), item("Shou f", 0, 7)]),
    ];
    let ranked = Nyaa::rank(r, &limits(), false);
    let names: Vec<&str> = ranked.iter().map(|c| c.name.as_str()).collect();
    assert_eq!(names, vec!["Show b", "Show c", "Show a", "Shou d", "Shou f"]);
    assert!(Nyaa::rank(vec![], &limits(), false).is_empty());
}

#[test]
fn two_results_of_one_score_are_both_kept() {
    let config = Config { min_seeders: 5, max_size: 943718400, preferred_size: 419430400, ..Config::default() };
    let mut show = monsoon::show::Show::new();
    show.add_name(monsoon::show::NameKind::English, "X".to_string());
    show.num_episodes = Some(12);
    let plan = Nyaa::plan(&show, &config, Some(0));
    let mut found = vec![item("X - 01 [a]", 419430400, 10), item("X - 01 [b]", 419430400, 10)];
    let responses: Vec<_> = plan.queries.into_iter().map(|q| (q, std::mem::take(&mut found))).collect();
    let ranked = Nyaa::rank(responses, &plan.limits, plan.is_batch);
    let names: Vec<&str> = ranked.iter().map(|c| c.name.as_str()).collect();
    assert_eq!(names, vec!["X - 01 [a]", "X - 01 [b]"]);
}

#[test]
fn inspection_then_ranking() {
    let q = QueryWithMeta::build("Toradora", Some(1), None);
    let seen = Nyaa::inspect(vec![(
        q,
        vec![item("[TaigaSubs] Toradora! - 01 [1280x720].mkv", 400 * MIB, 10), item("Toradora!", 400 * MIB, 10)],
    )]);
    assert_eq!(seen.len(), 1);
    let flags: Vec<bool> = seen[0].1.iter().map(|e| e.1).collect();
    assert_eq!(flags, vec![true, false]);
    let ranked = Nyaa::rank_inspected(seen.clone(), &limits(), false);
    assert_eq!(ranked.len(), 2);
    assert_eq!(ranked[0].name, "[TaigaSubs] Toradora! - 01 [1280x720].mkv");
    let ranked = Nyaa::rank_inspected(seen, &limits(), true);
    assert_eq!(ranked.len(), 1);
    assert_eq!(ranked[0].name, "Toradora!");
    let q = QueryWithMeta::build("Show", None, None);
    let forced = vec![(q, vec![(item("Show", 400 * MIB, 5), true), (item("Show 2", 400 * MIB, 6), false)])];
    let ranked = Nyaa::rank_inspected(forced, &limits(), true);
    assert_eq!(ranked.len(), 1);
    assert_eq!(ranked[0].name, "Show 2");
}

#[test]
fn titles_with_other_characters_are_parsed_too() {
    let q = QueryWithMeta::build("Frieren", Some(1), Some(0));
    let it = item("[Grp] Frieren 葬送のフリーレン - 01 [1080p].mkv", 400 * MIB, 10);
    assert_eq!(judge(&it, &q, &limits(), false), Ok(-150));
    let ranked = Nyaa::rank(vec![(q, vec![it])], &limits(), false);
    assert_eq!(ranked.len(), 1);
}

#[test]
fn scenario_batch_is_the_fallback() {
    let c = candidate("C");
    let picked = select(vec![], vec![c.clone(), candidate("D")]).unwrap();
    assert_eq!(picked.name, "C");
    let picked = select(vec![candidate("E")], vec![c]).unwrap();
    assert_eq!(picked.name, "E");
    assert_eq!(select(vec![], vec![]).err(), Some(NoCandidate));
}

#[test]
fn selection_step_by_step() {
    match Selection::after_episode_search(vec![candidate("E"), candidate("F")]) {
        Selection::Chosen(c) => assert_eq!(c.name, "E"),
        Selection::NeedBatch => panic!("a candidate was there"),
    }
    assert!(matches!(Selection::after_episode_search(vec![]), Selection::NeedBatch));
    assert_eq!(Selection::after_batch_search(vec![candidate("C")]).unwrap().name, "C");
    assert_eq!(Selection::after_batch_search(vec![]).err(), Some(NoCandidate));
}

#[test]
fn the_plan_of_a_search() {
    let mut show = monsoon::show::Show::new();
    show.add_name(monsoon::show::NameKind::English, "Show Season 2".to_string());
    show.add_name(monsoon::show::NameKind::Native, "ショー".to_string());
    show.num_episodes = Some(12);
    let plan = Nyaa::plan(&show, &Config::default(), Some(2));
    assert!(!plan.is_batch);
    assert_eq!(plan.limits, limits());
    assert_eq!(plan.queries.len(), 1);
    assert_eq!(plan.queries[0].query.query, "Show Season 2 S02E03");
    let plan = Nyaa::plan(&show, &Config::default(), None);
    assert!(plan.is_batch);
    assert_eq!(plan.limits.max_size, 12 * 900 * MIB);
    assert_eq!(plan.queries[0].query.query, "Show Season 2 S02");
    assert!(plan.queries[0].has_season && !plan.queries[0].has_episode);
}
