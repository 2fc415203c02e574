use monsoon::category::{AnimeKind, MediaCategory};
use monsoon::nyaa::{SearchQuery, SearchResponse};
use monsoon::scrape::{
    count_in_info, items_of_page, magnitude, parse_count, parse_icon_category, result_count,
    rows_of_page, RawRow,
};

fn row(icon: &str, title: &str, size: &str, seeders: &str) -> String {
    format!(
        "<tr class=\"default\"><td><a href=\"{icon}\" title=\"Anime\"><img src=\"x.png\"></a></td>\
<td colspan=\"2\"><a href=\"/view/1#comments\" class=\"comments\">2</a><a href=\"/view/1\" title=\"{title}\">shown</a></td>\
<td class=\"text-center\"><a href=\"/download/1.torrent\"><i></i></a><a href=\"magnet:?xt=urn:btih:abc\"><i></i></a></td>\
<td class=\"text-center\">{size}</td><td class=\"text-center\">2024-01-01 00:00</td>\
<td class=\"text-center\">{seeders}</td><td class=\"text-center\">3</td><td class=\"text-center\">1234</td></tr>"
    )
}

fn page(info: &str, rows: &[String]) -> String {
    format!(
        "<html><head></head><body><div class=\"pagination-page-info\">{info}</div>\
<table class=\"torrent-list\"><thead><tr><th>h</th></tr></thead><tbody>{}</tbody></table></body></html>",
        rows.concat()
    )
}

#[test]
fn items_are_read_from_rows() {
    let doc = page(
        "Displaying results 1-2 out of 2 results.",
        &[
            row("/?c=1_2", "[Grp] Show - 01 [1080p].mkv", "420.0 MiB", "50"),
            row("/?c=1_4", "Show raw", "1.6 GiB", "many"),
        ],
    );
    let items = items_of_page(&doc, "https://nyaa.si");
    assert_eq!(items.len(), 2);
    let a = &items[0];
    assert_eq!(a.title, "[Grp] Show - 01 [1080p].mkv");
    assert_eq!(a.category, MediaCategory::Anime(Some(AnimeKind::SubEnglish)));
    assert_eq!(a.magnet_link, "magnet:?xt=urn:btih:abc");
    assert_eq!(a.torrent_file_link, "https://nyaa.si/download/1.torrent");
    assert_eq!(a.size, Ok(420 * 1024 * 1024));
    assert_eq!(a.date, "2024-01-01 00:00");
    assert_eq!((a.seeders, a.leechers, a.downloads), (50, 3, 1234));
    let b = &items[1];
    assert_eq!(b.category, MediaCategory::Anime(Some(AnimeKind::Raw)));
    assert_eq!(b.seeders, 0);
    assert_eq!(b.size, Ok(1717986918));
}

#[test]
fn unreadable_size_is_kept_as_text() {
    let doc = page("", &[row("/?c=1_2", "Show", "a lot", "5")]);
    let items = items_of_page(&doc, "u");
    assert_eq!(items.len(), 1);
    assert_eq!(items[0].size, Err("a lot".to_string()));
}

#[test]
fn rows_without_a_category_give_no_item() {
    let doc = page(
        "",
        &[
            row("/?c=9_9", "Bad category", "1 MiB", "5"),
            row("/?c=1_2", "Good", "1 MiB", "5"),
            "<tr><td>only one cell</td></tr>".to_string(),
        ],
    );
    let rows = rows_of_page(&doc);
    assert_eq!(rows.len(), 3);
    assert_eq!(rows[2].title, None);
    let items = items_of_page(&doc, "u");
    assert_eq!(items.len(), 1);
    assert_eq!(items[0].title, "Good");
}

#[test]
fn result_count_is_the_sixth_word() {
    let doc = page("Displaying results 1-75 out of 1000 results.", &[]);
    assert_eq!(result_count(&doc), 1000);
    assert_eq!(result_count("<html><body></body></html>"), 7500);
    assert_eq!(count_in_info(Some("one two three")), 7500);
    assert_eq!(count_in_info(Some("a b c d e f g")), 7500);
    assert_eq!(count_in_info(Some("a b c d e 12 g")), 12);
    assert_eq!(count_in_info(None), 7500);
}

#[test]
fn first_page_plans_the_pages() {
    let doc = page(
        "Displaying results 1-75 out of 1000 results.",
        &[row("/?c=1_2", "Show", "1 MiB", "5")],
    );
    let mut q = SearchQuery::default();
    let r = SearchResponse::first_page(&doc, &q, "u");
    assert_eq!((r.last_page, r.last_read_page), (14, 14));
    assert_eq!(r.results.len(), 1);
    q.max_page_idx = Some(5);
    let mut r = SearchResponse::first_page(&doc, &q, "u");
    assert_eq!((r.last_page, r.last_read_page), (14, 5));
    assert!(r.wants_page(1));
    assert!(r.wants_page(4));
    assert!(!r.wants_page(5));
    r.add_page(&doc, "u");
    assert_eq!(r.results.len(), 2);
    assert_eq!((r.last_page, r.last_read_page), (14, 5));
    let exact = page("Displaying results 1-75 out of 150 results.", &[]);
    let r = SearchResponse::first_page(&exact, &q, "u");
    assert_eq!((r.last_page, r.last_read_page), (2, 2));
    let none = page("Displaying results 0-0 out of 0 results.", &[]);
    let r = SearchResponse::first_page(&none, &q, "u");
    assert_eq!((r.last_page, r.last_read_page), (0, 0));
    assert!(!r.wants_page(0));
}

#[test]
fn columns_are_read_leniently() {
    assert_eq!(parse_count("50"), 50);
    assert_eq!(parse_count("-1"), 0);
    assert_eq!(parse_count("4294967295"), u32::MAX);
    assert_eq!(parse_count("4294967296"), 0);
    assert_eq!(parse_icon_category("/?c=1_2"), Some(MediaCategory::Anime(Some(AnimeKind::SubEnglish))));
    assert_eq!(parse_icon_category("/?a=b&c=0_0"), Some(MediaCategory::All));
    assert_eq!(parse_icon_category("/?c=1"), None);
    assert_eq!(parse_icon_category("1_1"), Some(MediaCategory::Anime(Some(AnimeKind::MusicVideo))));
    assert_eq!(magnitude(-5), 5);
    assert_eq!(magnitude(i64::MIN), 1u64 << 63);
    assert_eq!(magnitude(i64::MAX), i64::MAX as u64);
}

#[test]
fn a_row_needs_every_text() {
    let full = RawRow {
        icon_href: Some("/?c=1_2".to_string()),
        title: Some("T".to_string()),
        magnet: Some("m".to_string()),
        torrent_href: Some("/t".to_string()),
        size: Some("1 KiB".to_string()),
        date: Some("d".to_string()),
        seeders: Some("1".to_string()),
        leechers: Some("2".to_string()),
        downloads: Some("3".to_string()),
    };
    let item = full.read("http://x").unwrap();
    assert_eq!(item.size, Ok(1024));
    assert_eq!(item.torrent_file_link, "http://x/t");
    let item = full.into_item("http://x", Some(-7)).unwrap();
    assert_eq!(item.size, Ok(7));
    let item = full.into_item("http://x", None).unwrap();
    assert_eq!(item.size, Err("1 KiB".to_string()));
    let mut missing = full.clone();
    missing.date = None;
    assert!(missing.read("http://x").is_none());
    let mut missing = full.clone();
    missing.size = None;
    assert!(missing.read("http://x").is_none());
}
