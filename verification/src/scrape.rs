//! Reading the items and the result count out of a page of the index.

use crate::category::{pair_of_text, MediaCategory};
use crate::number::{parse_unsigned, unsigned_value};
use crate::nyaa::{Item, SearchQuery, SearchResponse};
use crate::text::{chars_of, opt_text, split, split_on, texts};
use vstd::prelude::*;

verus! {

/// The texts found in one row of the result table, each `None` where the row
/// lacks the element or the attribute.
#[derive(Debug, Clone)]
pub struct RawRow {
    /// Address behind the category icon.
    pub icon_href: Option<String>,
    pub title: Option<String>,
    pub magnet: Option<String>,
    /// Address of the torrent file, relative to the index.
    pub torrent_href: Option<String>,
    pub size: Option<String>,
    pub date: Option<String>,
    pub seeders: Option<String>,
    pub leechers: Option<String>,
    pub downloads: Option<String>,
}

/// What `size::Size`'s `FromStr` makes of a text: the number of bytes, or
/// `None` where it rejects the text.
pub uninterp spec fn size_in_bytes(text: Seq<char>) -> Option<i64>;

/// `str::parse::<size::Size>` followed by `Size::bytes`. The result depends on
/// the text alone; the crate reads a number, an optional unit and rejects the
/// rest.
#[verifier::external_body]
fn parse_size(text: &str) -> (r: Option<i64>)
    ensures
        r == size_in_bytes(text@),
{
    match text.parse::<size::Size>() {
        Ok(s) => Some(s.bytes()),
        Err(_) => None,
    }
}

/// The distance of `b` from zero.
pub open spec fn magnitude_of(b: i64) -> u64 {
    if b >= 0 {
        b as u64
    } else {
        (-(b as int)) as u64
    }
}

/// Computes `magnitude_of`.
pub fn magnitude(b: i64) -> (m: u64)
    ensures
        m == magnitude_of(b),
{
    if b >= 0 {
        b as u64
    } else if b == i64::MIN {
        9223372036854775808u64
    } else {
        (-b) as u64
    }
}

/// The number that a count column holds: what the text writes as an unsigned
/// 32-bit number, and 0 for any other text.
pub open spec fn count_of_text(s: Seq<char>) -> u32 {
    match unsigned_value(s, u32::MAX as nat) {
        Some(n) => n as u32,
        None => 0,
    }
}

/// Computes `count_of_text`.
pub fn parse_count(s: &str) -> (n: u32)
    ensures
        n == count_of_text(s@),
{
    let chars = chars_of(s);
    match parse_unsigned(&chars, 0xffff_ffff) {
        Some(n) => n as u32,
        None => 0,
    }
}

/// The category that the address behind a row's icon names: what follows its
/// last `=`, read as two numbers joined by `_`.
pub open spec fn category_of_href(href: Seq<char>) -> Option<MediaCategory> {
    match pair_of_text(split_on(href, '=').last()) {
        Some(p) => match MediaCategory::of_pair(p.0, p.1) {
            Ok(c) => Some(c),
            Err(_) => None,
        },
        None => None,
    }
}

/// Computes `category_of_href`.
pub fn parse_icon_category(href: &str) -> (c: Option<MediaCategory>)
    ensures
        c == category_of_href(href@),
{
    let chars = chars_of(href);
    let parts = split(&chars, '=');
    let last = &parts[parts.len() - 1];
    assert(texts(parts@)[parts.len() - 1] == last@);
    let code = crate::text::string_of(last);
    match MediaCategory::parse(code.as_str()) {
        Ok(c) => Some(c),
        Err(_) => None,
    }
}

impl RawRow {
    /// Whether the row has every text that an item needs.
    pub open spec fn complete(&self) -> bool {
        &&& self.icon_href is Some
        &&& self.title is Some
        &&& self.magnet is Some
        &&& self.torrent_href is Some
        &&& self.size is Some
        &&& self.date is Some
        &&& self.seeders is Some
        &&& self.leechers is Some
        &&& self.downloads is Some
    }

    /// Whether the row gives an item: it is complete and its icon names a
    /// category.
    pub open spec fn usable(&self) -> bool {
        self.complete() && category_of_href(self.icon_href->0@) is Some
    }

    /// Whether `item` is what the row says, with `bytes` for what the size
    /// column was read as and `instance_url` for the address of the index.
    pub open spec fn describes(&self, item: Item, instance_url: Seq<char>, bytes: Option<i64>) -> bool {
        &&& self.usable()
        &&& Some(item.category) == category_of_href(self.icon_href->0@)
        &&& item.title@ == self.title->0@
        &&& item.magnet_link@ == self.magnet->0@
        &&& item.torrent_file_link@ == instance_url + self.torrent_href->0@
        &&& item.date@ == self.date->0@
        &&& item.seeders == count_of_text(self.seeders->0@)
        &&& item.leechers == count_of_text(self.leechers->0@)
        &&& item.downloads == count_of_text(self.downloads->0@)
        &&& match bytes {
            Some(b) => item.size == Ok::<u64, String>(magnitude_of(b)),
            None => item.size matches Err(t) && t@ == self.size->0@,
        }
    }

    /// Builds the item of a row from its texts and from what its size column
    /// was read as. A row that lacks a text, or whose icon names no category,
    /// gives no item; an unreadable size alone does not stop it.
    pub fn into_item(&self, instance_url: &str, bytes: Option<i64>) -> (r: Option<Item>)
        ensures
            r is Some <==> self.usable(),
            r matches Some(item) ==> self.describes(item, instance_url@, bytes),
    {
        let (icon, title, magnet, href, size, date, seeders, leechers, downloads) = match (
            &self.icon_href,
            &self.title,
            &self.magnet,
            &self.torrent_href,
            &self.size,
            &self.date,
            &self.seeders,
            &self.leechers,
            &self.downloads,
        ) {
            (Some(a), Some(b), Some(c), Some(d), Some(e), Some(f), Some(g), Some(h), Some(i)) => (
                a,
                b,
                c,
                d,
                e,
                f,
                g,
                h,
                i,
            ),
            _ => { return None; },
        };
        let category = match parse_icon_category(icon.as_str()) {
            Some(c) => c,
            None => { return None; },
        };
        let mut link: Vec<char> = chars_of(instance_url);
        crate::text::push_text(&mut link, href.as_str());
        Some(
            Item {
                seeders: parse_count(seeders.as_str()),
                leechers: parse_count(leechers.as_str()),
                downloads: parse_count(downloads.as_str()),
                category,
                magnet_link: magnet.clone(),
                torrent_file_link: crate::text::string_of(&link),
                title: title.clone(),
                size: match bytes {
                    Some(b) => Ok(magnitude(b)),
                    None => Err(size.clone()),
                },
                date: date.clone(),
            },
        )
    }

    /// Builds the item of a row, reading its size column with the `size` crate.
    pub fn read(&self, instance_url: &str) -> (r: Option<Item>)
        ensures
            r is Some <==> self.usable(),
            r matches Some(item) ==> self.describes(
                item,
                instance_url@,
                size_in_bytes(self.size->0@),
            ),
    {
        match &self.size {
            Some(s) => {
                let bytes = parse_size(s.as_str());
                self.into_item(instance_url, bytes)
            },
            None => None,
        }
    }
}

/// The texts of a column, cell by cell.
pub open spec fn cells(column: Seq<Option<String>>) -> Seq<Option<Seq<char>>> {
    Seq::new(
        column.len(),
        |i: int|
            match column[i] {
                Some(t) => Some(t@),
                None => None,
            },
    )
}

/// The texts of a column where there is one.
pub open spec fn cells_of(column: Option<Vec<Option<String>>>) -> Option<Seq<Option<Seq<char>>>> {
    match column {
        Some(c) => Some(cells(c@)),
        None => None,
    }
}

/// For each element of `document` that the selector `rows` matches, in
/// document order: the inner HTML of its first descendant that the selector
/// `field` matches, or `None` where it has none. `None` as a whole where one of
/// the two selectors is not a valid selector.
pub uninterp spec fn inner_html_by_row(
    document: Seq<char>,
    rows: Seq<char>,
    field: Seq<char>,
) -> Option<Seq<Option<Seq<char>>>>;

/// As `inner_html_by_row`, with the value of the attribute `attribute` of that
/// descendant in place of its inner HTML; `None` also where it lacks the
/// attribute.
pub uninterp spec fn attribute_by_row(
    document: Seq<char>,
    rows: Seq<char>,
    field: Seq<char>,
    attribute: Seq<char>,
) -> Option<Seq<Option<Seq<char>>>>;

/// The inner HTML of the first element of `document` that `selector` matches;
/// `None` where nothing matches or the selector is not valid.
pub uninterp spec fn first_inner_html(document: Seq<char>, selector: Seq<char>) -> Option<Seq<char>>;

/// `scraper::Html::parse_document`, `Html::select`, `ElementRef::select` and
/// `ElementRef::inner_html`: parses the document, walks the elements that
/// `rows` matches and serialises the children of the first match of `field`
/// under each. The result depends on the three texts alone.
#[verifier::external_body]
fn select_inner_html(document: &str, rows: &str, field: &str) -> (r: Option<Vec<Option<String>>>)
    ensures
        cells_of(r) == inner_html_by_row(document@, rows@, field@),
{
    let rows = scraper::Selector::parse(rows).ok()?;
    let field = scraper::Selector::parse(field).ok()?;
    let html = scraper::Html::parse_document(document);
    Some(html.select(&rows).map(|row| row.select(&field).next().map(|e| e.inner_html())).collect())
}

/// As `select_inner_html`, with `ElementRef::attr` in place of
/// `ElementRef::inner_html`.
#[verifier::external_body]
fn select_attribute(document: &str, rows: &str, field: &str, attribute: &str) -> (r: Option<
    Vec<Option<String>>,
>)
    ensures
        cells_of(r) == attribute_by_row(document@, rows@, field@, attribute@),
{
    let rows = scraper::Selector::parse(rows).ok()?;
    let field = scraper::Selector::parse(field).ok()?;
    let html = scraper::Html::parse_document(document);
    Some(
        html.select(&rows).map(
            |row| row.select(&field).next().and_then(|e| e.attr(attribute)).map(String::from),
        ).collect(),
    )
}

/// `scraper::Html::parse_document`, `Html::select` and
/// `ElementRef::inner_html`, for the first match in the whole document.
#[verifier::external_body]
fn select_first_inner_html(document: &str, selector: &str) -> (r: Option<String>)
    ensures
        match r {
            Some(t) => first_inner_html(document@, selector@) == Some(t@),
            None => first_inner_html(document@, selector@) is None,
        },
{
    let selector = scraper::Selector::parse(selector).ok()?;
    let html = scraper::Html::parse_document(document);
    html.select(&selector).next().map(|e| e.inner_html())
}

/// The cell of a column in row `i`; `None` where the column has no such row.
pub open spec fn cell(column: Option<Seq<Option<Seq<char>>>>, i: int) -> Option<Seq<char>> {
    match column {
        Some(c) => if 0 <= i < c.len() {
            c[i]
        } else {
            None
        },
        None => None,
    }
}

fn cell_at(column: &Option<Vec<Option<String>>>, i: usize) -> (r: Option<String>)
    ensures
        opt_text(r) == cell(cells_of(*column), i as int),
{
    match column {
        Some(c) => if i < c.len() {
            c[i].clone()
        } else {
            None
        },
        None => None,
    }
}

/// The selector of the rows of the result table.
pub open spec fn row_selector() -> Seq<char> {
    "table.torrent-list > tbody > tr"@
}

/// The number of rows of the result table of a page.
pub open spec fn row_count(document: Seq<char>) -> nat {
    match inner_html_by_row(document, row_selector(), "td:nth-of-type(4)"@) {
        Some(c) => c.len(),
        None => 0,
    }
}

/// Whether `row` holds the texts of row `i` of the result table of a page.
pub open spec fn is_row_of(row: RawRow, document: Seq<char>, i: int) -> bool {
    let rows = row_selector();
    &&& opt_text(row.icon_href) == cell(
        attribute_by_row(document, rows, "td:first-of-type > a"@, "href"@),
        i,
    )
    &&& opt_text(row.title) == cell(
        attribute_by_row(document, rows, "td:nth-of-type(2) > a:last-of-type"@, "title"@),
        i,
    )
    &&& opt_text(row.magnet) == cell(
        attribute_by_row(document, rows, "td:nth-of-type(3) > a:nth-of-type(2)"@, "href"@),
        i,
    )
    &&& opt_text(row.torrent_href) == cell(
        attribute_by_row(document, rows, "td:nth-of-type(3) > a:nth-of-type(1)"@, "href"@),
        i,
    )
    &&& opt_text(row.size) == cell(inner_html_by_row(document, rows, "td:nth-of-type(4)"@), i)
    &&& opt_text(row.date) == cell(inner_html_by_row(document, rows, "td:nth-of-type(5)"@), i)
    &&& opt_text(row.seeders) == cell(inner_html_by_row(document, rows, "td:nth-of-type(6)"@), i)
    &&& opt_text(row.leechers) == cell(
        inner_html_by_row(document, rows, "td:nth-of-type(7)"@),
        i,
    )
    &&& opt_text(row.downloads) == cell(
        inner_html_by_row(document, rows, "td:nth-of-type(8)"@),
        i,
    )
}

/// Reads the rows of the result table of a page, in document order.
pub fn rows_of_page(document: &str) -> (rows: Vec<RawRow>)
    ensures
        rows.len() == row_count(document@),
        forall|i: int| 0 <= i < rows.len() ==> is_row_of(#[trigger] rows[i], document@, i),
{
    let sel = "table.torrent-list > tbody > tr";
    let icon = select_attribute(document, sel, "td:first-of-type > a", "href");
    let title = select_attribute(document, sel, "td:nth-of-type(2) > a:last-of-type", "title");
    let magnet = select_attribute(document, sel, "td:nth-of-type(3) > a:nth-of-type(2)", "href");
    let torrent = select_attribute(document, sel, "td:nth-of-type(3) > a:nth-of-type(1)", "href");
    let size = select_inner_html(document, sel, "td:nth-of-type(4)");
    let date = select_inner_html(document, sel, "td:nth-of-type(5)");
    let seeders = select_inner_html(document, sel, "td:nth-of-type(6)");
    let leechers = select_inner_html(document, sel, "td:nth-of-type(7)");
    let downloads = select_inner_html(document, sel, "td:nth-of-type(8)");
    let n: usize = match &size {
        Some(c) => c.len(),
        None => 0,
    };
    let mut rows: Vec<RawRow> = Vec::new();
    let mut i: usize = 0;
    while i < n
        invariant
            i <= n,
            n == row_count(document@),
            rows.len() == i,
            forall|k: int| 0 <= k < i ==> is_row_of(#[trigger] rows[k], document@, k),
            cells_of(icon) == attribute_by_row(
                document@,
                row_selector(),
                "td:first-of-type > a"@,
                "href"@,
            ),
            cells_of(title) == attribute_by_row(
                document@,
                row_selector(),
                "td:nth-of-type(2) > a:last-of-type"@,
                "title"@,
            ),
            cells_of(magnet) == attribute_by_row(
                document@,
                row_selector(),
                "td:nth-of-type(3) > a:nth-of-type(2)"@,
                "href"@,
            ),
            cells_of(torrent) == attribute_by_row(
                document@,
                row_selector(),
                "td:nth-of-type(3) > a:nth-of-type(1)"@,
                "href"@,
            ),
            cells_of(size) == inner_html_by_row(document@, row_selector(), "td:nth-of-type(4)"@),
            cells_of(date) == inner_html_by_row(document@, row_selector(), "td:nth-of-type(5)"@),
            cells_of(seeders) == inner_html_by_row(
                document@,
                row_selector(),
                "td:nth-of-type(6)"@,
            ),
            cells_of(leechers) == inner_html_by_row(
                document@,
                row_selector(),
                "td:nth-of-type(7)"@,
            ),
            cells_of(downloads) == inner_html_by_row(
                document@,
                row_selector(),
                "td:nth-of-type(8)"@,
            ),
        decreases n - i,
    {
        let row = RawRow {
            icon_href: cell_at(&icon, i),
            title: cell_at(&title, i),
            magnet: cell_at(&magnet, i),
            torrent_href: cell_at(&torrent, i),
            size: cell_at(&size, i),
            date: cell_at(&date, i),
            seeders: cell_at(&seeders, i),
            leechers: cell_at(&leechers, i),
            downloads: cell_at(&downloads, i),
        };
        rows.push(row);
        i += 1;
    }
    rows
}

/// The rows that give an item, in order.
pub open spec fn usable_rows(rows: Seq<RawRow>) -> Seq<RawRow> {
    rows.filter(|r: RawRow| r.usable())
}

/// Builds the items of the rows that give one, in the order of the rows.
pub fn items_of_rows(rows: &Vec<RawRow>, instance_url: &str) -> (items: Vec<Item>)
    ensures
        items.len() == usable_rows(rows@).len(),
        forall|i: int|
            0 <= i < items.len() ==> (#[trigger] usable_rows(rows@)[i]).describes(
                items[i],
                instance_url@,
                size_in_bytes(usable_rows(rows@)[i].size->0@),
            ),
{
    let mut items: Vec<Item> = Vec::new();
    let mut i: usize = 0;
    proof {
        reveal(Seq::filter);
        assert(rows@.subrange(0, 0) =~= Seq::<RawRow>::empty());
    }
    while i < rows.len()
        invariant
            i <= rows.len(),
            items.len() == usable_rows(rows@.subrange(0, i as int)).len(),
            forall|k: int|
                0 <= k < items.len() ==> (#[trigger] usable_rows(
                    rows@.subrange(0, i as int),
                )[k]).describes(
                    items[k],
                    instance_url@,
                    size_in_bytes(usable_rows(rows@.subrange(0, i as int))[k].size->0@),
                ),
        decreases rows.len() - i,
    {
        proof {
            reveal(Seq::filter);
            assert(rows@.subrange(0, i + 1).drop_last() == rows@.subrange(0, i as int));
            assert(rows@.subrange(0, i + 1).last() == rows@[i as int]);
        }
        match rows[i].read(instance_url) {
            Some(item) => { items.push(item); },
            None => {},
        }
        i += 1;
    }
    assert(rows@.subrange(0, rows.len() as int) == rows@);
    items
}

/// Whether `items` are the items of the rows `rows`: one for each row that
/// gives one, in order, with the size column read by the `size` crate.
pub open spec fn items_match_rows(items: Seq<Item>, rows: Seq<RawRow>, instance_url: Seq<char>) -> bool {
    &&& items.len() == usable_rows(rows).len()
    &&& forall|i: int|
        0 <= i < items.len() ==> (#[trigger] usable_rows(rows)[i]).describes(
            items[i],
            instance_url,
            size_in_bytes(usable_rows(rows)[i].size->0@),
        )
}

/// Whether `items` are the items of a page of the index.
pub open spec fn items_match_page(items: Seq<Item>, document: Seq<char>, instance_url: Seq<char>) -> bool {
    exists|rows: Seq<RawRow>|
        {
            &&& rows.len() == row_count(document)
            &&& forall|i: int| 0 <= i < rows.len() ==> is_row_of(#[trigger] rows[i], document, i)
            &&& #[trigger] items_match_rows(items, rows, instance_url)
        }
}

/// Reads the items of a page of the index.
pub fn items_of_page(document: &str, instance_url: &str) -> (items: Vec<Item>)
    ensures
        items_match_page(items@, document@, instance_url@),
        items.len() <= row_count(document@),
{
    let rows = rows_of_page(document);
    let items = items_of_rows(&rows, instance_url);
    proof {
        rows@.lemma_filter_len(|r: RawRow| r.usable());
        assert(items_match_rows(items@, rows@, instance_url@));
    }
    items
}

/// The largest number of result pages that the index serves.
pub const MAX_PAGE_IDX: usize = 100;

/// The number of results on a full page.
pub const MAX_ITEMS_PER_PAGE: usize = 75;

/// The number of results that the page information names: its sixth word,
/// read as a number. Where there is no page information, or no such number,
/// the most that the index serves.
pub open spec fn result_count_of(info: Option<Seq<char>>) -> usize {
    let fallback: usize = 7500;
    match info {
        Some(t) => {
            let words = split_on(t, ' ');
            if words.len() > 5 {
                match unsigned_value(words[5], usize::MAX as nat) {
                    Some(n) => n as usize,
                    None => fallback,
                }
            } else {
                fallback
            }
        },
        None => fallback,
    }
}

/// Computes `result_count_of`.
pub fn count_in_info(info: Option<&str>) -> (n: usize)
    ensures
        n == result_count_of(
            match info {
                Some(t) => Some(t@),
                None => None,
            },
        ),
{
    let fallback: usize = MAX_PAGE_IDX * MAX_ITEMS_PER_PAGE;
    match info {
        Some(t) => {
            let chars = chars_of(t);
            let words = split(&chars, ' ');
            if words.len() > 5 {
                assert(texts(words@)[5] == words@[5]@);
                match parse_unsigned(&words[5], usize::MAX as u64) {
                    Some(n) => n as usize,
                    None => fallback,
                }
            } else {
                fallback
            }
        },
        None => fallback,
    }
}

/// The number of results that a page of the index announces.
pub fn result_count(document: &str) -> (n: usize)
    ensures
        n == result_count_of(first_inner_html(document@, ".pagination-page-info"@)),
{
    match select_first_inner_html(document, ".pagination-page-info") {
        Some(t) => count_in_info(Some(t.as_str())),
        None => count_in_info(None),
    }
}

/// The number of pages that hold `results` results.
pub open spec fn pages_for(results: nat) -> nat {
    (results + 74) / 75
}

/// The number of pages to read: all of them, or as many as the limit allows.
pub open spec fn pages_to_read(results: nat, max_pages: Option<usize>) -> nat {
    match max_pages {
        Some(m) => if pages_for(results) <= m {
            pages_for(results)
        } else {
            m as nat
        },
        None => pages_for(results),
    }
}

impl SearchResponse {
    /// The answer after the first page of a search: its items, and how many
    /// pages the search has and how many of them are to be read.
    pub fn first_page(document: &str, query: &SearchQuery, instance_url: &str) -> (r: SearchResponse)
        ensures
            r.last_page == pages_for(
                result_count_of(first_inner_html(document@, ".pagination-page-info"@)) as nat,
            ),
            r.last_read_page == pages_to_read(
                result_count_of(first_inner_html(document@, ".pagination-page-info"@)) as nat,
                query.max_page_idx,
            ),
            items_match_page(r.results@, document@, instance_url@),
    {
        let count = result_count(document);
        let last_page: usize = if count % 75 == 0 {
            count / 75
        } else {
            count / 75 + 1
        };
        let last_read_page: usize = match query.max_page_idx {
            Some(m) => if last_page <= m {
                last_page
            } else {
                m
            },
            None => last_page,
        };
        let results = items_of_page(document, instance_url);
        SearchResponse { results, last_page, last_read_page }
    }

    /// Whether another page is to be read after `pages_read` pages.
    pub fn wants_page(&self, pages_read: usize) -> (b: bool)
        ensures
            b == (pages_read < self.last_read_page),
    {
        pages_read < self.last_read_page
    }

    /// Adds the items of a further page, behind those that are there.
    pub fn add_page(&mut self, document: &str, instance_url: &str)
        ensures
            final(self).last_page == old(self).last_page,
            final(self).last_read_page == old(self).last_read_page,
            old(self).results@.is_prefix_of(final(self).results@),
            items_match_page(
                final(self).results@.subrange(
                    old(self).results.len() as int,
                    final(self).results.len() as int,
                ),
                document@,
                instance_url@,
            ),
    {
        let mut items = items_of_page(document, instance_url);
        let ghost tail = items@;
        self.results.append(&mut items);
        assert(self.results@.subrange(old(self).results.len() as int, self.results.len() as int)
            =~= tail);
    }
}

} // verus!
