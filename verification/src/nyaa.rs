//! The torrent index: what is asked of it and what a page of results holds.

use crate::category::MediaCategory;
use crate::number::{decimal_text, format_unsigned};
use crate::text::{push_chars, push_text, string_of};
use vstd::prelude::*;

verus! {

/// Where the index is and how long to wait for it.
#[derive(Debug, Clone)]
pub struct NyaaClientConfig {
    /// Address of the index, protocol included.
    pub instance_url: String,
    /// How long a request may take, in milliseconds; `None` for no limit.
    pub timeout: Option<u64>,
}

impl Default for NyaaClientConfig {
    fn default() -> (c: NyaaClientConfig)
        ensures
            c.instance_url@ == "https://nyaa.si"@,
            c.timeout is None,
    {
        NyaaClientConfig { instance_url: "https://nyaa.si".to_owned(), timeout: None }
    }
}

/// The column by which the index sorts.
#[derive(Debug, Clone, Copy, PartialEq, Eq, Structural)]
pub enum SortBy {
    Id,
    Downloads,
    Seeders,
    Leechers,
    Size,
}

impl SortBy {
    /// The word that the index uses for this column.
    pub open spec fn word(self) -> Seq<char> {
        match self {
            SortBy::Id => "id"@,
            SortBy::Downloads => "downloads"@,
            SortBy::Seeders => "seeders"@,
            SortBy::Leechers => "leechers"@,
            SortBy::Size => "size"@,
        }
    }

    pub fn as_str(self) -> (s: &'static str)
        ensures
            s@ == self.word(),
    {
        match self {
            SortBy::Id => "id",
            SortBy::Downloads => "downloads",
            SortBy::Seeders => "seeders",
            SortBy::Leechers => "leechers",
            SortBy::Size => "size",
        }
    }
}

impl Default for SortBy {
    fn default() -> (s: SortBy)
        ensures
            s == SortBy::Id,
    {
        SortBy::Id
    }
}

/// The direction in which the index sorts.
#[derive(Debug, Clone, Copy, PartialEq, Eq, Structural)]
pub enum SortOrder {
    Desc,
    Asc,
}

impl SortOrder {
    /// The word that the index uses for this direction.
    pub open spec fn word(self) -> Seq<char> {
        match self {
            SortOrder::Desc => "desc"@,
            SortOrder::Asc => "asc"@,
        }
    }

    pub fn as_str(self) -> (s: &'static str)
        ensures
            s@ == self.word(),
    {
        match self {
            SortOrder::Desc => "desc",
            SortOrder::Asc => "asc",
        }
    }
}

impl Default for SortOrder {
    fn default() -> (s: SortOrder)
        ensures
            s == SortOrder::Desc,
    {
        SortOrder::Desc
    }
}

/// How results are sorted.
#[derive(Debug, Clone, Copy, PartialEq, Eq, Structural)]
pub struct Sort {
    pub by: SortBy,
    pub order: SortOrder,
}

impl Default for Sort {
    fn default() -> (s: Sort)
        ensures
            s == (Sort { by: SortBy::Id, order: SortOrder::Desc }),
    {
        Sort { by: SortBy::Id, order: SortOrder::Desc }
    }
}

/// Which uploads the index leaves out.
#[derive(Debug, Clone, Copy, PartialEq, Eq, Structural)]
pub enum Filter {
    NoFilter,
    NoRemakes,
    TrustedOnly,
    Batches,
}

impl Filter {
    /// The number that the index uses for this filter.
    pub open spec fn code(self) -> u8 {
        match self {
            Filter::NoFilter => 0,
            Filter::NoRemakes => 1,
            Filter::TrustedOnly => 2,
            Filter::Batches => 3,
        }
    }

    pub fn to_repr(self) -> (n: u8)
        ensures
            n == self.code(),
    {
        match self {
            Filter::NoFilter => 0,
            Filter::NoRemakes => 1,
            Filter::TrustedOnly => 2,
            Filter::Batches => 3,
        }
    }
}

impl Default for Filter {
    fn default() -> (f: Filter)
        ensures
            f == Filter::NoFilter,
    {
        Filter::NoFilter
    }
}

/// One search of the index.
#[derive(Debug, Clone)]
pub struct SearchQuery {
    /// The words to search for.
    pub query: String,
    /// The category to search in.
    pub category: MediaCategory,
    pub filter: Filter,
    /// Fetch at most this many pages; every page where `None`. Never `Some(0)`.
    pub max_page_idx: Option<usize>,
    pub sort: Sort,
    /// Only uploads of this user.
    pub user: Option<String>,
}

impl SearchQuery {
    /// A page limit, where there is one, is at least one page.
    pub open spec fn wf(&self) -> bool {
        self.max_page_idx != Some(0usize)
    }

    /// The name of the user to search, empty where none is given.
    pub open spec fn user_text(&self) -> Seq<char> {
        match self.user {
            Some(u) => u@,
            None => Seq::<char>::empty(),
        }
    }

    /// The query part of the address of page `page` of this search.
    pub open spec fn page_query(&self, page: nat) -> Seq<char> {
        "q="@ + self.query@ + "&c="@ + decimal_text(self.category.major() as nat) + "_"@
            + decimal_text(self.category.minor() as nat) + "&f="@ + decimal_text(
            self.filter.code() as nat,
        ) + "&p="@ + decimal_text(page) + "&s="@ + self.sort.by.word() + "&o="@
            + self.sort.order.word() + "&u="@ + self.user_text()
    }

    /// Writes the query part of the address of page `page` of this search.
    pub fn query_string(&self, page: usize) -> (s: String)
        ensures
            s@ == self.page_query(page as nat),
    {
        let (cat, subcat) = self.category.encode();
        let mut v: Vec<char> = Vec::new();
        push_text(&mut v, "q=");
        push_text(&mut v, self.query.as_str());
        push_text(&mut v, "&c=");
        push_chars(&mut v, &format_unsigned(cat as u64));
        push_text(&mut v, "_");
        push_chars(&mut v, &format_unsigned(subcat as u64));
        push_text(&mut v, "&f=");
        push_chars(&mut v, &format_unsigned(self.filter.to_repr() as u64));
        push_text(&mut v, "&p=");
        push_chars(&mut v, &format_unsigned(page as u64));
        push_text(&mut v, "&s=");
        push_text(&mut v, self.sort.by.as_str());
        push_text(&mut v, "&o=");
        push_text(&mut v, self.sort.order.as_str());
        push_text(&mut v, "&u=");
        match &self.user {
            Some(u) => push_text(&mut v, u.as_str()),
            None => {
                assert(v@ + Seq::<char>::empty() == v@);
            },
        }
        string_of(&v)
    }
}

impl Default for SearchQuery {
    fn default() -> (q: SearchQuery)
        ensures
            q.query@.len() == 0,
            q.category == MediaCategory::All,
            q.filter == Filter::NoFilter,
            q.max_page_idx is None,
            q.sort == (Sort { by: SortBy::Id, order: SortOrder::Desc }),
            q.user is None,
            q.wf(),
    {
        SearchQuery {
            query: String::new(),
            category: MediaCategory::All,
            filter: Filter::NoFilter,
            max_page_idx: None,
            sort: Sort { by: SortBy::Id, order: SortOrder::Desc },
            user: None,
        }
    }
}

/// One result of the index.
#[derive(Debug)]
pub struct Item {
    pub seeders: u32,
    pub leechers: u32,
    pub downloads: u32,
    pub category: MediaCategory,
    pub magnet_link: String,
    pub torrent_file_link: String,
    pub title: String,
    /// Size in bytes, or the text of the size column where it could not be read.
    pub size: Result<u64, String>,
    pub date: String,
}

impl Item {
    /// The size in bytes, where the size column could be read.
    pub open spec fn size_value(&self) -> Option<u64> {
        match self.size {
            Ok(n) => Some(n),
            Err(_) => None,
        }
    }

    /// Whether `other` holds the same values, text by text.
    pub open spec fn same_as(&self, other: &Item) -> bool {
        &&& self.seeders == other.seeders
        &&& self.leechers == other.leechers
        &&& self.downloads == other.downloads
        &&& self.category == other.category
        &&& self.magnet_link@ == other.magnet_link@
        &&& self.torrent_file_link@ == other.torrent_file_link@
        &&& self.title@ == other.title@
        &&& self.date@ == other.date@
        &&& match (self.size, other.size) {
            (Ok(a), Ok(b)) => a == b,
            (Err(a), Err(b)) => a@ == b@,
            _ => false,
        }
    }
}

impl Clone for Item {
    fn clone(&self) -> (r: Item)
        ensures
            r.same_as(self),
    {
        Item {
            seeders: self.seeders,
            leechers: self.leechers,
            downloads: self.downloads,
            category: self.category,
            magnet_link: self.magnet_link.clone(),
            torrent_file_link: self.torrent_file_link.clone(),
            title: self.title.clone(),
            size: match &self.size {
                Ok(n) => Ok(*n),
                Err(t) => Err(t.clone()),
            },
            date: self.date.clone(),
        }
    }
}

/// What a search gave.
#[derive(Debug)]
pub struct SearchResponse {
    pub results: Vec<Item>,
    /// The number of pages that the search has.
    pub last_page: usize,
    /// The number of pages that were to be read.
    pub last_read_page: usize,
}

} // verus!
