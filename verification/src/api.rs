//! The Jellyfin data model and the requests the tool makes of Jellyfin.
//!
//! The HTTP exchange itself happens outside the library: it takes the URLs,
//! headers and query parameters built here, and asks [`JellyfinApi`] whether
//! another page of items is needed.

use vstd::prelude::*;
use crate::config::JellyfinConfig;
use crate::text::{
    decimal, decimal2, decimal_string, index_of, is_digit, lemma_decimal_digits, lemma_index_of_unique,
    lemma_parsed_decimal, owned, parse_u64,
    parsed_u64, push_char, push_decimal, trim_end_char, trim_end_char_str, chars_of,
};

verus! {

broadcast use vstd::string::group_string_axioms;

/// A page of items.
#[derive(Debug)]
pub struct ItemsResponse {
    pub items: Vec<JellyfinItem>,
    pub total_record_count: u64,
}

/// A library item (a movie, an episode, …).
#[derive(Debug)]
pub struct JellyfinItem {
    pub name: String,
    pub id: String,
    pub path: Option<String>,
    pub tags: Vec<String>,
    /// The kind of item (`Movie`, `Episode`, …).
    pub item_type: String,
    pub series_name: Option<String>,
    pub parent_index_number: Option<u32>,
    pub index_number: Option<u32>,
}

/// A Jellyfin user.
#[derive(Debug)]
pub struct JellyfinUser {
    pub name: String,
    pub id: String,
    pub has_password: bool,
}

/// A library (virtual folder).
#[derive(Debug)]
pub struct LibraryInfo {
    pub name: String,
    pub collection_type: Option<String>,
    pub locations: Vec<String>,
}

impl JellyfinItem {
    /// How the item is named to the user: an episode as
    /// `Series SxxEyy - Name` (season and episode numbers with at least two
    /// digits, each part only when known), anything else by its name.
    pub open spec fn display(self) -> Seq<char> {
        match self.series_name {
            Some(series) => series@ + " "@ + (match self.parent_index_number {
                Some(n) => "S"@ + decimal2(n as nat),
                None => seq![],
            }) + (match self.index_number {
                Some(n) => "E"@ + decimal2(n as nat),
                None => seq![],
            }) + " - "@ + self.name@,
            None => self.name@,
        }
    }

    /// The name shown for the item.
    pub fn display_name(&self) -> (r: String)
        ensures
            r@ == self.display(),
    {
        match &self.series_name {
            Some(series) => {
                let mut r = series.clone();
                r.append(" ");
                if let Some(n) = self.parent_index_number {
                    r.append("S");
                    push_decimal2(&mut r, n);
                }
                if let Some(n) = self.index_number {
                    r.append("E");
                    push_decimal2(&mut r, n);
                }
                r.append(" - ");
                r.append(self.name.as_str());
                r
            },
            None => self.name.clone(),
        }
    }
}

/// Appends `n` in decimal with at least two digits.
pub fn push_decimal2(out: &mut String, n: u32)
    ensures
        final(out)@ == old(out)@ + decimal2(n as nat),
{
    if n < 10 {
        push_char(out, '0');
    }
    push_decimal(out, n as u64);
    proof {
        if n < 10 {
            assert(decimal(n as nat) =~= seq![crate::text::digit(n as int)]);
        }
    }
}

/// How many items one request asks for.
pub const PAGE_SIZE: usize = 200;

/// The tag that marks items for review.
pub open spec fn review_tag() -> Seq<char> {
    "needs-review"@
}

/// Where Jellyfin is and the key to use.
#[derive(Debug)]
pub struct JellyfinApi {
    pub base_url: String,
    pub api_key: String,
}

/// The views of query parameters.
pub open spec fn pair_views(v: Seq<(String, String)>) -> Seq<(Seq<char>, Seq<char>)> {
    v.map_values(|p: (String, String)| (p.0@, p.1@))
}

/// Makes a query parameter.
fn param(k: &str, v: &str) -> (r: (String, String))
    ensures
        r.0@ == k@,
        r.1@ == v@,
{
    (owned(k), owned(v))
}

impl JellyfinApi {
    /// The server's address without trailing slashes, and the key.
    pub fn new(config: &JellyfinConfig) -> (r: Self)
        ensures
            r.base_url@ == trim_end_char(config.url@, '/'),
            r.api_key@ == config.api_key@,
    {
        JellyfinApi { base_url: trim_end_char_str(config.url.as_str(), '/'), api_key: config.api_key.clone() }
    }

    /// The value of the `Authorization` header.
    pub fn auth_header(&self) -> (r: String)
        ensures
            r@ == "MediaBrowser Token="@ + self.api_key@,
    {
        let mut r = owned("MediaBrowser Token=");
        r.append(self.api_key.as_str());
        r
    }

    /// The address of an endpoint of the server.
    pub fn endpoint(&self, path: &str) -> (r: String)
        ensures
            r@ == self.base_url@ + path@,
    {
        let mut r = self.base_url.clone();
        r.append(path);
        r
    }

    /// The address of one item.
    pub fn item_url(&self, item_id: &str) -> (r: String)
        ensures
            r@ == self.base_url@ + "/Items/"@ + item_id@,
    {
        let mut r = self.endpoint("/Items/");
        r.append(item_id);
        r
    }

    /// The address that adds (`add`) or removes tags of an item.
    pub fn tags_url(&self, item_id: &str, add: bool) -> (r: String)
        ensures
            r@ == self.base_url@ + "/Items/"@ + item_id@ + (if add {
                "/Tags/Add"@
            } else {
                "/Tags/Delete"@
            }),
    {
        let mut r = self.item_url(item_id);
        if add {
            r.append("/Tags/Add");
        } else {
            r.append("/Tags/Delete");
        }
        r
    }

    /// The query for one page of all items of the given types, with the
    /// given fields, starting at `start`.
    pub fn all_items_query(&self, item_types: &str, fields: &str, start: usize) -> (r: Vec<(String, String)>)
        ensures
            pair_views(r@) == seq![
                ("Recursive"@, "true"@),
                ("IncludeItemTypes"@, item_types@),
                ("Fields"@, fields@),
                ("Limit"@, decimal(PAGE_SIZE as nat)),
                ("StartIndex"@, decimal(start as nat)),
            ],
    {
        let mut r: Vec<(String, String)> = Vec::new();
        r.push(param("Recursive", "true"));
        r.push(param("IncludeItemTypes", item_types));
        r.push(param("Fields", fields));
        r.push((owned("Limit"), decimal_string(PAGE_SIZE as u64)));
        r.push((owned("StartIndex"), decimal_string(start as u64)));
        assert(pair_views(r@) =~= seq![
            ("Recursive"@, "true"@),
            ("IncludeItemTypes"@, item_types@),
            ("Fields"@, fields@),
            ("Limit"@, decimal(PAGE_SIZE as nat)),
            ("StartIndex"@, decimal(start as nat)),
        ]);
        r
    }

    /// The query for the items of the given types that carry `tag`.
    pub fn tagged_items_query(&self, tag: &str, item_types: &str) -> (r: Vec<(String, String)>)
        ensures
            pair_views(r@) == seq![
                ("Recursive"@, "true"@),
                ("IncludeItemTypes"@, item_types@),
                ("Fields"@, "Path,Tags"@),
                ("Tags"@, tag@),
            ],
    {
        let mut r: Vec<(String, String)> = Vec::new();
        r.push(param("Recursive", "true"));
        r.push(param("IncludeItemTypes", item_types));
        r.push(param("Fields", "Path,Tags"));
        r.push(param("Tags", tag));
        assert(pair_views(r@) =~= seq![
            ("Recursive"@, "true"@),
            ("IncludeItemTypes"@, item_types@),
            ("Fields"@, "Path,Tags"@),
            ("Tags"@, tag@),
        ]);
        r
    }

    /// The query for one item.
    pub fn item_query(&self) -> (r: Vec<(String, String)>)
        ensures
            pair_views(r@) == seq![("Fields"@, "Path,Tags"@)],
    {
        let mut r: Vec<(String, String)> = Vec::new();
        r.push(param("Fields", "Path,Tags"));
        assert(pair_views(r@) =~= seq![("Fields"@, "Path,Tags"@)]);
        r
    }

    /// Where the next page starts, after a page of `page_len` items that
    /// brought the number fetched to `fetched` out of `total`: paging stops
    /// at a short page or once every item has been fetched.
    pub fn next_page_start(&self, start: usize, page_len: usize, fetched: usize, total: u64) -> (r:
        Option<usize>)
        requires
            start + PAGE_SIZE <= usize::MAX,
        ensures
            (page_len < PAGE_SIZE || fetched >= total) ==> r is None,
            !(page_len < PAGE_SIZE || fetched >= total) ==> r == Some((start + PAGE_SIZE) as usize),
    {
        if page_len < PAGE_SIZE || fetched as u64 >= total {
            None
        } else {
            Some(start + PAGE_SIZE)
        }
    }
}

/// What a Jellyfin server says of itself.
#[derive(Debug)]
pub struct ServerInfo {
    pub server_name: String,
    pub version: String,
}

/// The major and minor numbers at the start of a version text
/// `MAJOR.MINOR[.…]`.
pub open spec fn major_minor(v: Seq<char>) -> Option<(u64, u64)> {
    let k = index_of(v, '.');
    if k < v.len() {
        let rest = v.skip(k as int + 1);
        let m = index_of(rest, '.');
        match (parsed_u64(v.take(k as int)), parsed_u64(rest.take(m as int))) {
            (Some(a), Some(b)) => Some((a, b)),
            _ => None,
        }
    } else {
        None
    }
}

/// The server runs Jellyfin 10.9 or newer.
pub open spec fn version_supported(v: Seq<char>) -> bool {
    match major_minor(v) {
        Some((major, minor)) => major > 10 || (major == 10 && minor >= 9),
        None => false,
    }
}

/// The law of the version check: a version text `MAJOR.MINOR`, optionally
/// followed by `.PATCH…`, reads as those two numbers and is supported
/// exactly when it is 10.9 or newer (major above 10, or major 10 and minor
/// at least 9).
pub proof fn lemma_version_supported(major: u64, minor: u64, rest: Seq<char>)
    requires
        rest.len() == 0 || rest[0] == '.',
    ensures
        major_minor(decimal(major as nat) + "."@ + decimal(minor as nat) + rest) == Some(
            (major, minor),
        ),
        version_supported(decimal(major as nat) + "."@ + decimal(minor as nat) + rest) <==> (major
            > 10 || (major == 10 && minor >= 9)),
{
    reveal_strlit(".");
    lemma_decimal_digits(major as nat);
    lemma_decimal_digits(minor as nat);
    lemma_parsed_decimal(major);
    lemma_parsed_decimal(minor);
    let a = decimal(major as nat);
    let b = decimal(minor as nat);
    let v = a + "."@ + b + rest;
    assert forall|k: int| 0 <= k < a.len() implies v[k] != '.' by {
        assert(v[k] == a[k]);
        assert(is_digit(a[k]));
    }
    assert(v[a.len() as int] == '.');
    lemma_index_of_unique(v, '.', a.len() as int);
    let r = v.skip(a.len() as int + 1);
    assert(r =~= b + rest);
    assert forall|k: int| 0 <= k < b.len() implies r[k] != '.' by {
        assert(r[k] == b[k]);
        assert(is_digit(b[k]));
    }
    if rest.len() > 0 {
        assert(r[b.len() as int] == rest[0]);
    }
    lemma_index_of_unique(r, '.', b.len() as int);
    assert(v.take(a.len() as int) =~= a);
    assert(r.take(b.len() as int) =~= b);
}

/// The characters of `v` from `from` up to (not including) `to`, as a string.
fn slice_string(v: &Vec<char>, from: usize, to: usize) -> (r: String)
    requires
        from <= to <= v.len(),
    ensures
        r@ == v@.subrange(from as int, to as int),
{
    let mut r = String::new();
    let mut i = from;
    while i < to
        invariant
            from <= i <= to <= v.len(),
            r@ == v@.subrange(from as int, i as int),
        decreases to - i,
    {
        push_char(&mut r, v[i]);
        assert(v@.subrange(from as int, i + 1) =~= v@.subrange(from as int, i as int).push(v@[i as int]));
        i = i + 1;
    }
    r
}

/// Reads the major and minor version numbers.
pub fn version_numbers(version: &str) -> (r: Option<(u64, u64)>)
    ensures
        r == major_minor(version@),
{
    let v = chars_of(version);
    let k = crate::text::find_char_from(&v, '.', 0);
    proof {
        lemma_index_of_unique(v@, '.', k as int);
    }
    if k == v.len() {
        return None;
    }
    let m = crate::text::find_char_from(&v, '.', k + 1);
    let ghost rest = v@.skip(k as int + 1);
    proof {
        assert forall|j: int| 0 <= j < m - k - 1 implies rest[j] != '.' by {
            assert(rest[j] == v@[j + k + 1]);
        }
        if m < v.len() {
            assert(rest[m - k - 1] == v@[m as int]);
        }
        lemma_index_of_unique(rest, '.', m - k - 1);
        assert(v@.take(k as int) =~= v@.subrange(0, k as int));
        assert(rest.take(m - k - 1) =~= v@.subrange(k + 1, m as int));
    }
    let major_text = slice_string(&v, 0, k);
    let minor_text = slice_string(&v, k + 1, m);
    match (parse_u64(major_text.as_str()), parse_u64(minor_text.as_str())) {
        (Some(a), Some(b)) => Some((a, b)),
        _ => None,
    }
}

/// Accepts servers running Jellyfin 10.9 or newer.
pub fn check_server_version(info: &ServerInfo) -> (r: Result<(), String>)
    ensures
        version_supported(info.version@) ==> r is Ok,
        !version_supported(info.version@) ==> r is Err && r->Err_0@ == "Jellyfin "@
            + info.version@ + " is not supported (10.9 or newer is required)"@,
{
    let supported = match version_numbers(info.version.as_str()) {
        Some((major, minor)) => major > 10 || (major == 10 && minor >= 9),
        None => false,
    };
    if supported {
        Ok(())
    } else {
        let mut m = owned("Jellyfin ");
        m.append(info.version.as_str());
        m.append(" is not supported (10.9 or newer is required)");
        Err(m)
    }
}

/// How many times a failed connection (to Jellyfin, or of `ssh` to the media
/// host) is retried.
pub const CONNECT_RETRIES: u32 = 3;

/// How long to wait, in milliseconds, before retrying a failed connection
/// for the `attempt`th time (counting from 0): one second, doubling each
/// time; `None` once the retries are spent.
pub open spec fn retry_delay(attempt: nat) -> Option<u64> {
    if attempt >= CONNECT_RETRIES {
        None
    } else if attempt == 0 {
        Some(1000u64)
    } else if attempt == 1 {
        Some(2000u64)
    } else {
        Some(4000u64)
    }
}

/// How long to wait, in milliseconds, before retrying a failed connection
/// for the `attempt`th time (counting from 0); `None` once the retries are
/// spent.
pub fn retry_delay_ms(attempt: u32) -> (r: Option<u64>)
    ensures
        r == retry_delay(attempt as nat),
        attempt == 0 ==> r == Some(1000u64),
        attempt == 1 ==> r == Some(2000u64),
        attempt == 2 ==> r == Some(4000u64),
        attempt >= CONNECT_RETRIES ==> r is None,
{
    if attempt >= CONNECT_RETRIES {
        None
    } else if attempt == 0 {
        Some(1000)
    } else if attempt == 1 {
        Some(2000)
    } else {
        Some(4000)
    }
}

/// The retry schedule: a failed connection is retried exactly
/// `CONNECT_RETRIES` times (so it is tried four times in all), and each wait
/// is twice the one before.
pub proof fn lemma_retry_schedule(attempt: nat)
    ensures
        retry_delay(attempt) is Some <==> attempt < CONNECT_RETRIES,
        attempt + 1 < CONNECT_RETRIES ==> retry_delay(attempt + 1)->0 == 2 * retry_delay(attempt)->0,
{
}

} // verus!
