//! Recognising junk files in media folders: torrent-site adverts, metadata
//! leftovers, promotional images, subtitles and operating-system litter.
//!
//! Walking the folders and asking the filesystem for sizes happens outside
//! the library; each file it finds is judged here.

use vstd::prelude::*;
use crate::order::{Ordered, lemma_parts_le_total, lemma_parts_le_transitive, path_le, path_precedes, sort_ordered, sorted, components};
use crate::text::{chars_of, contains_exec, contains_seq, occurs_at_exec, owned, str_eq};

verus! {

broadcast use vstd::string::group_string_axioms;

/// Why a file counts as junk.
#[derive(Debug, Clone, Copy, PartialEq, Eq, Structural)]
pub enum JunkCategory {
    TorrentAd,
    MetadataJunk,
    PromoImage,
    Subtitle,
    SystemFile,
    Other,
}

/// A file found to be junk.
#[derive(Debug)]
pub struct JunkFile {
    pub path: String,
    pub reason: String,
    pub size: u64,
    pub category: JunkCategory,
}

/// The views of a list of string slices.
pub open spec fn str_views(v: Seq<&str>) -> Seq<Seq<char>> {
    v.map_values(|e: &str| e@)
}

/// Extensions of files that are never wanted next to media.
pub open spec fn junk_extensions() -> Seq<Seq<char>> {
    seq!["txt"@, "nfo"@, "url"@, "html"@, "exe"@, "torrent"@, "md5"@, "sha1"@]
}

/// Operating-system litter, by exact file name.
pub open spec fn junk_filenames() -> Seq<Seq<char>> {
    seq!["Thumbs.db"@, ".DS_Store"@, "desktop.ini"@]
}

/// Markers of torrent sites in file names, in the order they are tried.
pub open spec fn junk_patterns() -> Seq<Seq<char>> {
    seq![
        "WWW.YTS"@,
        "www.YTS"@,
        "RARBG"@,
        "YIFYStatus"@,
        "YTSProxies"@,
        "YTSYifyUP"@,
        "VPPV.LA"@,
        "UIndex.org"@,
        "AhaShare"@,
        "demonoid"@,
        "SUJAIDR"@,
        "HDRush"@,
        "IranianTorrents"@,
    ]
}

/// Extensions of media files, which are never junk.
pub open spec fn media_extensions() -> Seq<Seq<char>> {
    seq![
        "mkv"@,
        "mp4"@,
        "avi"@,
        "mov"@,
        "wmv"@,
        "flv"@,
        "webm"@,
        "m4v"@,
        "mpg"@,
        "mpeg"@,
        "ts"@,
    ]
}

/// Extensions of subtitle files.
pub open spec fn subtitle_extensions() -> Seq<Seq<char>> {
    seq!["srt"@, "sub"@, "idx"@, "ass"@, "ssa"@, "vtt"@]
}

/// Extensions of images that are not media.
pub open spec fn image_junk_extensions() -> Seq<Seq<char>> {
    seq!["jpg"@, "jpeg"@, "png"@]
}

/// The first of `patterns` that occurs in `name`.
pub open spec fn first_occurring(patterns: Seq<Seq<char>>, name: Seq<char>) -> Option<
    Seq<char>,
>
    decreases patterns.len(),
{
    if patterns.len() == 0 {
        None
    } else if contains_seq(name, patterns[0]) {
        Some(patterns[0])
    } else {
        first_occurring(patterns.drop_first(), name)
    }
}

/// The category and reason of a file with this name and (lower-case)
/// extension, or `None` when it is not junk. Known junk names come first,
/// then torrent markers, then subtitles (junk only when subtitles are
/// included), images and junk extensions.
pub open spec fn junk_verdict(filename: Seq<char>, ext: Seq<char>, include_subtitles: bool) -> Option<
    (JunkCategory, Seq<char>),
> {
    if junk_filenames().contains(filename) {
        Some((JunkCategory::SystemFile, "known junk filename"@))
    } else if first_occurring(junk_patterns(), filename) is Some {
        Some(
            (
                JunkCategory::TorrentAd,
                "torrent site marker: "@ + first_occurring(junk_patterns(), filename)->0,
            ),
        )
    } else if subtitle_extensions().contains(ext) {
        if include_subtitles {
            Some((JunkCategory::Subtitle, "subtitle file (flagged for review)"@))
        } else {
            None
        }
    } else if image_junk_extensions().contains(ext) {
        Some((JunkCategory::PromoImage, "non-media image file"@))
    } else if junk_extensions().contains(ext) {
        Some((JunkCategory::MetadataJunk, "junk extension: ."@ + ext))
    } else {
        None
    }
}

/// Whether `s` is one of `list`.
pub fn is_one_of(s: &str, list: &[&str]) -> (r: bool)
    ensures
        r == str_views(list@).contains(s@),
{
    let ghost vs = str_views(list@);
    for i in 0..list.len()
        invariant
            vs == str_views(list@),
            forall|k: int| 0 <= k < i ==> vs[k] != s@,
    {
        if str_eq(s, list[i]) {
            assert(vs[i as int] == s@);
            return true;
        }
    }
    assert forall|k: int| 0 <= k < vs.len() implies vs[k] != s@ by {}
    false
}

/// The position of the first of `patterns` that occurs in `name`.
pub fn first_occurring_exec(patterns: &[&str], name: &str) -> (r: Option<usize>)
    ensures
        match (r, first_occurring(str_views(patterns@), name@)) {
            (Some(i), Some(p)) => i < patterns@.len() && patterns@[i as int]@ == p,
            (None, None) => true,
            _ => false,
        },
{
    let nv = chars_of(name);
    let ghost all = str_views(patterns@);
    assert(all.skip(0) =~= all);
    for i in 0..patterns.len()
        invariant
            all == str_views(patterns@),
            nv@ == name@,
            first_occurring(all, name@) == first_occurring(all.skip(i as int), name@),
    {
        let pv = chars_of(patterns[i]);
        let ghost t = all.skip(i as int);
        assert(t[0] == patterns@[i as int]@);
        assert(t.drop_first() =~= all.skip(i + 1));
        if contains_exec(&nv, &pv) {
            return Some(i);
        }
    }
    assert(all.skip(patterns.len() as int) =~= Seq::<Seq<char>>::empty());
    None
}

/// Judges one file by its name and lower-case extension. `path` and `size`
/// are carried into the result.
pub fn classify_junk(path: &str, filename: &str, ext: &str, include_subtitles: bool, size: u64) -> (r:
    Option<JunkFile>)
    ensures
        match (r, junk_verdict(filename@, ext@, include_subtitles)) {
            (Some(f), Some((category, reason))) => f.path@ == path@ && f.size == size
                && f.category == category && f.reason@ == reason,
            (None, None) => true,
            _ => false,
        },
{
    let names: [&str; 3] = ["Thumbs.db", ".DS_Store", "desktop.ini"];
    assert(str_views(names@) =~= junk_filenames());
    if is_one_of(filename, &names) {
        return Some(
            JunkFile {
                path: owned(path),
                reason: owned("known junk filename"),
                size,
                category: JunkCategory::SystemFile,
            },
        );
    }
    let patterns: [&str; 13] = [
        "WWW.YTS",
        "www.YTS",
        "RARBG",
        "YIFYStatus",
        "YTSProxies",
        "YTSYifyUP",
        "VPPV.LA",
        "UIndex.org",
        "AhaShare",
        "demonoid",
        "SUJAIDR",
        "HDRush",
        "IranianTorrents",
    ];
    assert(str_views(patterns@) =~= junk_patterns());
    if let Some(i) = first_occurring_exec(&patterns, filename) {
        let mut reason = owned("torrent site marker: ");
        reason.append(patterns[i]);
        return Some(JunkFile { path: owned(path), reason, size, category: JunkCategory::TorrentAd });
    }
    let subtitles: [&str; 6] = ["srt", "sub", "idx", "ass", "ssa", "vtt"];
    assert(str_views(subtitles@) =~= subtitle_extensions());
    if is_one_of(ext, &subtitles) {
        if include_subtitles {
            return Some(
                JunkFile {
                    path: owned(path),
                    reason: owned("subtitle file (flagged for review)"),
                    size,
                    category: JunkCategory::Subtitle,
                },
            );
        }
        return None;
    }
    let images: [&str; 3] = ["jpg", "jpeg", "png"];
    assert(str_views(images@) =~= image_junk_extensions());
    if is_one_of(ext, &images) {
        return Some(
            JunkFile {
                path: owned(path),
                reason: owned("non-media image file"),
                size,
                category: JunkCategory::PromoImage,
            },
        );
    }
    let junk_exts: [&str; 8] = ["txt", "nfo", "url", "html", "exe", "torrent", "md5", "sha1"];
    assert(str_views(junk_exts@) =~= junk_extensions());
    if is_one_of(ext, &junk_exts) {
        let mut reason = owned("junk extension: .");
        reason.append(ext);
        return Some(
            JunkFile { path: owned(path), reason, size, category: JunkCategory::MetadataJunk },
        );
    }
    None
}

/// What `str::to_lowercase` makes of a text: each character replaced by its
/// Unicode lower-case mapping.
pub uninterp spec fn lowercased(s: Seq<char>) -> Seq<char>;

/// Every character of the text is ASCII.
pub open spec fn is_ascii_text(s: Seq<char>) -> bool {
    forall|i: int| 0 <= i < s.len() ==> (s[i] as u32) < 128
}

/// An ASCII capital letter in lower case; any other character as it is.
pub open spec fn ascii_lower_char(c: char) -> char {
    if 'A' <= c && c <= 'Z' {
        ((c as u32) + 32) as char
    } else {
        c
    }
}

/// The text with its ASCII capital letters in lower case.
pub open spec fn ascii_lowered(s: Seq<char>) -> Seq<char> {
    s.map_values(|c: char| ascii_lower_char(c))
}

/// Calls `str::to_lowercase`. Its result is a function of the text alone,
/// named `lowercased`; the Unicode case tables are not restated. Of an ASCII
/// text it is the same text with `A`..`Z` in lower case (the Unicode
/// lower-case mapping of the ASCII letters, which leaves every other ASCII
/// character as it is).
#[verifier::external_body]
fn to_lowercase(s: &str) -> (r: String)
    ensures
        r@ == lowercased(s@),
        is_ascii_text(s@) ==> r@ == ascii_lowered(s@),
{
    s.to_lowercase()
}

/// A path component ends at position `j` (at the end of the path or just
/// before a `/`) with the word `trickplay`, and the component is that word
/// alone or ends in `.trickplay`.
pub open spec fn trickplay_component_ends_at(path: Seq<char>, j: int) -> bool {
    &&& 9 <= j <= path.len()
    &&& (j == path.len() || path[j] == '/')
    &&& path.subrange(j - 9, j) == "trickplay"@
    &&& (j == 9 || path[j - 10] == '/' || path[j - 10] == '.')
}

/// The path lies in (or is) Jellyfin trickplay data: one of its components
/// is `trickplay` or `NAME.trickplay`, the folders of seek-preview
/// thumbnails Jellyfin keeps next to a video.
pub open spec fn in_trickplay(path: Seq<char>) -> bool {
    exists|j: int| trickplay_component_ends_at(path, j)
}

/// Whether the component of `v` that ends at `j` is trickplay data.
fn trickplay_end_exec(v: &Vec<char>, word: &Vec<char>, j: usize) -> (r: bool)
    requires
        word@ == "trickplay"@,
    ensures
        r == trickplay_component_ends_at(v@, j as int),
{
    proof {
        reveal_strlit("trickplay");
    }
    if j < 9 || j > v.len() {
        return false;
    }
    if j < v.len() && v[j] != '/' {
        return false;
    }
    if !occurs_at_exec(v, word, j - 9) {
        return false;
    }
    j == 9 || v[j - 10] == '/' || v[j - 10] == '.'
}

/// Whether a path lies in Jellyfin trickplay data.
pub fn is_trickplay_path(path: &str) -> (r: bool)
    ensures
        r == in_trickplay(path@),
{
    let v = chars_of(path);
    let word = chars_of("trickplay");
    for k in 0..v.len()
        invariant
            v@ == path@,
            word@ == "trickplay"@,
            forall|e: int| 0 <= e <= k ==> !trickplay_component_ends_at(v@, e),
    {
        if trickplay_end_exec(&v, &word, k + 1) {
            return true;
        }
    }
    assert forall|e: int| !trickplay_component_ends_at(path@, e) by {
        if 0 <= e <= v.len() {
        }
    }
    false
}

/// Judges one file found while walking a media folder: media files are
/// skipped; any other file is classified by its name and its extension,
/// compared in lower case.
pub fn scan_entry(path: &str, filename: &str, extension: &str, include_subtitles: bool, size: u64) -> (r:
    Option<JunkFile>)
    ensures
        is_ascii_text(extension@) ==> lowercased(extension@) == ascii_lowered(extension@),
        media_extensions().contains(lowercased(extension@)) ==> r is None,
        !media_extensions().contains(lowercased(extension@)) ==> match (
            r,
            junk_verdict(filename@, lowercased(extension@), include_subtitles),
        ) {
            (Some(f), Some((category, reason))) => f.path@ == path@ && f.size == size
                && f.category == category && f.reason@ == reason,
            (None, None) => true,
            _ => false,
        },
{
    let ext = to_lowercase(extension);
    let media: [&str; 11] = [
        "mkv",
        "mp4",
        "avi",
        "mov",
        "wmv",
        "flv",
        "webm",
        "m4v",
        "mpg",
        "mpeg",
        "ts",
    ];
    assert(str_views(media@) =~= media_extensions());
    if is_one_of(ext.as_str(), &media) {
        return None;
    }
    classify_junk(path, filename, ext.as_str(), include_subtitles, size)
}

impl JunkCategory {
    /// The name of the category.
    pub open spec fn label(self) -> Seq<char> {
        match self {
            JunkCategory::TorrentAd => "torrent-ad"@,
            JunkCategory::MetadataJunk => "metadata"@,
            JunkCategory::PromoImage => "promo-image"@,
            JunkCategory::Subtitle => "subtitle"@,
            JunkCategory::SystemFile => "system-file"@,
            JunkCategory::Other => "other"@,
        }
    }

    /// The name of the category, as it is shown to the user.
    pub fn as_str(&self) -> (r: &'static str)
        ensures
            r@ == self.label(),
    {
        match self {
            JunkCategory::TorrentAd => "torrent-ad",
            JunkCategory::MetadataJunk => "metadata",
            JunkCategory::PromoImage => "promo-image",
            JunkCategory::Subtitle => "subtitle",
            JunkCategory::SystemFile => "system-file",
            JunkCategory::Other => "other",
        }
    }
}

/// Whether a junk file is removed: everything is, except Jellyfin's
/// trickplay data, which is always kept, and subtitles when they are to be
/// kept.
pub open spec fn removed(f: JunkFile, skip_subtitles: bool) -> bool {
    !(skip_subtitles && f.category == JunkCategory::Subtitle) && !in_trickplay(f.path@)
}

/// The positions of the junk files to remove, in order.
pub open spec fn removal_positions(junk: Seq<JunkFile>, skip_subtitles: bool) -> Seq<usize>
    decreases junk.len(),
{
    if junk.len() == 0 {
        seq![]
    } else {
        removal_positions(junk.drop_last(), skip_subtitles) + if removed(
            junk.last(),
            skip_subtitles,
        ) {
            seq![(junk.len() - 1) as usize]
        } else {
            seq![]
        }
    }
}

/// Each position in the removal plan is that of a file that is removed.
proof fn lemma_removal_positions(junk: Seq<JunkFile>, skip_subtitles: bool)
    requires
        junk.len() <= usize::MAX,
    ensures
        forall|k: int|
            0 <= k < removal_positions(junk, skip_subtitles).len() ==> {
                let p = #[trigger] removal_positions(junk, skip_subtitles)[k];
                p < junk.len() && removed(junk[p as int], skip_subtitles)
            },
    decreases junk.len(),
{
    if junk.len() > 0 {
        let init = junk.drop_last();
        lemma_removal_positions(init, skip_subtitles);
        let prev = removal_positions(init, skip_subtitles);
        let all = removal_positions(junk, skip_subtitles);
        assert forall|k: int| 0 <= k < all.len() implies {
            let p = #[trigger] all[k];
            p < junk.len() && removed(junk[p as int], skip_subtitles)
        } by {
            if k < prev.len() {
                assert(all[k] == prev[k]);
                assert(init[prev[k] as int] == junk[prev[k] as int]);
            } else {
                assert(all[k] == junk.len() - 1);
                assert(removed(junk.last(), skip_subtitles));
            }
        }
    }
}

/// Which of the junk files to delete, by position: all but the kept
/// subtitles and whatever lies in trickplay data.
pub fn deletion_plan(junk: &Vec<JunkFile>, skip_subtitles: bool) -> (r: Vec<usize>)
    ensures
        r@ == removal_positions(junk@, skip_subtitles),
        forall|k: int| 0 <= k < r@.len() ==> r@[k] < junk@.len() && !in_trickplay(junk@[r@[k] as int].path@),
        forall|i: int|
            0 <= i < junk@.len() ==> (r@.contains(i as usize) <==> !(skip_subtitles && (
            #[trigger] junk@[i]).category == JunkCategory::Subtitle) && !in_trickplay(
                junk@[i].path@,
            )),
{
    let mut r: Vec<usize> = Vec::new();
    for i in 0..junk.len()
        invariant
            r@ == removal_positions(junk@.take(i as int), skip_subtitles),
    {
        assert(junk@.take(i + 1).drop_last() =~= junk@.take(i as int));
        if !(skip_subtitles && junk[i].category == JunkCategory::Subtitle)
            && !is_trickplay_path(junk[i].path.as_str()) {
            r.push(i);
        }
    }
    assert(junk@.take(junk.len() as int) =~= junk@);
    proof {
        lemma_removal_positions(junk@, skip_subtitles);
        lemma_deletion_exact(junk@, skip_subtitles);
    }
    r
}

/// The number of files in a category and their total size.
pub open spec fn category_totals(junk: Seq<JunkFile>, category: Option<JunkCategory>) -> (nat, nat)
    decreases junk.len(),
{
    if junk.len() == 0 {
        (0, 0)
    } else {
        let (n, size) = category_totals(junk.drop_last(), category);
        if category is None || category == Some(junk.last().category) {
            (n + 1, size + junk.last().size as nat)
        } else {
            (n, size)
        }
    }
}

/// Counts the junk files of one category (of all, for `None`) and adds up
/// their sizes; `None` when the total size does not fit in 64 bits.
pub fn summarize(junk: &Vec<JunkFile>, category: Option<JunkCategory>) -> (r: Option<(usize, u64)>)
    ensures
        match r {
            Some((n, size)) => n == category_totals(junk@, category).0 && size
                == category_totals(junk@, category).1,
            None => category_totals(junk@, category).1 > u64::MAX,
        },
{
    let mut n: usize = 0;
    let mut size: u64 = 0;
    for i in 0..junk.len()
        invariant
            n == category_totals(junk@.take(i as int), category).0,
            size == category_totals(junk@.take(i as int), category).1,
            n <= i,
    {
        assert(junk@.take(i + 1).drop_last() =~= junk@.take(i as int));
        let counted = match category {
            None => true,
            Some(c) => c == junk[i].category,
        };
        if counted {
            if junk[i].size > u64::MAX - size {
                proof {
                    lemma_totals_grow(junk@, category, i + 1);
                }
                return None;
            }
            n = n + 1;
            size = size + junk[i].size;
        }
    }
    assert(junk@.take(junk.len() as int) =~= junk@);
    Some((n, size))
}

proof fn lemma_totals_grow(junk: Seq<JunkFile>, category: Option<JunkCategory>, i: int)
    requires
        0 <= i <= junk.len(),
    ensures
        category_totals(junk.take(i), category).1 <= category_totals(junk, category).1,
    decreases junk.len() - i,
{
    if i < junk.len() {
        lemma_totals_grow(junk.drop_last(), category, i);
        assert(junk.drop_last().take(i) =~= junk.take(i));
    } else {
        assert(junk.take(i) =~= junk);
    }
}

impl Ordered for JunkFile {
    /// Junk files are ordered by their paths.
    open spec fn before(&self, other: &Self) -> bool {
        path_le(self.path@, other.path@)
    }

    proof fn lemma_total(a: &Self, b: &Self) {
        lemma_parts_le_total(components(a.path@), components(b.path@));
    }

    proof fn lemma_transitive(a: &Self, b: &Self, c: &Self) {
        lemma_parts_le_transitive(
            components(a.path@),
            components(b.path@),
            components(c.path@),
        );
    }

    fn precedes(&self, other: &Self) -> (r: bool) {
        path_precedes(self.path.as_str(), other.path.as_str())
    }
}

/// The junk found by a scan, in path order.
pub fn sort_junk(junk: Vec<JunkFile>) -> (r: Vec<JunkFile>)
    ensures
        sorted(r@),
        r@.to_multiset() == junk@.to_multiset(),
{
    sort_ordered(junk)
}

/// Subtitles are junk only when they are asked for, and then they are
/// flagged as subtitles.
pub proof fn lemma_subtitles_only_when_included(filename: Seq<char>, ext: Seq<char>)
    ensures
        junk_verdict(filename, ext, false) matches Some((c, _)) ==> c != JunkCategory::Subtitle,
        junk_verdict(filename, ext, true) matches Some((c, _)) && c == JunkCategory::Subtitle
            ==> subtitle_extensions().contains(ext),
{
}

/// The law of cleaning: a junk file is deleted exactly when it is neither a
/// subtitle being kept nor part of Jellyfin's trickplay data, whatever its
/// category.
pub proof fn lemma_deletion_exact(junk: Seq<JunkFile>, skip_subtitles: bool)
    requires
        junk.len() <= usize::MAX,
    ensures
        forall|i: int|
            0 <= i < junk.len() ==> (removal_positions(junk, skip_subtitles).contains(i as usize)
                <==> !(skip_subtitles && (#[trigger] junk[i]).category == JunkCategory::Subtitle)
                && !in_trickplay(junk[i].path@)),
    decreases junk.len(),
{
    if junk.len() > 0 {
        let init = junk.drop_last();
        lemma_deletion_exact(init, skip_subtitles);
        lemma_removal_positions(init, skip_subtitles);
        let prev = removal_positions(init, skip_subtitles);
        let all = removal_positions(junk, skip_subtitles);
        let last = (junk.len() - 1) as usize;
        assert forall|i: int| 0 <= i < junk.len() implies (all.contains(i as usize) <==> !(
        skip_subtitles && (#[trigger] junk[i]).category == JunkCategory::Subtitle) && !in_trickplay(
            junk[i].path@,
        )) by {
            if i < init.len() {
                assert(init[i] == junk[i]);
                if prev.contains(i as usize) {
                    let k = choose|k: int| 0 <= k < prev.len() && prev[k] == i as usize;
                    assert(all[k] == prev[k]);
                }
                if all.contains(i as usize) {
                    let k = choose|k: int| 0 <= k < all.len() && all[k] == i as usize;
                    if k < prev.len() {
                        assert(all[k] == prev[k]);
                    } else {
                        assert(all[k] == last);
                    }
                }
            } else {
                if removed(junk.last(), skip_subtitles) {
                    assert(all[prev.len() as int] == last);
                }
                if all.contains(i as usize) {
                    let k = choose|k: int| 0 <= k < all.len() && all[k] == i as usize;
                    if k < prev.len() {
                        assert(all[k] == prev[k]);
                        assert(prev[k] < init.len());
                    }
                }
            }
        }
    }
}

} // verus!
