use jellyfin_pulga::junk::{classify_junk, deletion_plan, is_trickplay_path, scan_entry, sort_junk, summarize, JunkCategory, JunkFile};

fn junk(path: &str, size: u64, category: JunkCategory) -> JunkFile {
    JunkFile { path: path.to_string(), reason: String::new(), size, category }
}

#[test]
fn known_junk_names() {
    let f = classify_junk("/m/Thumbs.db", "Thumbs.db", "db", false, 10).unwrap();
    assert_eq!(f.category, JunkCategory::SystemFile);
    assert_eq!(f.reason, "known junk filename");
    assert_eq!(f.size, 10);
    assert_eq!(f.path, "/m/Thumbs.db");
}

#[test]
fn torrent_markers_win_over_extensions() {
    let f = classify_junk("/m/WWW.YTS.MX.jpg", "WWW.YTS.MX.jpg", "jpg", false, 5).unwrap();
    assert_eq!(f.category, JunkCategory::TorrentAd);
    assert_eq!(f.reason, "torrent site marker: WWW.YTS");
    let g = classify_junk("/m/x", "Get more at RARBG and YIFYStatus.txt", "txt", false, 5).unwrap();
    assert_eq!(g.reason, "torrent site marker: RARBG");
}

#[test]
fn subtitles_only_when_included() {
    assert!(classify_junk("/m/a.srt", "a.srt", "srt", false, 1).is_none());
    let f = classify_junk("/m/a.srt", "a.srt", "srt", true, 1).unwrap();
    assert_eq!(f.category, JunkCategory::Subtitle);
    assert_eq!(f.reason, "subtitle file (flagged for review)");
}

#[test]
fn images_and_junk_extensions() {
    let f = classify_junk("/m/poster.png", "poster.png", "png", false, 1).unwrap();
    assert_eq!(f.category, JunkCategory::PromoImage);
    assert_eq!(f.reason, "non-media image file");
    let g = classify_junk("/m/info.nfo", "info.nfo", "nfo", false, 1).unwrap();
    assert_eq!(g.category, JunkCategory::MetadataJunk);
    assert_eq!(g.reason, "junk extension: .nfo");
    assert!(classify_junk("/m/notes.md", "notes.md", "md", false, 1).is_none());
}

#[test]
fn scan_entry_lowercases_and_skips_media() {
    assert!(scan_entry("/m/RARBG.MKV", "RARBG.MKV", "MKV", true, 1).is_none());
    let f = scan_entry("/m/INFO.NFO", "INFO.NFO", "NFO", false, 3).unwrap();
    assert_eq!(f.reason, "junk extension: .nfo");
    assert_eq!(f.category, JunkCategory::MetadataJunk);
}

#[test]
fn category_names() {
    assert_eq!(JunkCategory::TorrentAd.as_str(), "torrent-ad");
    assert_eq!(JunkCategory::MetadataJunk.as_str(), "metadata");
    assert_eq!(JunkCategory::PromoImage.as_str(), "promo-image");
    assert_eq!(JunkCategory::Subtitle.as_str(), "subtitle");
    assert_eq!(JunkCategory::SystemFile.as_str(), "system-file");
    assert_eq!(JunkCategory::Other.as_str(), "other");
}

#[test]
fn deletion_skips_subtitles_when_asked() {
    let list = vec![
        junk("/a.srt", 1, JunkCategory::Subtitle),
        junk("/b.nfo", 2, JunkCategory::MetadataJunk),
        junk("/c.srt", 3, JunkCategory::Subtitle),
    ];
    assert_eq!(deletion_plan(&list, true), vec![1]);
    assert_eq!(deletion_plan(&list, false), vec![0, 1, 2]);
}

#[test]
fn totals_by_category() {
    let list = vec![
        junk("/a.srt", 1, JunkCategory::Subtitle),
        junk("/b.nfo", 2, JunkCategory::MetadataJunk),
        junk("/c.srt", 3, JunkCategory::Subtitle),
    ];
    assert_eq!(summarize(&list, None), Some((3, 6)));
    assert_eq!(summarize(&list, Some(JunkCategory::Subtitle)), Some((2, 4)));
    assert_eq!(summarize(&list, Some(JunkCategory::TorrentAd)), Some((0, 0)));
    let big = vec![junk("/x", u64::MAX, JunkCategory::Other), junk("/y", 1, JunkCategory::Other)];
    assert_eq!(summarize(&big, None), None);
}

#[test]
fn junk_is_sorted_like_paths() {
    let list = vec![
        junk("/m/a b/x.nfo", 1, JunkCategory::MetadataJunk),
        junk("/m/a/x.nfo", 1, JunkCategory::MetadataJunk),
        junk("/m/B.txt", 1, JunkCategory::MetadataJunk),
        junk("/m/a-c.txt", 1, JunkCategory::MetadataJunk),
    ];
    let mut expected: Vec<std::path::PathBuf> = list.iter().map(|j| j.path.clone().into()).collect();
    expected.sort();
    let sorted: Vec<std::path::PathBuf> = sort_junk(list).into_iter().map(|j| j.path.into()).collect();
    assert_eq!(sorted, expected);
}

#[test]
fn trickplay_tiles_are_listed_as_promo_images() {
    let f = scan_entry("/m/Heat.trickplay/320 - 10x10/0.jpg", "0.jpg", "jpg", true, 1).unwrap();
    assert_eq!(f.category, JunkCategory::PromoImage);
    assert!(scan_entry("/m/Heat/poster.jpg", "poster.jpg", "jpg", true, 1).is_some());
}

#[test]
fn trickplay_data_is_never_deleted() {
    let list = vec![
        junk("/m/Heat.trickplay/320 - 10x10/0.jpg", 1, JunkCategory::PromoImage),
        junk("/m/Heat/poster.jpg", 2, JunkCategory::PromoImage),
        junk("/m/Heat/trickplay/0.jpg", 3, JunkCategory::PromoImage),
        junk("/m/Heat/trickplay", 4, JunkCategory::Other),
        junk("/m/Heat/mytrickplay/0.jpg", 5, JunkCategory::PromoImage),
        junk("/m/Heat/trickplay.jpg", 6, JunkCategory::PromoImage),
        junk("/m/Heat.trickplay.old/0.jpg", 7, JunkCategory::PromoImage),
    ];
    assert_eq!(deletion_plan(&list, false), vec![1, 4, 5, 6]);
    assert!(is_trickplay_path("/m/Heat.trickplay/320 - 10x10/0.jpg"));
    assert!(is_trickplay_path("trickplay/0.jpg"));
    assert!(!is_trickplay_path("/m/Heat/poster.jpg"));
}
