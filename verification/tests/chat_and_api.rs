use jellyfin_pulga::api::{
    check_server_version, retry_delay_ms, version_numbers, JellyfinApi, JellyfinItem, ServerInfo, PAGE_SIZE,
};
use jellyfin_pulga::chat::{blocked_from_count, oldest_first, ContentReport, ReportReason, ReportStatus};
use jellyfin_pulga::config::JellyfinConfig;

fn item(name: &str, series: Option<&str>, season: Option<u32>, episode: Option<u32>) -> JellyfinItem {
    JellyfinItem {
        name: name.to_string(),
        id: "id1".to_string(),
        path: None,
        tags: Vec::new(),
        item_type: "Episode".to_string(),
        series_name: series.map(|s| s.to_string()),
        parent_index_number: season,
        index_number: episode,
    }
}

#[test]
fn display_name_of_movies_and_episodes() {
    assert_eq!(item("Heat", None, Some(1), Some(2)).display_name(), "Heat");
    assert_eq!(item("Pilot", Some("Lost"), Some(1), Some(2)).display_name(), "Lost S01E02 - Pilot");
    assert_eq!(item("Finale", Some("Show"), Some(12), Some(123)).display_name(), "Show S12E123 - Finale");
    assert_eq!(item("Special", Some("Show"), None, Some(3)).display_name(), "Show E03 - Special");
    assert_eq!(item("Extra", Some("Show"), None, None).display_name(), "Show  - Extra");
    assert_eq!(item("Zero", Some("Show"), Some(0), Some(0)).display_name(), "Show S00E00 - Zero");
}

#[test]
fn reasons_round_trip() {
    for r in [
        ReportReason::Corrupted,
        ReportReason::WrongContent,
        ReportReason::MissingSubtitles,
        ReportReason::BadQuality,
        ReportReason::Duplicate,
        ReportReason::Other,
    ] {
        assert_eq!(ReportReason::from_str(r.as_str()), r);
    }
    assert_eq!(ReportReason::WrongContent.as_str(), "wrong-content");
    assert_eq!(ReportReason::from_str("nonsense"), ReportReason::Other);
}

#[test]
fn statuses_round_trip() {
    for s in [ReportStatus::Open, ReportStatus::Reviewed, ReportStatus::Resolved, ReportStatus::Dismissed] {
        assert_eq!(ReportStatus::from_str(s.as_str()), s);
    }
    assert_eq!(ReportStatus::Dismissed.as_str(), "dismissed");
    assert_eq!(ReportStatus::from_str("closed"), ReportStatus::Open);
}

#[test]
fn reports_from_rows() {
    let r = ContentReport::from_row(
        7,
        "item".to_string(),
        "Heat".to_string(),
        "u1".to_string(),
        "ana".to_string(),
        "bad-quality",
        "blurry".to_string(),
        "resolved",
        "2024-01-01T00:00:00+00:00".to_string(),
    );
    assert_eq!(r.id, 7);
    assert_eq!(r.reason, ReportReason::BadQuality);
    assert_eq!(r.status, ReportStatus::Resolved);
    assert_eq!(r.details, "blurry");
    let n = ContentReport::new_open(8, "i", "n", "u", "un", ReportReason::Duplicate, "", "t");
    assert_eq!(n.status, ReportStatus::Open);
    assert_eq!(n.reason, ReportReason::Duplicate);
}

#[test]
fn messages_and_blocks() {
    assert_eq!(oldest_first(vec![3, 2, 1]), vec![1, 2, 3]);
    assert!(oldest_first(Vec::<i32>::new()).is_empty());
    assert!(blocked_from_count(1));
    assert!(!blocked_from_count(0));
}

#[test]
fn api_addresses() {
    let api = JellyfinApi::new(&JellyfinConfig { url: "http://jf:8096//".to_string(), api_key: "k3y".to_string() });
    assert_eq!(api.base_url, "http://jf:8096");
    assert_eq!(api.auth_header(), "MediaBrowser Token=k3y");
    assert_eq!(api.endpoint("/Users"), "http://jf:8096/Users");
    assert_eq!(api.item_url("abc"), "http://jf:8096/Items/abc");
    assert_eq!(api.tags_url("abc", true), "http://jf:8096/Items/abc/Tags/Add");
    assert_eq!(api.tags_url("abc", false), "http://jf:8096/Items/abc/Tags/Delete");
}

#[test]
fn api_queries_and_paging() {
    let api = JellyfinApi::new(&JellyfinConfig { url: "http://jf".to_string(), api_key: "k".to_string() });
    let q = api.all_items_query("Movie", "Path,Tags", 400);
    let q: Vec<(&str, &str)> = q.iter().map(|(a, b)| (a.as_str(), b.as_str())).collect();
    assert_eq!(
        q,
        vec![("Recursive", "true"), ("IncludeItemTypes", "Movie"), ("Fields", "Path,Tags"), ("Limit", "200"), ("StartIndex", "400")]
    );
    let t = api.tagged_items_query("needs-review", "Movie,Episode");
    assert_eq!(t[3], ("Tags".to_string(), "needs-review".to_string()));
    assert_eq!(api.item_query(), vec![("Fields".to_string(), "Path,Tags".to_string())]);
    assert_eq!(PAGE_SIZE, 200);
    assert_eq!(api.next_page_start(0, 200, 200, 450), Some(200));
    assert_eq!(api.next_page_start(200, 200, 400, 400), None);
    assert_eq!(api.next_page_start(0, 150, 150, 1000), None);
}

#[test]
fn server_versions() {
    assert_eq!(version_numbers("10.9.11"), Some((10, 9)));
    assert_eq!(version_numbers("10.10"), Some((10, 10)));
    assert_eq!(version_numbers("11"), None);
    assert_eq!(version_numbers("a.b"), None);
    let ok = ServerInfo { server_name: "jf".to_string(), version: "10.10.3".to_string() };
    assert!(check_server_version(&ok).is_ok());
    let newer = ServerInfo { server_name: "jf".to_string(), version: "11.0.0".to_string() };
    assert!(check_server_version(&newer).is_ok());
    let old = ServerInfo { server_name: "jf".to_string(), version: "10.8.13".to_string() };
    assert_eq!(
        check_server_version(&old).unwrap_err(),
        "Jellyfin 10.8.13 is not supported (10.9 or newer is required)"
    );
    assert_eq!(retry_delay_ms(0), Some(1000));
    assert_eq!(retry_delay_ms(1), Some(2000));
    assert_eq!(retry_delay_ms(2), Some(4000));
    assert_eq!(retry_delay_ms(3), None);
}
