use jellyfin_pulga::api::{JellyfinItem, JellyfinUser};
use jellyfin_pulga::media::{CheckStatus, MediaFileStatus};
use jellyfin_pulga::review::{default_limit, export_flagged_tsv, recipient_name, tagging_plan, web_flagged_tsv};

fn item(id: &str, name: &str, path: Option<&str>, tags: &[&str]) -> JellyfinItem {
    JellyfinItem {
        name: name.to_string(),
        id: id.to_string(),
        path: path.map(|p| p.to_string()),
        tags: tags.iter().map(|t| t.to_string()).collect(),
        item_type: "Movie".to_string(),
        series_name: None,
        parent_index_number: None,
        index_number: None,
    }
}

fn status(path: &str, s: CheckStatus) -> MediaFileStatus {
    MediaFileStatus { path: path.to_string(), status: s, details: String::new(), duration: None, codec: None, resolution: None }
}

#[test]
fn page_limit_default() {
    assert_eq!(default_limit(), 50);
}

#[test]
fn exports() {
    let items = vec![item("1", "Heat", Some("/m/heat.mkv"), &["needs-review", "4k"]), item("2", "Up", None, &[])];
    assert_eq!(export_flagged_tsv(&items), "Name\tType\tPath\nHeat\tMovie\t/m/heat.mkv\nUp\tMovie\t");
    assert_eq!(export_flagged_tsv(&Vec::new()), "Name\tType\tPath");
    assert_eq!(
        web_flagged_tsv(&items),
        "name\ttype\tpath\ttags\nHeat\tMovie\t/m/heat.mkv\tneeds-review, 4k\nUp\tMovie\t\t\n"
    );
}

#[test]
fn recipients() {
    let users = vec![
        JellyfinUser { name: "ana".to_string(), id: "u1".to_string(), has_password: true },
        JellyfinUser { name: "bo".to_string(), id: "u2".to_string(), has_password: false },
    ];
    assert_eq!(recipient_name(&users, "u2"), "bo");
    assert_eq!(recipient_name(&users, "u9"), "Unknown");
}

#[test]
fn tagging_only_untagged_problem_items() {
    let items = vec![
        item("1", "A", Some("/m/a.mkv"), &[]),
        item("2", "B", Some("/m/b.mkv"), &["needs-review"]),
        item("3", "C", None, &[]),
    ];
    let results = vec![
        status("/m/a.mkv", CheckStatus::Corrupted),
        status("/m/b.mkv", CheckStatus::MissingAudio),
        status("/m/c.mkv", CheckStatus::Corrupted),
        status("/m/a.mkv", CheckStatus::Healthy),
        status("/m/a.mkv", CheckStatus::Unreadable),
    ];
    assert_eq!(tagging_plan(&results, &items), vec![(0, 0), (4, 0)]);
}
