//! The review workflow: which problem files to tag in Jellyfin, and the
//! tab-separated lists of flagged items for the command line and the web UI.

use vstd::prelude::*;
use crate::api::{JellyfinItem, JellyfinUser, review_tag};
use crate::media::{CheckStatus, MediaFileStatus};
use crate::text::{join, join_strings, owned, str_eq, views};

verus! {

broadcast use vstd::string::group_string_axioms;

/// How many messages a page holds when the request does not say.
pub fn default_limit() -> (n: usize)
    ensures
        n == 50,
{
    50
}

/// The item's path, or the empty text.
pub open spec fn path_or_empty(item: JellyfinItem) -> Seq<char> {
    match item.path {
        Some(p) => p@,
        None => seq![],
    }
}

/// The position of the first item whose path is `path`.
pub open spec fn item_at_path(items: Seq<JellyfinItem>, path: Seq<char>) -> Option<nat>
    decreases items.len(),
{
    if items.len() == 0 {
        None
    } else if items[0].path is Some && items[0].path->0@ == path {
        Some(0)
    } else {
        match item_at_path(items.drop_first(), path) {
            Some(k) => Some(k + 1),
            None => None,
        }
    }
}

/// The (result, item) positions to tag for review: each check result with a
/// problem whose file is a library item that is not tagged yet, in the order
/// of the results.
pub open spec fn tag_plan(results: Seq<MediaFileStatus>, items: Seq<JellyfinItem>) -> Seq<
    (usize, usize),
>
    decreases results.len(),
{
    if results.len() == 0 {
        seq![]
    } else {
        let r = results.last();
        let rest = tag_plan(results.drop_last(), items);
        match item_at_path(items, r.path@) {
            Some(j) => if r.status != CheckStatus::Healthy && !views(items[j as int].tags@).contains(
                review_tag(),
            ) {
                rest.push(((results.len() - 1) as usize, j as usize))
            } else {
                rest
            },
            None => rest,
        }
    }
}

/// Finds the first item with the given path.
pub fn find_item_by_path(items: &Vec<JellyfinItem>, path: &str) -> (r: Option<usize>)
    ensures
        match (r, item_at_path(items@, path@)) {
            (Some(j), Some(k)) => j == k && j < items@.len(),
            (None, None) => true,
            _ => false,
        },
{
    let ghost all = items@;
    assert(all.skip(0) =~= all);
    let mut i: usize = 0;
    while i < items.len()
        invariant
            i <= items.len(),
            all == items@,
            item_at_path(all, path@) == match item_at_path(all.skip(i as int), path@) {
                Some(k) => Some((k + i) as nat),
                None => None::<nat>,
            },
        decreases items.len() - i,
    {
        let ghost t = all.skip(i as int);
        assert(t[0] == items@[i as int]);
        assert(t.drop_first() =~= all.skip(i + 1));
        let hit = match &items[i].path {
            Some(p) => str_eq(p.as_str(), path),
            None => false,
        };
        if hit {
            return Some(i);
        }
        i = i + 1;
    }
    assert(all.skip(i as int) =~= Seq::<JellyfinItem>::empty());
    None
}

/// Whether a list of tags holds `tag`.
pub fn has_tag(tags: &Vec<String>, tag: &str) -> (r: bool)
    ensures
        r == views(tags@).contains(tag@),
{
    for i in 0..tags.len()
        invariant
            forall|k: int| 0 <= k < i ==> tags@[k]@ != tag@,
    {
        if str_eq(tags[i].as_str(), tag) {
            assert(views(tags@)[i as int] == tag@);
            return true;
        }
    }
    assert forall|k: int| 0 <= k < views(tags@).len() implies views(tags@)[k] != tag@ by {
        assert(views(tags@)[k] == tags@[k]@);
    }
    false
}

/// Which problem files to tag for review, as (result, item) positions.
pub fn tagging_plan(results: &Vec<MediaFileStatus>, items: &Vec<JellyfinItem>) -> (r: Vec<(usize, usize)>)
    ensures
        r@ == tag_plan(results@, items@),
        forall|k: int| 0 <= k < r@.len() ==> r@[k].0 < results@.len() && r@[k].1 < items@.len(),
{
    let mut r: Vec<(usize, usize)> = Vec::new();
    for i in 0..results.len()
        invariant
            r@ == tag_plan(results@.take(i as int), items@),
            forall|k: int| 0 <= k < r@.len() ==> r@[k].0 < i && r@[k].1 < items@.len(),
    {
        assert(results@.take(i + 1).drop_last() =~= results@.take(i as int));
        assert(results@.take(i + 1).last() == results@[i as int]);
        if results[i].status != CheckStatus::Healthy {
            if let Some(j) = find_item_by_path(items, results[i].path.as_str()) {
                proof {
                    reveal_strlit("needs-review");
                }
                if !has_tag(&items[j].tags, "needs-review") {
                    r.push((i, j));
                }
            }
        }
    }
    assert(results@.take(results.len() as int) =~= results@);
    r
}

/// One line of the command-line export: name, type and path.
pub open spec fn export_row(item: JellyfinItem) -> Seq<char> {
    item.display() + "\t"@ + item.item_type@ + "\t"@ + path_or_empty(item)
}

/// The lines of the command-line export: a header, then one line per item.
pub open spec fn export_lines(items: Seq<JellyfinItem>) -> Seq<Seq<char>>
    decreases items.len(),
{
    if items.len() == 0 {
        seq!["Name\tType\tPath"@]
    } else {
        export_lines(items.drop_last()).push(export_row(items.last()))
    }
}

/// One line of an item list: name, type, path and tags.
pub fn item_row(item: &JellyfinItem, with_tags: bool) -> (r: String)
    ensures
        !with_tags ==> r@ == export_row(*item),
        with_tags ==> r@ == export_row(*item) + "\t"@ + join(views(item.tags@), ", "@),
{
    let mut r = item.display_name();
    r.append("\t");
    r.append(item.item_type.as_str());
    r.append("\t");
    match &item.path {
        Some(p) => r.append(p.as_str()),
        None => {},
    }
    if with_tags {
        r.append("\t");
        let t = join_strings(&item.tags, ", ");
        r.append(t.as_str());
    }
    r
}

/// The flagged items as the command line exports them: a header line, then
/// name, type and path of each item, one per line.
pub fn export_flagged_tsv(items: &Vec<JellyfinItem>) -> (r: String)
    ensures
        r@ == join(export_lines(items@), "\n"@),
{
    let mut lines: Vec<String> = Vec::new();
    lines.push(owned("Name\tType\tPath"));
    assert(views(lines@) =~= export_lines(items@.take(0)));
    for i in 0..items.len()
        invariant
            views(lines@) == export_lines(items@.take(i as int)),
    {
        let row = item_row(&items[i], false);
        let ghost before = lines@;
        lines.push(row);
        assert(items@.take(i + 1).drop_last() =~= items@.take(i as int));
        assert(views(lines@) =~= views(before).push(row@));
    }
    assert(items@.take(items.len() as int) =~= items@);
    join_strings(&lines, "\n")
}

/// The rows of the web export, one line per item ending in a newline.
pub open spec fn web_rows(items: Seq<JellyfinItem>) -> Seq<char>
    decreases items.len(),
{
    if items.len() == 0 {
        seq![]
    } else {
        web_rows(items.drop_last()) + export_row(items.last()) + "\t"@ + join(
            views(items.last().tags@),
            ", "@,
        ) + "\n"@
    }
}

/// The flagged items as the web UI exports them: a header line, then name,
/// type, path and comma-separated tags of each item, every line ending in a
/// newline.
pub fn web_flagged_tsv(items: &Vec<JellyfinItem>) -> (r: String)
    ensures
        r@ == "name\ttype\tpath\ttags\n"@ + web_rows(items@),
{
    let mut r = owned("name\ttype\tpath\ttags\n");
    let ghost head = r@;
    assert(web_rows(items@.take(0)) =~= Seq::<char>::empty());
    for i in 0..items.len()
        invariant
            r@ == head + web_rows(items@.take(i as int)),
    {
        let row = item_row(&items[i], true);
        r.append(row.as_str());
        r.append("\n");
        assert(items@.take(i + 1).drop_last() =~= items@.take(i as int));
    }
    assert(items@.take(items.len() as int) =~= items@);
    r
}

/// The name of the user with id `id`, or `Unknown`.
pub open spec fn user_name(users: Seq<JellyfinUser>, id: Seq<char>) -> Seq<char>
    decreases users.len(),
{
    if users.len() == 0 {
        "Unknown"@
    } else if users[0].id@ == id {
        users[0].name@
    } else {
        user_name(users.drop_first(), id)
    }
}

/// The name to address a private message to: the recipient's Jellyfin
/// name, or `Unknown` when no user has that id.
pub fn recipient_name(users: &Vec<JellyfinUser>, id: &str) -> (r: String)
    ensures
        r@ == user_name(users@, id@),
{
    assert(users@.skip(0) =~= users@);
    for i in 0..users.len()
        invariant
            user_name(users@, id@) == user_name(users@.skip(i as int), id@),
    {
        let ghost t = users@.skip(i as int);
        assert(t[0] == users@[i as int]);
        assert(t.drop_first() =~= users@.skip(i + 1));
        if str_eq(users[i].id.as_str(), id) {
            return users[i].name.clone();
        }
    }
    assert(users@.skip(users.len() as int) =~= Seq::<JellyfinUser>::empty());
    owned("Unknown")
}

proof fn lemma_item_at_path(items: Seq<JellyfinItem>, path: Seq<char>)
    ensures
        item_at_path(items, path) matches Some(j) ==> j < items.len() && items[j as int].path
            is Some && items[j as int].path->0@ == path,
    decreases items.len(),
{
    if items.len() > 0 && !(items[0].path is Some && items[0].path->0@ == path) {
        lemma_item_at_path(items.drop_first(), path);
    }
}

/// Only files with a problem are tagged, each on the library item at its
/// path, and only when that item is not tagged for review yet.
pub proof fn lemma_tag_plan_sound(results: Seq<MediaFileStatus>, items: Seq<JellyfinItem>)
    requires
        results.len() <= usize::MAX,
        items.len() <= usize::MAX,
    ensures
        forall|k: int|
            0 <= k < tag_plan(results, items).len() ==> {
                let (i, j) = #[trigger] tag_plan(results, items)[k];
                &&& i < results.len()
                &&& j < items.len()
                &&& results[i as int].status != CheckStatus::Healthy
                &&& items[j as int].path is Some
                &&& items[j as int].path->0@ == results[i as int].path@
                &&& !views(items[j as int].tags@).contains(review_tag())
            },
    decreases results.len(),
{
    if results.len() > 0 {
        let init = results.drop_last();
        lemma_tag_plan_sound(init, items);
        lemma_item_at_path(items, results.last().path@);
        let plan = tag_plan(results, items);
        let rest = tag_plan(init, items);
        assert forall|k: int| 0 <= k < plan.len() implies {
            let (i, j) = #[trigger] plan[k];
            &&& i < results.len()
            &&& j < items.len()
            &&& results[i as int].status != CheckStatus::Healthy
            &&& items[j as int].path is Some
            &&& items[j as int].path->0@ == results[i as int].path@
            &&& !views(items[j as int].tags@).contains(review_tag())
        } by {
            if k < rest.len() {
                assert(plan[k] == rest[k]);
                let (i, j) = rest[k];
                assert(init[i as int] == results[i as int]);
            } else {
                let j = item_at_path(items, results.last().path@)->0;
                assert(plan[k] == ((results.len() - 1) as usize, j as usize));
            }
        }
    }
}

proof fn lemma_item_at_path_first(items: Seq<JellyfinItem>, path: Seq<char>, j: int)
    requires
        0 <= j < items.len(),
        items[j].path is Some && items[j].path->0@ == path,
        forall|k: int|
            0 <= k < j ==> !((#[trigger] items[k]).path is Some && items[k].path->0@ == path),
    ensures
        item_at_path(items, path) == Some(j as nat),
    decreases items.len(),
{
    if j > 0 {
        let t = items.drop_first();
        assert(!(items[0].path is Some && items[0].path->0@ == path));
        assert forall|k: int| 0 <= k < j - 1 implies !((#[trigger] t[k]).path is Some && t[k].path->0@
            == path) by {
            assert(t[k] == items[k + 1]);
        }
        assert(t[j - 1] == items[j]);
        lemma_item_at_path_first(t, path, j - 1);
    }
}

/// Every file with a problem is tagged: when the check of a file found
/// anything but `Healthy`, and the first library item at that file's path
/// does not carry the `needs-review` tag yet, that (result, item) pair is in
/// the tagging plan.
pub proof fn lemma_tag_plan_complete(
    results: Seq<MediaFileStatus>,
    items: Seq<JellyfinItem>,
    i: int,
    j: int,
)
    requires
        results.len() <= usize::MAX,
        items.len() <= usize::MAX,
        0 <= i < results.len(),
        0 <= j < items.len(),
        results[i].status != CheckStatus::Healthy,
        items[j].path is Some,
        items[j].path->0@ == results[i].path@,
        forall|k: int|
            0 <= k < j ==> !((#[trigger] items[k]).path is Some && items[k].path->0@
                == results[i].path@),
        !views(items[j].tags@).contains("needs-review"@),
    ensures
        tag_plan(results, items).contains((i as usize, j as usize)),
    decreases results.len(),
{
    lemma_item_at_path_first(items, results[i].path@, j);
    let init = results.drop_last();
    let plan = tag_plan(results, items);
    let rest = tag_plan(init, items);
    if i == results.len() - 1 {
        assert(plan == rest.push((i as usize, j as usize)));
        assert(plan[rest.len() as int] == (i as usize, j as usize));
    } else {
        assert(init[i] == results[i]);
        lemma_tag_plan_complete(init, items, i, j);
        let k = choose|k: int| 0 <= k < rest.len() && rest[k] == (i as usize, j as usize);
        // The plan for all the results extends the plan for the earlier ones.
        assert(plan =~= rest || plan == rest.push(plan.last()));
        assert(plan[k] == rest[k]);
    }
}

} // verus!
