//! The data of the chat, private messages and content reports.
//!
//! The records live in an SQLite database outside the library; their
//! timestamps are kept here as the RFC 3339 text the database stores.

use vstd::prelude::*;
use crate::text::{owned, str_eq};

verus! {

broadcast use vstd::string::group_string_axioms;

/// A message in a movie's chat room.
#[derive(Debug)]
pub struct ChatMessage {
    pub id: i64,
    pub room_id: String,
    pub user_id: String,
    pub username: String,
    pub content: String,
    pub created_at: String,
}

/// A message from one user to another.
#[derive(Debug)]
pub struct PrivateMessage {
    pub id: i64,
    pub from_user_id: String,
    pub from_username: String,
    pub to_user_id: String,
    pub to_username: String,
    pub content: String,
    pub read: bool,
    pub created_at: String,
}

/// A user's report about a library item.
#[derive(Debug)]
pub struct ContentReport {
    pub id: i64,
    pub item_id: String,
    pub item_name: String,
    pub reporter_id: String,
    pub reporter_name: String,
    pub reason: ReportReason,
    pub details: String,
    pub status: ReportStatus,
    pub created_at: String,
}

/// What is wrong with a reported item.
#[derive(Debug, Clone, Copy, PartialEq, Eq, Structural)]
pub enum ReportReason {
    Corrupted,
    WrongContent,
    MissingSubtitles,
    BadQuality,
    Duplicate,
    Other,
}

/// Where a report stands.
#[derive(Debug, Clone, Copy, PartialEq, Eq, Structural)]
pub enum ReportStatus {
    Open,
    Reviewed,
    Resolved,
    Dismissed,
}

/// That one user blocks another.
#[derive(Debug)]
pub struct BlockedUser {
    pub user_id: String,
    pub blocked_user_id: String,
    pub created_at: String,
}

impl ReportReason {
    /// The stored name of the reason.
    pub open spec fn label(self) -> Seq<char> {
        match self {
            ReportReason::Corrupted => "corrupted"@,
            ReportReason::WrongContent => "wrong-content"@,
            ReportReason::MissingSubtitles => "missing-subtitles"@,
            ReportReason::BadQuality => "bad-quality"@,
            ReportReason::Duplicate => "duplicate"@,
            ReportReason::Other => "other"@,
        }
    }

    /// The reason a stored name stands for; unknown names mean `Other`.
    pub open spec fn from_label(s: Seq<char>) -> ReportReason {
        if s == "corrupted"@ {
            ReportReason::Corrupted
        } else if s == "wrong-content"@ {
            ReportReason::WrongContent
        } else if s == "missing-subtitles"@ {
            ReportReason::MissingSubtitles
        } else if s == "bad-quality"@ {
            ReportReason::BadQuality
        } else if s == "duplicate"@ {
            ReportReason::Duplicate
        } else {
            ReportReason::Other
        }
    }

    /// The stored name of the reason.
    pub fn as_str(&self) -> (r: &'static str)
        ensures
            r@ == self.label(),
    {
        match self {
            ReportReason::Corrupted => "corrupted",
            ReportReason::WrongContent => "wrong-content",
            ReportReason::MissingSubtitles => "missing-subtitles",
            ReportReason::BadQuality => "bad-quality",
            ReportReason::Duplicate => "duplicate",
            ReportReason::Other => "other",
        }
    }

    /// Reads a stored name; unknown names mean `Other`.
    pub fn from_str(s: &str) -> (r: ReportReason)
        ensures
            r == ReportReason::from_label(s@),
    {
        if str_eq(s, "corrupted") {
            ReportReason::Corrupted
        } else if str_eq(s, "wrong-content") {
            ReportReason::WrongContent
        } else if str_eq(s, "missing-subtitles") {
            ReportReason::MissingSubtitles
        } else if str_eq(s, "bad-quality") {
            ReportReason::BadQuality
        } else if str_eq(s, "duplicate") {
            ReportReason::Duplicate
        } else {
            ReportReason::Other
        }
    }
}

impl ReportStatus {
    /// The stored name of the status.
    pub open spec fn label(self) -> Seq<char> {
        match self {
            ReportStatus::Open => "open"@,
            ReportStatus::Reviewed => "reviewed"@,
            ReportStatus::Resolved => "resolved"@,
            ReportStatus::Dismissed => "dismissed"@,
        }
    }

    /// The status a stored name stands for; unknown names mean `Open`.
    pub open spec fn from_label(s: Seq<char>) -> ReportStatus {
        if s == "open"@ {
            ReportStatus::Open
        } else if s == "reviewed"@ {
            ReportStatus::Reviewed
        } else if s == "resolved"@ {
            ReportStatus::Resolved
        } else if s == "dismissed"@ {
            ReportStatus::Dismissed
        } else {
            ReportStatus::Open
        }
    }

    /// The stored name of the status.
    pub fn as_str(&self) -> (r: &'static str)
        ensures
            r@ == self.label(),
    {
        match self {
            ReportStatus::Open => "open",
            ReportStatus::Reviewed => "reviewed",
            ReportStatus::Resolved => "resolved",
            ReportStatus::Dismissed => "dismissed",
        }
    }

    /// Reads a stored name; unknown names mean `Open`.
    pub fn from_str(s: &str) -> (r: ReportStatus)
        ensures
            r == ReportStatus::from_label(s@),
    {
        if str_eq(s, "open") {
            ReportStatus::Open
        } else if str_eq(s, "reviewed") {
            ReportStatus::Reviewed
        } else if str_eq(s, "resolved") {
            ReportStatus::Resolved
        } else if str_eq(s, "dismissed") {
            ReportStatus::Dismissed
        } else {
            ReportStatus::Open
        }
    }
}

/// A reason survives being stored and read back.
pub proof fn lemma_reason_roundtrip(r: ReportReason)
    ensures
        ReportReason::from_label(r.label()) == r,
{
    reveal_strlit("corrupted");
    reveal_strlit("wrong-content");
    reveal_strlit("missing-subtitles");
    reveal_strlit("bad-quality");
    reveal_strlit("duplicate");
    reveal_strlit("other");
    assert("corrupted"@.len() == 9);
    assert("wrong-content"@.len() == 13);
    assert("missing-subtitles"@.len() == 17);
    assert("bad-quality"@.len() == 11);
    assert("duplicate"@.len() == 9);
    assert("other"@.len() == 5);
    assert("duplicate"@[0] != "corrupted"@[0]);
}

/// A status survives being stored and read back.
pub proof fn lemma_status_roundtrip(s: ReportStatus)
    ensures
        ReportStatus::from_label(s.label()) == s,
{
    reveal_strlit("open");
    reveal_strlit("reviewed");
    reveal_strlit("resolved");
    reveal_strlit("dismissed");
    assert("open"@.len() == 4);
    assert("reviewed"@.len() == 8);
    assert("resolved"@.len() == 8);
    assert("dismissed"@.len() == 9);
    assert("reviewed"@[2] != "resolved"@[2]);
}

impl ContentReport {
    /// A report as the database row holds it: the reason and status by their
    /// stored names.
    pub fn from_row(
        id: i64,
        item_id: String,
        item_name: String,
        reporter_id: String,
        reporter_name: String,
        reason: &str,
        details: String,
        status: &str,
        created_at: String,
    ) -> (r: ContentReport)
        ensures
            r.id == id,
            r.item_id == item_id,
            r.item_name == item_name,
            r.reporter_id == reporter_id,
            r.reporter_name == reporter_name,
            r.reason == ReportReason::from_label(reason@),
            r.details == details,
            r.status == ReportStatus::from_label(status@),
            r.created_at == created_at,
    {
        ContentReport {
            id,
            item_id,
            item_name,
            reporter_id,
            reporter_name,
            reason: ReportReason::from_str(reason),
            details,
            status: ReportStatus::from_str(status),
            created_at,
        }
    }

    /// A new report: open, with the given reason.
    pub fn new_open(
        id: i64,
        item_id: &str,
        item_name: &str,
        reporter_id: &str,
        reporter_name: &str,
        reason: ReportReason,
        details: &str,
        created_at: &str,
    ) -> (r: ContentReport)
        ensures
            r.id == id,
            r.item_id@ == item_id@,
            r.item_name@ == item_name@,
            r.reporter_id@ == reporter_id@,
            r.reporter_name@ == reporter_name@,
            r.reason == reason,
            r.details@ == details@,
            r.status == ReportStatus::Open,
            r.created_at@ == created_at@,
    {
        ContentReport {
            id,
            item_id: owned(item_id),
            item_name: owned(item_name),
            reporter_id: owned(reporter_id),
            reporter_name: owned(reporter_name),
            reason,
            details: owned(details),
            status: ReportStatus::Open,
            created_at: owned(created_at),
        }
    }
}

/// Messages fetched newest first, put back in the order they were written.
pub fn oldest_first<T>(newest_first: Vec<T>) -> (r: Vec<T>)
    ensures
        r@ == newest_first@.reverse(),
{
    let mut v = newest_first;
    let ghost orig = v@;
    let mut r: Vec<T> = Vec::new();
    while v.len() > 0
        invariant
            v@.len() <= orig.len(),
            v@ == orig.take(v@.len() as int),
            r@ == orig.skip(v@.len() as int).reverse(),
        decreases v.len(),
    {
        let ghost n = v@.len();
        let ghost before = v@;
        let x = v.pop().unwrap();
        assert(x == orig[n - 1]);
        r.push(x);
        assert(orig.take(n - 1) =~= before.subrange(0, n - 1));
        assert(orig.skip(n - 1).reverse() =~= orig.skip(n as int).reverse().push(x));
    }
    assert(orig.skip(0) =~= orig);
    r
}

/// Whether one user blocks another, from the number of matching rows.
pub fn blocked_from_count(count: i64) -> (r: bool)
    ensures
        r == (count > 0),
{
    count > 0
}

} // verus!
