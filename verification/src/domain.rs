//! The records that the board stores and shows.
//!
//! Identifiers are the text form of the board's ids; times are milliseconds
//! since the Unix epoch.

use vstd::prelude::*;
use crate::text::str_eq;

verus! {

/// The instant, in milliseconds since the Unix epoch, that chrono reads from an
/// RFC 3339 timestamp; `None` when the text is not one.
pub uninterp spec fn rfc3339_millis(text: Seq<char>) -> Option<i64>;

/// `chrono::DateTime::parse_from_rfc3339(text)`, taken to UTC, then
/// `timestamp_millis()`. The contract claims only that the outcome depends on the
/// text alone; the grammar is not stated.
#[verifier::external_body]
fn parse_rfc3339_millis(text: &str) -> (r: Option<i64>)
    ensures
        r == rfc3339_millis(text@),
{
    chrono::DateTime::parse_from_rfc3339(text)
        .ok()
        .map(|dt| dt.with_timezone(&chrono::Utc).timestamp_millis())
}

/// A stored time: the parsed instant, or `now_ms` when the text did not parse.
pub fn time_or_now(parsed: Option<i64>, now_ms: i64) -> (r: i64)
    ensures
        r == match parsed {
            Some(t) => t,
            None => now_ms,
        },
{
    match parsed {
        Some(t) => t,
        None => now_ms,
    }
}

/// The time a stored timestamp names, in milliseconds since the epoch; `now_ms`
/// when it is not RFC 3339.
pub fn stored_time(text: &str, now_ms: i64) -> (r: i64)
    ensures
        r == match rfc3339_millis(text@) {
            Some(t) => t,
            None => now_ms,
        },
{
    time_or_now(parse_rfc3339_millis(text), now_ms)
}

pub struct User {
    pub id: String,
    pub github_id: i64,
    pub login: String,
    pub avatar_url: String,
    pub created_at: i64,
    pub updated_at: i64,
}

pub struct PublicUser {
    pub login: String,
    pub avatar_url: String,
}

#[derive(Debug, Clone, Copy, PartialEq, Eq, Structural)]
pub enum IdeaStatus {
    Open,
    InProgress,
    Closed,
}

/// The text by which a status is stored.
pub open spec fn status_text(s: IdeaStatus) -> Seq<char> {
    match s {
        IdeaStatus::Open => "open"@,
        IdeaStatus::InProgress => "inprogress"@,
        IdeaStatus::Closed => "closed"@,
    }
}

/// The status that a stored text stands for; any unknown text reads as open.
pub open spec fn status_from_text(t: Seq<char>) -> IdeaStatus {
    if t == "inprogress"@ {
        IdeaStatus::InProgress
    } else if t == "closed"@ {
        IdeaStatus::Closed
    } else {
        IdeaStatus::Open
    }
}

impl IdeaStatus {
    pub fn as_str(self) -> (r: &'static str)
        ensures
            r@ == status_text(self),
    {
        match self {
            IdeaStatus::Open => "open",
            IdeaStatus::InProgress => "inprogress",
            IdeaStatus::Closed => "closed",
        }
    }

    pub fn from_db(value: &str) -> (r: IdeaStatus)
        ensures
            r == status_from_text(value@),
    {
        if str_eq(value, "inprogress") {
            IdeaStatus::InProgress
        } else if str_eq(value, "closed") {
            IdeaStatus::Closed
        } else {
            IdeaStatus::Open
        }
    }
}

/// Law: reading back the stored text of a status gives that status.
pub proof fn lemma_status_text_round_trip(s: IdeaStatus)
    ensures
        status_from_text(status_text(s)) == s,
{
    reveal_strlit("open");
    reveal_strlit("inprogress");
    reveal_strlit("closed");
    assert("open"@[0] != "inprogress"@[0]);
    assert("open"@[0] != "closed"@[0]);
    assert("closed"@[0] != "inprogress"@[0]);
}

/// Law: the stored texts of the statuses are `open`, `inprogress` and `closed`,
/// each read back as its own status and nothing else read as in progress or closed.
pub proof fn lemma_status_texts(t: Seq<char>)
    ensures
        status_text(IdeaStatus::Open) == "open"@,
        status_text(IdeaStatus::InProgress) == "inprogress"@,
        status_text(IdeaStatus::Closed) == "closed"@,
        status_from_text(t) == IdeaStatus::InProgress <==> t == "inprogress"@,
        status_from_text(t) == IdeaStatus::Closed <==> t == "closed"@,
        status_from_text(t) == IdeaStatus::Open <==> (t != "inprogress"@ && t != "closed"@),
{
    reveal_strlit("inprogress");
    reveal_strlit("closed");
    assert("closed"@[0] != "inprogress"@[0]);
}

pub struct Idea {
    pub id: String,
    pub title: String,
    pub body_text: String,
    pub problem: String,
    pub upvote_count: i64,
    pub comment_count: i64,
    pub viewer_has_upvoted: bool,
    pub viewer_can_edit: bool,
    pub viewer_can_delete: bool,
    pub viewer_can_close: bool,
    pub author: PublicUser,
    pub created_at: i64,
    pub updated_at: i64,
    pub status: IdeaStatus,
    pub closed: bool,
}

pub struct Comment {
    pub id: String,
    pub idea_id: String,
    pub body_text: String,
    pub upvote_count: i64,
    pub viewer_has_upvoted: bool,
    pub viewer_can_edit: bool,
    pub viewer_can_delete: bool,
    pub author: PublicUser,
    pub created_at: i64,
    pub updated_at: i64,
}

pub struct Session {
    pub sid: String,
    pub user_id: String,
    pub csrf_token: String,
    pub expires_at: i64,
    pub user: User,
}

pub struct NewIdea {
    pub title: String,
    pub body: String,
    pub problem: String,
}

/// What one run of the development seed touched.
#[derive(Debug, Clone, Copy, PartialEq, Eq, Structural)]
pub struct DevSeedReport {
    pub users: usize,
    pub ideas: usize,
    pub upvotes: usize,
}

impl PublicUser {
    pub fn duplicate(&self) -> (r: PublicUser)
        ensures
            r == *self,
    {
        PublicUser { login: self.login.clone(), avatar_url: self.avatar_url.clone() }
    }
}

} // verus!
