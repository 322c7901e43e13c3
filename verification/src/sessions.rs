//! Sessions: how they are named, and which came last.

use crate::ranking::{
    among, are_lowest, lowest_keys_come_first, order_texts, text_before, text_keys,
    texts_are_picked_in_order, texts_left_out_come_no_earlier,
};
use crate::text::texts;
use vstd::prelude::*;
use vstd::string::*;

verus! {

/// What is known of a session.
#[derive(Debug)]
pub struct SessionInfo {
    pub id: String,
    /// As `YYYY-MM-DD HH:MM:SS`.
    pub started_at: String,
    pub ended_at: Option<String>,
    pub markets_tracked: Option<u32>,
    pub opportunities_detected: Option<u32>,
}

impl Clone for SessionInfo {
    fn clone(&self) -> (copy: Self)
        ensures
            copy == *self,
    {
        SessionInfo {
            id: self.id.clone(),
            started_at: self.started_at.clone(),
            ended_at: match &self.ended_at {
                Some(ended) => Some(ended.clone()),
                None => None,
            },
            markets_tracked: self.markets_tracked,
            opportunities_detected: self.opportunities_detected,
        }
    }
}

/// When each session started.
pub open spec fn starts(sessions: Seq<SessionInfo>) -> Seq<Seq<char>> {
    Seq::new(sessions.len(), |i: int| sessions[i].started_at@)
}

/// Whether `picked` are the `limit` sessions that started last, the last first.
pub open spec fn are_most_recent(
    sessions: Seq<SessionInfo>,
    picked: Seq<usize>,
    limit: nat,
) -> bool {
    are_lowest(text_keys(starts(sessions), true), picked, limit)
}

/// The `count` sessions that started last, the last first.
fn most_recent(sessions: &Vec<SessionInfo>, count: usize) -> (recent: Vec<SessionInfo>)
    ensures
        exists|picked: Seq<usize>|
            {
                &&& #[trigger] are_most_recent(sessions@, picked, count as nat)
                &&& recent@.len() == picked.len()
                &&& forall|k: int|
                    0 <= k < recent@.len() ==> #[trigger] recent@[k]
                        == sessions@[picked[k] as int]
            },
{
    let mut moments: Vec<String> = Vec::new();
    let mut i: usize = 0;
    while i < sessions.len()
        invariant
            i <= sessions@.len(),
            moments@.len() == i,
            forall|j: int| 0 <= j < i ==> (#[trigger] moments@[j])@ == sessions@[j].started_at@,
        decreases sessions@.len() - i,
    {
        moments.push(sessions[i].started_at.clone());
        i += 1;
    }
    assert(texts(moments@) =~= starts(sessions@));
    let picked: Vec<usize> = order_texts(&moments, true, count);
    assert(are_most_recent(sessions@, picked@, count as nat));
    let mut recent: Vec<SessionInfo> = Vec::new();
    let mut k: usize = 0;
    while k < picked.len()
        invariant
            k <= picked@.len(),
            are_most_recent(sessions@, picked@, count as nat),
            recent@.len() == k,
            forall|j: int| 0 <= j < k ==> #[trigger] recent@[j] == sessions@[picked@[j] as int],
        decreases picked@.len() - k,
    {
        recent.push(sessions[picked[k]].clone());
        k += 1;
    }
    recent
}

/// The `limit` sessions that started last, the last first.
pub fn recent_sessions(sessions: &Vec<SessionInfo>, limit: u32) -> (recent: Vec<SessionInfo>)
    ensures
        exists|picked: Seq<usize>|
            {
                &&& #[trigger] are_most_recent(sessions@, picked, limit as nat)
                &&& recent@.len() == picked.len()
                &&& forall|k: int|
                    0 <= k < recent@.len() ==> #[trigger] recent@[k]
                        == sessions@[picked[k] as int]
            },
{
    let count: usize = if limit as u64 > sessions.len() as u64 {
        sessions.len()
    } else {
        limit as usize
    };
    let recent: Vec<SessionInfo> = most_recent(sessions, count);
    proof {
        let picked = choose|picked: Seq<usize>|
            {
                &&& #[trigger] are_most_recent(sessions@, picked, count as nat)
                &&& recent@.len() == picked.len()
                &&& forall|k: int|
                    0 <= k < recent@.len() ==> #[trigger] recent@[k]
                        == sessions@[picked[k] as int]
            };
        assert(are_most_recent(sessions@, picked, limit as nat));
    }
    recent
}

/// All sessions, the one that started last first.
pub fn listed_sessions(sessions: &Vec<SessionInfo>) -> (listed: Vec<SessionInfo>)
    ensures
        listed@.len() == sessions@.len(),
        exists|picked: Seq<usize>|
            {
                &&& #[trigger] are_most_recent(sessions@, picked, sessions@.len())
                &&& listed@.len() == picked.len()
                &&& forall|k: int|
                    0 <= k < listed@.len() ==> #[trigger] listed@[k]
                        == sessions@[picked[k] as int]
            },
{
    most_recent(sessions, sessions.len())
}

/// The identifier of the session that started last; none where there is none.
pub fn latest_session(sessions: &Vec<SessionInfo>) -> (id: Option<String>)
    ensures
        match id {
            Some(text) => exists|picked: Seq<usize>| #[trigger]
                are_most_recent(sessions@, picked, 1) && picked.len() == 1
                    && sessions@[picked[0] as int].id == text,
            None => sessions@.len() == 0,
        },
{
    let recent: Vec<SessionInfo> = recent_sessions(sessions, 1);
    if recent.len() == 0 {
        None
    } else {
        Some(recent[0].id.clone())
    }
}

/// What a moment, in seconds since 1970, reads in a layout of chrono's, in UTC.
pub uninterp spec fn utc_text(seconds: i64, layout: Seq<char>) -> Option<Seq<char>>;

/// The layout of the moment in a session's identifier.
pub open spec fn stamp_layout() -> Seq<char> {
    "%Y%m%d_%H%M%S"@
}

/// Writes a moment, in seconds since 1970, in UTC: `chrono::DateTime::from_timestamp`
/// for the moment, then `format` and its text.
///
/// The text is a function of the moment and the layout alone. There is none where
/// chrono has no such moment; from 1970 to the end of the year 9999 there is one,
/// and in the layout of a session's identifier it has fifteen characters.
#[verifier::external_body]
fn write_utc(seconds: i64, layout: &str) -> (text: Option<String>)
    requires
        layout@ == stamp_layout(),
    ensures
        match text {
            Some(t) => utc_text(seconds, layout@) == Some(t@),
            None => utc_text(seconds, layout@) is None,
        },
        0 <= seconds < 253_402_300_800 ==> text is Some && text->0@.len() == 15,
{
    chrono::DateTime::from_timestamp(seconds, 0).map(|moment| moment.format(layout).to_string())
}

/// The identifier of a session with this stamp.
pub open spec fn stamped_id(stamp: Seq<char>) -> Seq<char> {
    "session_"@ + stamp
}

/// The identifier of a session with this stamp.
pub fn session_id_from_stamp(stamp: &str) -> (id: String)
    ensures
        id@ == stamped_id(stamp@),
{
    let mut id: String = "session_".to_owned();
    id.append(stamp);
    id
}

/// The identifier of a session that starts at this moment, in seconds since 1970.
pub fn session_id_at(seconds: i64) -> (id: Option<String>)
    ensures
        match (id, utc_text(seconds, stamp_layout())) {
            (Some(text), Some(stamp)) => text@ == stamped_id(stamp),
            (None, None) => true,
            _ => false,
        },
        0 <= seconds < 253_402_300_800 ==> id is Some && id->0@.len() == 23,
{
    proof {
        reveal_strlit("session_");
    }
    match write_utc(seconds, "%Y%m%d_%H%M%S") {
        Some(stamp) => Some(session_id_from_stamp(stamp.as_str())),
        None => None,
    }
}

/// The sessions that started last come first: none that comes later or is left out
/// started after one that was picked, and all are given where no fewer are asked for.
pub proof fn sessions_come_latest_first(
    sessions: Seq<SessionInfo>,
    picked: Seq<usize>,
    limit: nat,
    i: int,
    x: int,
)
    requires
        are_most_recent(sessions, picked, limit),
        sessions.len() <= u64::MAX,
        0 <= i < picked.len(),
        0 <= x < sessions.len(),
        forall|j: int| 0 <= j <= i ==> #[trigger] picked[j] != x,
    ensures
        picked[i] < sessions.len(),
        !text_before(sessions[picked[i] as int].started_at@, sessions[x].started_at@),
        picked.len() == if limit < sessions.len() { limit } else { sessions.len() },
{
    let list = starts(sessions);
    lowest_keys_come_first(text_keys(list, true), picked, limit, i, x);
    assert(list[picked[i] as int] == sessions[picked[i] as int].started_at@);
    assert(list[x] == sessions[x].started_at@);
    if among(picked, x) {
        let j = choose|j: int| 0 <= j < picked.len() && #[trigger] picked[j] == x;
        assert(j > i);
        texts_are_picked_in_order(list, true, picked, limit, i, j);
    } else {
        texts_left_out_come_no_earlier(list, true, picked, limit, i, x);
    }
}

} // verus!
