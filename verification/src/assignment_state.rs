//! Where an assignment can be, and which moves between those places are legal.
//!
//! In flight it is `queued`, `delivered` or `unknown`. The end of its turn puts it on
//! `awaiting_review`, an account out of quota on `quota_blocked`, and only a decision takes it to
//! `completed`, `failed`, `cancelled` or `superseded`, where it stays.
use crate::text;
use vstd::prelude::*;

verus! {

pub const IN_FLIGHT: [&'static str; 3] = ["queued", "delivered", "unknown"];

/// Handed over or on its way: the daemon itself still moves it.
pub open spec fn in_flight(status: Seq<char>) -> bool {
    status == "queued"@ || status == "delivered"@ || status == "unknown"@
}

/// Still owed attention: in flight, waiting to be accepted, blocked, or waiting for quota.
pub open spec fn open_state(status: Seq<char>) -> bool {
    in_flight(status) || status == "awaiting_review"@ || status == "blocked"@ || status == "quota_blocked"@
}

/// Open, and nobody is known to be waiting for anything in particular.
pub open spec fn stallable(status: Seq<char>) -> bool {
    in_flight(status) || status == "awaiting_review"@
}

/// Decided for good.
pub open spec fn decided(status: Seq<char>) -> bool {
    status == "completed"@ || status == "failed"@ || status == "cancelled"@ || status == "superseded"@
}

/// The legal moves: the daemon moves what is in flight, what waits for quota goes back to the queue,
/// and a decision can be taken on everything that is open.
pub open spec fn legal(from: Seq<char>, to: Seq<char>) -> bool {
    ||| in_flight(from) && (to == "delivered"@ || to == "unknown"@ || to == "awaiting_review"@ || to == "quota_blocked"@)
    ||| from == "quota_blocked"@ && to == "queued"@
    ||| open_state(from) && (to == "blocked"@ || decided(to))
}

pub fn is_in_flight(status: &str) -> (r: bool)
    ensures
        r == in_flight(status@),
{
    text::same(status, "queued") || text::same(status, "delivered") || text::same(status, "unknown")
}

pub fn is_open(status: &str) -> (r: bool)
    ensures
        r == open_state(status@),
{
    is_in_flight(status) || text::same(status, "awaiting_review") || text::same(status, "blocked") || text::same(
        status,
        "quota_blocked",
    )
}

pub fn is_stallable(status: &str) -> (r: bool)
    ensures
        r == stallable(status@),
{
    is_in_flight(status) || text::same(status, "awaiting_review")
}

pub fn is_decided(status: &str) -> (r: bool)
    ensures
        r == decided(status@),
{
    text::same(status, "completed") || text::same(status, "failed") || text::same(status, "cancelled") || text::same(
        status,
        "superseded",
    )
}

/// The move from one status to another is legal.
pub fn allowed(from: &str, to: &str) -> (r: bool)
    ensures
        r == legal(from@, to@),
{
    if is_in_flight(from) && (text::same(to, "delivered") || text::same(to, "unknown") || text::same(to, "awaiting_review")
        || text::same(to, "quota_blocked")) {
        return true;
    }
    if text::same(from, "quota_blocked") && text::same(to, "queued") {
        return true;
    }
    is_open(from) && (text::same(to, "blocked") || is_decided(to))
}

/// Every place that an assignment can be.
pub fn states() -> (r: [&'static str; 10])
    ensures
        forall|s: Seq<char>|
            (exists|i: int| 0 <= i < 10 && (#[trigger] r@[i])@ == s) <==> #[trigger] open_state(s) || decided(s),
{
    let r = [
        "queued",
        "delivered",
        "unknown",
        "awaiting_review",
        "blocked",
        "quota_blocked",
        "completed",
        "failed",
        "cancelled",
        "superseded",
    ];
    assert(r@[0]@ == "queued"@ && r@[1]@ == "delivered"@ && r@[2]@ == "unknown"@ && r@[3]@ == "awaiting_review"@);
    assert(r@[4]@ == "blocked"@ && r@[5]@ == "quota_blocked"@ && r@[6]@ == "completed"@ && r@[7]@ == "failed"@);
    assert(r@[8]@ == "cancelled"@ && r@[9]@ == "superseded"@);
    r
}

proof fn names_differ()
    ensures
        forall|s: Seq<char>| #[trigger] decided(s) ==> !open_state(s),
{
    reveal_strlit("queued");
    reveal_strlit("delivered");
    reveal_strlit("unknown");
    reveal_strlit("awaiting_review");
    reveal_strlit("blocked");
    reveal_strlit("quota_blocked");
    reveal_strlit("completed");
    reveal_strlit("failed");
    reveal_strlit("cancelled");
    reveal_strlit("superseded");
    assert("queued"@.len() == 6 && "delivered"@.len() == 9 && "unknown"@.len() == 7);
    assert("awaiting_review"@.len() == 15 && "blocked"@.len() == 7 && "quota_blocked"@.len() == 13);
    assert("completed"@.len() == 9 && "failed"@.len() == 6 && "cancelled"@.len() == 9 && "superseded"@.len() == 10);
    assert("completed"@[0] == 'c' && "delivered"@[0] == 'd' && "cancelled"@[0] == 'c');
    assert("failed"@[0] == 'f' && "queued"@[0] == 'q');
}

/// No status is both decided and open.
pub proof fn decided_is_not_open(status: Seq<char>)
    ensures
        decided(status) ==> !open_state(status),
{
    names_differ();
}

/// A decision is final: no legal move leads out of it.
pub proof fn a_decision_is_final(from: Seq<char>, to: Seq<char>)
    ensures
        decided(from) ==> !legal(from, to),
{
    names_differ();
    reveal_strlit("quota_blocked");
    reveal_strlit("completed");
    reveal_strlit("failed");
    reveal_strlit("cancelled");
    reveal_strlit("superseded");
    if decided(from) {
        assert(from != "quota_blocked"@);
    }
}

/// Legal moves lead only between the places that an assignment can be.
pub proof fn moves_lead_between_states(from: Seq<char>, to: Seq<char>)
    ensures
        legal(from, to) ==> open_state(from) && (open_state(to) || decided(to)),
{
}

/// Everything open can be decided, whichever way.
pub proof fn open_work_can_be_decided(from: Seq<char>, to: Seq<char>)
    ensures
        open_state(from) && decided(to) ==> legal(from, to),
{
}

/// The moves, one by one: the daemon takes what is queued, delivered or unknown to delivered, unknown,
/// awaiting_review or quota_blocked; quota that comes back takes work to the queue; and what is open
/// can be blocked, completed, failed, cancelled or superseded. There is no other.
pub proof fn the_moves_one_by_one(from: Seq<char>, to: Seq<char>)
    ensures
        legal(from, to) <==> {
            ||| (from == "queued"@ || from == "delivered"@ || from == "unknown"@) && (to == "delivered"@ || to == "unknown"@
                || to == "awaiting_review"@ || to == "quota_blocked"@)
            ||| from == "quota_blocked"@ && to == "queued"@
            ||| (from == "queued"@ || from == "delivered"@ || from == "unknown"@ || from == "awaiting_review"@ || from
                == "blocked"@ || from == "quota_blocked"@) && (to == "blocked"@ || to == "completed"@ || to == "failed"@
                || to == "cancelled"@ || to == "superseded"@)
        },
        in_flight(from) <==> from == "queued"@ || from == "delivered"@ || from == "unknown"@,
        stallable(from) <==> in_flight(from) || from == "awaiting_review"@,
        open_state(from) <==> stallable(from) || from == "blocked"@ || from == "quota_blocked"@,
        decided(from) <==> from == "completed"@ || from == "failed"@ || from == "cancelled"@ || from == "superseded"@,
{
}

} // verus!
