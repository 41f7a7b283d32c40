//! Approvals: permissions that are written down instead of living in a chat message.
//!
//! One request id is one approval, a decision and its record are one write, and a requester who asks
//! again for another commit takes the wait along.
use crate::inbox;
use crate::rows::{Approval, ApprovalView, Decision, DecisionView, InboxEvent, InboxEventView};
use crate::store::{Store, StoreError, StoreView, SUPERVISOR_ID};
use crate::table;
use crate::table::Row;
use crate::text;
use crate::time;
use vstd::prelude::*;

verus! {

// ---------------------------------------------------------------- one approval

/// Where the wait of an approval began: what it took over, or its own decision, whichever is
/// earlier. One that is not decided has none.
pub open spec fn waiting(a: ApprovalView) -> Option<Seq<char>> {
    match a.decided_at {
        None => None,
        Some(d) => match a.wait_since {
            Some(w) => if time::ts_before(w, d) {
                Some(w)
            } else {
                Some(d)
            },
            None => Some(d),
        },
    }
}

/// The approval has run out.
pub open spec fn lapsed(a: ApprovalView, now: Seq<char>) -> bool {
    a.expires_at matches Some(t) && !time::ts_before(now, t)
}

/// Why an approval cannot be used for a resource and a commit; `None` where it can.
pub open spec fn unusable(a: ApprovalView, now: Seq<char>, resource: Seq<char>, commit: Option<Seq<char>>) -> Option<
    Seq<char>,
> {
    if a.status != "approved"@ {
        if a.status == "pending"@ {
            Some("approval_not_decided"@)
        } else if a.status == "denied"@ {
            Some("approval_denied"@)
        } else if a.status == "revoked"@ {
            Some("approval_revoked"@)
        } else if a.status == "consumed"@ {
            Some("approval_already_used"@)
        } else if a.status == "superseded"@ {
            Some("approval_superseded"@)
        } else {
            Some("approval_not_usable"@)
        }
    } else if lapsed(a, now) {
        Some("approval_expired"@)
    } else if a.purpose != resource {
        Some("approval_purpose_mismatch"@)
    } else if a.target_commit is Some && commit is Some && a.target_commit != commit {
        Some("approval_commit_mismatch"@)
    } else if a.target_commit is Some && commit is None {
        Some("approval_commit_required"@)
    } else {
        None
    }
}

impl Approval {
    /// Where the wait began that decides how far the blocking is narrowed.
    pub fn waiting_since(&self) -> (r: Option<&str>)
        ensures
            text::arg(r) == waiting(self@),
    {
        match &self.decided_at {
            None => None,
            Some(d) => match &self.wait_since {
                Some(w) => if time::is_earlier(w.as_str(), d.as_str()) {
                    Some(w.as_str())
                } else {
                    Some(d.as_str())
                },
                None => Some(d.as_str()),
            },
        }
    }

    pub(crate) fn is_lapsed(&self, now: &str) -> (r: bool)
        ensures
            r == lapsed(self@, now@),
    {
        match &self.expires_at {
            Some(t) => !time::is_earlier(now, t.as_str()),
            None => false,
        }
    }

    /// Why this approval cannot be used right now, if it cannot. An approval is for a tree, not for a
    /// permission in general: another commit needs another one.
    pub fn refusal(&self, now: &str, resource: &str, commit: Option<&str>) -> (r: Option<&'static str>)
        ensures
            text::arg(r) == unusable(self@, now@, resource@, text::arg(commit)),
    {
        let status = self.status.as_str();
        if !text::same(status, "approved") {
            return Some(
                if text::same(status, "pending") {
                    "approval_not_decided"
                } else if text::same(status, "denied") {
                    "approval_denied"
                } else if text::same(status, "revoked") {
                    "approval_revoked"
                } else if text::same(status, "consumed") {
                    "approval_already_used"
                } else if text::same(status, "superseded") {
                    "approval_superseded"
                } else {
                    "approval_not_usable"
                },
            );
        }
        if self.is_lapsed(now) {
            return Some("approval_expired");
        }
        if !text::same(self.purpose.as_str(), resource) {
            return Some("approval_purpose_mismatch");
        }
        match (&self.target_commit, commit) {
            (Some(a), Some(b)) => if text::same(a.as_str(), b) {
                None
            } else {
                Some("approval_commit_mismatch")
            },
            (Some(_), None) => Some("approval_commit_required"),
            _ => None,
        }
    }
}

// ---------------------------------------------------------------- finding

/// The approval with this id.
pub open spec fn with_id(id: Seq<char>) -> spec_fn(ApprovalView) -> bool {
    |a: ApprovalView| a.id == id
}

/// The supervisor's approval with this request id.
pub open spec fn with_request(request_id: Seq<char>) -> spec_fn(ApprovalView) -> bool {
    |a: ApprovalView| a.supervisor_id == "AGM"@ && a.client_request_id == Some(request_id)
}

fn copy_of(a: Option<&Approval>) -> (r: Option<Approval>)
    ensures
        table::opt_view(r) == match a {
            Some(x) => Some(x@),
            None => None,
        },
{
    match a {
        Some(x) => Some(x.copied()),
        None => None,
    }
}

pub fn approval(s: &Store, id: &str) -> (r: Option<Approval>)
    ensures
        table::opt_view(r) == table::first(s@.approvals, with_id(id@)),
{
    copy_of(table::find(&s.approvals, |a: &Approval| -> (b: bool)
        ensures b == (with_id(id@))(a@)
        { text::same(a.id.as_str(), id) }, Ghost(with_id(id@))))
}

pub fn approval_by_request(s: &Store, request_id: &str) -> (r: Option<Approval>)
    ensures
        table::opt_view(r) == table::first(s@.approvals, with_request(request_id@)),
{
    copy_of(table::find(&s.approvals, |a: &Approval| -> (b: bool)
        ensures b == (with_request(request_id@))(a@)
        { text::same(a.supervisor_id.as_str(), SUPERVISOR_ID) && text::is_text(&a.client_request_id, request_id) },
        Ghost(with_request(request_id@))))
}

/// The supervisor's approvals.
pub open spec fn all_ours() -> spec_fn(ApprovalView) -> bool {
    |a: ApprovalView| a.supervisor_id == "AGM"@
}

/// One approval was asked for after another.
pub open spec fn newer() -> spec_fn(ApprovalView, ApprovalView) -> bool {
    |a: ApprovalView, b: ApprovalView| text::text_before(b.created_at, a.created_at)
}

/// At most `limit` approvals, the latest first.
pub open spec fn latest(rows: Seq<ApprovalView>, limit: int) -> Seq<ApprovalView> {
    table::limited(table::ordered(rows.filter(all_ours()), newer()), limit)
}

/// The latest approvals.
pub fn approvals(s: &Store, limit: i64) -> (r: Vec<Approval>)
    ensures
        table::views(r@) == latest(s@.approvals, limit as int),
{
    let rows = table::select(&s.approvals, |a: &Approval| -> (b: bool)
        ensures b == (all_ours())(a@)
        { text::same(a.supervisor_id.as_str(), SUPERVISOR_ID) }, Ghost(all_ours()));
    let sorted = table::arrange(rows, |a: &Approval, b: &Approval| -> (c: bool)
        ensures c == (newer())(a@, b@)
        { text::precedes(b.created_at.as_str(), a.created_at.as_str()) }, Ghost(newer()));
    table::limit(sorted, limit)
}

/// An approved rebuild or restart that is still to be used.
pub open spec fn live_window(now: Seq<char>) -> spec_fn(ApprovalView) -> bool {
    |a: ApprovalView|
        a.supervisor_id == "AGM"@ && a.status == "approved"@ && (a.purpose == "rebuild"@ || a.purpose == "restart"@)
            && a.decided_at is Some && !lapsed(a, now)
}

/// The time that approvals wait from, as it is sorted by.
pub open spec fn wait_key(a: ApprovalView) -> Seq<char> {
    let decided = a.decided_at->0;
    match a.wait_since {
        Some(w) => if text::text_before(w, decided) {
            w
        } else {
            decided
        },
        None => decided,
    }
}

/// One approval has waited for longer than another.
pub open spec fn waits_longer() -> spec_fn(ApprovalView, ApprovalView) -> bool {
    |a: ApprovalView, b: ApprovalView|
        a.decided_at is Some && b.decided_at is Some && text::text_before(wait_key(a), wait_key(b))
}

fn wait_key_of(a: &Approval) -> (r: Option<&str>)
    ensures
        a@.decided_at is None ==> r is None,
        a@.decided_at is Some ==> text::arg(r) == Some(wait_key(a@)),
{
    match &a.decided_at {
        None => None,
        Some(d) => match &a.wait_since {
            Some(w) => if text::precedes(w.as_str(), d.as_str()) {
                Some(w.as_str())
            } else {
                Some(d.as_str())
            },
            None => Some(d.as_str()),
        },
    }
}

fn has_waited_longer(a: &Approval, b: &Approval) -> (r: bool)
    ensures
        r == (waits_longer())(a@, b@),
{
    match (wait_key_of(a), wait_key_of(b)) {
        (Some(x), Some(y)) => text::precedes(x, y),
        _ => false,
    }
}

/// The approval for a window that has waited longest.
pub open spec fn waiting_longest(rows: Seq<ApprovalView>, now: Seq<char>) -> Option<ApprovalView> {
    let list = table::ordered(rows.filter(live_window(now)), waits_longer());
    if list.len() > 0 {
        Some(list[0])
    } else {
        None
    }
}

/// Of the approved, unexpired and unused rebuilds and restarts, the one that has waited longest.
pub fn oldest_live_window_approval(s: &Store, now: &str) -> (r: Option<Approval>)
    ensures
        table::opt_view(r) == waiting_longest(s@.approvals, now@),
{
    let rows = table::select(&s.approvals, |a: &Approval| -> (b: bool)
        ensures b == (live_window(now@))(a@)
        {
            text::same(a.supervisor_id.as_str(), SUPERVISOR_ID) && text::same(a.status.as_str(), "approved") && (text::same(
                a.purpose.as_str(),
                "rebuild",
            ) || text::same(a.purpose.as_str(), "restart")) && a.decided_at.is_some() && !a.is_lapsed(now)
        }, Ghost(live_window(now@)));
    let sorted = table::arrange(rows, |a: &Approval, b: &Approval| -> (c: bool)
        ensures c == (waits_longer())(a@, b@)
        { has_waited_longer(a, b) }, Ghost(waits_longer()));
    if sorted.len() > 0 {
        let ghost list = table::views(sorted@);
        let r = sorted[0].copied();
        assert(r@ == list[0]);
        Some(r)
    } else {
        None
    }
}

// ---------------------------------------------------------------- asking

/// The same request id came again for something else. Neither the old approval is handed out nor is
/// it overwritten.
#[derive(Debug)]
pub struct ApprovalRequestMismatch {
    pub request_id: String,
    pub approval_id: String,
    pub field: &'static str,
    pub old: String,
    pub new: String,
}

impl ApprovalRequestMismatch {
    pub fn message(&self) -> (r: String)
        ensures
            r@ == "request id `"@ + self.request_id@ + "` 已經是另一筆申請（"@ + self.field@ + "：`"@ + self.old@ + "` → `"@
                + self.new@ + "`），換一個 id 或沿用原本那筆 "@ + self.approval_id@,
    {
        let mut m = text::joined("request id `", self.request_id.as_str());
        m = text::joined(m.as_str(), "` 已經是另一筆申請（");
        m = text::joined(m.as_str(), self.field);
        m = text::joined(m.as_str(), "：`");
        m = text::joined(m.as_str(), self.old.as_str());
        m = text::joined(m.as_str(), "` → `");
        m = text::joined(m.as_str(), self.new.as_str());
        m = text::joined(m.as_str(), "`），換一個 id 或沿用原本那筆 ");
        text::joined(m.as_str(), self.approval_id.as_str())
    }
}

/// An approval that was created, or found again.
#[derive(Debug)]
pub struct ApprovalOutcome {
    pub approval: Approval,
    /// False is that this request id has an approval, and this is it.
    pub created: bool,
    /// The approval that this one took the place of.
    pub superseded: Option<String>,
}

/// The approval to supersede is not one of the requester's own for the same purpose.
#[derive(Debug)]
pub struct ApprovalSupersedeRefused {
    pub approval_id: String,
    pub reason: &'static str,
}

impl ApprovalSupersedeRefused {
    pub fn message(&self) -> (r: String)
        ensures
            r@ == "approval `"@ + self.approval_id@ + "` 不能被這筆取代："@ + self.reason@,
    {
        let mut m = text::joined("approval `", self.approval_id.as_str());
        m = text::joined(m.as_str(), "` 不能被這筆取代：");
        text::joined(m.as_str(), self.reason)
    }
}

/// Why no approval came of a request. Nothing was written.
#[derive(Debug)]
pub enum ApprovalError {
    Mismatch(ApprovalRequestMismatch),
    SupersedeRefused(ApprovalSupersedeRefused),
    Store(StoreError),
}

/// An optional text, empty where it is missing.
pub open spec fn or_empty(o: Option<Seq<char>>) -> Seq<char> {
    match o {
        Some(t) => t,
        None => seq![],
    }
}

/// The field in which a request differs from the approval that holds its request id, with what it
/// was and what it is now; `None` where they are the same request.
pub open spec fn difference(
    a: ApprovalView,
    requester: Seq<char>,
    purpose: Seq<char>,
    scope: Seq<char>,
    commit: Option<Seq<char>>,
) -> Option<(Seq<char>, Seq<char>, Seq<char>)> {
    if a.requester != requester {
        Some(("requester"@, a.requester, requester))
    } else if a.purpose != purpose {
        Some(("purpose"@, a.purpose, purpose))
    } else if a.scope != scope {
        Some(("scope"@, a.scope, scope))
    } else if or_empty(a.target_commit) != or_empty(commit) {
        Some(("target_commit"@, or_empty(a.target_commit), or_empty(commit)))
    } else {
        None
    }
}

/// Two requests under one id are the same request when requester, purpose, scope and commit agree.
pub fn same_request(
    existing: Approval,
    request_id: &str,
    requester: &str,
    purpose: &str,
    scope: &str,
    target_commit: Option<&str>,
) -> (res: Result<Approval, ApprovalRequestMismatch>)
    ensures
        match difference(existing@, requester@, purpose@, scope@, text::arg(target_commit)) {
            None => res is Ok && res->Ok_0@ == existing@,
            Some(d) => {
                &&& res is Err
                &&& res->Err_0.request_id@ == request_id@
                &&& res->Err_0.approval_id@ == existing@.id
                &&& res->Err_0.field@ == d.0
                &&& res->Err_0.old@ == d.1
                &&& res->Err_0.new@ == d.2
            },
        },
{
    let id = existing.id.clone();
    let rid = request_id.to_owned();
    if !text::same(existing.requester.as_str(), requester) {
        return Err(
            ApprovalRequestMismatch {
                request_id: rid,
                approval_id: id,
                field: "requester",
                old: existing.requester,
                new: requester.to_owned(),
            },
        );
    }
    if !text::same(existing.purpose.as_str(), purpose) {
        return Err(
            ApprovalRequestMismatch {
                request_id: rid,
                approval_id: id,
                field: "purpose",
                old: existing.purpose,
                new: purpose.to_owned(),
            },
        );
    }
    if !text::same(existing.scope.as_str(), scope) {
        return Err(
            ApprovalRequestMismatch {
                request_id: rid,
                approval_id: id,
                field: "scope",
                old: existing.scope,
                new: scope.to_owned(),
            },
        );
    }
    let was = match &existing.target_commit {
        Some(c) => c.clone(),
        None => String::new(),
    };
    let now_asked = match target_commit {
        Some(c) => c.to_owned(),
        None => String::new(),
    };
    if !text::same(was.as_str(), now_asked.as_str()) {
        return Err(
            ApprovalRequestMismatch {
                request_id: rid,
                approval_id: id,
                field: "target_commit",
                old: was,
                new: now_asked,
            },
        );
    }
    Ok(existing)
}

/// A request id or an approval id that was given, without the space around it; blank is not given.
pub open spec fn given(o: Option<Seq<char>>) -> Option<Seq<char>> {
    if o is Some && !text::is_blank(o->0) {
        Some(text::trimmed(o->0))
    } else {
        None
    }
}

fn given_text(o: Option<&str>) -> (r: Option<&str>)
    ensures
        text::arg(r) == given(text::arg(o)),
{
    match o {
        Some(t) => if text::blank(t) {
            None
        } else {
            Some(text::trim(t))
        },
        None => None,
    }
}

/// An approval as it is asked for.
pub open spec fn pending_approval(
    id: Seq<char>,
    now: Seq<char>,
    requester: Seq<char>,
    purpose: Seq<char>,
    scope: Seq<char>,
    target_commit: Option<Seq<char>>,
    expires_at: Option<Seq<char>>,
    request_id: Option<Seq<char>>,
    wait_since: Option<Seq<char>>,
    request_reason: Option<Seq<char>>,
) -> ApprovalView {
    ApprovalView {
        id,
        supervisor_id: "AGM"@,
        requester,
        purpose,
        scope,
        target_commit,
        status: "pending"@,
        decided_by: None,
        decided_at: None,
        reason: None,
        expires_at,
        client_request_id: request_id,
        created_at: now,
        updated_at: now,
        wait_since,
        request_reason,
    }
}

/// Why one approval cannot take the place of another; `None` where it can.
pub open spec fn supersede_refusal(old: Option<ApprovalView>, requester: Seq<char>, purpose: Seq<char>) -> Option<Seq<char>> {
    match old {
        None => Some("approval_not_found"@),
        Some(a) => if a.requester != requester {
            Some("not_the_same_requester"@)
        } else if a.purpose != purpose {
            Some("purpose_mismatch"@)
        } else {
            None
        },
    }
}

/// The approval can still come to be used.
pub open spec fn live(a: ApprovalView, now: Seq<char>) -> bool {
    (a.status == "pending"@ || a.status == "approved"@) && !lapsed(a, now)
}

/// The wait that is taken over from a superseded approval: its own where it was approved, otherwise
/// what it took over itself.
pub open spec fn inherited_wait(a: ApprovalView) -> Option<Seq<char>> {
    if a.status == "approved"@ {
        waiting(a)
    } else {
        a.wait_since
    }
}

/// The approval with this id, while it is in this state.
pub open spec fn at(id: Seq<char>, status: Seq<char>) -> spec_fn(ApprovalView) -> bool {
    |a: ApprovalView| a.id == id && a.status == status
}

/// An approval that another one took the place of.
pub open spec fn put_aside(now: Seq<char>) -> spec_fn(ApprovalView) -> ApprovalView {
    |a: ApprovalView| (ApprovalView { status: "superseded"@, updated_at: now, ..a })
}

/// The key of the event that asks for a decision on an approval.
pub open spec fn asking_key(id: Seq<char>) -> Seq<char> {
    "approval:"@ + id + ":requested"@
}

/// The event with this key, while it is pending.
pub open spec fn pending_key(key: Seq<char>) -> spec_fn(InboxEventView) -> bool {
    |e: InboxEventView| e.event_key == key && e.state == "pending"@
}

/// An event that the daemon closed itself.
pub open spec fn closed_by_daemon(now: Seq<char>) -> spec_fn(InboxEventView) -> InboxEventView {
    |e: InboxEventView| (InboxEventView { state: "handled"@, acked_by: Some("daemon"@), updated_at: now, ..e })
}

/// The store after an approval was put aside for a new one: with the record of it, and without the
/// question that nobody has been asked yet.
pub open spec fn put_aside_in(
    s: StoreView,
    old: ApprovalView,
    id: Seq<char>,
    decision_id: Seq<char>,
    requester: Seq<char>,
    now: Seq<char>,
) -> StoreView {
    StoreView {
        approvals: table::changed(s.approvals, at(old.id, old.status), put_aside(now)),
        decisions: s.decisions.push(
            DecisionView {
                id: decision_id,
                approval_id: old.id,
                from: old.status,
                to: "superseded"@,
                actor: requester,
                reason: Some("superseded by "@ + id),
                at: now,
            },
        ),
        inbox: table::changed(s.inbox, pending_key(asking_key(old.id)), closed_by_daemon(now)),
        ..s
    }
}

/// A record of a decision with this id.
pub open spec fn decision_id_is(id: Seq<char>) -> spec_fn(DecisionView) -> bool {
    |d: DecisionView| d.id == id
}

fn decision_taken(s: &Store, id: &str) -> (b: bool)
    ensures
        b == table::any(s@.decisions, decision_id_is(id@)),
{
    proof {
        table::first_is_a_hit(s@.decisions, decision_id_is(id@));
    }
    table::find(&s.decisions, |d: &Decision| -> (c: bool)
        ensures c == (decision_id_is(id@))(d@)
        { text::same(d.id.as_str(), id) }, Ghost(decision_id_is(id@))).is_some()
}

fn put_aside_now(s: &mut Store, now: &str, prior: &Approval, id: &str, decision_id: &str, requester: &str)
    ensures
        final(s)@ == put_aside_in(old(s)@, prior@, id@, decision_id@, requester@, now@),
{
    let old_id = prior.id.as_str();
    let status = prior.status.as_str();
    table::change(
        &mut s.approvals,
        |a: &Approval| -> (b: bool)
            ensures b == (at(old_id@, status@))(a@)
            { text::same(a.id.as_str(), old_id) && text::same(a.status.as_str(), status) },
        |a: &Approval| -> (x: Approval)
            ensures x@ == (put_aside(now@))(a@)
            { Approval { status: "superseded".to_owned(), updated_at: now.to_owned(), ..a.copied() } },
        Ghost(at(old_id@, status@)),
        Ghost(put_aside(now@)),
    );
    s.decisions.push(
        Decision {
            id: decision_id.to_owned(),
            approval_id: prior.id.clone(),
            from: prior.status.clone(),
            to: "superseded".to_owned(),
            actor: requester.to_owned(),
            reason: Some(text::joined("superseded by ", id)),
            at: now.to_owned(),
        },
    );
    let key = text::joined(text::joined("approval:", old_id).as_str(), ":requested");
    let k = key.as_str();
    table::change(
        &mut s.inbox,
        |e: &InboxEvent| -> (b: bool)
            ensures b == (pending_key(k@))(e@)
            { text::same(e.event_key.as_str(), k) && text::same(e.state.as_str(), "pending") },
        |e: &InboxEvent| -> (x: InboxEvent)
            ensures x@ == (closed_by_daemon(now@))(e@)
            {
                InboxEvent {
                    state: "handled".to_owned(),
                    acked_by: Some("daemon".to_owned()),
                    updated_at: now.to_owned(),
                    ..e.copied()
                }
            },
        Ghost(pending_key(k@)),
        Ghost(closed_by_daemon(now@)),
    );
}

/// What came of asking for an approval.
pub enum Requested {
    /// The request id has this approval, and it is the same request.
    Found(ApprovalView),
    /// The request id has another approval: which, in what field, what it was and what it is now.
    Mismatch { request_id: Seq<char>, approval_id: Seq<char>, field: Seq<char>, was: Seq<char>, now: Seq<char> },
    SupersedeRefused { approval_id: Seq<char>, reason: Seq<char> },
    IdTaken,
    /// A new approval, and the one that it took the place of.
    Created { approval: ApprovalView, superseded: Option<Seq<char>> },
}

pub open spec fn requested_of(res: Result<ApprovalOutcome, ApprovalError>) -> Option<Requested> {
    match res {
        Ok(o) => if o.created {
            Some(Requested::Created { approval: o.approval@, superseded: text::opt(o.superseded) })
        } else if o.superseded is None {
            Some(Requested::Found(o.approval@))
        } else {
            None
        },
        Err(e) => match e {
            ApprovalError::Mismatch(m) => Some(
                Requested::Mismatch {
                    request_id: m.request_id@,
                    approval_id: m.approval_id@,
                    field: m.field@,
                    was: m.old@,
                    now: m.new@,
                },
            ),
            ApprovalError::SupersedeRefused(e) => Some(
                Requested::SupersedeRefused { approval_id: e.approval_id@, reason: e.reason@ },
            ),
            ApprovalError::Store(e) => if e == StoreError::IdTaken {
                Some(Requested::IdTaken)
            } else {
                None
            },
        },
    }
}

/// What asking for an approval comes to, and the store afterwards.
pub open spec fn requesting(
    s: StoreView,
    now: Seq<char>,
    id: Seq<char>,
    decision_id: Seq<char>,
    requester: Seq<char>,
    purpose: Seq<char>,
    scope: Seq<char>,
    target_commit: Option<Seq<char>>,
    expires_at: Option<Seq<char>>,
    request_id: Option<Seq<char>>,
    supersedes: Option<Seq<char>>,
    request_reason: Option<Seq<char>>,
) -> (Requested, StoreView) {
    let rid = given(request_id);
    let known = if rid is Some {
        table::first(s.approvals, with_request(rid->0))
    } else {
        None
    };
    let old_id = given(supersedes);
    let before = table::first(s.approvals, with_id(old_id->0));
    let refused = supersede_refusal(before, requester, purpose);
    let replaces = old_id is Some && live(before->0, now);
    let row = pending_approval(
        id,
        now,
        requester,
        purpose,
        scope,
        target_commit,
        expires_at,
        rid,
        if replaces {
            inherited_wait(before->0)
        } else {
            None
        },
        request_reason,
    );
    let base = if replaces {
        put_aside_in(s, before->0, id, decision_id, requester, now)
    } else {
        s
    };
    if known is Some {
        match difference(known->0, requester, purpose, scope, target_commit) {
            None => (Requested::Found(known->0), s),
            Some(d) => (
                Requested::Mismatch { request_id: rid->0, approval_id: known->0.id, field: d.0, was: d.1, now: d.2 },
                s,
            ),
        }
    } else if old_id is Some && refused is Some {
        (Requested::SupersedeRefused { approval_id: old_id->0, reason: refused->0 }, s)
    } else if table::any(s.approvals, with_id(id)) || (replaces && table::any(s.decisions, decision_id_is(decision_id))) {
        (Requested::IdTaken, s)
    } else {
        (
            Requested::Created {
                approval: row,
                superseded: if replaces {
                    Some(before->0.id)
                } else {
                    None
                },
            },
            StoreView { approvals: base.approvals.push(row), ..base },
        )
    }
}

/// Ask for an approval, in place of one of the requester's own for the same purpose.
///
/// A request id that is known finds its approval again, decided or not. An approval that is put
/// aside hands its wait on; one that is of no use any more is left alone, and the wait begins anew.
pub fn create_approval_superseding(
    s: &mut Store,
    now: &str,
    id: &str,
    decision_id: &str,
    requester: &str,
    purpose: &str,
    scope: &str,
    target_commit: Option<&str>,
    expires_at: Option<&str>,
    request_id: Option<&str>,
    supersedes: Option<&str>,
    request_reason: Option<&str>,
) -> (res: Result<ApprovalOutcome, ApprovalError>)
    ensures
        (requested_of(res), final(s)@) == ({
            let (got, after) = requesting(
                old(s)@,
                now@,
                id@,
                decision_id@,
                requester@,
                purpose@,
                scope@,
                text::arg(target_commit),
                text::arg(expires_at),
                text::arg(request_id),
                text::arg(supersedes),
                text::arg(request_reason),
            );
            (Some(got), after)
        }),
{
    let rid = given_text(request_id);
    if let Some(r) = rid {
        if let Some(existing) = approval_by_request(s, r) {
            return match same_request(existing, r, requester, purpose, scope, target_commit) {
                Ok(a) => Ok(ApprovalOutcome { approval: a, created: false, superseded: None }),
                Err(m) => Err(ApprovalError::Mismatch(m)),
            };
        }
    }
    let mut wait_since: Option<String> = None;
    let mut superseded: Option<String> = None;
    let id_taken = approval(s, id).is_some();
    proof {
        table::first_is_a_hit(s@.approvals, with_id(id@));
    }
    if let Some(old_id) = given_text(supersedes) {
        let prior = match approval(s, old_id) {
            Some(a) => a,
            None => {
                return Err(
                    ApprovalError::SupersedeRefused(
                        ApprovalSupersedeRefused { approval_id: old_id.to_owned(), reason: "approval_not_found" },
                    ),
                );
            },
        };
        if !text::same(prior.requester.as_str(), requester) {
            return Err(
                ApprovalError::SupersedeRefused(
                    ApprovalSupersedeRefused { approval_id: old_id.to_owned(), reason: "not_the_same_requester" },
                ),
            );
        }
        if !text::same(prior.purpose.as_str(), purpose) {
            return Err(
                ApprovalError::SupersedeRefused(
                    ApprovalSupersedeRefused { approval_id: old_id.to_owned(), reason: "purpose_mismatch" },
                ),
            );
        }
        let is_live = (text::same(prior.status.as_str(), "pending") || text::same(prior.status.as_str(), "approved"))
            && !prior.is_lapsed(now);
        if is_live {
            if id_taken || decision_taken(s, decision_id) {
                return Err(ApprovalError::Store(StoreError::IdTaken));
            }
            wait_since = if text::same(prior.status.as_str(), "approved") {
                text::owned(prior.waiting_since())
            } else {
                text::copied(&prior.wait_since)
            };
            put_aside_now(s, now, &prior, id, decision_id, requester);
            superseded = Some(prior.id.clone());
        }
    }
    if id_taken {
        return Err(ApprovalError::Store(StoreError::IdTaken));
    }
    let row = Approval {
        id: id.to_owned(),
        supervisor_id: SUPERVISOR_ID.to_owned(),
        requester: requester.to_owned(),
        purpose: purpose.to_owned(),
        scope: scope.to_owned(),
        target_commit: text::owned(target_commit),
        status: "pending".to_owned(),
        decided_by: None,
        decided_at: None,
        reason: None,
        expires_at: text::owned(expires_at),
        client_request_id: text::owned(rid),
        created_at: now.to_owned(),
        updated_at: now.to_owned(),
        wait_since,
        request_reason: text::owned(request_reason),
    };
    let out = row.copied();
    s.approvals.push(row);
    Ok(ApprovalOutcome { approval: out, created: true, superseded })
}

/// Ask for an approval.
pub fn create_approval(
    s: &mut Store,
    now: &str,
    id: &str,
    requester: &str,
    purpose: &str,
    scope: &str,
    target_commit: Option<&str>,
    expires_at: Option<&str>,
    request_id: Option<&str>,
) -> (res: Result<ApprovalOutcome, ApprovalError>)
    ensures
        (requested_of(res), final(s)@) == ({
            let (got, after) = requesting(
                old(s)@,
                now@,
                id@,
                ""@,
                requester@,
                purpose@,
                scope@,
                text::arg(target_commit),
                text::arg(expires_at),
                text::arg(request_id),
                None,
                None,
            );
            (Some(got), after)
        }),
{
    create_approval_superseding(
        s,
        now,
        id,
        "",
        requester,
        purpose,
        scope,
        target_commit,
        expires_at,
        request_id,
        None,
        None,
    )
}

// ---------------------------------------------------------------- deciding

/// An approval on which a decision was written.
pub open spec fn ruled(
    status: Seq<char>,
    actor: Seq<char>,
    reason: Option<Seq<char>>,
    expires_at: Option<Seq<char>>,
    now: Seq<char>,
) -> spec_fn(ApprovalView) -> ApprovalView {
    |a: ApprovalView|
        (ApprovalView {
            status,
            decided_by: Some(actor),
            decided_at: Some(now),
            reason: if reason is Some {
                reason
            } else {
                a.reason
            },
            expires_at: if expires_at is Some {
                expires_at
            } else {
                a.expires_at
            },
            updated_at: now,
            ..a
        })
}

/// The approval that a word is said on: only one that is pending can be approved or denied. It can be
/// revoked, or used up, whatever state it is in.
pub open spec fn open_to(id: Seq<char>, status: Seq<char>) -> spec_fn(ApprovalView) -> bool {
    if status == "approved"@ || status == "denied"@ {
        at(id, "pending"@)
    } else {
        with_id(id)
    }
}

/// What saying a word on an approval comes to: the approval, and the store afterwards.
pub open spec fn said(
    s: StoreView,
    now: Seq<char>,
    id: Seq<char>,
    status: Seq<char>,
    actor: Seq<char>,
    reason: Option<Seq<char>>,
    expires_at: Option<Seq<char>>,
) -> (Option<ApprovalView>, StoreView) {
    let after = table::changed(s.approvals, open_to(id, status), ruled(status, actor, reason, expires_at, now));
    (table::first(after, with_id(id)), StoreView { approvals: after, ..s })
}

/// Approve, deny, revoke or use up an approval; gives the approval as it is afterwards. One that was
/// decided already is neither approved nor denied again, and nothing is written.
pub fn decide_approval(
    s: &mut Store,
    now: &str,
    id: &str,
    status: &str,
    actor: &str,
    reason: Option<&str>,
    expires_at: Option<&str>,
) -> (r: Option<Approval>)
    ensures
        (table::opt_view(r), final(s)@) == said(
            old(s)@,
            now@,
            id@,
            status@,
            actor@,
            text::arg(reason),
            text::arg(expires_at),
        ),
{
    let answer = text::same(status, "approved") || text::same(status, "denied");
    table::change(
        &mut s.approvals,
        |a: &Approval| -> (b: bool)
            ensures b == (open_to(id@, status@))(a@)
            { text::same(a.id.as_str(), id) && (!answer || text::same(a.status.as_str(), "pending")) },
        |a: &Approval| -> (x: Approval)
            ensures x@ == (ruled(status@, actor@, text::arg(reason), text::arg(expires_at), now@))(a@)
            {
                Approval {
                    status: status.to_owned(),
                    decided_by: Some(actor.to_owned()),
                    decided_at: Some(now.to_owned()),
                    reason: text::or(reason, &a.reason),
                    expires_at: text::or(expires_at, &a.expires_at),
                    updated_at: now.to_owned(),
                    ..a.copied()
                }
            },
        Ghost(open_to(id@, status@)),
        Ghost(ruled(status@, actor@, text::arg(reason), text::arg(expires_at), now@)),
    );
    approval(s, id)
}

/// Using an approval up, or putting it aside, is no decision: who approved it and when stays.
pub open spec fn keeps_decision(status: Seq<char>) -> bool {
    status == "consumed"@ || status == "superseded"@
}

/// An approval that was moved from one state to another.
pub open spec fn moved(
    status: Seq<char>,
    actor: Seq<char>,
    reason: Option<Seq<char>>,
    expires_at: Option<Seq<char>>,
    now: Seq<char>,
) -> spec_fn(ApprovalView) -> ApprovalView {
    |a: ApprovalView|
        (ApprovalView {
            status,
            decided_by: if keeps_decision(status) {
                a.decided_by
            } else {
                Some(actor)
            },
            decided_at: if keeps_decision(status) {
                a.decided_at
            } else {
                Some(now)
            },
            reason: if reason is Some {
                reason
            } else {
                a.reason
            },
            expires_at: if expires_at is Some {
                expires_at
            } else {
                a.expires_at
            },
            updated_at: now,
            ..a
        })
}

/// What came of deciding an approval against a state.
pub enum Verdict {
    /// It is no longer in that state.
    Gone,
    /// The id of the record is taken.
    IdTaken,
    /// It was decided, and is now this.
    Done(ApprovalView),
}

/// What deciding an approval against a state comes to, and the store afterwards.
pub open spec fn deciding(
    s: StoreView,
    now: Seq<char>,
    decision_id: Seq<char>,
    id: Seq<char>,
    from_status: Seq<char>,
    status: Seq<char>,
    actor: Seq<char>,
    reason: Option<Seq<char>>,
    expires_at: Option<Seq<char>>,
) -> (Verdict, StoreView) {
    let hit = at(id, from_status);
    let after = table::changed(s.approvals, hit, moved(status, actor, reason, expires_at, now));
    if !table::any(s.approvals, hit) {
        (Verdict::Gone, s)
    } else if table::any(s.decisions, decision_id_is(decision_id)) {
        (Verdict::IdTaken, s)
    } else {
        (
            Verdict::Done(table::first(after, with_id(id))->0),
            StoreView {
                approvals: after,
                decisions: s.decisions.push(
                    DecisionView { id: decision_id, approval_id: id, from: from_status, to: status, actor, reason, at: now },
                ),
                ..s
            },
        )
    }
}

/// Decide an approval and keep the record of it, in one write. `Ok(None)` is that it is no longer in
/// the state it was decided from, and that nothing was written.
pub fn decide_approval_from(
    s: &mut Store,
    now: &str,
    decision_id: &str,
    id: &str,
    from_status: &str,
    status: &str,
    actor: &str,
    reason: Option<&str>,
    expires_at: Option<&str>,
) -> (res: Result<Option<Approval>, StoreError>)
    ensures
        ({
            let (got, after) = deciding(
                old(s)@,
                now@,
                decision_id@,
                id@,
                from_status@,
                status@,
                actor@,
                text::arg(reason),
                text::arg(expires_at),
            );
            &&& final(s)@ == after
            &&& match got {
                Verdict::Gone => res == Ok::<Option<Approval>, StoreError>(None),
                Verdict::IdTaken => res == Err::<Option<Approval>, StoreError>(StoreError::IdTaken),
                Verdict::Done(a) => res is Ok && res->Ok_0 is Some && res->Ok_0->0@ == a,
            }
        }),
{
    let ghost was = s@.approvals;
    let ghost hit = at(id@, from_status@);
    let ghost to = moved(status@, actor@, text::arg(reason), text::arg(expires_at), now@);
    proof {
        table::first_is_a_hit(was, hit);
    }
    let found = table::find(&s.approvals, |a: &Approval| -> (b: bool)
        ensures b == (at(id@, from_status@))(a@)
        { text::same(a.id.as_str(), id) && text::same(a.status.as_str(), from_status) }, Ghost(hit)).is_some();
    if !found {
        return Ok(None);
    }
    if decision_taken(s, decision_id) {
        return Err(StoreError::IdTaken);
    }
    let keeps = text::same(status, "consumed") || text::same(status, "superseded");
    table::change(
        &mut s.approvals,
        |a: &Approval| -> (b: bool)
            ensures b == (at(id@, from_status@))(a@)
            { text::same(a.id.as_str(), id) && text::same(a.status.as_str(), from_status) },
        |a: &Approval| -> (x: Approval)
            ensures x@ == (moved(status@, actor@, text::arg(reason), text::arg(expires_at), now@))(a@)
            {
                Approval {
                    status: status.to_owned(),
                    decided_by: if keeps {
                        text::copied(&a.decided_by)
                    } else {
                        Some(actor.to_owned())
                    },
                    decided_at: if keeps {
                        text::copied(&a.decided_at)
                    } else {
                        Some(now.to_owned())
                    },
                    reason: text::or(reason, &a.reason),
                    expires_at: text::or(expires_at, &a.expires_at),
                    updated_at: now.to_owned(),
                    ..a.copied()
                }
            },
        Ghost(hit),
        Ghost(to),
    );
    s.decisions.push(
        Decision {
            id: decision_id.to_owned(),
            approval_id: id.to_owned(),
            from: from_status.to_owned(),
            to: status.to_owned(),
            actor: actor.to_owned(),
            reason: text::owned(reason),
            at: now.to_owned(),
        },
    );
    proof {
        let i = choose|i: int| 0 <= i < was.len() && hit(#[trigger] was[i]);
        assert((with_id(id@))(was[i]));
        table::first_is_a_hit(was, with_id(id@));
        table::first_of_changed(was, with_id(id@), hit, to);
    }
    Ok(approval(s, id))
}

/// The steps of one approval.
pub open spec fn steps_of(approval_id: Seq<char>) -> spec_fn(DecisionView) -> bool {
    |d: DecisionView| d.approval_id == approval_id
}

/// One step was taken before another.
pub open spec fn taken_earlier() -> spec_fn(DecisionView, DecisionView) -> bool {
    |a: DecisionView, b: DecisionView| text::text_before(a.at, b.at)
}

/// The steps of an approval, oldest first.
pub open spec fn history(rows: Seq<DecisionView>, approval_id: Seq<char>) -> Seq<DecisionView> {
    table::ordered(rows.filter(steps_of(approval_id)), taken_earlier())
}

/// The history of an approval, oldest first. Two steps of the same millisecond stand in the order
/// they were written in.
pub fn approval_decisions(s: &Store, approval_id: &str) -> (r: Vec<Decision>)
    ensures
        table::views(r@) == history(s@.decisions, approval_id@),
{
    let rows = table::select(&s.decisions, |d: &Decision| -> (b: bool)
        ensures b == (steps_of(approval_id@))(d@)
        { text::same(d.approval_id.as_str(), approval_id) }, Ghost(steps_of(approval_id@)));
    table::arrange(rows, |a: &Decision, b: &Decision| -> (c: bool)
        ensures c == (taken_earlier())(a@, b@)
        { text::precedes(a.at.as_str(), b.at.as_str()) }, Ghost(taken_earlier()))
}

// ---------------------------------------------------------------- laws

proof fn names_apart()
    ensures
        "approved"@ != "superseded"@,
        "approved"@ != "consumed"@,
        "approved"@ != "pending"@,
        "approved"@ != "denied"@,
        "approved"@ != "revoked"@,
        "pending"@ != "superseded"@,
{
    reveal_strlit("approved");
    reveal_strlit("superseded");
    reveal_strlit("consumed");
    reveal_strlit("pending");
    reveal_strlit("denied");
    reveal_strlit("revoked");
    assert("approved"@.len() == 8 && "superseded"@.len() == 10 && "consumed"@.len() == 8);
    assert("pending"@.len() == 7 && "denied"@.len() == 6 && "revoked"@.len() == 7);
    assert("approved"@[0] == 'a' && "consumed"@[0] == 'c');
}

/// An approval can be used exactly when it was approved, has not run out, is for this resource, and
/// is for this commit where it is for a commit.
pub proof fn only_a_current_approval_for_this_commit_counts(
    a: ApprovalView,
    now: Seq<char>,
    resource: Seq<char>,
    commit: Option<Seq<char>>,
)
    ensures
        unusable(a, now, resource, commit) is None <==> {
            &&& a.status == "approved"@
            &&& !lapsed(a, now)
            &&& a.purpose == resource
            &&& a.target_commit is Some ==> a.target_commit == commit
        },
{
}

/// What was used up, put aside, denied, revoked or never decided is not a yes.
pub proof fn nothing_but_an_approval_is_a_yes(
    a: ApprovalView,
    now: Seq<char>,
    resource: Seq<char>,
    commit: Option<Seq<char>>,
    at: Seq<char>,
)
    ensures
        a.status == "pending"@ || a.status == "denied"@ || a.status == "revoked"@ || a.status == "consumed"@ || a.status
            == "superseded"@ ==> unusable(a, now, resource, commit) is Some,
        unusable((put_aside(at))(a), now, resource, commit) is Some,
{
    names_apart();
}

/// No two approvals of the supervisor hold the same request id.
pub open spec fn request_ids_are_unique(rows: Seq<ApprovalView>) -> bool {
    forall|i: int, j: int|
        0 <= i < j < rows.len() && (#[trigger] rows[i]).supervisor_id == "AGM"@ && (#[trigger] rows[j]).supervisor_id
            == "AGM"@ && rows[i].client_request_id is Some ==> rows[i].client_request_id != rows[j].client_request_id
}

/// A new approval, under a request id that nobody holds, keeps the request ids unique, whether or
/// not another approval was put aside for it.
pub proof fn asking_keeps_request_ids_unique(
    rows: Seq<ApprovalView>,
    aside: spec_fn(ApprovalView) -> bool,
    row: ApprovalView,
    now: Seq<char>,
)
    requires
        request_ids_are_unique(rows),
        row.client_request_id is Some ==> !table::any(rows, with_request(row.client_request_id->0)),
    ensures
        request_ids_are_unique(rows.push(row)),
        request_ids_are_unique(table::changed(rows, aside, put_aside(now)).push(row)),
{
    let after = table::changed(rows, aside, put_aside(now)).push(row);
    assert forall|i: int| 0 <= i < rows.len() && row.client_request_id is Some && rows[i].supervisor_id == "AGM"@ implies (
    #[trigger] rows[i]).client_request_id != row.client_request_id by {
        assert(!(with_request(row.client_request_id->0))(rows[i]));
    }
    assert forall|i: int, j: int|
        0 <= i < j < after.len() && (#[trigger] after[i]).supervisor_id == "AGM"@ && (#[trigger] after[j]).supervisor_id
            == "AGM"@ && after[i].client_request_id is Some implies after[i].client_request_id
        != after[j].client_request_id by {
        assert(after[i].client_request_id == rows[i].client_request_id && after[i].supervisor_id == rows[i].supervisor_id);
        if j < rows.len() {
            assert(after[j].client_request_id == rows[j].client_request_id && after[j].supervisor_id
                == rows[j].supervisor_id);
        }
    }
    let plain = rows.push(row);
    assert forall|i: int, j: int|
        0 <= i < j < plain.len() && (#[trigger] plain[i]).supervisor_id == "AGM"@ && (#[trigger] plain[j]).supervisor_id
            == "AGM"@ && plain[i].client_request_id is Some implies plain[i].client_request_id
        != plain[j].client_request_id by {
        assert(plain[i] == rows[i]);
    }
}

/// One request id is one approval: asked for again in the same words, the approval that was created
/// is the one that is found, and it differs in nothing.
pub proof fn asking_again_finds_the_same_approval(
    rows: Seq<ApprovalView>,
    id: Seq<char>,
    now: Seq<char>,
    requester: Seq<char>,
    purpose: Seq<char>,
    scope: Seq<char>,
    commit: Option<Seq<char>>,
    expires_at: Option<Seq<char>>,
    request_id: Seq<char>,
    wait_since: Option<Seq<char>>,
    reason: Option<Seq<char>>,
)
    requires
        table::first(rows, with_request(request_id)) is None,
    ensures
        ({
            let row = pending_approval(
                id,
                now,
                requester,
                purpose,
                scope,
                commit,
                expires_at,
                Some(request_id),
                wait_since,
                reason,
            );
            &&& table::first(rows.push(row), with_request(request_id)) == Some(row)
            &&& difference(row, requester, purpose, scope, commit) is None
        }),
{
    let row = pending_approval(
        id,
        now,
        requester,
        purpose,
        scope,
        commit,
        expires_at,
        Some(request_id),
        wait_since,
        reason,
    );
    let hit = with_request(request_id);
    table::first_is_a_hit(rows, hit);
    assert forall|j: int| 0 <= j < rows.len() implies !hit(#[trigger] rows.push(row)[j]) by {
        assert(!hit(rows[j]));
    }
    table::first_at(rows.push(row), hit, rows.len() as int);
}

/// A new commit does not restart the wait: an approval that took a wait over and is approved later
/// than that wait began still waits from there.
pub proof fn a_new_commit_does_not_restart_the_wait(
    a: ApprovalView,
    actor: Seq<char>,
    reason: Option<Seq<char>>,
    expires_at: Option<Seq<char>>,
    now: Seq<char>,
)
    requires
        a.wait_since is Some,
        time::ts_before(a.wait_since->0, now),
    ensures
        waiting((moved("approved"@, actor, reason, expires_at, now))(a)) == a.wait_since,
{
    names_apart();
}

/// What is handed on is the wait itself: the approval that takes it over waits from where the other
/// one did, however often it is handed on.
pub proof fn the_wait_is_handed_on(a: ApprovalView)
    ensures
        a.status == "approved"@ ==> inherited_wait(a) == waiting(a),
        a.status == "pending"@ ==> inherited_wait(a) == a.wait_since,
{
    names_apart();
}

/// A decision is taken once: after an approval moved on, nobody else finds it where it was.
pub proof fn the_second_decision_finds_nothing(
    rows: Seq<ApprovalView>,
    id: Seq<char>,
    from: Seq<char>,
    status: Seq<char>,
    actor: Seq<char>,
    reason: Option<Seq<char>>,
    expires_at: Option<Seq<char>>,
    now: Seq<char>,
)
    requires
        from != status,
    ensures
        !table::any(table::changed(rows, at(id, from), moved(status, actor, reason, expires_at, now)), at(id, from)),
{
    let hit = at(id, from);
    let to = moved(status, actor, reason, expires_at, now);
    let after = table::changed(rows, hit, to);
    assert forall|i: int| 0 <= i < after.len() implies !hit(#[trigger] after[i]) by {
        assert(after[i] == if hit(rows[i]) {
            to(rows[i])
        } else {
            rows[i]
        });
    }
}

/// Only what is pending is approved or denied: any other approval keeps its status, who decided it and
/// when, whatever is said of it.
pub proof fn what_was_decided_is_not_decided_again(
    rows: Seq<ApprovalView>,
    id: Seq<char>,
    status: Seq<char>,
    actor: Seq<char>,
    reason: Option<Seq<char>>,
    expires_at: Option<Seq<char>>,
    now: Seq<char>,
    i: int,
)
    requires
        status == "approved"@ || status == "denied"@,
        0 <= i < rows.len(),
        rows[i].status != "pending"@,
    ensures
        table::changed(rows, open_to(id, status), ruled(status, actor, reason, expires_at, now))[i] == rows[i],
{
}

/// Using an approval up leaves on record who approved it and when, and with that where its wait began.
pub proof fn using_up_keeps_the_decision(
    a: ApprovalView,
    actor: Seq<char>,
    reason: Option<Seq<char>>,
    expires_at: Option<Seq<char>>,
    now: Seq<char>,
)
    ensures
        ({
            let used = (moved("consumed"@, actor, reason, expires_at, now))(a);
            &&& used.decided_by == a.decided_by
            &&& used.decided_at == a.decided_at
            &&& waiting(used) == waiting(a)
        }),
{
}

/// Why an approval is refused: first its state, then its end, then what it is for, then the commit. One
/// that has run out is refused from the moment that it names on, for every resource and commit.
pub proof fn an_approval_is_refused_for_its_first_fault(
    a: ApprovalView,
    now: Seq<char>,
    resource: Seq<char>,
    commit: Option<Seq<char>>,
)
    ensures
        ({
            let why = unusable(a, now, resource, commit);
            let over = a.expires_at is Some && !time::ts_before(now, a.expires_at->0);
            &&& a.status == "pending"@ ==> why == Some("approval_not_decided"@)
            &&& a.status == "denied"@ ==> why == Some("approval_denied"@)
            &&& a.status == "revoked"@ ==> why == Some("approval_revoked"@)
            &&& a.status == "consumed"@ ==> why == Some("approval_already_used"@)
            &&& a.status == "superseded"@ ==> why == Some("approval_superseded"@)
            &&& a.status != "approved"@ ==> why is Some
            &&& a.status == "approved"@ && over ==> why == Some("approval_expired"@)
            &&& a.status == "approved"@ && !over && a.purpose != resource ==> why == Some("approval_purpose_mismatch"@)
            &&& a.status == "approved"@ && !over && a.purpose == resource && a.target_commit is Some && commit is Some
                && a.target_commit->0 != commit->0 ==> why == Some("approval_commit_mismatch"@)
            &&& a.status == "approved"@ && !over && a.purpose == resource && a.target_commit is Some && commit is None ==> why
                == Some("approval_commit_required"@)
            &&& a.status == "approved"@ && !over && a.purpose == resource && (a.target_commit is None || a.target_commit
                == commit) ==> why is None
        }),
{
    names_apart();
    reveal_strlit("approved");
    reveal_strlit("superseded");
    reveal_strlit("consumed");
    reveal_strlit("pending");
    reveal_strlit("denied");
    reveal_strlit("revoked");
    assert("superseded"@.len() == 10 && "consumed"@.len() == 8 && "denied"@.len() == 6);
    assert("pending"@.len() == 7 && "pending"@[0] == 'p' && "revoked"@.len() == 7 && "revoked"@[0] == 'r');
}

/// A decision against a state is taken exactly where the approval is in that state, and then every word of
/// it is on record: the new state, who and when, the reason and the expiry where they were given. A
/// decision that names no reason or no expiry leaves what was there; using up and putting aside leave who
/// approved it and when. Nothing else in the store changes.
pub proof fn a_decision_is_written_as_it_was_taken(
    s: StoreView,
    now: Seq<char>,
    decision_id: Seq<char>,
    id: Seq<char>,
    from: Seq<char>,
    status: Seq<char>,
    actor: Seq<char>,
    reason: Option<Seq<char>>,
    expires_at: Option<Seq<char>>,
    i: int,
)
    requires
        0 <= i < s.approvals.len(),
    ensures
        ({
            let (got, after) = deciding(s, now, decision_id, id, from, status, actor, reason, expires_at);
            let was = s.approvals[i];
            let is = after.approvals[i];
            let recorded = exists|k: int| 0 <= k < s.decisions.len() && (#[trigger] s.decisions[k]).id == decision_id;
            let step = DecisionView { id: decision_id, approval_id: id, from, to: status, actor, reason, at: now };
            &&& after.approvals.len() == s.approvals.len()
            &&& was.id == id && was.status == from ==> !(got is Gone) && (got is IdTaken <==> recorded)
            &&& !(got is Done) ==> after == s
            &&& got is Done ==> after == (StoreView {
                approvals: after.approvals,
                decisions: s.decisions.push(step),
                ..s
            })
            &&& got is Done && (was.id != id || was.status != from) ==> is == was
            &&& got is Done && was.id == id && was.status == from ==> {
                &&& is.status == status
                &&& is.updated_at == now
                &&& reason is Some ==> is.reason == reason
                &&& reason is None ==> is.reason == was.reason
                &&& expires_at is Some ==> is.expires_at == expires_at
                &&& expires_at is None ==> is.expires_at == was.expires_at
                &&& status != "consumed"@ && status != "superseded"@ ==> is.decided_by == Some(actor) && is.decided_at == Some(
                    now,
                )
                &&& status == "consumed"@ || status == "superseded"@ ==> is.decided_by == was.decided_by && is.decided_at
                    == was.decided_at
                &&& is == (ApprovalView {
                    status: is.status,
                    updated_at: is.updated_at,
                    reason: is.reason,
                    expires_at: is.expires_at,
                    decided_by: is.decided_by,
                    decided_at: is.decided_at,
                    ..was
                })
            }
        }),
{
    let hit = at(id, from);
    if hit(s.approvals[i]) {
        assert(table::any(s.approvals, hit));
    }
    let taken = decision_id_is(decision_id);
    if table::any(s.decisions, taken) {
        let k = choose|k: int| 0 <= k < s.decisions.len() && taken(#[trigger] s.decisions[k]);
        assert(s.decisions[k].id == decision_id);
    } else {
        assert forall|k: int| 0 <= k < s.decisions.len() implies (#[trigger] s.decisions[k]).id != decision_id by {
            assert(!taken(s.decisions[k]));
        }
    }
}

/// What a decision hands back is the approval as it is on record afterwards; an approval that nobody has,
/// or that is in another state, is not decided.
pub proof fn a_decision_hands_back_the_approval(
    s: StoreView,
    now: Seq<char>,
    decision_id: Seq<char>,
    id: Seq<char>,
    from: Seq<char>,
    status: Seq<char>,
    actor: Seq<char>,
    reason: Option<Seq<char>>,
    expires_at: Option<Seq<char>>,
)
    ensures
        ({
            let (got, after) = deciding(s, now, decision_id, id, from, status, actor, reason, expires_at);
            &&& got matches Verdict::Done(a) ==> a.id == id && after.approvals.contains(a) && exists|i: int|
                0 <= i < s.approvals.len() && (#[trigger] s.approvals[i]).id == id && s.approvals[i].status == from
            &&& (forall|i: int| 0 <= i < s.approvals.len() ==> (#[trigger] s.approvals[i]).id != id || s.approvals[i].status
                != from) ==> got is Gone
        }),
{
    let hit = at(id, from);
    let after = table::changed(s.approvals, hit, moved(status, actor, reason, expires_at, now));
    table::first_is_a_hit(after, with_id(id));
    if table::any(s.approvals, hit) {
        let i = choose|i: int| 0 <= i < s.approvals.len() && hit(#[trigger] s.approvals[i]);
        assert(s.approvals[i].id == id && s.approvals[i].status == from);
        assert((with_id(id))(after[i]));
    }
}

/// An expiry that is given with a decision holds: the approval is good before it, and refused from that
/// moment on, whatever it is asked for. Where none is given the one it was asked with stays.
pub proof fn an_expiry_given_with_a_decision_holds(
    s: StoreView,
    now: Seq<char>,
    decision_id: Seq<char>,
    id: Seq<char>,
    from: Seq<char>,
    actor: Seq<char>,
    reason: Option<Seq<char>>,
    expires_at: Option<Seq<char>>,
    i: int,
    moment: Seq<char>,
    resource: Seq<char>,
    commit: Option<Seq<char>>,
)
    requires
        0 <= i < s.approvals.len(),
        s.approvals[i].id == id,
        s.approvals[i].status == from,
    ensures
        ({
            let (got, after) = deciding(s, now, decision_id, id, from, "approved"@, actor, reason, expires_at);
            let was = s.approvals[i];
            let end = match expires_at {
                Some(t) => Some(t),
                None => was.expires_at,
            };
            got is Done ==> {
                &&& end is Some && !time::ts_before(moment, end->0) ==> unusable(after.approvals[i], moment, resource, commit)
                    == Some("approval_expired"@)
                &&& (end is None || time::ts_before(moment, end->0)) && was.purpose == resource && (was.target_commit is None
                    || was.target_commit == commit) ==> unusable(after.approvals[i], moment, resource, commit) is None
            }
        }),
{
    names_apart();
}

/// A word that is said on an approval without a state to go by: a yes or a no is taken only while it is
/// pending, anything else whatever its state. It is written in full, and nothing else changes.
pub proof fn a_word_is_written_as_it_was_said(
    s: StoreView,
    now: Seq<char>,
    id: Seq<char>,
    status: Seq<char>,
    actor: Seq<char>,
    reason: Option<Seq<char>>,
    expires_at: Option<Seq<char>>,
    i: int,
)
    requires
        0 <= i < s.approvals.len(),
    ensures
        ({
            let (got, after) = said(s, now, id, status, actor, reason, expires_at);
            let was = s.approvals[i];
            let is = after.approvals[i];
            let heard = was.id == id && ((status != "approved"@ && status != "denied"@) || was.status == "pending"@);
            &&& after.approvals.len() == s.approvals.len()
            &&& after == (StoreView { approvals: after.approvals, ..s })
            &&& !heard ==> is == was
            &&& heard ==> is == (ApprovalView {
                status,
                decided_by: Some(actor),
                decided_at: Some(now),
                reason: match reason {
                    Some(w) => Some(w),
                    None => was.reason,
                },
                expires_at: match expires_at {
                    Some(t) => Some(t),
                    None => was.expires_at,
                },
                updated_at: now,
                ..was
            })
            &&& got matches Some(a) ==> a.id == id && after.approvals.contains(a)
            &&& was.id == id ==> got is Some
        }),
{
    let after = said(s, now, id, status, actor, reason, expires_at).1.approvals;
    table::first_is_a_hit(after, with_id(id));
    if s.approvals[i].id == id {
        assert((with_id(id))(after[i]));
    }
}

/// A new approval is the one that was asked for: pending, decided by nobody, for this requester, purpose,
/// scope, commit and expiry, under the request id without the space around it. It is the last on record;
/// where it takes no other's place nothing else changes, and its wait has not begun.
pub proof fn a_new_approval_is_what_was_asked_for(
    s: StoreView,
    now: Seq<char>,
    id: Seq<char>,
    decision_id: Seq<char>,
    requester: Seq<char>,
    purpose: Seq<char>,
    scope: Seq<char>,
    commit: Option<Seq<char>>,
    expires_at: Option<Seq<char>>,
    request_id: Option<Seq<char>>,
    supersedes: Option<Seq<char>>,
    request_reason: Option<Seq<char>>,
)
    ensures
        ({
            let (got, after) = requesting(
                s,
                now,
                id,
                decision_id,
                requester,
                purpose,
                scope,
                commit,
                expires_at,
                request_id,
                supersedes,
                request_reason,
            );
            &&& !(got is Created) ==> after == s
            &&& got matches Requested::Created { approval, superseded } ==> {
                &&& after.approvals.len() == s.approvals.len() + 1
                &&& after.approvals.last() == approval
                &&& approval == (ApprovalView {
                    id,
                    supervisor_id: "AGM"@,
                    requester,
                    purpose,
                    scope,
                    target_commit: commit,
                    status: "pending"@,
                    decided_by: None,
                    decided_at: None,
                    reason: None,
                    expires_at,
                    client_request_id: if request_id is Some && text::trimmed(request_id->0).len() > 0 {
                        Some(text::trimmed(request_id->0))
                    } else {
                        None
                    },
                    created_at: now,
                    updated_at: now,
                    wait_since: approval.wait_since,
                    request_reason,
                })
                &&& superseded is None ==> approval.wait_since is None && after == (StoreView {
                    approvals: s.approvals.push(approval),
                    ..s
                })
                &&& forall|i: int| 0 <= i < s.approvals.len() ==> (#[trigger] s.approvals[i]).id != id
            }
        }),
{
    if !table::any(s.approvals, with_id(id)) {
        assert forall|i: int| 0 <= i < s.approvals.len() implies (#[trigger] s.approvals[i]).id != id by {
            assert(!(with_id(id))(s.approvals[i]));
        }
    }
}

/// A request id that is known is never asked for twice: nothing is written, and the approval that holds it
/// is handed out where requester, purpose, scope and commit agree. Otherwise the first field that differs
/// is named, with what it was and what it is now; no commit and an empty one are the same.
pub proof fn a_known_request_is_answered_from_the_record(
    s: StoreView,
    now: Seq<char>,
    id: Seq<char>,
    decision_id: Seq<char>,
    requester: Seq<char>,
    purpose: Seq<char>,
    scope: Seq<char>,
    commit: Option<Seq<char>>,
    expires_at: Option<Seq<char>>,
    request_id: Seq<char>,
    supersedes: Option<Seq<char>>,
    request_reason: Option<Seq<char>>,
    i: int,
)
    requires
        request_ids_are_unique(s.approvals),
        text::trimmed(request_id).len() > 0,
        0 <= i < s.approvals.len(),
        s.approvals[i].supervisor_id == "AGM"@,
        s.approvals[i].client_request_id == Some(text::trimmed(request_id)),
    ensures
        ({
            let (got, after) = requesting(
                s,
                now,
                id,
                decision_id,
                requester,
                purpose,
                scope,
                commit,
                expires_at,
                Some(request_id),
                supersedes,
                request_reason,
            );
            let a = s.approvals[i];
            let had = match a.target_commit {
                Some(c) => c,
                None => Seq::empty(),
            };
            let wants = match commit {
                Some(c) => c,
                None => Seq::empty(),
            };
            let same = a.requester == requester && a.purpose == purpose && a.scope == scope && had == wants;
            &&& after == s
            &&& same ==> got == Requested::Found(a)
            &&& !same ==> (got matches Requested::Mismatch { request_id: rid, approval_id, field, was, now: is } && rid
                == text::trimmed(request_id) && approval_id == a.id && was != is && if a.requester != requester {
                field == "requester"@ && was == a.requester && is == requester
            } else if a.purpose != purpose {
                field == "purpose"@ && was == a.purpose && is == purpose
            } else if a.scope != scope {
                field == "scope"@ && was == a.scope && is == scope
            } else {
                field == "target_commit"@ && was == had && is == wants
            })
        }),
{
    let hit = with_request(text::trimmed(request_id));
    assert(hit(s.approvals[i]));
    assert forall|j: int| 0 <= j < i implies !hit(#[trigger] s.approvals[j]) by {
        assert(s.approvals[i].client_request_id is Some);
    }
    table::first_at(s.approvals, hit, i);
    assert(Seq::<char>::empty() =~= seq![]);
}

/// Only one's own approval for the same purpose can be superseded. While it could still come to be used it
/// is put aside: it says so, the step is on record with the new approval in it, the question about it that
/// nobody has seen is closed, and the new approval waits from where the old one did. One that is of no use
/// any more is left as it is.
pub proof fn a_superseded_approval_hands_over(
    s: StoreView,
    now: Seq<char>,
    id: Seq<char>,
    decision_id: Seq<char>,
    requester: Seq<char>,
    purpose: Seq<char>,
    scope: Seq<char>,
    commit: Option<Seq<char>>,
    expires_at: Option<Seq<char>>,
    supersedes: Seq<char>,
    request_reason: Option<Seq<char>>,
    old: ApprovalView,
)
    requires
        text::trimmed(supersedes).len() > 0,
        table::first(s.approvals, with_id(text::trimmed(supersedes))) == Some(old),
    ensures
        ({
            let (got, after) = requesting(
                s,
                now,
                id,
                decision_id,
                requester,
                purpose,
                scope,
                commit,
                expires_at,
                None,
                Some(supersedes),
                request_reason,
            );
            let over = old.expires_at is Some && !time::ts_before(now, old.expires_at->0);
            let usable = (old.status == "pending"@ || old.status == "approved"@) && !over;
            let key = "approval:"@ + old.id + ":requested"@;
            &&& old.requester != requester ==> got == (Requested::SupersedeRefused {
                approval_id: text::trimmed(supersedes),
                reason: "not_the_same_requester"@,
            })
            &&& old.requester == requester && old.purpose != purpose ==> got == (Requested::SupersedeRefused {
                approval_id: text::trimmed(supersedes),
                reason: "purpose_mismatch"@,
            })
            &&& old.requester == requester && old.purpose == purpose ==> got is Created || got is IdTaken
            &&& got matches Requested::Created { approval, superseded } ==> {
                &&& !usable ==> superseded is None
                &&& usable ==> {
                    &&& superseded == Some(old.id)
                    &&& forall|i: int|
                        0 <= i < s.approvals.len() ==> #[trigger] after.approvals[i] == if s.approvals[i].id == old.id
                            && s.approvals[i].status == old.status {
                            ApprovalView { status: "superseded"@, updated_at: now, ..s.approvals[i] }
                        } else {
                            s.approvals[i]
                        }
                    &&& after.decisions == s.decisions.push(
                        DecisionView {
                            id: decision_id,
                            approval_id: old.id,
                            from: old.status,
                            to: "superseded"@,
                            actor: requester,
                            reason: Some("superseded by "@ + id),
                            at: now,
                        },
                    )
                    &&& after.inbox.len() == s.inbox.len()
                    &&& forall|i: int|
                        0 <= i < s.inbox.len() ==> #[trigger] after.inbox[i] == if s.inbox[i].event_key == key
                            && s.inbox[i].state == "pending"@ {
                            InboxEventView {
                                state: "handled"@,
                                acked_by: Some("daemon"@),
                                updated_at: now,
                                ..s.inbox[i]
                            }
                        } else {
                            s.inbox[i]
                        }
                    &&& after == (StoreView {
                        approvals: after.approvals,
                        decisions: after.decisions,
                        inbox: after.inbox,
                        ..s
                    })
                    &&& old.status == "pending"@ ==> approval.wait_since == old.wait_since
                    &&& old.status == "approved"@ && old.decided_at is None ==> approval.wait_since is None
                    &&& old.status == "approved"@ && old.decided_at is Some && old.wait_since is Some && time::ts_before(
                        old.wait_since->0,
                        old.decided_at->0,
                    ) ==> approval.wait_since == old.wait_since
                    &&& old.status == "approved"@ && old.decided_at is Some && (old.wait_since is None || !time::ts_before(
                        old.wait_since->0,
                        old.decided_at->0,
                    )) ==> approval.wait_since == old.decided_at
                }
            }
        }),
{
    names_apart();
    table::first_is_a_hit(s.approvals, with_id(text::trimmed(supersedes)));
}

/// What is not on record cannot be superseded.
pub proof fn nothing_supersedes_what_is_not_there(
    s: StoreView,
    now: Seq<char>,
    id: Seq<char>,
    decision_id: Seq<char>,
    requester: Seq<char>,
    purpose: Seq<char>,
    scope: Seq<char>,
    commit: Option<Seq<char>>,
    expires_at: Option<Seq<char>>,
    supersedes: Seq<char>,
    request_reason: Option<Seq<char>>,
)
    requires
        text::trimmed(supersedes).len() > 0,
        forall|i: int| 0 <= i < s.approvals.len() ==> (#[trigger] s.approvals[i]).id != text::trimmed(supersedes),
    ensures
        requesting(
            s,
            now,
            id,
            decision_id,
            requester,
            purpose,
            scope,
            commit,
            expires_at,
            None,
            Some(supersedes),
            request_reason,
        ) == (
            Requested::SupersedeRefused { approval_id: text::trimmed(supersedes), reason: "approval_not_found"@ },
            s,
        ),
{
    table::first_of_none(s.approvals, with_id(text::trimmed(supersedes)));
}

/// A request under a fresh id that takes nobody's place is always granted a row, whether or not it names a
/// request id that nobody holds.
pub proof fn a_fresh_request_is_put_on_record(
    s: StoreView,
    now: Seq<char>,
    id: Seq<char>,
    decision_id: Seq<char>,
    requester: Seq<char>,
    purpose: Seq<char>,
    scope: Seq<char>,
    commit: Option<Seq<char>>,
    expires_at: Option<Seq<char>>,
    request_id: Option<Seq<char>>,
    request_reason: Option<Seq<char>>,
)
    requires
        forall|i: int| 0 <= i < s.approvals.len() ==> (#[trigger] s.approvals[i]).id != id,
        request_id is Some ==> forall|i: int|
            0 <= i < s.approvals.len() && (#[trigger] s.approvals[i]).supervisor_id == "AGM"@ ==> s.approvals[i].client_request_id
                != Some(text::trimmed(request_id->0)),
    ensures
        requesting(
            s,
            now,
            id,
            decision_id,
            requester,
            purpose,
            scope,
            commit,
            expires_at,
            request_id,
            None,
            request_reason,
        ).0 is Created,
{
    if request_id is Some {
        table::first_of_none(s.approvals, with_request(text::trimmed(request_id->0)));
    }
}

/// An approval waits from its decision, or from the earlier moment that it took over; undecided it waits
/// from nowhere. The wait of one that takes over an earlier moment is never later than its decision.
pub proof fn a_wait_begins_with_the_earlier_moment(a: ApprovalView)
    ensures
        a.decided_at is None ==> waiting(a) is None,
        a.decided_at is Some ==> {
            &&& waiting(a) == a.decided_at || waiting(a) == a.wait_since
            &&& waiting(a) is Some
            &&& !time::ts_before(a.decided_at->0, waiting(a)->0)
            &&& a.wait_since is None ==> waiting(a) == a.decided_at
            &&& a.wait_since is Some && time::ts_before(a.wait_since->0, a.decided_at->0) ==> waiting(a) == a.wait_since
            &&& a.wait_since is Some && !time::ts_before(a.wait_since->0, a.decided_at->0) ==> waiting(a) == a.decided_at
        },
{
    if a.decided_at is Some {
        text::text_order_is_strict(a.decided_at->0, a.decided_at->0);
        if a.wait_since is Some {
            text::text_order_is_strict(a.decided_at->0, a.wait_since->0);
        }
    }
}

/// A listing holds the supervisor's approvals, the latest first, up to the limit.
pub proof fn approvals_are_listed_newest_first(
    rows: Seq<ApprovalView>,
    limit: int,
    x: ApprovalView,
    i: int,
    j: int,
)
    ensures
        ({
            let list = latest(rows, limit);
            let asked = x.supervisor_id == "AGM"@;
            &&& list.contains(x) ==> rows.contains(x) && asked
            &&& limit >= 0 ==> list.len() <= limit
            &&& (limit < 0 || list.len() < limit) && rows.contains(x) && asked ==> list.contains(x)
            &&& 0 <= i < j < list.len() ==> !text::text_before(list[i].created_at, list[j].created_at)
            &&& rows.contains(x) && asked && !list.contains(x) && 0 <= i < list.len() ==> !text::text_before(list[i].created_at, x.created_at)
        }),
{
    table::ranked_by_text(newer(), |v: ApprovalView| v.created_at, false);
    table::listing_up_to(rows, all_ours(), newer(), limit, x, i, j);
}

/// The history of an approval is every step that was taken on it, in the order they were taken.
pub proof fn an_approval_has_its_whole_history(
    rows: Seq<DecisionView>,
    approval_id: Seq<char>,
    x: DecisionView,
    i: int,
    j: int,
)
    ensures
        ({
            let list = history(rows, approval_id);
            let asked = x.approval_id == approval_id;
            &&& list.contains(x) <==> rows.contains(x) && asked
            &&& 0 <= i < j < list.len() ==> !text::text_before(list[j].at, list[i].at)
        }),
{
    table::ranked_by_text(taken_earlier(), |v: DecisionView| v.at, true);
    table::listing(rows, steps_of(approval_id), taken_earlier(), x, i, j);
}

/// The approval that has waited longest is one of the supervisor's that was approved for a rebuild or a
/// restart, has its decision on record and is not over; no other of these waits from an earlier moment. The
/// moment is that of the decision, or the earlier one that it took over.
pub proof fn the_longest_wait_comes_first(rows: Seq<ApprovalView>, now: Seq<char>, k: int)
    ensures
        ({
            let opens = |a: ApprovalView|
                a.supervisor_id == "AGM"@ && a.status == "approved"@ && (a.purpose == "rebuild"@ || a.purpose == "restart"@)
                    && a.decided_at is Some && (a.expires_at is Some ==> time::ts_before(now, a.expires_at->0));
            let since = |a: ApprovalView|
                if a.wait_since is Some && text::text_before(a.wait_since->0, a.decided_at->0) {
                    a.wait_since->0
                } else {
                    a.decided_at->0
                };
            let got = waiting_longest(rows, now);
            &&& got is Some ==> rows.contains(got->0) && opens(got->0)
            &&& 0 <= k < rows.len() && opens(rows[k]) ==> got is Some && !text::text_before(since(rows[k]), since(got->0))
        }),
{
    let hit = live_window(now);
    let some = rows.filter(hit);
    let total = |a: ApprovalView, b: ApprovalView| text::text_before(wait_key(a), wait_key(b));
    assert forall|a: ApprovalView, b: ApprovalView| some.contains(a) && some.contains(b) implies #[trigger] (waits_longer())(a, b)
        == total(a, b) by {
        table::selecting_takes_each_hit(rows, hit, a);
        table::selecting_takes_each_hit(rows, hit, b);
    }
    table::what_agrees_on_the_rows_orders_them_alike(some, waits_longer(), total);
    table::ranked_by_text(total, |a: ApprovalView| wait_key(a), true);
    let list = table::ordered(some, total);
    if list.len() > 0 {
        assert(list.contains(list[0]));
        table::listing(rows, hit, total, list[0], 0, 0);
    }
    if 0 <= k < rows.len() && hit(rows[k]) {
        assert(rows.contains(rows[k]));
        table::listing(rows, hit, total, rows[k], 0, 0);
        let j = choose|j: int| 0 <= j < list.len() && list[j] == rows[k];
        table::listing(rows, hit, total, rows[k], 0, j);
        if j == 0 {
            text::text_order_is_strict(wait_key(list[0]), wait_key(list[0]));
        }
    }
}

/// An approval is found under its own id, and under the id of the request that it answers, which is the
/// supervisor's own; where none is there, none is found.
pub proof fn an_approval_is_found_by_its_ids(rows: Seq<ApprovalView>, id: Seq<char>, request_id: Seq<char>, k: int)
    requires
        0 <= k < rows.len(),
    ensures
        ({
            let by_id = table::first(rows, with_id(id));
            let by_request = table::first(rows, with_request(request_id));
            &&& by_id is Some ==> by_id->0.id == id && rows.contains(by_id->0)
            &&& rows[k].id == id ==> by_id is Some
            &&& rows[k].id == id && (forall|j: int| 0 <= j < k ==> (#[trigger] rows[j]).id != id) ==> by_id == Some(rows[k])
            &&& by_request is Some ==> by_request->0.client_request_id == Some(request_id) && by_request->0.supervisor_id
                == "AGM"@ && rows.contains(by_request->0)
            &&& rows[k].client_request_id == Some(request_id) && rows[k].supervisor_id == "AGM"@ ==> by_request is Some
        }),
{
    table::first_is_a_hit(rows, with_id(id));
    table::first_is_a_hit(rows, with_request(request_id));
    if rows[k].id == id {
        assert((with_id(id))(rows[k]));
        if forall|j: int| 0 <= j < k ==> (#[trigger] rows[j]).id != id {
            table::first_at(rows, with_id(id), k);
        }
    }
    if rows[k].client_request_id == Some(request_id) && rows[k].supervisor_id == "AGM"@ {
        assert((with_request(request_id))(rows[k]));
    }
}

/// What came of a request is what was answered: an approval that is new, one that was there, or the reason why
/// there is none, with what it names.
pub proof fn what_came_of_a_request_is_what_was_answered(res: Result<ApprovalOutcome, ApprovalError>)
    requires
        requested_of(res) is Some,
    ensures
        ({
            let o = requested_of(res)->0;
            &&& res matches Ok(x) ==> {
                &&& x.created ==> o == (Requested::Created { approval: x.approval@, superseded: text::opt(x.superseded) })
                &&& !x.created ==> o == Requested::Found(x.approval@) && x.superseded is None
            }
            &&& o is Mismatch <==> (res matches Err(ApprovalError::Mismatch(_)))
            &&& o is SupersedeRefused <==> (res matches Err(ApprovalError::SupersedeRefused(_)))
            &&& o is IdTaken <==> (res matches Err(ApprovalError::Store(_)))
            &&& res matches Err(ApprovalError::Mismatch(m)) ==> o == (Requested::Mismatch {
                request_id: m.request_id@,
                approval_id: m.approval_id@,
                field: m.field@,
                was: m.old@,
                now: m.new@,
            })
        }),
{
}

} // verus!
