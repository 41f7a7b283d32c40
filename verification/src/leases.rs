//! Leases on maintenance windows: one row per resource, held until released or until it runs out.
//!
//! The fence goes up on every acquire, so a holder that slept past its window finds out that it lost
//! it. Taking over a lease that ran out uses up the approval that it rested on.
use crate::approvals;
use crate::rows::{DecisionView, Lease, LeaseView};
use crate::store::{Store, StoreView};
use crate::table;
use crate::table::Row;
use crate::text;
use crate::time;
use vstd::prelude::*;

verus! {

// ---------------------------------------------------------------- traffic

/// A turn, as far as the delivery of its prompt goes.
#[derive(Debug)]
pub struct TurnState {
    pub id: String,
    pub bot_id: String,
    pub status: String,
    pub delivery: Option<String>,
}

/// What a `TurnState` holds.
#[verifier::ext_equal]
pub struct TurnStateView {
    pub id: Seq<char>,
    pub bot_id: Seq<char>,
    pub status: Seq<char>,
    pub delivery: Option<Seq<char>>,
}

impl View for TurnState {
    type V = TurnStateView;

    open spec fn view(&self) -> TurnStateView {
        TurnStateView {
            id: self.id@,
            bot_id: self.bot_id@,
            status: self.status@,
            delivery: text::opt(self.delivery),
        }
    }
}

impl Row for TurnState {
    fn copied(&self) -> (r: Self) {
        TurnState {
            id: self.id.clone(),
            bot_id: self.bot_id.clone(),
            status: self.status.clone(),
            delivery: text::copied(&self.delivery),
        }
    }
}

/// A run of a bot.
#[derive(Debug)]
pub struct RunState {
    pub bot_id: String,
    pub state: String,
    pub agent_status: Option<String>,
}

/// What a `RunState` holds.
#[verifier::ext_equal]
pub struct RunStateView {
    pub bot_id: Seq<char>,
    pub state: Seq<char>,
    pub agent_status: Option<Seq<char>>,
}

impl View for RunState {
    type V = RunStateView;

    open spec fn view(&self) -> RunStateView {
        RunStateView { bot_id: self.bot_id@, state: self.state@, agent_status: text::opt(self.agent_status) }
    }
}

impl Row for RunState {
    fn copied(&self) -> (r: Self) {
        RunState {
            bot_id: self.bot_id.clone(),
            state: self.state.clone(),
            agent_status: text::copied(&self.agent_status),
        }
    }
}

/// The turns and runs of all bots at one moment.
#[derive(Debug)]
pub struct Traffic {
    pub turns: Vec<TurnState>,
    pub runs: Vec<RunState>,
}

/// What a `Traffic` holds.
#[verifier::ext_equal]
pub struct TrafficView {
    pub turns: Seq<TurnStateView>,
    pub runs: Seq<RunStateView>,
}

impl View for Traffic {
    type V = TrafficView;

    open spec fn view(&self) -> TrafficView {
        TrafficView { turns: table::views(self.turns@), runs: table::views(self.runs@) }
    }
}

/// The condition below as a query states it, over a turn `t` and its conversation `c`.
pub const DELIVERY_CRITICAL_PREDICATE: &'static str =
    "(t.status='queued' AND EXISTS (SELECT 1 FROM runs r WHERE r.bot_id = c.bot_id
                       AND r.state IN ('starting','running','stopping') AND r.agent_status <> 'blocked'))
      OR (t.status='in_flight' AND t.delivery='pending')";

/// A run of this bot is alive and can take a prompt.
pub open spec fn can_take_prompts(bot_id: Seq<char>) -> spec_fn(RunStateView) -> bool {
    |r: RunStateView|
        r.bot_id == bot_id && (r.state == "starting"@ || r.state == "running"@ || r.state == "stopping"@)
            && r.agent_status is Some && r.agent_status != Some("blocked"@)
}

/// A prompt is on its way into a pane, and stopping now would lose it: the turn is queued for a bot
/// that somebody will come to deliver to, or is being typed in.
pub open spec fn delivery_critical(t: TurnStateView, runs: Seq<RunStateView>) -> bool {
    ||| t.status == "queued"@ && table::any(runs, can_take_prompts(t.bot_id))
    ||| t.status == "in_flight"@ && t.delivery == Some("pending"@)
}

/// Turns that a window would interrupt, of every bot but one.
pub open spec fn critical_except(runs: Seq<RunStateView>, bot: Option<Seq<char>>) -> spec_fn(TurnStateView) -> bool {
    |t: TurnStateView| (bot matches Some(b) ==> t.bot_id != b) && delivery_critical(t, runs)
}

/// Turns of one bot that a window would interrupt.
pub open spec fn critical_of(runs: Seq<RunStateView>, bot: Seq<char>) -> spec_fn(TurnStateView) -> bool {
    |t: TurnStateView| t.bot_id == bot && delivery_critical(t, runs)
}

fn is_critical(t: &TurnState, runs: &Vec<RunState>) -> (r: bool)
    ensures
        r == delivery_critical(t@, table::views(runs@)),
{
    if text::same(t.status.as_str(), "queued") {
        let bot = t.bot_id.as_str();
        proof {
            table::first_is_a_hit(table::views(runs@), can_take_prompts(bot@));
        }
        if table::find(runs, |r: &RunState| -> (b: bool)
            ensures b == (can_take_prompts(bot@))(r@)
            {
                text::same(r.bot_id.as_str(), bot) && (text::same(r.state.as_str(), "starting") || text::same(
                    r.state.as_str(),
                    "running",
                ) || text::same(r.state.as_str(), "stopping")) && r.agent_status.is_some() && !text::is_text(
                    &r.agent_status,
                    "blocked",
                )
            }, Ghost(can_take_prompts(bot@))).is_some() {
            return true;
        }
    }
    text::same(t.status.as_str(), "in_flight") && text::is_text(&t.delivery, "pending")
}

impl Traffic {
    /// Some bot, other than the excluded one, is having a prompt delivered.
    pub fn delivery_critical_except(&self, exclude_bot: Option<&str>) -> (r: bool)
        ensures
            r == table::any(self@.turns, critical_except(self@.runs, text::arg(exclude_bot))),
    {
        let ghost hit = critical_except(self@.runs, text::arg(exclude_bot));
        proof {
            table::first_is_a_hit(self@.turns, hit);
        }
        table::find(&self.turns, |t: &TurnState| -> (b: bool)
            ensures b == (critical_except(self@.runs, text::arg(exclude_bot)))(t@)
            {
                (match exclude_bot {
                    Some(x) => !text::same(t.bot_id.as_str(), x),
                    None => true,
                }) && is_critical(t, &self.runs)
            }, Ghost(hit)).is_some()
    }

    /// Some bot is having a prompt delivered.
    pub fn delivery_critical_anywhere(&self) -> (r: bool)
        ensures
            r == table::any(self@.turns, critical_except(self@.runs, None)),
    {
        self.delivery_critical_except(None)
    }

    /// The turn of this bot whose prompt is being delivered.
    pub fn delivery_critical_for_bot(&self, bot: &str) -> (r: Option<String>)
        ensures
            text::opt(r) == match table::first(self@.turns, critical_of(self@.runs, bot@)) {
                Some(t) => Some(t.id),
                None => None,
            },
    {
        match table::find(&self.turns, |t: &TurnState| -> (b: bool)
            ensures b == (critical_of(self@.runs, bot@))(t@)
            { text::same(t.bot_id.as_str(), bot) && is_critical(t, &self.runs) }, Ghost(critical_of(self@.runs, bot@))) {
            Some(t) => Some(t.id.clone()),
            None => None,
        }
    }
}

/// The query for any turn whose prompt is being delivered. It takes no parameter.
pub fn delivery_critical_anywhere_sql() -> (r: String)
    ensures
        r@ == "SELECT 1 FROM turns t JOIN conversations c ON c.id = t.conversation_id WHERE "@
            + DELIVERY_CRITICAL_PREDICATE@ + " LIMIT 1"@,
{
    let q = text::joined(
        "SELECT 1 FROM turns t JOIN conversations c ON c.id = t.conversation_id WHERE ",
        DELIVERY_CRITICAL_PREDICATE,
    );
    text::joined(q.as_str(), " LIMIT 1")
}

/// The same query for every bot but the one it takes as its parameter.
pub fn delivery_critical_except_sql() -> (r: String)
    ensures
        r@ == "SELECT 1 FROM turns t JOIN conversations c ON c.id = t.conversation_id
          WHERE c.bot_id <> ? AND ("@ + DELIVERY_CRITICAL_PREDICATE@ + ") LIMIT 1"@,
{
    let q = text::joined(
        "SELECT 1 FROM turns t JOIN conversations c ON c.id = t.conversation_id
          WHERE c.bot_id <> ? AND (",
        DELIVERY_CRITICAL_PREDICATE,
    );
    text::joined(q.as_str(), ") LIMIT 1")
}

/// The same query for the one bot it takes as its parameter; it gives the turn.
pub fn delivery_critical_for_bot_sql() -> (r: String)
    ensures
        r@ == "SELECT t.id FROM turns t JOIN conversations c ON c.id = t.conversation_id
          WHERE c.bot_id = ? AND ("@ + DELIVERY_CRITICAL_PREDICATE@ + ") LIMIT 1"@,
{
    let q = text::joined(
        "SELECT t.id FROM turns t JOIN conversations c ON c.id = t.conversation_id
          WHERE c.bot_id = ? AND (",
        DELIVERY_CRITICAL_PREDICATE,
    );
    text::joined(q.as_str(), ") LIMIT 1")
}

// ---------------------------------------------------------------- one lease

/// The lease is held: not released, and not run out.
pub open spec fn held(l: LeaseView, now: Seq<char>) -> bool {
    l.released_at is None && (l.expires_at matches Some(t) && time::ts_before(now, t))
}

/// The lease ran out without being released.
pub open spec fn ran_out(l: LeaseView, now: Seq<char>) -> bool {
    l.released_at is None && (l.expires_at matches Some(t) && !time::ts_before(now, t))
}

impl Lease {
    pub fn held_at(&self, now: &str) -> (r: bool)
        ensures
            r == held(self@, now@),
    {
        self.released_at.is_none() && (match &self.expires_at {
            Some(t) => time::is_earlier(now, t.as_str()),
            None => false,
        })
    }
}

/// The lease on a resource.
pub open spec fn on(resource: Seq<char>) -> spec_fn(LeaseView) -> bool {
    |l: LeaseView| l.resource == resource
}

/// The lease on a resource, while nobody holds it.
pub open spec fn free(resource: Seq<char>, now: Seq<char>) -> spec_fn(LeaseView) -> bool {
    |l: LeaseView| l.resource == resource && !held(l, now)
}

/// The lease on a resource, where it ran out.
pub open spec fn stale(resource: Seq<char>, now: Seq<char>) -> spec_fn(LeaseView) -> bool {
    |l: LeaseView| l.resource == resource && ran_out(l, now)
}

/// The lease on a resource, held under this name and fence.
pub open spec fn held_by(resource: Seq<char>, owner: Seq<char>, fence: i64, now: Seq<char>) -> spec_fn(LeaseView) -> bool {
    |l: LeaseView| l.resource == resource && l.owner == Some(owner) && l.fence == fence && held(l, now)
}

/// The lease on a resource, not released, under this name and fence.
pub open spec fn owned_by(resource: Seq<char>, owner: Seq<char>, fence: i64) -> spec_fn(LeaseView) -> bool {
    |l: LeaseView| l.resource == resource && l.owner == Some(owner) && l.fence == fence && l.released_at is None
}

/// The lease on a resource, not released.
pub open spec fn unreleased(resource: Seq<char>) -> spec_fn(LeaseView) -> bool {
    |l: LeaseView| l.resource == resource && l.released_at is None
}

fn is_on(l: &Lease, resource: &str) -> (b: bool)
    ensures
        b == (on(resource@))(l@),
{
    text::same(l.resource.as_str(), resource)
}

pub fn lease(s: &Store, resource: &str) -> (r: Option<Lease>)
    ensures
        table::opt_view(r) == table::first(s@.leases, on(resource@)),
{
    match table::find(&s.leases, |l: &Lease| -> (b: bool)
        ensures b == (on(resource@))(l@)
        { is_on(l, resource) }, Ghost(on(resource@))) {
        Some(l) => Some(l.copied()),
        None => None,
    }
}

/// One resource's name stands before another's.
pub open spec fn by_resource() -> spec_fn(LeaseView, LeaseView) -> bool {
    |a: LeaseView, b: LeaseView| text::text_before(a.resource, b.resource)
}

/// The leases in the order of their resources.
pub open spec fn by_name(rows: Seq<LeaseView>) -> Seq<LeaseView> {
    table::ordered(rows, by_resource())
}

pub fn leases(s: &Store) -> (r: Vec<Lease>)
    ensures
        table::views(r@) == by_name(s@.leases),
{
    let rows = table::select(&s.leases, |l: &Lease| -> (b: bool)
        ensures b
        { true }, Ghost(|l: LeaseView| true));
    proof {
        table::filter_all(s@.leases, |l: LeaseView| true);
    }
    table::arrange(rows, |a: &Lease, b: &Lease| -> (c: bool)
        ensures c == (by_resource())(a@, b@)
        { text::precedes(a.resource.as_str(), b.resource.as_str()) }, Ghost(by_resource()))
}

/// The token of the lease on a resource.
pub open spec fn token_of(leases: Seq<LeaseView>, resource: Seq<char>) -> Option<Seq<char>> {
    match table::first(leases, on(resource)) {
        Some(l) => l.lease_token,
        None => None,
    }
}

/// The proof that the lease on a resource asks for; none where there is no lease or no proof.
pub fn lease_token(s: &Store, resource: &str) -> (r: Option<String>)
    ensures
        text::opt(r) == token_of(s@.leases, resource@),
{
    match lease(s, resource) {
        Some(l) => l.lease_token,
        None => None,
    }
}

// ---------------------------------------------------------------- acquiring

/// The row of a resource that nobody has held yet.
pub open spec fn fresh_lease(resource: Seq<char>, now: Seq<char>) -> LeaseView {
    LeaseView {
        resource,
        owner: None,
        approval_id: None,
        fence: 0,
        target_commit: None,
        acquired_at: None,
        expires_at: None,
        released_at: Some(now),
        lease_token: None,
        detail_json: "{}"@,
    }
}

/// The leases with a row for this resource.
pub open spec fn with_lease(leases: Seq<LeaseView>, resource: Seq<char>, now: Seq<char>) -> Seq<LeaseView> {
    if table::any(leases, on(resource)) {
        leases
    } else {
        leases.push(fresh_lease(resource, now))
    }
}

/// A lease that was taken: a new fence, a new proof, not released.
pub open spec fn taken(
    owner: Seq<char>,
    approval_id: Option<Seq<char>>,
    target_commit: Option<Seq<char>>,
    expires_at: Seq<char>,
    token: Seq<char>,
    detail: Seq<char>,
    now: Seq<char>,
) -> spec_fn(LeaseView) -> LeaseView {
    |l: LeaseView|
        (LeaseView {
            owner: Some(owner),
            approval_id,
            target_commit,
            fence: table::bumped(l.fence),
            acquired_at: Some(now),
            expires_at: Some(expires_at),
            released_at: None,
            lease_token: Some(token),
            detail_json: detail,
            ..l
        })
}

/// The store after an approval that is still approved was used up.
pub open spec fn used_up(
    s: StoreView,
    approval_id: Seq<char>,
    decision_id: Seq<char>,
    actor: Seq<char>,
    why: Seq<char>,
    now: Seq<char>,
) -> StoreView {
    if table::any(s.approvals, approvals::at(approval_id, "approved"@)) && !table::any(
        s.decisions,
        approvals::decision_id_is(decision_id),
    ) {
        StoreView {
            approvals: table::changed(
                s.approvals,
                approvals::at(approval_id, "approved"@),
                approvals::moved("consumed"@, actor, Some(why), None, now),
            ),
            decisions: s.decisions.push(
                DecisionView {
                    id: decision_id,
                    approval_id,
                    from: "approved"@,
                    to: "consumed"@,
                    actor,
                    reason: Some(why),
                    at: now,
                },
            ),
            ..s
        }
    } else {
        s
    }
}

fn ensure_row(s: &mut Store, now: &str, resource: &str)
    ensures
        final(s)@ == (StoreView { leases: with_lease(old(s)@.leases, resource@, now@), ..old(s)@ }),
{
    proof {
        table::first_is_a_hit(s@.leases, on(resource@));
    }
    if lease(s, resource).is_none() {
        s.leases.push(
            Lease {
                resource: resource.to_owned(),
                owner: None,
                approval_id: None,
                fence: 0,
                target_commit: None,
                acquired_at: None,
                expires_at: None,
                released_at: Some(now.to_owned()),
                lease_token: None,
                detail_json: "{}".to_owned(),
            },
        );
    }
}

/// The lease is there for the taking: nobody holds it, and where the window must be quiet no prompt
/// of another bot is being delivered.
pub open spec fn takeable(
    leases: Seq<LeaseView>,
    resource: Seq<char>,
    now: Seq<char>,
    quiet_delivery: bool,
    traffic: TrafficView,
    exclude_bot: Option<Seq<char>>,
) -> bool {
    &&& table::any(leases, free(resource, now))
    &&& quiet_delivery ==> !table::any(traffic.turns, critical_except(traffic.runs, exclude_bot))
}

/// What taking a lease gives, and the store afterwards. The approval of a lease that ran out is used
/// up, unless it is the one that is presented.
pub open spec fn acquired(
    s: StoreView,
    now: Seq<char>,
    token: Seq<char>,
    decision_id: Seq<char>,
    resource: Seq<char>,
    owner: Seq<char>,
    approval_id: Option<Seq<char>>,
    target_commit: Option<Seq<char>>,
    expires_at: Seq<char>,
    quiet_delivery: bool,
    traffic: TrafficView,
    exclude_bot: Option<Seq<char>>,
    detail: Seq<char>,
) -> (Option<LeaseView>, StoreView) {
    let base = StoreView { leases: with_lease(s.leases, resource, now), ..s };
    let to = taken(owner, approval_id, target_commit, expires_at, token, detail, now);
    let after = StoreView { leases: table::changed(base.leases, free(resource, now), to), ..base };
    let left = table::first(base.leases, stale(resource, now));
    if !takeable(base.leases, resource, now, quiet_delivery, traffic, exclude_bot) {
        (None, base)
    } else if left is Some && left->0.approval_id is Some && left->0.approval_id != approval_id {
        (
            table::first(after.leases, on(resource)),
            used_up(after, left->0.approval_id->0, decision_id, "daemon"@, "lease expired"@, now),
        )
    } else {
        (table::first(after.leases, on(resource)), after)
    }
}

/// Take the lease on a resource, if nobody holds it; `None` is that somebody does, or that a prompt
/// is being delivered and the window must be quiet.
pub fn acquire_lease(
    s: &mut Store,
    now: &str,
    token: &str,
    decision_id: &str,
    resource: &str,
    owner: &str,
    approval_id: Option<&str>,
    target_commit: Option<&str>,
    expires_at: &str,
    quiet_delivery: bool,
    traffic: &Traffic,
    exclude_bot: Option<&str>,
    detail: &str,
) -> (r: Option<Lease>)
    ensures
        (table::opt_view(r), final(s)@) == acquired(
            old(s)@,
            now@,
            token@,
            decision_id@,
            resource@,
            owner@,
            text::arg(approval_id),
            text::arg(target_commit),
            expires_at@,
            quiet_delivery,
            traffic@,
            text::arg(exclude_bot),
            detail@,
        ),
        (r is Some) == takeable(
            with_lease(old(s)@.leases, resource@, now@),
            resource@,
            now@,
            quiet_delivery,
            traffic@,
            text::arg(exclude_bot),
        ),
{
    ensure_row(s, now, resource);
    let ghost base = s@;
    let left: Option<String> = match table::find(&s.leases, |l: &Lease| -> (b: bool)
        ensures b == (stale(resource@, now@))(l@)
        {
            is_on(l, resource) && l.released_at.is_none() && (match &l.expires_at {
                Some(t) => !time::is_earlier(now, t.as_str()),
                None => false,
            })
        }, Ghost(stale(resource@, now@))) {
        Some(l) => text::copied(&l.approval_id),
        None => None,
    };
    let ghost hit = free(resource@, now@);
    let ghost to = taken(owner@, text::arg(approval_id), text::arg(target_commit), expires_at@, token@, detail@, now@);
    proof {
        table::first_is_a_hit(base.leases, hit);
        table::first_is_a_hit(base.leases, on(resource@));
        table::first_of_changed(base.leases, on(resource@), hit, to);
    }
    let open = table::find(&s.leases, |l: &Lease| -> (b: bool)
        ensures b == (free(resource@, now@))(l@)
        { is_on(l, resource) && !l.held_at(now) }, Ghost(hit)).is_some();
    if !open {
        return None;
    }
    proof {
        let i = choose|i: int| 0 <= i < base.leases.len() && hit(#[trigger] base.leases[i]);
        assert((on(resource@))(base.leases[i]));
    }
    if quiet_delivery && traffic.delivery_critical_except(exclude_bot) {
        return None;
    }
    table::change(
        &mut s.leases,
        |l: &Lease| -> (b: bool)
            ensures b == (free(resource@, now@))(l@)
            { is_on(l, resource) && !l.held_at(now) },
        |l: &Lease| -> (x: Lease)
            ensures x@ == (taken(
                owner@,
                text::arg(approval_id),
                text::arg(target_commit),
                expires_at@,
                token@,
                detail@,
                now@,
            ))(l@)
            {
                Lease {
                    owner: Some(owner.to_owned()),
                    approval_id: text::owned(approval_id),
                    target_commit: text::owned(target_commit),
                    fence: table::bump(l.fence),
                    acquired_at: Some(now.to_owned()),
                    expires_at: Some(expires_at.to_owned()),
                    released_at: None,
                    lease_token: Some(token.to_owned()),
                    detail_json: detail.to_owned(),
                    ..l.copied()
                }
            },
        Ghost(hit),
        Ghost(to),
    );
    if let Some(a) = left {
        if !text::same_opt(Some(a.as_str()), approval_id) {
            let _ = approvals::decide_approval_from(
                s,
                now,
                decision_id,
                a.as_str(),
                "approved",
                "consumed",
                "daemon",
                Some("lease expired"),
                None,
            );
        }
    }
    lease(s, resource)
}

// ---------------------------------------------------------------- keeping and giving back

/// What is shown to prove that a lease is one's own.
#[derive(Debug, Clone, Copy)]
pub enum LeaseProof<'a> {
    Token(&'a str),
    /// The caller brought nothing: enough only for a lease from before there were proofs.
    Absent,
    /// The daemon itself, or the manager's word.
    Forced,
}

/// A proof that needs no token.
pub open spec fn forced(p: LeaseProof<'_>) -> bool {
    p is Forced
}

/// What a proof is good for, against the proof on record.
pub open spec fn proof_holds(p: LeaseProof<'_>, stored: Option<Seq<char>>) -> bool {
    match (p, stored) {
        (LeaseProof::Forced, _) => true,
        (_, None) => true,
        (LeaseProof::Absent, Some(_)) => false,
        (LeaseProof::Token(t), Some(want)) => t@ == want,
    }
}

/// Two byte sequences are the same; every byte is looked at, whatever the others are.
fn same_bytes(x: &[u8], y: &[u8]) -> (r: bool)
    requires
        x.len() == y.len(),
    ensures
        r == (x@ == y@),
{
    let mut acc: u8 = 0;
    let mut i: usize = 0;
    while i < x.len()
        invariant
            i <= x.len(),
            x.len() == y.len(),
            (acc == 0) == (forall|j: int| 0 <= j < i ==> x@[j] == y@[j]),
        decreases x.len() - i,
    {
        let a: u8 = x[i];
        let b: u8 = y[i];
        let was: u8 = acc;
        acc = acc | (a ^ b);
        assert((was | (a ^ b)) == 0 <==> was == 0 && a == b) by (bit_vector);
        i += 1;
    }
    proof {
        if acc == 0 {
            assert(x@ =~= y@);
        }
    }
    acc == 0
}

impl<'a> LeaseProof<'a> {
    /// `stored` is the proof on record. The comparison takes the same time wherever the two differ.
    pub fn allows(&self, stored: Option<&str>) -> (r: bool)
        ensures
            r == proof_holds(*self, text::arg(stored)),
    {
        match (*self, stored) {
            (LeaseProof::Forced, _) => true,
            (_, None) => true,
            (LeaseProof::Absent, Some(_)) => false,
            (LeaseProof::Token(given), Some(want)) => {
                let x = given.as_bytes();
                let y = want.as_bytes();
                proof {
                    vstd::utf8::encode_utf8_decode_utf8(given@);
                    vstd::utf8::encode_utf8_decode_utf8(want@);
                }
                x.len() == y.len() && same_bytes(x, y)
            },
        }
    }

    /// A forced release does not compare the holder: the holder may be gone, which is why it is forced.
    pub fn is_forced(&self) -> (r: bool)
        ensures
            r == forced(*self),
    {
        match self {
            LeaseProof::Forced => true,
            _ => false,
        }
    }
}

/// A lease with a later deadline.
pub open spec fn until(expires_at: Seq<char>) -> spec_fn(LeaseView) -> LeaseView {
    |l: LeaseView| (LeaseView { expires_at: Some(expires_at), ..l })
}

/// A lease that was given back.
pub open spec fn given_back(now: Seq<char>) -> spec_fn(LeaseView) -> LeaseView {
    |l: LeaseView| (LeaseView { released_at: Some(now), ..l })
}

/// Whether a lease is renewed, and the store then.
pub open spec fn renewing(s: StoreView, resource: Seq<char>, owner: Seq<char>, fence: i64, end: Seq<char>, now: Seq<char>) -> (
    bool,
    StoreView,
) {
    (
        table::any(s.leases, held_by(resource, owner, fence, now)),
        StoreView { leases: table::changed(s.leases, held_by(resource, owner, fence, now), until(end)), ..s },
    )
}

/// Extend a lease one still holds. A stale fence, another owner and a lease that ran out all fail.
pub fn renew_lease(s: &mut Store, now: &str, resource: &str, owner: &str, fence: i64, expires_at: &str) -> (renewed: bool)
    ensures
        (renewed, final(s)@) == renewing(old(s)@, resource@, owner@, fence, expires_at@, now@),
{
    let ghost hit = held_by(resource@, owner@, fence, now@);
    let n = table::change(
        &mut s.leases,
        |l: &Lease| -> (b: bool)
            ensures b == (held_by(resource@, owner@, fence, now@))(l@)
            { is_on(l, resource) && text::is_text(&l.owner, owner) && l.fence == fence && l.held_at(now) },
        |l: &Lease| -> (x: Lease)
            ensures x@ == (until(expires_at@))(l@)
            { Lease { expires_at: Some(expires_at.to_owned()), ..l.copied() } },
        Ghost(hit),
        Ghost(until(expires_at@)),
    );
    proof {
        table::any_is_counted(old(s)@.leases, hit);
    }
    n > 0
}

/// Whether a lease is given back, and the store then.
pub open spec fn releasing(s: StoreView, resource: Seq<char>, owner: Seq<char>, fence: i64, now: Seq<char>) -> (bool, StoreView) {
    (
        table::any(s.leases, owned_by(resource, owner, fence)),
        StoreView { leases: table::changed(s.leases, owned_by(resource, owner, fence), given_back(now)), ..s },
    )
}

/// Give the window back. Not gated on the deadline: a holder whose lease has just run out can still
/// say that it is finished.
pub fn release_lease(s: &mut Store, now: &str, resource: &str, owner: &str, fence: i64) -> (released: bool)
    ensures
        (released, final(s)@) == releasing(old(s)@, resource@, owner@, fence, now@),
{
    let ghost hit = owned_by(resource@, owner@, fence);
    let n = table::change(
        &mut s.leases,
        |l: &Lease| -> (b: bool)
            ensures b == (owned_by(resource@, owner@, fence))(l@)
            { is_on(l, resource) && text::is_text(&l.owner, owner) && l.fence == fence && l.released_at.is_none() },
        |l: &Lease| -> (x: Lease)
            ensures x@ == (given_back(now@))(l@)
            { Lease { released_at: Some(now.to_owned()), ..l.copied() } },
        Ghost(hit),
        Ghost(given_back(now@)),
    );
    proof {
        table::any_is_counted(old(s)@.leases, hit);
    }
    n > 0
}

/// Whether a lease is taken away, and the store then.
pub open spec fn forcing(s: StoreView, resource: Seq<char>, now: Seq<char>) -> (bool, StoreView) {
    (
        table::any(s.leases, unreleased(resource)),
        StoreView { leases: table::changed(s.leases, unreleased(resource), given_back(now)), ..s },
    )
}

/// Take the window back from whoever holds it.
pub fn force_release_lease(s: &mut Store, now: &str, resource: &str) -> (released: bool)
    ensures
        (released, final(s)@) == forcing(old(s)@, resource@, now@),
{
    let ghost hit = unreleased(resource@);
    let n = table::change(
        &mut s.leases,
        |l: &Lease| -> (b: bool)
            ensures b == (unreleased(resource@))(l@)
            { is_on(l, resource) && l.released_at.is_none() },
        |l: &Lease| -> (x: Lease)
            ensures x@ == (given_back(now@))(l@)
            { Lease { released_at: Some(now.to_owned()), ..l.copied() } },
        Ghost(hit),
        Ghost(given_back(now@)),
    );
    proof {
        table::any_is_counted(old(s)@.leases, hit);
    }
    n > 0
}

// ---------------------------------------------------------------- laws

/// There is at most one row per resource.
pub open spec fn resources_are_unique(leases: Seq<LeaseView>) -> bool {
    forall|i: int, j: int| 0 <= i < j < leases.len() ==> (#[trigger] leases[i]).resource != (#[trigger] leases[j]).resource
}

/// Asking for a resource never makes a second row for it, and no operation changes which resources
/// there are.
pub proof fn one_row_per_resource(
    leases: Seq<LeaseView>,
    resource: Seq<char>,
    now: Seq<char>,
    hit: spec_fn(LeaseView) -> bool,
    to: spec_fn(LeaseView) -> LeaseView,
)
    requires
        resources_are_unique(leases),
        forall|l: LeaseView| (#[trigger] to(l)).resource == l.resource,
    ensures
        resources_are_unique(with_lease(leases, resource, now)),
        resources_are_unique(table::changed(leases, hit, to)),
{
    let more = with_lease(leases, resource, now);
    assert forall|i: int, j: int| 0 <= i < j < more.len() implies (#[trigger] more[i]).resource != (
    #[trigger] more[j]).resource by {
        if j == leases.len() {
            assert(!(on(resource))(leases[i]));
        }
    }
    let after = table::changed(leases, hit, to);
    assert forall|i: int, j: int| 0 <= i < j < after.len() implies (#[trigger] after[i]).resource != (
    #[trigger] after[j]).resource by {
        assert(after[i].resource == leases[i].resource);
        assert(after[j].resource == leases[j].resource);
    }
}

/// A window has one holder: while a lease is held, nobody else can take it.
pub proof fn a_held_lease_cannot_be_taken(
    leases: Seq<LeaseView>,
    i: int,
    resource: Seq<char>,
    now: Seq<char>,
    quiet: bool,
    traffic: TrafficView,
    exclude: Option<Seq<char>>,
)
    requires
        resources_are_unique(leases),
        0 <= i < leases.len(),
        leases[i].resource == resource,
        held(leases[i], now),
    ensures
        with_lease(leases, resource, now) == leases,
        !takeable(leases, resource, now, quiet, traffic, exclude),
{
    assert((on(resource))(leases[i]));
    if table::any(leases, free(resource, now)) {
        let j = choose|j: int| 0 <= j < leases.len() && (free(resource, now))(#[trigger] leases[j]);
        assert(leases[j].resource == leases[i].resource);
    }
}

/// A lease that was released, or ran out, or was never held, can be taken when the window is quiet.
pub proof fn a_free_lease_can_be_taken(
    leases: Seq<LeaseView>,
    resource: Seq<char>,
    now: Seq<char>,
    traffic: TrafficView,
    exclude: Option<Seq<char>>,
)
    requires
        forall|i: int| 0 <= i < leases.len() && (#[trigger] leases[i]).resource == resource ==> !held(leases[i], now),
    ensures
        takeable(with_lease(leases, resource, now), resource, now, false, traffic, exclude),
{
    let more = with_lease(leases, resource, now);
    if table::any(leases, on(resource)) {
        let i = choose|i: int| 0 <= i < leases.len() && (on(resource))(#[trigger] leases[i]);
        assert((free(resource, now))(more[i]));
    } else {
        assert((free(resource, now))(more[leases.len() as int]));
    }
}

/// The fence goes up with every acquire, so whoever held the lease before presents a stale one: it
/// can neither renew nor release what it lost.
pub proof fn an_old_holder_is_fenced_off(
    l: LeaseView,
    owner: Seq<char>,
    approval_id: Option<Seq<char>>,
    commit: Option<Seq<char>>,
    expires_at: Seq<char>,
    token: Seq<char>,
    detail: Seq<char>,
    at: Seq<char>,
    old_owner: Seq<char>,
    now: Seq<char>,
)
    requires
        l.fence < i64::MAX,
    ensures
        ({
            let after = (taken(owner, approval_id, commit, expires_at, token, detail, at))(l);
            &&& after.fence > l.fence
            &&& !(held_by(l.resource, old_owner, l.fence, now))(after)
            &&& !(owned_by(l.resource, old_owner, l.fence))(after)
        }),
{
}

/// A lease that ran out is not brought back: renewing it fails, whatever is presented.
pub proof fn a_lease_that_ran_out_cannot_be_renewed(l: LeaseView, owner: Seq<char>, fence: i64, now: Seq<char>)
    requires
        !held(l, now),
    ensures
        !(held_by(l.resource, owner, fence, now))(l),
{
}

/// What was given back is held by nobody, at any time.
pub proof fn a_released_lease_is_free(l: LeaseView, at: Seq<char>, now: Seq<char>)
    ensures
        !held((given_back(at))(l), now),
        (free(l.resource, now))((given_back(at))(l)),
        !(unreleased(l.resource))((given_back(at))(l)),
{
}

/// Using an approval up really uses it up: afterwards it is not approved any more, and the step is on
/// record.
pub proof fn a_used_up_approval_is_not_approved(
    s: StoreView,
    approval_id: Seq<char>,
    decision_id: Seq<char>,
    actor: Seq<char>,
    why: Seq<char>,
    now: Seq<char>,
)
    requires
        table::any(s.approvals, approvals::at(approval_id, "approved"@)),
        !table::any(s.decisions, approvals::decision_id_is(decision_id)),
    ensures
        !table::any(used_up(s, approval_id, decision_id, actor, why, now).approvals, approvals::at(approval_id, "approved"@)),
        used_up(s, approval_id, decision_id, actor, why, now).decisions.last().approval_id == approval_id,
{
    reveal_strlit("approved");
    reveal_strlit("consumed");
    assert("approved"@[0] == 'a' && "consumed"@[0] == 'c');
    approvals::the_second_decision_finds_nothing(
        s.approvals,
        approval_id,
        "approved"@,
        "consumed"@,
        actor,
        Some(why),
        None,
        now,
    );
}

/// A token opens exactly the lease it was handed out for; nothing in hand opens only a lease without
/// a token.
pub proof fn only_the_right_token_opens(given: &str, stored: Seq<char>)
    ensures
        proof_holds(LeaseProof::Token(given), Some(stored)) <==> given@ == stored,
        !proof_holds(LeaseProof::Absent, Some(stored)),
        proof_holds(LeaseProof::Absent, None),
        proof_holds(LeaseProof::Forced, Some(stored)),
{
}

/// One call on the leases, with everything it is given.
pub enum LeaseCall {
    Acquire {
        now: Seq<char>,
        token: Seq<char>,
        decision_id: Seq<char>,
        resource: Seq<char>,
        owner: Seq<char>,
        approval_id: Option<Seq<char>>,
        target_commit: Option<Seq<char>>,
        expires_at: Seq<char>,
        quiet_delivery: bool,
        traffic: TrafficView,
        exclude_bot: Option<Seq<char>>,
        detail: Seq<char>,
    },
    Renew { now: Seq<char>, resource: Seq<char>, owner: Seq<char>, fence: i64, expires_at: Seq<char> },
    Release { now: Seq<char>, resource: Seq<char>, owner: Seq<char>, fence: i64 },
    ForceRelease { now: Seq<char>, resource: Seq<char> },
}

/// The lease that a call hands out, where it hands one out, and the store after it.
pub open spec fn called(s: StoreView, c: LeaseCall) -> (Option<LeaseView>, StoreView) {
    match c {
        LeaseCall::Acquire {
            now,
            token,
            decision_id,
            resource,
            owner,
            approval_id,
            target_commit,
            expires_at,
            quiet_delivery,
            traffic,
            exclude_bot,
            detail,
        } => acquired(
            s,
            now,
            token,
            decision_id,
            resource,
            owner,
            approval_id,
            target_commit,
            expires_at,
            quiet_delivery,
            traffic,
            exclude_bot,
            detail,
        ),
        LeaseCall::Renew { now, resource, owner, fence, expires_at } => (
            None,
            StoreView {
                leases: table::changed(s.leases, held_by(resource, owner, fence, now), until(expires_at)),
                ..s
            },
        ),
        LeaseCall::Release { now, resource, owner, fence } => (
            None,
            StoreView { leases: table::changed(s.leases, owned_by(resource, owner, fence), given_back(now)), ..s },
        ),
        LeaseCall::ForceRelease { now, resource } => (
            None,
            StoreView { leases: table::changed(s.leases, unreleased(resource), given_back(now)), ..s },
        ),
    }
}

/// The store after some calls, one after the other.
pub open spec fn after_calls(s: StoreView, calls: Seq<LeaseCall>) -> StoreView
    decreases calls.len(),
{
    if calls.len() == 0 {
        s
    } else {
        called(after_calls(s, calls.drop_last()), calls.last()).1
    }
}

/// The lease that the call at `i` hands out.
pub open spec fn handed_out(s: StoreView, calls: Seq<LeaseCall>, i: int) -> Option<LeaseView> {
    called(after_calls(s, calls.take(i)), calls[i]).0
}

/// The fence of a resource; that of one without a row is the fence its row begins with.
pub open spec fn fence_on(leases: Seq<LeaseView>, resource: Seq<char>) -> i64 {
    match table::first(leases, on(resource)) {
        Some(l) => l.fence,
        None => 0,
    }
}

/// The call takes this resource.
pub open spec fn takes(c: LeaseCall, wanted: Seq<char>) -> bool {
    c matches LeaseCall::Acquire { resource, .. } && resource == wanted
}

proof fn first_of_with_lease(leases: Seq<LeaseView>, resource: Seq<char>, now: Seq<char>, wanted: Seq<char>)
    ensures
        fence_on(with_lease(leases, resource, now), wanted) == fence_on(leases, wanted),
        table::first(with_lease(leases, resource, now), on(resource)) is Some,
{
    let more = with_lease(leases, resource, now);
    table::first_is_a_hit(leases, on(resource));
    table::first_is_a_hit(leases, on(wanted));
    table::first_is_a_hit(more, on(resource));
    if !table::any(leases, on(resource)) {
        assert((on(resource))(more[leases.len() as int]));
        if table::any(leases, on(wanted)) {
            table::position_is_first(leases, on(wanted));
            let p = table::position(leases, on(wanted));
            table::first_at(leases, on(wanted), p);
            assert forall|j: int| 0 <= j < p implies !(on(wanted))(#[trigger] more[j]) by {
                assert(more[j] == leases[j]);
            }
            table::first_at(more, on(wanted), p);
        } else {
            assert forall|j: int| 0 <= j < leases.len() implies !(on(wanted))(#[trigger] more[j]) by {
                assert(more[j] == leases[j]);
            }
            if resource == wanted {
                table::first_at(more, on(wanted), leases.len() as int);
            } else {
                table::first_of_none(more, on(wanted));
            }
        }
    }
}

proof fn a_call_keeps(s: StoreView, c: LeaseCall, wanted: Seq<char>)
    requires
        resources_are_unique(s.leases),
    ensures
        resources_are_unique(called(s, c).1.leases),
        fence_on(called(s, c).1.leases, wanted) >= fence_on(s.leases, wanted),
        takes(c, wanted) && called(s, c).0 is Some ==> {
            &&& called(s, c).0->0.fence == table::bumped(fence_on(s.leases, wanted))
            &&& called(s, c).0->0.fence == fence_on(called(s, c).1.leases, wanted)
        },
{
    match c {
        LeaseCall::Acquire { now, token, resource, owner, approval_id, target_commit, expires_at, detail, .. } => {
            let base = with_lease(s.leases, resource, now);
            let hit = free(resource, now);
            let to = taken(owner, approval_id, target_commit, expires_at, token, detail, now);
            first_of_with_lease(s.leases, resource, now, wanted);
            one_row_per_resource(s.leases, resource, now, hit, to);
            one_row_per_resource(base, resource, now, hit, to);
            table::first_of_changed(base, on(wanted), hit, to);
            table::first_of_changed(base, on(resource), hit, to);
            table::first_is_a_hit(base, on(resource));
            if takes(c, wanted) && called(s, c).0 is Some {
                let l = table::first(base, on(resource))->0;
                let i = choose|i: int| 0 <= i < base.len() && base[i] == l;
                let j = choose|j: int| 0 <= j < base.len() && hit(#[trigger] base[j]);
                assert(base[i].resource == base[j].resource);
                assert(i == j);
            }
        },
        LeaseCall::Renew { now, resource, owner, fence, expires_at } => {
            let hit = held_by(resource, owner, fence, now);
            one_row_per_resource(s.leases, resource, now, hit, until(expires_at));
            table::first_of_changed(s.leases, on(wanted), hit, until(expires_at));
        },
        LeaseCall::Release { now, resource, owner, fence } => {
            let hit = owned_by(resource, owner, fence);
            one_row_per_resource(s.leases, resource, now, hit, given_back(now));
            table::first_of_changed(s.leases, on(wanted), hit, given_back(now));
        },
        LeaseCall::ForceRelease { now, resource } => {
            one_row_per_resource(s.leases, resource, now, unreleased(resource), given_back(now));
            table::first_of_changed(s.leases, on(wanted), unreleased(resource), given_back(now));
        },
    }
}

proof fn calls_keep(s: StoreView, calls: Seq<LeaseCall>, i: int, j: int, wanted: Seq<char>)
    requires
        resources_are_unique(s.leases),
        0 <= i <= j <= calls.len(),
    ensures
        resources_are_unique(after_calls(s, calls.take(j)).leases),
        fence_on(after_calls(s, calls.take(i)).leases, wanted) <= fence_on(after_calls(s, calls.take(j)).leases, wanted),
    decreases j,
{
    if j > 0 {
        assert(calls.take(j).drop_last() =~= calls.take(j - 1));
        assert(calls.take(j).last() == calls[j - 1]);
        if i < j {
            calls_keep(s, calls, i, j - 1, wanted);
        } else {
            calls_keep(s, calls, j - 1, j - 1, wanted);
        }
        a_call_keeps(after_calls(s, calls.take(j - 1)), calls[j - 1], wanted);
    }
}

/// Over any calls on the leases, in any order and by anybody, a lease that is handed out has a fence
/// above that of every lease on the resource that was handed out before. The count of fences ends at the
/// largest integer.
pub proof fn fences_only_go_up(s: StoreView, calls: Seq<LeaseCall>, resource: Seq<char>, i: int, j: int)
    requires
        resources_are_unique(s.leases),
        0 <= i < j < calls.len(),
        takes(calls[i], resource),
        takes(calls[j], resource),
        handed_out(s, calls, i) is Some,
        handed_out(s, calls, j) is Some,
        fence_on(after_calls(s, calls.take(j)).leases, resource) < i64::MAX,
    ensures
        handed_out(s, calls, i)->0.fence < handed_out(s, calls, j)->0.fence,
{
    calls_keep(s, calls, i, i, resource);
    calls_keep(s, calls, i + 1, j, resource);
    a_call_keeps(after_calls(s, calls.take(i)), calls[i], resource);
    a_call_keeps(after_calls(s, calls.take(j)), calls[j], resource);
    assert(calls.take(i + 1).drop_last() =~= calls.take(i));
    assert(calls.take(i + 1).last() == calls[i]);
}

/// At any point of any calls, asking for a lease that somebody holds hands nothing out and leaves every
/// lease as it is; a lease that is handed out is the asker's, is not released, and ends when it was
/// asked to.
pub proof fn a_window_has_one_holder(s: StoreView, calls: Seq<LeaseCall>, i: int)
    requires
        resources_are_unique(s.leases),
        0 <= i < calls.len(),
    ensures
        ({
            let before = after_calls(s, calls.take(i));
            let after = called(before, calls[i]).1;
            calls[i] matches LeaseCall::Acquire { now, resource, owner, expires_at, .. } ==> {
                &&& (table::first(before.leases, on(resource)) matches Some(l) && held(l, now)) ==> handed_out(
                    s,
                    calls,
                    i,
                ) is None && after.leases == before.leases
                &&& (handed_out(s, calls, i) matches Some(l) ==> l.owner == Some(owner) && l.released_at is None
                    && l.expires_at == Some(expires_at) && l.resource == resource)
            }
        }),
{
    let before = after_calls(s, calls.take(i));
    calls_keep(s, calls, i, i, seq![]);
    match calls[i] {
        LeaseCall::Acquire {
            now,
            token,
            resource,
            owner,
            approval_id,
            target_commit,
            expires_at,
            quiet_delivery,
            traffic,
            exclude_bot,
            detail,
            ..
        } => {
            let base = with_lease(before.leases, resource, now);
            let hit = free(resource, now);
            let to = taken(owner, approval_id, target_commit, expires_at, token, detail, now);
            one_row_per_resource(before.leases, resource, now, hit, to);
            first_of_with_lease(before.leases, resource, now, resource);
            table::first_is_a_hit(before.leases, on(resource));
            table::first_is_a_hit(base, on(resource));
            table::first_of_changed(base, on(resource), hit, to);
            if table::first(before.leases, on(resource)) is Some && held(table::first(before.leases, on(resource))->0, now) {
                let l = table::first(before.leases, on(resource))->0;
                let k = choose|k: int| 0 <= k < before.leases.len() && before.leases[k] == l;
                a_held_lease_cannot_be_taken(before.leases, k, resource, now, quiet_delivery, traffic, exclude_bot);
            }
            if handed_out(s, calls, i) is Some {
                let l = table::first(base, on(resource))->0;
                let k = choose|k: int| 0 <= k < base.len() && base[k] == l;
                let j = choose|j: int| 0 <= j < base.len() && hit(#[trigger] base[j]);
                assert(base[k].resource == base[j].resource);
                assert(k == j);
            }
        },
        _ => {},
    }
}

/// A prompt counts as on its way exactly while its turn waits in the queue of a bot that has a live run
/// which is not blocked, or is in flight and its delivery is still pending; the turns of the bot that is
/// left out do not count.
pub proof fn what_counts_as_a_delivery(traffic: TrafficView, exclude_bot: Option<Seq<char>>, i: int)
    requires
        0 <= i < traffic.turns.len(),
    ensures
        ({
            let t = traffic.turns[i];
            let taker = exists|j: int|
                0 <= j < traffic.runs.len() && (#[trigger] traffic.runs[j]).bot_id == t.bot_id && (traffic.runs[j].state
                    == "starting"@ || traffic.runs[j].state == "running"@ || traffic.runs[j].state == "stopping"@)
                    && traffic.runs[j].agent_status is Some && traffic.runs[j].agent_status->0 != "blocked"@;
            let counts = exclude_bot is None || exclude_bot->0 != t.bot_id;
            let on_its_way = (t.status == "queued"@ && taker) || (t.status == "in_flight"@ && t.delivery == Some("pending"@));
            &&& (critical_except(traffic.runs, exclude_bot))(t) <==> counts && on_its_way
            &&& (critical_of(traffic.runs, t.bot_id))(t) <==> on_its_way
            &&& counts && on_its_way ==> table::any(traffic.turns, critical_except(traffic.runs, exclude_bot))
        }),
{
    let t = traffic.turns[i];
    let hit = can_take_prompts(t.bot_id);
    if table::any(traffic.runs, hit) {
        let j = choose|j: int| 0 <= j < traffic.runs.len() && hit(#[trigger] traffic.runs[j]);
        assert(traffic.runs[j].bot_id == t.bot_id);
    } else {
        assert forall|j: int| 0 <= j < traffic.runs.len() implies !hit(#[trigger] traffic.runs[j]) by {
        }
    }
}

/// A lease is taken exactly when nobody holds it, that is, when it was given back or its end has come, and
/// no prompt of another bot is on its way where that matters. Then it is the asker's, as it was asked for,
/// with a fence one above the last; no other resource's lease changes.
pub proof fn a_lease_that_is_taken_is_the_askers(
    s: StoreView,
    now: Seq<char>,
    token: Seq<char>,
    decision_id: Seq<char>,
    resource: Seq<char>,
    owner: Seq<char>,
    approval_id: Option<Seq<char>>,
    commit: Option<Seq<char>>,
    expires_at: Seq<char>,
    quiet: bool,
    traffic: TrafficView,
    exclude_bot: Option<Seq<char>>,
    detail: Seq<char>,
)
    requires
        resources_are_unique(s.leases),
    ensures
        ({
            let (got, after) = acquired(
                s,
                now,
                token,
                decision_id,
                resource,
                owner,
                approval_id,
                commit,
                expires_at,
                quiet,
                traffic,
                exclude_bot,
                detail,
            );
            let was = table::first(s.leases, on(resource));
            let is_held = was is Some && was->0.released_at is None && was->0.expires_at is Some && time::ts_before(
                now,
                was->0.expires_at->0,
            );
            let busy = exists|k: int|
                0 <= k < traffic.turns.len() && (critical_except(traffic.runs, exclude_bot))(#[trigger] traffic.turns[k]);
            &&& got is Some <==> !is_held && !(quiet && busy)
            &&& got is Some ==> got == Some(
                LeaseView {
                    resource,
                    owner: Some(owner),
                    approval_id,
                    fence: if was is None {
                        1i64
                    } else if was->0.fence < i64::MAX {
                        (was->0.fence + 1) as i64
                    } else {
                        i64::MAX
                    },
                    target_commit: commit,
                    acquired_at: Some(now),
                    expires_at: Some(expires_at),
                    released_at: None,
                    lease_token: Some(token),
                    detail_json: detail,
                },
            )
            &&& got is Some ==> after.leases.contains(got->0) && table::first(after.leases, on(resource)) == got
            &&& forall|i: int|
                0 <= i < s.leases.len() && (got is None || (#[trigger] s.leases[i]).resource != resource) ==> after.leases[i]
                    == s.leases[i]
            &&& after == (StoreView {
                leases: after.leases,
                approvals: after.approvals,
                decisions: after.decisions,
                ..s
            })
            &&& got is None ==> after.approvals == s.approvals && after.decisions == s.decisions
        }),
{
    let base = with_lease(s.leases, resource, now);
    let hit = free(resource, now);
    let to = taken(owner, approval_id, commit, expires_at, token, detail, now);
    one_row_per_resource(s.leases, resource, now, hit, to);
    first_of_with_lease(s.leases, resource, now, resource);
    table::first_is_a_hit(s.leases, on(resource));
    table::first_is_a_hit(base, on(resource));
    table::first_of_changed(base, on(resource), hit, to);
    let l = table::first(base, on(resource))->0;
    let k = choose|k: int| 0 <= k < base.len() && base[k] == l && (on(resource))(#[trigger] base[k]);
    if table::any(s.leases, on(resource)) {
        assert(base == s.leases);
    } else {
        assert((on(resource))(base[s.leases.len() as int]));
        assert(l == fresh_lease(resource, now));
    }
    if table::any(base, hit) {
        let j = choose|j: int| 0 <= j < base.len() && hit(#[trigger] base[j]);
        assert(base[j].resource == base[k].resource);
        assert(j == k);
        assert(hit(l));
    } else {
        assert(!hit(base[k]));
    }
    let after = table::changed(base, hit, to);
    assert(after[k] == if hit(base[k]) {
        to(base[k])
    } else {
        base[k]
    });
}

/// Taking over a lease that ran out uses up the approval that it rested on, unless it is the one that is
/// presented; the step is on record. No other approval changes, and without such a lease none does.
pub proof fn taking_over_uses_up_the_old_approval(
    s: StoreView,
    now: Seq<char>,
    token: Seq<char>,
    decision_id: Seq<char>,
    resource: Seq<char>,
    owner: Seq<char>,
    approval_id: Option<Seq<char>>,
    commit: Option<Seq<char>>,
    expires_at: Seq<char>,
    quiet: bool,
    traffic: TrafficView,
    exclude_bot: Option<Seq<char>>,
    detail: Seq<char>,
    i: int,
)
    requires
        resources_are_unique(s.leases),
        0 <= i < s.approvals.len(),
    ensures
        ({
            let (got, after) = acquired(
                s,
                now,
                token,
                decision_id,
                resource,
                owner,
                approval_id,
                commit,
                expires_at,
                quiet,
                traffic,
                exclude_bot,
                detail,
            );
            let left = table::first(s.leases, on(resource));
            let behind = left is Some && left->0.released_at is None && left->0.expires_at is Some && !time::ts_before(
                now,
                left->0.expires_at->0,
            ) && left->0.approval_id is Some && left->0.approval_id != approval_id;
            let old = left->0.approval_id->0;
            let recorded = exists|k: int| 0 <= k < s.decisions.len() && (#[trigger] s.decisions[k]).id == decision_id;
            let was = s.approvals[i];
            &&& after.approvals.len() == s.approvals.len()
            &&& !(got is Some && behind && was.id == old && was.status == "approved"@) ==> after.approvals[i] == was
            &&& got is Some && behind && was.id == old && was.status == "approved"@ && !recorded ==> {
                &&& after.approvals[i] == (crate::rows::ApprovalView {
                    status: "consumed"@,
                    reason: Some("lease expired"@),
                    updated_at: now,
                    ..was
                })
                &&& after.decisions == s.decisions.push(
                    DecisionView {
                        id: decision_id,
                        approval_id: old,
                        from: "approved"@,
                        to: "consumed"@,
                        actor: "daemon"@,
                        reason: Some("lease expired"@),
                        at: now,
                    },
                )
            }
        }),
{
    let base = with_lease(s.leases, resource, now);
    let old_row = stale(resource, now);
    one_row_per_resource(s.leases, resource, now, on(resource), given_back(now));
    first_of_with_lease(s.leases, resource, now, resource);
    table::first_is_a_hit(s.leases, on(resource));
    table::first_is_a_hit(base, on(resource));
    table::first_is_a_hit(base, old_row);
    table::first_of_changed(
        base,
        on(resource),
        free(resource, now),
        taken(owner, approval_id, commit, expires_at, token, detail, now),
    );
    let l = table::first(base, on(resource))->0;
    let k = choose|k: int| 0 <= k < base.len() && base[k] == l && (on(resource))(#[trigger] base[k]);
    if !table::any(s.leases, on(resource)) {
        assert(base[s.leases.len() as int] == fresh_lease(resource, now));
        assert((on(resource))(base[s.leases.len() as int]));
        assert(base[k].resource == base[s.leases.len() as int].resource);
        assert(k == s.leases.len());
    }
    if table::any(base, old_row) {
        let f = table::first(base, old_row)->0;
        let j = choose|j: int| 0 <= j < base.len() && base[j] == f && old_row(#[trigger] base[j]);
        assert(base[j].resource == base[k].resource);
        assert(j == k);
    } else {
        assert(!old_row(base[k]));
    }
    let hit = approvals::at(l.approval_id->0, "approved"@);
    if hit(s.approvals[i]) {
        assert(table::any(s.approvals, hit));
    }
    let used = approvals::decision_id_is(decision_id);
    if table::any(s.decisions, used) {
        let k2 = choose|k2: int| 0 <= k2 < s.decisions.len() && used(#[trigger] s.decisions[k2]);
        assert(s.decisions[k2].id == decision_id);
    }
}

/// A lease is extended exactly for the one who holds it now, under this name and fence, and then only its
/// end changes. It is given back exactly by the one whose name and fence are on it, whether or not it ran
/// out, and then only that it was. Taking it back by force asks for neither. No other lease changes.
pub proof fn a_lease_answers_to_its_holder(leases: Seq<LeaseView>, i: int, resource: Seq<char>, owner: Seq<char>, fence: i64, end: Seq<char>, now: Seq<char>)
    requires
        0 <= i < leases.len(),
    ensures
        ({
            let l = leases[i];
            let mine = l.resource == resource && l.owner == Some(owner) && l.fence == fence && l.released_at is None;
            let running = l.expires_at is Some && time::ts_before(now, l.expires_at->0);
            &&& (held_by(resource, owner, fence, now))(l) <==> mine && running
            &&& (owned_by(resource, owner, fence))(l) <==> mine
            &&& (unreleased(resource))(l) <==> l.resource == resource && l.released_at is None
            &&& table::changed(leases, held_by(resource, owner, fence, now), until(end))[i] == if mine && running {
                LeaseView { expires_at: Some(end), ..l }
            } else {
                l
            }
            &&& table::changed(leases, owned_by(resource, owner, fence), given_back(now))[i] == if mine {
                LeaseView { released_at: Some(now), ..l }
            } else {
                l
            }
            &&& table::changed(leases, unreleased(resource), given_back(now))[i] == if l.resource == resource
                && l.released_at is None {
                LeaseView { released_at: Some(now), ..l }
            } else {
                l
            }
        }),
{
}

/// Using an approval up writes it down where it is approved, and changes nothing else.
pub proof fn an_approval_is_used_up_once(
    s: StoreView,
    approval_id: Seq<char>,
    decision_id: Seq<char>,
    actor: Seq<char>,
    why: Seq<char>,
    now: Seq<char>,
    i: int,
)
    requires
        0 <= i < s.approvals.len(),
        forall|k: int| 0 <= k < s.decisions.len() ==> (#[trigger] s.decisions[k]).id != decision_id,
    ensures
        ({
            let after = used_up(s, approval_id, decision_id, actor, why, now);
            let was = s.approvals[i];
            let is = after.approvals[i];
            let mine = was.id == approval_id && was.status == "approved"@;
            &&& after.approvals.len() == s.approvals.len()
            &&& after == (StoreView { approvals: after.approvals, decisions: after.decisions, ..s })
            &&& !mine ==> is == was
            &&& mine ==> is == (crate::rows::ApprovalView {
                status: "consumed"@,
                reason: Some(why),
                updated_at: now,
                ..was
            })
            &&& mine ==> after.decisions == s.decisions.push(
                DecisionView {
                    id: decision_id,
                    approval_id,
                    from: "approved"@,
                    to: "consumed"@,
                    actor,
                    reason: Some(why),
                    at: now,
                },
            )
        }),
{
    let hit = approvals::at(approval_id, "approved"@);
    if hit(s.approvals[i]) {
        assert(table::any(s.approvals, hit));
    }
}

/// Every lease is listed, in the order of the resources' names.
pub proof fn leases_are_listed_by_resource(
    rows: Seq<LeaseView>,
    x: LeaseView,
    i: int,
    j: int,
)
    ensures
        ({
            let list = by_name(rows);
            let asked = true;
            &&& list.contains(x) <==> rows.contains(x) && asked
            &&& 0 <= i < j < list.len() ==> !text::text_before(list[j].resource, list[i].resource)
        }),
{
    table::ranked_by_text(by_resource(), |v: LeaseView| v.resource, true);
    let each = |v: LeaseView| true;
    table::filter_all(rows, each);
    table::listing(rows, each, by_resource(), x, i, j);
}

/// A renewal moves the end of the lease of who holds it, by its fence and only while it runs; a release ends
/// the lease of who has it, whether it ran out or not; a forced one ends whatever lease is open. Each says
/// whether there was one, touches nothing else, and without one changes nothing.
pub proof fn a_lease_is_renewed_and_given_back_by_who_has_it(
    s: StoreView,
    resource: Seq<char>,
    owner: Seq<char>,
    fence: i64,
    end: Seq<char>,
    now: Seq<char>,
    i: int,
)
    requires
        0 <= i < s.leases.len(),
    ensures
        ({
            let l = s.leases[i];
            let open = l.resource == resource && l.released_at is None;
            let mine = open && l.owner == Some(owner) && l.fence == fence;
            let running = mine && l.expires_at is Some && time::ts_before(now, l.expires_at->0);
            let (renewed, a) = renewing(s, resource, owner, fence, end, now);
            let (released, b) = releasing(s, resource, owner, fence, now);
            let (forced, c) = forcing(s, resource, now);
            &&& a == (StoreView { leases: a.leases, ..s }) && b == (StoreView { leases: b.leases, ..s }) && c == (StoreView {
                leases: c.leases,
                ..s
            })
            &&& running ==> renewed && a.leases[i] == (LeaseView { expires_at: Some(end), ..l })
            &&& !running ==> a.leases[i] == l
            &&& mine ==> released && b.leases[i] == (LeaseView { released_at: Some(now), ..l })
            &&& !mine ==> b.leases[i] == l
            &&& open ==> forced && c.leases[i] == (LeaseView { released_at: Some(now), ..l })
            &&& !open ==> c.leases[i] == l
            &&& !renewed ==> a == s
            &&& !released ==> b == s
            &&& !forced ==> c == s
        }),
{
    let (renewed, a) = renewing(s, resource, owner, fence, end, now);
    let (released, b) = releasing(s, resource, owner, fence, now);
    let (forced, c) = forcing(s, resource, now);
    if (held_by(resource, owner, fence, now))(s.leases[i]) {
        assert(renewed);
    }
    if (owned_by(resource, owner, fence))(s.leases[i]) {
        assert(released);
    }
    if (unreleased(resource))(s.leases[i]) {
        assert(forced);
    }
    if !renewed {
        assert forall|j: int| 0 <= j < s.leases.len() implies a.leases[j] == s.leases[j] by {
            assert(!(held_by(resource, owner, fence, now))(s.leases[j]));
        }
        assert(a.leases =~= s.leases);
    }
    if !released {
        assert forall|j: int| 0 <= j < s.leases.len() implies b.leases[j] == s.leases[j] by {
            assert(!(owned_by(resource, owner, fence))(s.leases[j]));
        }
        assert(b.leases =~= s.leases);
    }
    if !forced {
        assert forall|j: int| 0 <= j < s.leases.len() implies c.leases[j] == s.leases[j] by {
            assert(!(unreleased(resource))(s.leases[j]));
        }
        assert(c.leases =~= s.leases);
    }
}

/// The lease on a resource is the one that names it, and its token is the one that it was given with.
pub proof fn a_lease_is_found_by_its_resource(leases: Seq<LeaseView>, resource: Seq<char>, k: int)
    requires
        0 <= k < leases.len(),
        leases[k].resource == resource,
        forall|j: int| 0 <= j < k ==> (#[trigger] leases[j]).resource != resource,
    ensures
        table::first(leases, on(resource)) == Some(leases[k]),
        token_of(leases, resource) == leases[k].lease_token,
{
    assert((on(resource))(leases[k]));
    table::first_at(leases, on(resource), k);
}

/// A forced proof is the one that holds whatever is stored.
pub proof fn force_needs_no_token(p: LeaseProof<'_>)
    ensures
        forced(p) <==> forall|stored: Option<Seq<char>>| #[trigger] proof_holds(p, stored),
{
    if let LeaseProof::Token(t) = p {
        let other = t@.push('x');
        assert(other.len() != t@.len());
        assert(!proof_holds(p, Some(other)));
    }
    if p is Absent {
        assert(!proof_holds(p, Some(Seq::<char>::empty())));
    }
}

} // verus!
