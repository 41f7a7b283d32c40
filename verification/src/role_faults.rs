//! Whether the bot of a role can be used right now: what its screen and its notifications show.
//!
//! The table lives in memory and is built anew after a restart. Not seeing a screen is no fault, and
//! neither is an empty table.
use crate::roles::Role;
use crate::rows::RoleRow;
use crate::text;
use vstd::prelude::*;

verus! {

/// The bot is stuck at a failed login.
pub const REASON_NEEDS_LOGIN: &'static str = "needs_login";

/// Too many notifications in a row were sent and not finished.
pub const REASON_NOTIFY_STALLED: &'static str = "notify_stalled";

/// How many different unfinished notifications in a row make a bot unusable.
pub const NOTIFY_STALL_LIMIT: usize = 3;

/// Both roles are watched.
pub const WATCHED: [Role; 2] = [Role::Responder, Role::Patrol];

/// What was seen of the bot of a role.
#[derive(Debug, Clone, PartialEq, Eq)]
pub struct RoleFault {
    /// Why the bot cannot be used; none where nothing was seen.
    pub reason: Option<&'static str>,
    /// The notifications that were not finished, each once, in order of their ids.
    pub failed_turns: Vec<String>,
    /// The screen could not be read this time, which is no fault.
    pub probe_failed: bool,
    /// When the reason was first seen.
    pub since: Option<String>,
}

/// What a `RoleFault` holds.
#[verifier::ext_equal]
pub struct RoleFaultView {
    pub reason: Option<Seq<char>>,
    pub failed_turns: Seq<Seq<char>>,
    pub probe_failed: bool,
    pub since: Option<Seq<char>>,
}

impl View for RoleFault {
    type V = RoleFaultView;

    open spec fn view(&self) -> RoleFaultView {
        RoleFaultView {
            reason: text::arg(self.reason),
            failed_turns: text::texts(self.failed_turns@),
            probe_failed: self.probe_failed,
            since: text::opt(self.since),
        }
    }
}

/// Texts in order, none of them twice.
pub open spec fn is_sorted_set(s: Seq<Seq<char>>) -> bool {
    forall|i: int, j: int| 0 <= i < j < s.len() ==> text::text_before(#[trigger] s[i], #[trigger] s[j])
}

impl RoleFault {
    /// The unfinished notifications are a set.
    pub open spec fn valid(&self) -> bool {
        is_sorted_set(self@.failed_turns)
    }

    pub open spec fn fresh() -> RoleFaultView {
        RoleFaultView { reason: None, failed_turns: Seq::empty(), probe_failed: false, since: None }
    }
}

impl Default for RoleFault {
    fn default() -> (r: Self)
        ensures
            r@ == RoleFault::fresh(),
            r.valid(),
    {
        let r = RoleFault { reason: None, failed_turns: Vec::new(), probe_failed: false, since: None };
        assert(text::texts(r.failed_turns@) =~= Seq::<Seq<char>>::empty());
        r
    }
}

/// What is known of each role; none where nothing is.
#[derive(Debug)]
pub struct Faults {
    pub patrol: Option<RoleFault>,
    pub responder: Option<RoleFault>,
}

impl Faults {
    pub open spec fn of(&self, role: Role) -> Option<RoleFaultView> {
        let slot = match role {
            Role::Patrol => self.patrol,
            Role::Responder => self.responder,
        };
        match slot {
            Some(f) => Some(f@),
            None => None,
        }
    }

    pub open spec fn valid(&self) -> bool {
        &&& self.patrol matches Some(f) ==> f.valid()
        &&& self.responder matches Some(f) ==> f.valid()
    }

    /// The other role is as it was.
    pub open spec fn same_but(&self, other: &Faults, role: Role) -> bool {
        match role {
            Role::Patrol => self.responder == other.responder,
            Role::Responder => self.patrol == other.patrol,
        }
    }

    /// A table as it is after a start: nothing is known, and nothing is a fault.
    pub fn new() -> (r: Faults)
        ensures
            r.valid(),
            forall|role: Role| #[trigger] r.of(role) is None,
    {
        Faults { patrol: None, responder: None }
    }

    fn take(&mut self, role: Role) -> (r: Option<RoleFault>)
        requires
            old(self).valid(),
        ensures
            final(self).valid(),
            final(self).of(role) is None,
            final(self).same_but(old(self), role),
            match r {
                Some(f) => old(self).of(role) == Some(f@) && f.valid(),
                None => old(self).of(role) is None,
            },
    {
        match role {
            Role::Patrol => self.patrol.take(),
            Role::Responder => self.responder.take(),
        }
    }

    fn put(&mut self, role: Role, f: RoleFault)
        requires
            old(self).valid(),
            f.valid(),
        ensures
            final(self).valid(),
            final(self).of(role) == Some(f@),
            final(self).same_but(old(self), role),
    {
        match role {
            Role::Patrol => {
                self.patrol = Some(f);
            },
            Role::Responder => {
                self.responder = Some(f);
            },
        }
    }

    /// Why the bot of a role cannot be used; none where nothing was seen.
    pub fn reason(&self, role: Role) -> (r: Option<&'static str>)
        ensures
            text::arg(r) == match self.of(role) {
                Some(f) => f.reason,
                None => None,
            },
    {
        let slot = match role {
            Role::Patrol => &self.patrol,
            Role::Responder => &self.responder,
        };
        match slot {
            Some(f) => f.reason,
            None => None,
        }
    }

    /// All that is known of a role.
    pub fn snapshot(&self, role: Role) -> (r: Option<&RoleFault>)
        ensures
            match r {
                Some(f) => self.of(role) == Some(f@),
                None => self.of(role) is None,
            },
    {
        match role {
            Role::Patrol => self.patrol.as_ref(),
            Role::Responder => self.responder.as_ref(),
        }
    }
}

/// The entry that a look starts from.
pub open spec fn or_fresh(f: Option<RoleFaultView>) -> RoleFaultView {
    match f {
        Some(x) => x,
        None => RoleFault::fresh(),
    }
}

/// Why the bot cannot be used. A screen that could not be read leaves its half as it was; the half of
/// the notifications is counted anew each time.
pub open spec fn concluded(f: RoleFaultView, probe: Option<bool>) -> Option<Seq<char>> {
    let logged_out = match probe {
        Some(v) => v,
        None => f.reason == Some("needs_login"@),
    };
    if logged_out {
        Some("needs_login"@)
    } else if f.failed_turns.len() >= 3 {
        Some("notify_stalled"@)
    } else {
        None
    }
}

/// The entry after a look at the screen.
pub open spec fn looked(f: RoleFaultView, probe: Option<bool>, now: Seq<char>) -> RoleFaultView {
    let reason = concluded(f, probe);
    RoleFaultView {
        reason,
        probe_failed: probe is None,
        since: if f.reason == reason {
            f.since
        } else if reason is Some {
            Some(now)
        } else {
            None
        },
        ..f
    }
}

/// A role was set up, by the bot on its row; a row that cannot be read counts as set up.
pub open spec fn set_up(bot_id: Option<Option<Seq<char>>>) -> bool {
    bot_id matches Some(b) ==> b is Some
}

/// Whether a role was ever set up: it has a bot on record. A row that cannot be read counts as set up;
/// to take it for missing would close a fault that is still open.
pub fn is_configured(row: Option<&RoleRow>) -> (r: bool)
    ensures
        r == set_up(
            match row {
                Some(x) => Some(x@.bot_id),
                None => None,
            },
        ),
{
    match row {
        Some(x) => x.bot_id.is_some(),
        None => true,
    }
}

/// What is known of a role after it was looked at.
pub open spec fn refreshed(f: Option<RoleFaultView>, configured: bool, probe: Option<bool>, now: Seq<char>) -> Option<RoleFaultView> {
    if configured {
        Some(looked(or_fresh(f), probe, now))
    } else {
        None
    }
}

/// One look at one role. `probe` is whether its screen shows a failed login, and `None` where the
/// screen could not be read. A role that was never set up leaves nothing behind.
pub fn refresh(faults: &mut Faults, role: Role, configured: bool, probe: Option<bool>, now: &str)
    requires
        old(faults).valid(),
    ensures
        final(faults).valid(),
        final(faults).same_but(old(faults), role),
        final(faults).of(role) == refreshed(old(faults).of(role), configured, probe, now@),
{
    let slot = faults.take(role);
    if !configured {
        return;
    }
    let entry = match slot {
        Some(f) => f,
        None => RoleFault::default(),
    };
    let logged_out = match probe {
        Some(v) => v,
        None => text::same_opt(entry.reason, Some(REASON_NEEDS_LOGIN)),
    };
    let reason: Option<&'static str> = if logged_out {
        Some(REASON_NEEDS_LOGIN)
    } else if entry.failed_turns.len() >= NOTIFY_STALL_LIMIT {
        Some(REASON_NOTIFY_STALLED)
    } else {
        None
    };
    let since = if text::same_opt(entry.reason, reason) {
        entry.since
    } else if reason.is_some() {
        Some(now.to_owned())
    } else {
        None
    };
    let seen = RoleFault { reason, failed_turns: entry.failed_turns, probe_failed: probe.is_none(), since };
    assert(seen@ == looked(or_fresh(old(faults).of(role)), probe, now@));
    faults.put(role, seen);
}

// ---------------------------------------------------------------- notifications

/// Where a text belongs in a sorted list: everything before it is smaller.
fn place_of(list: &Vec<String>, id: &str) -> (p: usize)
    requires
        is_sorted_set(text::texts(list@)),
    ensures
        p <= list.len(),
        forall|j: int| 0 <= j < p ==> text::text_before(#[trigger] text::texts(list@)[j], id@),
        p < list.len() ==> !text::text_before(text::texts(list@)[p as int], id@),
{
    let mut p: usize = 0;
    while p < list.len()
        invariant
            p <= list.len(),
            forall|j: int| 0 <= j < p ==> text::text_before(#[trigger] text::texts(list@)[j], id@),
        decreases list.len() - p,
    {
        assert(text::texts(list@)[p as int] == list@[p as int]@);
        if !text::precedes(list[p].as_str(), id) {
            return p;
        }
        p += 1;
    }
    p
}

/// The set with one more text.
fn insert_id(list: &mut Vec<String>, id: &str)
    requires
        is_sorted_set(text::texts(old(list)@)),
    ensures
        is_sorted_set(text::texts(final(list)@)),
        text::texts(final(list)@).to_set() == text::texts(old(list)@).to_set().insert(id@),
{
    let p = place_of(list, id);
    let ghost was = text::texts(list@);
    if p < list.len() {
        assert(was[p as int] == list@[p as int]@);
        if text::same(list[p].as_str(), id) {
            assert(was.to_set().insert(id@) =~= was.to_set());
            return;
        }
    }
    list.insert(p, id.to_owned());
    let ghost after = text::texts(list@);
    proof {
        assert(after =~= was.insert(p as int, id@));
        if p < was.len() {
            text::text_order_is_total(was[p as int], id@);
        }
        assert forall|i: int, j: int| 0 <= i < j < after.len() implies text::text_before(
            #[trigger] after[i],
            #[trigger] after[j],
        ) by {
            if i < p && j > p {
                assert(text::text_before(was[i], was[j - 1]));
            } else if i == p && j > p {
                assert(text::text_before(id@, was[p as int]));
                if j - 1 > p {
                    assert(text::text_before(was[p as int], was[j - 1]));
                    text::text_order_is_transitive(id@, was[p as int], was[j - 1]);
                }
            } else if i > p {
                assert(text::text_before(was[i - 1], was[j - 1]));
            } else if j < p {
                assert(text::text_before(was[i], was[j]));
            }
        }
        assert forall|x: Seq<char>| after.to_set().contains(x) == was.to_set().insert(id@).contains(x) by {
            if after.contains(x) {
                let i = choose|i: int| 0 <= i < after.len() && after[i] == x;
                if i < p {
                    assert(was[i] == x);
                } else if i > p {
                    assert(was[i - 1] == x);
                }
            }
            if was.contains(x) {
                let i = choose|i: int| 0 <= i < was.len() && was[i] == x;
                if i < p {
                    assert(after[i] == x);
                } else {
                    assert(after[i + 1] == x);
                }
            }
            if x == id@ {
                assert(after[p as int] == x);
            }
        }
        assert(after.to_set() =~= was.to_set().insert(id@));
    }
}

/// The entry after a round of looking at notifications.
pub open spec fn is_noted(was: RoleFaultView, failed: Set<Seq<char>>, any_completed: bool, now: RoleFaultView) -> bool {
    &&& now == RoleFaultView { failed_turns: now.failed_turns, ..was }
    &&& is_sorted_set(now.failed_turns)
    &&& now.failed_turns.to_set() == if any_completed {
        Set::empty()
    } else {
        was.failed_turns.to_set().union(failed)
    }
}

/// The role with exactly this name.
pub open spec fn watched_as(name: Seq<char>) -> Option<Role> {
    if name == Role::Patrol.name() {
        Some(Role::Patrol)
    } else if name == Role::Responder.name() {
        Some(Role::Responder)
    } else {
        None
    }
}

/// What a round of prompts leaves on record.
pub open spec fn round_noted(was: Faults, role: Seq<char>, failed: Seq<Seq<char>>, any_completed: bool, after: Faults) -> bool {
    let seen = failed.len() > 0 || any_completed;
    match watched_as(role) {
        Some(r) => {
            &&& after.same_but(&was, r)
            &&& if seen {
                after.of(r) is Some && is_noted(or_fresh(was.of(r)), failed.to_set(), any_completed, after.of(r)->0)
            } else {
                after == was
            }
        },
        None => after == was,
    }
}

/// One round over the notifications of a role: `failed` are the turns that did not finish, and
/// `any_completed` is that some turn did. A round in which one finished starts the count anew, in
/// whatever order they were seen.
pub fn note_notify_round(faults: &mut Faults, role: &str, failed: &Vec<String>, any_completed: bool)
    requires
        old(faults).valid(),
    ensures
        final(faults).valid(),
        round_noted(*old(faults), role@, text::texts(failed@), any_completed, *final(faults)),
{
    let r = if text::same(role, Role::Patrol.as_str()) {
        Role::Patrol
    } else if text::same(role, Role::Responder.as_str()) {
        Role::Responder
    } else {
        return;
    };
    if failed.len() == 0 && !any_completed {
        return;
    }
    let entry = match faults.take(r) {
        Some(f) => f,
        None => RoleFault::default(),
    };
    let ghost was = entry@;
    let mut turns: Vec<String> = entry.failed_turns;
    if any_completed {
        turns = Vec::new();
        assert(text::texts(turns@) =~= Seq::<Seq<char>>::empty());
        assert(text::texts(turns@).to_set() =~= Set::<Seq<char>>::empty());
    } else {
        let ghost ids = text::texts(failed@);
        let mut i: usize = 0;
        assert(ids.take(0).to_set() =~= Set::<Seq<char>>::empty());
        assert(text::texts(turns@).to_set() =~= was.failed_turns.to_set().union(ids.take(0).to_set()));
        while i < failed.len()
            invariant
                i <= failed.len(),
                ids == text::texts(failed@),
                is_sorted_set(text::texts(turns@)),
                text::texts(turns@).to_set() == was.failed_turns.to_set().union(ids.take(i as int).to_set()),
            decreases failed.len() - i,
        {
            insert_id(&mut turns, failed[i].as_str());
            proof {
                let more = ids.take(i as int + 1);
                assert(more =~= ids.take(i as int).push(ids[i as int]));
                assert forall|x: Seq<char>| more.to_set().contains(x) == ids.take(i as int).to_set().insert(
                    ids[i as int],
                ).contains(x) by {
                    if more.contains(x) {
                        let k = choose|k: int| 0 <= k < more.len() && more[k] == x;
                        if k < i {
                            assert(ids.take(i as int)[k] == x);
                        }
                    }
                    if ids.take(i as int).contains(x) {
                        let k = choose|k: int| 0 <= k < i && ids.take(i as int)[k] == x;
                        assert(more[k] == x);
                    }
                    if x == ids[i as int] {
                        assert(more[i as int] == x);
                    }
                }
                assert(text::texts(turns@).to_set() =~= was.failed_turns.to_set().union(more.to_set()));
            }
            i += 1;
        }
        assert(ids.take(i as int) =~= ids);
    }
    faults.put(
        r,
        RoleFault { reason: entry.reason, failed_turns: turns, probe_failed: entry.probe_failed, since: entry.since },
    );
}

// ---------------------------------------------------------------- evidence

/// Whether a bot is stuck at a failed login. Two signs must agree: what its screen says, and that its
/// quota reading is blank. Only one kind of bot has that screen.
pub open spec fn logged_out(
    kind: Option<Seq<char>>,
    screen_kind: Seq<char>,
    screen: Option<bool>,
    quota_blank: Option<bool>,
) -> Option<bool> {
    if kind is None {
        None
    } else if kind != Some(screen_kind) {
        Some(false)
    } else if screen == Some(true) {
        quota_blank
    } else {
        screen
    }
}

/// `screen_kind` is the command line program that has the screen. `None` in and out is that something
/// could not be read.
pub fn login_evidence(kind: Option<&str>, screen_kind: &str, screen: Option<bool>, quota_blank: Option<bool>) -> (r: Option<bool>)
    ensures
        r == logged_out(text::arg(kind), screen_kind@, screen, quota_blank),
{
    match kind {
        None => None,
        Some(k) => if !text::same(k, screen_kind) {
            Some(false)
        } else {
            match screen {
                None => None,
                Some(false) => Some(false),
                Some(true) => quota_blank,
            }
        },
    }
}

/// Whether a quota reading is blank.
pub open spec fn blank_reading(host_known: bool, stale: bool, windows: Option<(bool, bool)>) -> Option<bool> {
    if host_known {
        Some(
            match windows {
                Some((five_hour, seven_day)) => stale || (!five_hour && !seven_day),
                None => true,
            },
        )
    } else {
        None
    }
}

/// A quota reading is blank: it is only a leftover from before the start, or there is none, or neither
/// window has a number. Where the host of the bot is not known there is no reading to look at.
pub fn quota_is_blank(host_known: bool, stale: bool, windows: Option<(bool, bool)>) -> (r: Option<bool>)
    ensures
        r == blank_reading(host_known, stale, windows),
{
    if !host_known {
        return None;
    }
    match windows {
        Some((five_hour, seven_day)) => Some(stale || (!five_hour && !seven_day)),
        None => Some(true),
    }
}

// ---------------------------------------------------------------- laws

/// Not seeing the screen is never a new fault, and never a recovery from a failed login.
pub proof fn a_blind_look_changes_no_login(f: RoleFaultView, now: Seq<char>)
    ensures
        (looked(f, None, now).reason == Some("needs_login"@)) == (f.reason == Some("needs_login"@)),
        looked(RoleFault::fresh(), None, now).reason is None,
{
    reveal_strlit("needs_login");
    reveal_strlit("notify_stalled");
    assert("needs_login"@.len() == 11 && "notify_stalled"@.len() == 14);
}

/// Notifications that stall are a fault even where the screen cannot be read, and the first one that
/// finishes ends it.
pub proof fn stalled_notifications_are_a_fault(f: RoleFaultView, g: RoleFaultView, failed: Set<Seq<char>>, now: Seq<char>)
    requires
        f.reason != Some("needs_login"@),
        is_noted(f, failed, true, g),
    ensures
        f.failed_turns.len() >= 3 ==> looked(f, None, now).reason == Some("notify_stalled"@),
        looked(g, None, now).reason is None,
{
    if g.failed_turns.len() > 0 {
        assert(g.failed_turns.to_set().contains(g.failed_turns[0]));
    }
}

/// The same unfinished turns seen again are not counted again: a round that adds nothing new leaves
/// the count as it was.
pub proof fn a_turn_is_counted_once(f: RoleFaultView, g: RoleFaultView, failed: Set<Seq<char>>)
    requires
        is_sorted_set(f.failed_turns),
        failed.subset_of(f.failed_turns.to_set()),
        is_noted(f, failed, false, g),
    ensures
        g.failed_turns.len() == f.failed_turns.len(),
{
    assert(f.failed_turns.to_set().union(failed) =~= f.failed_turns.to_set());
    sorted_sets_have_no_duplicates(f.failed_turns);
    sorted_sets_have_no_duplicates(g.failed_turns);
    f.failed_turns.unique_seq_to_set();
    g.failed_turns.unique_seq_to_set();
}

proof fn sorted_sets_have_no_duplicates(s: Seq<Seq<char>>)
    requires
        is_sorted_set(s),
    ensures
        s.no_duplicates(),
{
    assert forall|i: int, j: int| 0 <= i < s.len() && 0 <= j < s.len() && i != j implies s[i] != s[j] by {
        if i < j {
            text::text_order_is_strict(s[i], s[j]);
        } else {
            text::text_order_is_strict(s[j], s[i]);
        }
    }
}

/// A failed login is what the screen shows, or what was known of it where the screen could not be read;
/// it comes before notifications that stall, which three unfinished ones in a row do. A reason that
/// stays keeps the moment it was first seen, a new one begins now, and none has none.
pub proof fn what_a_look_concludes(f: RoleFaultView, probe: Option<bool>, now: Seq<char>)
    ensures
        ({
            let after = looked(f, probe, now);
            let out = probe == Some(true) || (probe is None && f.reason == Some("needs_login"@));
            &&& out ==> after.reason == Some("needs_login"@)
            &&& !out && f.failed_turns.len() >= 3 ==> after.reason == Some("notify_stalled"@)
            &&& !out && f.failed_turns.len() < 3 ==> after.reason is None
            &&& after.probe_failed <==> probe is None
            &&& after.failed_turns == f.failed_turns
            &&& after.reason == f.reason ==> after.since == f.since
            &&& after.reason != f.reason && after.reason is Some ==> after.since == Some(now)
            &&& after.reason != f.reason && after.reason is None ==> after.since is None
        }),
{
}

/// A round over notifications adds the unfinished ones to those that are known, and one that finished
/// forgets them all; neither says anything of the screen.
pub proof fn what_a_round_notes(f: RoleFaultView, failed: Set<Seq<char>>, any_completed: bool, g: RoleFaultView, turn: Seq<char>)
    requires
        is_noted(f, failed, any_completed, g),
    ensures
        g.failed_turns.contains(turn) <==> !any_completed && (f.failed_turns.contains(turn) || failed.contains(turn)),
        g.reason == f.reason && g.probe_failed == f.probe_failed && g.since == f.since,
{
    assert(g.failed_turns.to_set().contains(turn) == g.failed_turns.contains(turn));
    assert(f.failed_turns.to_set().contains(turn) == f.failed_turns.contains(turn));
}

/// A bot is known to be stuck at a failed login where it has that screen, the screen shows it and the
/// quota reading is blank too; it is known not to be where it has no such screen, the screen shows none
/// or the reading has numbers; and nothing is known otherwise.
pub proof fn two_signs_must_agree(
    kind: Option<Seq<char>>,
    screen_kind: Seq<char>,
    screen: Option<bool>,
    quota_blank: Option<bool>,
)
    ensures
        logged_out(kind, screen_kind, screen, quota_blank) == Some(true) <==> kind == Some(screen_kind) && screen == Some(true)
            && quota_blank == Some(true),
        logged_out(kind, screen_kind, screen, quota_blank) == Some(false) <==> kind is Some && (kind != Some(screen_kind)
            || screen == Some(false) || (screen == Some(true) && quota_blank == Some(false))),
{
}

/// A reading is blank where it is a leftover, where there is none, or where neither window has a number;
/// where the host is not known there is no reading to speak of.
pub proof fn when_a_reading_is_blank(host_known: bool, stale: bool, windows: Option<(bool, bool)>)
    ensures
        blank_reading(host_known, stale, windows) is Some <==> host_known,
        blank_reading(true, stale, None) == Some(true),
        windows is Some && ((windows->0).0 || (windows->0).1) && !stale ==> blank_reading(true, stale, windows) == Some(false),
        windows is Some && ((!(windows->0).0 && !(windows->0).1) || stale) ==> blank_reading(true, stale, windows) == Some(true),
{
}

/// A role is set up once its row names a bot, and is taken to be where its row cannot be read.
pub proof fn who_is_set_up(bot_id: Seq<char>)
    ensures
        set_up(None),
        set_up(Some(Some(bot_id))),
        !set_up(Some(None)),
{
}

/// Only the two roles are watched, each under its own name.
pub proof fn who_is_watched(name: Seq<char>)
    ensures
        watched_as(name) == Some(Role::Patrol) <==> name == "patrol"@,
        watched_as(name) == Some(Role::Responder) <==> name == "responder"@,
{
    reveal_strlit("patrol");
    reveal_strlit("responder");
    assert("patrol"@.len() == 6 && "responder"@.len() == 9);
}

/// What is known of one role is kept apart from the other's.
pub proof fn each_role_has_its_own_record(a: &Faults, b: &Faults)
    ensures
        a.of(Role::Patrol) is Some <==> a.patrol is Some,
        a.of(Role::Responder) is Some <==> a.responder is Some,
        a.patrol is Some ==> a.of(Role::Patrol) == Some(a.patrol->0@),
        a.responder is Some ==> a.of(Role::Responder) == Some(a.responder->0@),
        a.same_but(b, Role::Patrol) ==> a.of(Role::Responder) == b.of(Role::Responder),
        a.same_but(b, Role::Responder) ==> a.of(Role::Patrol) == b.of(Role::Patrol),
{
}

/// A role that is not set up has no fault; one that was never looked at starts with no failed turn and no
/// reason; and a look at one that was goes on from what is known.
pub proof fn a_look_goes_on_from_what_is_known(f: Option<RoleFaultView>, configured: bool, probe: Option<bool>, now: Seq<char>)
    ensures
        ({
            let after = refreshed(f, configured, probe, now);
            &&& after is Some <==> configured
            &&& configured && f is None ==> after->0.failed_turns.len() == 0 && after->0.reason == if probe == Some(true) {
                Some("needs_login"@)
            } else {
                None
            }
            &&& configured && f is Some ==> after->0.failed_turns == f->0.failed_turns
            &&& configured && f is Some && probe is None && f->0.reason == Some("needs_login"@) ==> after->0.reason == Some(
                "needs_login"@,
            ) && after->0.since == f->0.since
        }),
{
}

/// A round is noted on the role it was for, and on no other: the turns that failed join those that failed
/// before, and one that went well clears them all. A round in which nothing ended, and one for nobody that is
/// watched, leaves everything as it is.
pub proof fn a_round_is_noted_on_its_role(
    was: Faults,
    role: Seq<char>,
    failed: Seq<Seq<char>>,
    any_completed: bool,
    after: Faults,
    turn: Seq<char>,
)
    requires
        round_noted(was, role, failed, any_completed, after),
    ensures
        role != "patrol"@ && role != "responder"@ ==> after == was,
        failed.len() == 0 && !any_completed ==> after == was,
        role == "patrol"@ ==> after.responder == was.responder,
        role == "responder"@ ==> after.patrol == was.patrol,
        role == "patrol"@ && (failed.len() > 0 || any_completed) ==> (after.of(Role::Patrol) matches Some(f)
            && f.failed_turns.contains(turn) == (!any_completed && (failed.contains(turn) || (was.of(Role::Patrol) is Some
            && was.of(Role::Patrol)->0.failed_turns.contains(turn))))),
        role == "responder"@ && (failed.len() > 0 || any_completed) ==> (after.of(Role::Responder)
            matches Some(f) && f.failed_turns.contains(turn) == (!any_completed && (failed.contains(turn) || (was.of(
            Role::Responder,
        ) is Some && was.of(Role::Responder)->0.failed_turns.contains(turn))))),
{
    reveal_strlit("patrol");
    reveal_strlit("responder");
    assert("patrol"@.len() != "responder"@.len());
    assert(failed.to_set().contains(turn) == failed.contains(turn));
    assert(!Seq::<Seq<char>>::empty().contains(turn));
    if watched_as(role) is Some && (failed.len() > 0 || any_completed) {
        let r = watched_as(role)->0;
        what_a_round_notes(or_fresh(was.of(r)), failed.to_set(), any_completed, after.of(r)->0, turn);
    }
}

} // verus!
