//! What the manager does: starting and stopping it, handing work out, and what it may see.
use crate::assignments;
use crate::config;
use crate::inbox;
use crate::incidents;
use crate::json;
use crate::json::Field;
use crate::maintenance;
use crate::maintenance::{BotEntry, BotEntryView};
use crate::refusal::{Refusal, RefusalView};
use crate::render;
use crate::reviews;
use crate::roles;
use crate::roles::Role;
use crate::rows::{Assignment, AssignmentView, RequestView, RoleRowView, SupervisorView};
use crate::setup;
use crate::store;
use crate::store::{Store, StoreError, StoreView};
use crate::table;
use crate::table::Row;
use crate::text;
use vstd::prelude::*;

verus! {

// ---------------------------------------------------------------- starting and stopping

/// The manager was never set up, or its bot is gone.
#[derive(Debug, Clone, Copy, PartialEq, Eq, Structural)]
pub struct NotConfigured;

/// What those are told who need a manager where there is none.
pub open spec fn not_set_up() -> RefusalView {
    RefusalView::Conflict {
        message: "supervisor is not set up"@,
        detail: json::json_object(seq![("reason"@, json::FieldView::Str("not_configured"@))]),
    }
}

impl NotConfigured {
    /// What the caller is told.
    pub fn refusal(&self) -> (r: Refusal)
        ensures
            r@ == not_set_up(),
    {
        let fields = [("reason", Field::Str("not_configured"))];
        assert(json::members(fields@) =~= seq![("reason"@, json::FieldView::Str("not_configured"@))]);
        Refusal::Conflict { message: "supervisor is not set up".to_owned(), detail: json::object(&fields) }
    }
}

/// The store with a supervisor row in it.
pub open spec fn initialised(s: StoreView, now: Seq<char>) -> StoreView {
    StoreView { supervisor: Some(setup::row_of(s, now)), ..s }
}

/// The manager's bot, where it is on record and still there.
pub open spec fn manager_of(s: StoreView, bots: Seq<BotEntryView>) -> Option<Seq<char>> {
    match roles::registered(s, Role::Patrol) {
        Some(id) => if table::any(bots, live_bot(id)) {
            Some(id)
        } else {
            None
        },
        None => None,
    }
}

/// The bot with this id, where it is not deleted.
pub open spec fn live_bot(id: Seq<char>) -> spec_fn(BotEntryView) -> bool {
    |b: BotEntryView| b.id == id && b.live
}

pub(crate) fn is_live(bots: &Vec<BotEntry>, id: &str) -> (r: bool)
    ensures
        r == table::any(table::views(bots@), live_bot(id@)),
{
    proof {
        table::first_is_a_hit(table::views(bots@), live_bot(id@));
    }
    table::find(bots, |b: &BotEntry| -> (c: bool)
        ensures c == (live_bot(id@))(b@)
        { text::same(b.id.as_str(), id) && b.live }, Ghost(live_bot(id@))).is_some()
}

/// The manager's bot, where it is on record and still there. Its row is made on the first call.
pub fn manager_bot(s: &mut Store, now: &str, bots: &Vec<BotEntry>) -> (r: Option<String>)
    ensures
        final(s)@ == initialised(old(s)@, now@),
        text::opt(r) == manager_of(old(s)@, table::views(bots@)),
{
    match roles::bot_for(s, now, Role::Patrol) {
        Some(id) => if is_live(bots, id.as_str()) {
            Some(id)
        } else {
            None
        },
        None => None,
    }
}

/// The row of a manager that somebody wants started or stopped.
pub open spec fn wanted(want: bool, now: Seq<char>) -> spec_fn(SupervisorView) -> SupervisorView {
    |r: SupervisorView|
        (SupervisorView {
            desired_running: if want {
                1
            } else {
                0
            },
            watchdog_attempts: 0,
            watchdog_next_at: None,
            watchdog_gave_up_at: None,
            watchdog_last_error: None,
            updated_at: now,
            ..r
        })
}

/// What asking for the manager to run or to stop answers and leaves in the store.
pub open spec fn asking(
    s: StoreView,
    now: Seq<char>,
    bots: Seq<BotEntryView>,
    want: bool,
    bot: Option<Seq<char>>,
    after: StoreView,
) -> bool {
    let base = initialised(s, now);
    &&& bot == manager_of(base, bots)
    &&& after == if bot is Some {
        store::with_supervisor(base, wanted(want, now))
    } else {
        base
    }
}

/// Somebody wants the manager to run. That is written down first; only then may it be started, so a
/// start that fails is the watchdog's to repeat. Gives the bot to start.
pub fn start_requested(s: &mut Store, now: &str, bots: &Vec<BotEntry>) -> (res: Result<String, NotConfigured>)
    ensures
        asking(
            old(s)@,
            now@,
            table::views(bots@),
            true,
            match res {
                Ok(b) => Some(b@),
                Err(_) => None,
            },
            final(s)@,
        ),
{
    match manager_bot(s, now, bots) {
        Some(id) => {
            let _ = store::set_desired_running(s, now, true);
            Ok(id)
        },
        None => Err(NotConfigured),
    }
}

/// Somebody wants the manager to stop. That is written down first: otherwise the watchdog would bring
/// it back. Gives the bot to stop.
pub fn stop_requested(s: &mut Store, now: &str, bots: &Vec<BotEntry>) -> (res: Result<String, NotConfigured>)
    ensures
        asking(
            old(s)@,
            now@,
            table::views(bots@),
            false,
            match res {
                Ok(b) => Some(b@),
                Err(_) => None,
            },
            final(s)@,
        ),
{
    match manager_bot(s, now, bots) {
        Some(id) => {
            let _ = store::set_desired_running(s, now, false);
            Ok(id)
        },
        None => Err(NotConfigured),
    }
}

/// The row of a manager that came up in a session: its entry point was asked for, and nothing more.
pub open spec fn came_up(session: Option<Seq<char>>, detail: Option<Seq<char>>, now: Seq<char>) -> spec_fn(SupervisorView) -> SupervisorView {
    |r: SupervisorView|
        (SupervisorView {
            remote_status: "requested"@,
            remote_url: None,
            remote_source: Some("argv"@),
            remote_session_id: session,
            remote_actor: None,
            remote_evidence: None,
            remote_observed_at: Some(now),
            status: ""@,
            status_detail: detail,
            generation: if r.generation == 0 {
                1
            } else {
                r.generation
            },
            updated_at: now,
            ..r
        })
}

/// What the manager coming up answers and leaves in the store.
pub open spec fn coming_up(
    s: StoreView,
    now: Seq<char>,
    session: Option<Seq<char>>,
    detail: Option<Seq<char>>,
    gen: i64,
    after: StoreView,
) -> bool {
    let base = initialised(s, now);
    let was = base.supervisor->0;
    &&& after == store::with_supervisor(base, came_up(session, detail, now))
    &&& gen == if was.generation == 0 {
        1
    } else {
        was.generation as int
    }
}

/// The manager came up. What it is wanted for is left alone: the watchdog comes this way too. Gives
/// the generation of its loop.
pub fn manager_started(s: &mut Store, now: &str, session: Option<&str>, detail: Option<&str>) -> (gen: i64)
    ensures
        coming_up(old(s)@, now@, text::arg(session), text::arg(detail), gen, final(s)@),
{
    let row = store::get_or_init(s, now);
    store::set_remote_observed(s, now, "requested", None, "argv", session, None, None);
    store::set_status(s, now, "", detail);
    if row.generation == 0 {
        match store::bump_generation(s, now) {
            Ok(g) => g,
            Err(_) => 1,
        }
    } else {
        row.generation
    }
}

/// What was read of a run.
#[derive(Debug, Clone, Copy)]
pub struct RunSeen<'a> {
    pub state: &'a str,
    pub agent_status: &'a str,
    /// A turn is running.
    pub in_flight: bool,
}

/// Whether a prompt would be taken right now.
pub open spec fn liveness(run: Option<(Seq<char>, Seq<char>, bool)>) -> Seq<char> {
    match run {
        None => "stopped"@,
        Some((state, agent_status, in_flight)) => if state == "starting"@ {
            "starting"@
        } else if state != "running"@ {
            "stopped"@
        } else if agent_status == "working"@ || agent_status == "blocked"@ || in_flight {
            "busy"@
        } else {
            "idle"@
        },
    }
}

/// `idle` is the only state to send work into.
pub fn manager_liveness(run: Option<RunSeen<'_>>) -> (r: &'static str)
    ensures
        r@ == liveness(
            match run {
                Some(x) => Some((x.state@, x.agent_status@, x.in_flight)),
                None => None,
            },
        ),
{
    match run {
        None => "stopped",
        Some(x) => if text::same(x.state, "starting") {
            "starting"
        } else if !text::same(x.state, "running") {
            "stopped"
        } else if text::same(x.agent_status, "working") || text::same(x.agent_status, "blocked") || x.in_flight {
            "busy"
        } else {
            "idle"
        },
    }
}

// ---------------------------------------------------------------- files in use

/// Two paths overlap: they are the same, or one is inside the other.
pub open spec fn overlap(a: Seq<char>, b: Seq<char>) -> bool {
    let x = text::without_trailing_slashes(a);
    let y = text::without_trailing_slashes(b);
    x == y || (y + "/"@).is_prefix_of(x) || (x + "/"@).is_prefix_of(y)
}

pub fn overlaps(a: &str, b: &str) -> (r: bool)
    ensures
        r == overlap(a@, b@),
{
    let x = text::trim_slashes(a);
    let y = text::trim_slashes(b);
    text::same(x, y) || text::starts_with(x, text::joined(y, "/").as_str()) || text::starts_with(
        y,
        text::joined(x, "/").as_str(),
    )
}

/// The path overlaps one of some paths.
pub open spec fn overlaps_any(path: Seq<char>, held: Seq<Seq<char>>) -> bool {
    exists|i: int| 0 <= i < held.len() && overlap(path, #[trigger] held[i])
}

/// The paths that overlap some others.
pub open spec fn overlapping(held: Seq<Seq<char>>) -> spec_fn(Seq<char>) -> bool {
    |p: Seq<char>| overlaps_any(p, held)
}

/// An open assignment that holds some of the same paths.
#[derive(Debug)]
pub struct Conflict {
    pub assignment_id: String,
    pub target_bot_id: String,
    pub status: String,
    pub paths: Vec<String>,
}

/// What a `Conflict` holds.
#[verifier::ext_equal]
pub struct ConflictView {
    pub assignment_id: Seq<char>,
    pub target_bot_id: Seq<char>,
    pub status: Seq<char>,
    pub paths: Seq<Seq<char>>,
}

impl View for Conflict {
    type V = ConflictView;

    open spec fn view(&self) -> ConflictView {
        ConflictView {
            assignment_id: self.assignment_id@,
            target_bot_id: self.target_bot_id@,
            status: self.status@,
            paths: text::texts(self.paths@),
        }
    }
}

/// What one assignment holds of some paths.
pub open spec fn conflict_with(a: AssignmentView, paths: Seq<Seq<char>>) -> ConflictView {
    ConflictView {
        assignment_id: a.id,
        target_bot_id: a.target_bot_id,
        status: a.status,
        paths: paths.filter(overlapping(assignments::owned_parts(a))),
    }
}

/// The open assignments that hold some of the paths.
pub open spec fn conflicts_in(rows: Seq<AssignmentView>, paths: Seq<Seq<char>>, ignore: Option<Seq<char>>) -> Seq<ConflictView>
    decreases rows.len(),
{
    if rows.len() == 0 {
        Seq::empty()
    } else {
        let before = conflicts_in(rows.drop_last(), paths, ignore);
        let c = conflict_with(rows.last(), paths);
        if Some(rows.last().id) != ignore && c.paths.len() > 0 {
            before.push(c)
        } else {
            before
        }
    }
}

/// Who else holds some paths. It is told and never enforced.
pub open spec fn conflicts_of(s: StoreView, paths: Seq<Seq<char>>, ignore: Option<Seq<char>>) -> Seq<ConflictView> {
    conflicts_in(
        table::ordered(s.assignments.filter(assignments::unsettled()), assignments::older()),
        paths,
        ignore,
    )
}

fn meets_any(path: &str, held: &Vec<String>) -> (r: bool)
    ensures
        r == overlaps_any(path@, text::texts(held@)),
{
    let ghost all = text::texts(held@);
    let mut i: usize = 0;
    while i < held.len()
        invariant
            i <= held.len(),
            all == text::texts(held@),
            forall|j: int| 0 <= j < i ==> !overlap(path@, #[trigger] all[j]),
        decreases held.len() - i,
    {
        if overlaps(path, held[i].as_str()) {
            assert(overlap(path@, all[i as int]));
            return true;
        }
        i += 1;
    }
    false
}

fn common(paths: &Vec<String>, held: &Vec<String>) -> (r: Vec<String>)
    ensures
        text::texts(r@) == text::texts(paths@).filter(overlapping(text::texts(held@))),
{
    let ghost all = text::texts(paths@);
    let ghost keep = overlapping(text::texts(held@));
    let mut out: Vec<String> = Vec::new();
    let mut i: usize = 0;
    proof {
        reveal(Seq::filter);
        assert(text::texts(out@) =~= all.take(0).filter(keep));
    }
    while i < paths.len()
        invariant
            i <= paths.len(),
            all == text::texts(paths@),
            keep == overlapping(text::texts(held@)),
            text::texts(out@) == all.take(i as int).filter(keep),
        decreases paths.len() - i,
    {
        proof {
            reveal(Seq::filter);
            assert(all.take(i as int + 1).drop_last() =~= all.take(i as int));
            assert(all.take(i as int + 1).last() == all[i as int]);
        }
        if meets_any(paths[i].as_str(), held) {
            let ghost before = text::texts(out@);
            out.push(paths[i].clone());
            assert(text::texts(out@) =~= before.push(all[i as int]));
        }
        i += 1;
    }
    assert(all.take(i as int) =~= all);
    out
}

/// Open assignments that declared an overlapping path. It can report an overlap that is none; it cannot
/// hand two bots the same file in silence.
pub fn ownership_conflicts(s: &Store, paths: &Vec<String>, ignore_assignment: Option<&str>) -> (r: Vec<Conflict>)
    ensures
        table::views(r@) == conflicts_of(s@, text::texts(paths@), text::arg(ignore_assignment)),
{
    let rows = assignments::unsettled_assignments(s);
    let ghost all = table::views(rows@);
    let ghost wanted = text::texts(paths@);
    let mut out: Vec<Conflict> = Vec::new();
    let mut i: usize = 0;
    assert(table::views(out@) =~= conflicts_in(all.take(0), wanted, text::arg(ignore_assignment)));
    while i < rows.len()
        invariant
            i <= rows.len(),
            all == table::views(rows@),
            wanted == text::texts(paths@),
            table::views(out@) == conflicts_in(all.take(i as int), wanted, text::arg(ignore_assignment)),
        decreases rows.len() - i,
    {
        let a = &rows[i];
        proof {
            assert(all.take(i as int + 1).drop_last() =~= all.take(i as int));
            assert(all.take(i as int + 1).last() == a@);
        }
        let held = a.ownership();
        let paths_held = common(paths, &held);
        if !text::same_opt(Some(a.id.as_str()), ignore_assignment) && paths_held.len() > 0 {
            let c = Conflict {
                assignment_id: a.id.clone(),
                target_bot_id: a.target_bot_id.clone(),
                status: a.status.clone(),
                paths: paths_held,
            };
            assert(c@ =~= conflict_with(a@, wanted));
            let ghost before = table::views(out@);
            out.push(c);
            assert(table::views(out@) =~= before.push(c@));
        }
        i += 1;
    }
    assert(all.take(i as int) =~= all);
    out
}

// ---------------------------------------------------------------- whose words

/// The conversation of a bot.
#[derive(Debug)]
pub struct Conversation {
    pub id: String,
    pub bot_id: String,
}

/// What a `Conversation` holds.
#[verifier::ext_equal]
pub struct ConversationView {
    pub id: Seq<char>,
    pub bot_id: Seq<char>,
}

impl View for Conversation {
    type V = ConversationView;

    open spec fn view(&self) -> ConversationView {
        ConversationView {
            id: self.id@,
            bot_id: self.bot_id@,
        }
    }
}

impl Row for Conversation {
    fn copied(&self) -> (r: Self) {
        Conversation {
            id: self.id.clone(),
            bot_id: self.bot_id.clone(),
        }
    }
}

/// A turn of a conversation.
#[derive(Debug)]
pub struct TurnRow {
    pub id: String,
    pub conversation_id: String,
}

/// What a `TurnRow` holds.
#[verifier::ext_equal]
pub struct TurnRowView {
    pub id: Seq<char>,
    pub conversation_id: Seq<char>,
}

impl View for TurnRow {
    type V = TurnRowView;

    open spec fn view(&self) -> TurnRowView {
        TurnRowView {
            id: self.id@,
            conversation_id: self.conversation_id@,
        }
    }
}

impl Row for TurnRow {
    fn copied(&self) -> (r: Self) {
        TurnRow {
            id: self.id.clone(),
            conversation_id: self.conversation_id.clone(),
        }
    }
}

/// A message of a turn.
#[derive(Debug)]
pub struct MessageRow {
    pub turn_id: Option<String>,
    pub role: String,
    pub content: String,
    pub created_at: String,
}

/// What a `MessageRow` holds.
#[verifier::ext_equal]
pub struct MessageRowView {
    pub turn_id: Option<Seq<char>>,
    pub role: Seq<char>,
    pub content: Seq<char>,
    pub created_at: Seq<char>,
}

impl View for MessageRow {
    type V = MessageRowView;

    open spec fn view(&self) -> MessageRowView {
        MessageRowView {
            turn_id: text::opt(self.turn_id),
            role: self.role@,
            content: self.content@,
            created_at: self.created_at@,
        }
    }
}

impl Row for MessageRow {
    fn copied(&self) -> (r: Self) {
        MessageRow {
            turn_id: text::copied(&self.turn_id),
            role: self.role.clone(),
            content: self.content.clone(),
            created_at: self.created_at.clone(),
        }
    }
}

/// The turn that a bot is on.
#[derive(Debug)]
pub struct InFlight {
    pub bot_id: String,
    pub turn_id: String,
}

/// What an `InFlight` holds.
#[verifier::ext_equal]
pub struct InFlightView {
    pub bot_id: Seq<char>,
    pub turn_id: Seq<char>,
}

impl View for InFlight {
    type V = InFlightView;

    open spec fn view(&self) -> InFlightView {
        InFlightView {
            bot_id: self.bot_id@,
            turn_id: self.turn_id@,
        }
    }
}

impl Row for InFlight {
    fn copied(&self) -> (r: Self) {
        InFlight {
            bot_id: self.bot_id.clone(),
            turn_id: self.turn_id.clone(),
        }
    }
}

/// The conversations that a source is looked up in.
#[derive(Debug)]
pub struct Talk {
    pub conversations: Vec<Conversation>,
    pub turns: Vec<TurnRow>,
    pub messages: Vec<MessageRow>,
    pub in_flight: Vec<InFlight>,
}

/// What a `Talk` holds.
#[verifier::ext_equal]
pub struct TalkView {
    pub conversations: Seq<ConversationView>,
    pub turns: Seq<TurnRowView>,
    pub messages: Seq<MessageRowView>,
    pub in_flight: Seq<InFlightView>,
}

impl View for Talk {
    type V = TalkView;

    open spec fn view(&self) -> TalkView {
        TalkView {
            conversations: table::views(self.conversations@),
            turns: table::views(self.turns@),
            messages: table::views(self.messages@),
            in_flight: table::views(self.in_flight@),
        }
    }
}

/// The conversation of a bot.
pub open spec fn conversation_of(bot_id: Seq<char>) -> spec_fn(ConversationView) -> bool {
    |c: ConversationView| c.bot_id == bot_id
}

/// The turn is one of a bot's.
pub open spec fn is_turn_of(t: TalkView, turn_id: Seq<char>, bot_id: Seq<char>) -> bool {
    match table::first(t.conversations, conversation_of(bot_id)) {
        Some(c) => table::any(t.turns, |x: TurnRowView| x.id == turn_id && x.conversation_id == c.id),
        None => false,
    }
}

/// The turn that a bot is on.
pub open spec fn turn_on(t: TalkView, bot_id: Seq<char>) -> Option<Seq<char>> {
    match table::first(t.in_flight, |f: InFlightView| f.bot_id == bot_id) {
        Some(f) => Some(f.turn_id),
        None => None,
    }
}

/// What people said in a turn.
pub open spec fn said_in(turn_id: Seq<char>) -> spec_fn(MessageRowView) -> bool {
    |m: MessageRowView| m.turn_id == Some(turn_id) && m.role == "user"@
}

/// One message came before another.
pub open spec fn said_earlier() -> spec_fn(MessageRowView, MessageRowView) -> bool {
    |a: MessageRowView, b: MessageRowView| text::text_before(a.created_at, b.created_at)
}

/// The first thing that a person said in a turn, where it is more than blanks.
pub open spec fn words_of(t: TalkView, turn_id: Seq<char>) -> Option<Seq<char>> {
    let list = table::ordered(t.messages.filter(said_in(turn_id)), said_earlier());
    if list.len() > 0 && !text::is_blank(list[0].content) {
        Some(list[0].content)
    } else {
        None
    }
}

/// The bot that a caller speaks for: a caller who proved a role speaks for that role alone.
pub open spec fn actor_bot(s: StoreView, actor: Option<Role>) -> Option<Seq<char>> {
    match actor {
        Some(r) => roles::registered(s, r),
        None => None,
    }
}

/// A caller may name this turn as the source.
pub open spec fn may_name(s: StoreView, t: TalkView, manager_id: Seq<char>, turn_id: Seq<char>, actor: Option<Role>) -> bool {
    match actor_bot(s, actor) {
        Some(id) => is_turn_of(t, turn_id, id),
        None => is_turn_of(t, turn_id, manager_id) || (match roles::registered(s, Role::Responder) {
            Some(id) => is_turn_of(t, turn_id, id),
            None => false,
        }),
    }
}

/// A turn that was named.
pub open spec fn named_turn(source_turn_id: Option<Seq<char>>) -> Option<Seq<char>> {
    match source_turn_id {
        Some(t) => if text::is_blank(t) {
            None
        } else {
            Some(text::trimmed(t))
        },
        None => None,
    }
}

/// Where an assignment came from.
#[derive(Debug)]
pub struct Origin {
    pub source: &'static str,
    pub key: Option<String>,
    pub words: String,
}

/// What an `Origin` holds.
#[verifier::ext_equal]
pub struct OriginView {
    pub source: Seq<char>,
    pub key: Option<Seq<char>>,
    pub words: Seq<char>,
}

impl View for Origin {
    type V = OriginView;

    open spec fn view(&self) -> OriginView {
        OriginView { source: self.source@, key: text::opt(self.key), words: self.words@ }
    }
}

/// Where an assignment came from; `None` is that the turn that was named is not the caller's to name.
/// Whose words cannot be read back is said to be so, and nobody is quoted.
pub open spec fn origin_of(
    s: StoreView,
    t: TalkView,
    manager_id: Seq<char>,
    source_turn_id: Option<Seq<char>>,
    words: Seq<char>,
    actor: Option<Role>,
) -> Option<OriginView> {
    let named = named_turn(source_turn_id);
    let turn = match named {
        Some(x) => Some(x),
        None => match actor_bot(s, actor) {
            Some(id) => turn_on(t, id),
            None => None,
        },
    };
    if named is Some && !may_name(s, t, manager_id, named->0, actor) {
        None
    } else {
        Some(
            match turn {
                None => OriginView { source: "assignment_text_fallback"@, key: None, words },
                Some(x) => match words_of(t, x) {
                    Some(w) => OriginView { source: "manager_turn"@, key: Some(x), words: w },
                    None => OriginView { source: "assignment_text_fallback"@, key: Some(x), words },
                },
            },
        )
    }
}

fn turn_belongs(t: &Talk, turn_id: &str, bot_id: &str) -> (r: bool)
    ensures
        r == is_turn_of(t@, turn_id@, bot_id@),
{
    let c = match table::find(&t.conversations, |c: &Conversation| -> (b: bool)
        ensures b == (conversation_of(bot_id@))(c@)
        { text::same(c.bot_id.as_str(), bot_id) }, Ghost(conversation_of(bot_id@))) {
        Some(c) => c,
        None => {
            return false;
        },
    };
    let ghost hit = |x: TurnRowView| x.id == turn_id@ && x.conversation_id == c@.id;
    proof {
        table::first_is_a_hit(t@.turns, hit);
    }
    table::find(&t.turns, |x: &TurnRow| -> (b: bool)
        ensures b == (x@.id == turn_id@ && x@.conversation_id == c@.id)
        { text::same(x.id.as_str(), turn_id) && text::same(x.conversation_id.as_str(), c.id.as_str()) }, Ghost(hit)).is_some()
}

fn current_turn(t: &Talk, bot_id: &str) -> (r: Option<String>)
    ensures
        text::opt(r) == turn_on(t@, bot_id@),
{
    let ghost hit = |f: InFlightView| f.bot_id == bot_id@;
    match table::find(&t.in_flight, |f: &InFlight| -> (b: bool)
        ensures b == (f@.bot_id == bot_id@)
        { text::same(f.bot_id.as_str(), bot_id) }, Ghost(hit)) {
        Some(f) => Some(f.turn_id.clone()),
        None => None,
    }
}

fn spoken(t: &Talk, turn_id: &str) -> (r: Option<String>)
    ensures
        text::opt(r) == words_of(t@, turn_id@),
{
    let rows = table::select(&t.messages, |m: &MessageRow| -> (b: bool)
        ensures b == (said_in(turn_id@))(m@)
        { text::is_text(&m.turn_id, turn_id) && text::same(m.role.as_str(), "user") }, Ghost(said_in(turn_id@)));
    let sorted = table::arrange(rows, |a: &MessageRow, b: &MessageRow| -> (c: bool)
        ensures c == (said_earlier())(a@, b@)
        { text::precedes(a.created_at.as_str(), b.created_at.as_str()) }, Ghost(said_earlier()));
    if sorted.len() == 0 {
        return None;
    }
    let ghost list = table::views(sorted@);
    assert(sorted@[0]@ == list[0]);
    if text::blank(sorted[0].content.as_str()) {
        None
    } else {
        Some(sorted[0].content.clone())
    }
}

/// The store with the rows that are read to tell whose words an assignment rests on: that of the caller's
/// role, and that of the responder where somebody without a bot of their own names a turn.
pub open spec fn consulted(s: StoreView, source_turn_id: Option<Seq<char>>, actor: Option<Role>, now: Seq<char>) -> StoreView {
    let base = match actor {
        Some(r) => roles::with_row_of(s, r, now),
        None => s,
    };
    if named_turn(source_turn_id) is Some && actor_bot(s, actor) is None {
        roles::with_row_of(base, Role::Responder, now)
    } else {
        base
    }
}

/// Where an assignment came from. A caller can only name a turn of its own as its authority; one who
/// names none is taken at the turn it is on, where it proved who it is.
pub fn source_of(
    s: &mut Store,
    now: &str,
    talk: &Talk,
    manager_id: &str,
    source_turn_id: Option<&str>,
    words: &str,
    actor: Option<Role>,
) -> (r: Option<Origin>)
    ensures
        final(s)@ == consulted(old(s)@, text::arg(source_turn_id), actor, now@),
        table::opt_view(r) == origin_of(old(s)@, talk@, manager_id@, text::arg(source_turn_id), words@, actor),
{
    proof {
        if actor is Some {
            roles::a_fresh_row_registers_nobody(s@, actor->0, now@, Role::Responder);
        }
    }
    let me: Option<String> = match actor {
        Some(a) => roles::bot_for(s, now, a),
        None => None,
    };
    let named: Option<&str> = match source_turn_id {
        Some(t) => {
            let u = text::trim(t);
            if u.unicode_len() == 0 {
                None
            } else {
                Some(u)
            }
        },
        None => None,
    };
    let turn: Option<String> = match named {
        Some(t) => {
            let mine = match &me {
                Some(id) => turn_belongs(talk, t, id.as_str()),
                None => {
                    let responder = roles::bot_for(s, now, Role::Responder);
                    turn_belongs(talk, t, manager_id) || (match &responder {
                        Some(id) => turn_belongs(talk, t, id.as_str()),
                        None => false,
                    })
                },
            };
            if !mine {
                return None;
            }
            Some(t.to_owned())
        },
        None => match &me {
            Some(id) => current_turn(talk, id.as_str()),
            None => None,
        },
    };
    let x = match turn {
        None => {
            return Some(Origin { source: "assignment_text_fallback", key: None, words: words.to_owned() });
        },
        Some(x) => x,
    };
    match spoken(talk, x.as_str()) {
        Some(w) => Some(Origin { source: "manager_turn", key: Some(x), words: w }),
        None => Some(Origin { source: "assignment_text_fallback", key: Some(x), words: words.to_owned() }),
    }
}

// ---------------------------------------------------------------- handing work out

/// A piece of work for a bot.
#[derive(Debug, Clone, Copy)]
pub struct Work<'a> {
    pub target_bot_id: &'a str,
    pub text: &'a str,
    pub client_request_id: &'a str,
    pub source_turn_id: Option<&'a str>,
    pub follow_up_of: Option<&'a str>,
    /// False is a notice: said, and done with.
    pub expects_review: bool,
    pub mission: Option<(&'a str, &'a str)>,
    /// The mission takes an assignment for this role now.
    pub mission_open: bool,
    pub review_role: Option<Role>,
    /// The role that the caller proved to be.
    pub actor: Option<Role>,
    /// The caller marked this as a reply.
    pub is_reply: bool,
}

/// What a `Work` holds.
pub struct WorkView {
    pub target_bot_id: Seq<char>,
    pub text: Seq<char>,
    pub client_request_id: Seq<char>,
    pub source_turn_id: Option<Seq<char>>,
    pub follow_up_of: Option<Seq<char>>,
    pub expects_review: bool,
    pub mission_id: Option<Seq<char>>,
    pub mission_role: Option<Seq<char>>,
    pub mission_open: bool,
    pub review_role: Option<Role>,
    pub actor: Option<Role>,
    pub is_reply: bool,
}

impl<'a> View for Work<'a> {
    type V = WorkView;

    open spec fn view(&self) -> WorkView {
        WorkView {
            target_bot_id: self.target_bot_id@,
            text: self.text@,
            client_request_id: self.client_request_id@,
            source_turn_id: text::arg(self.source_turn_id),
            follow_up_of: text::arg(self.follow_up_of),
            expects_review: self.expects_review,
            mission_id: assignments::mission_of(self.mission),
            mission_role: assignments::mission_role_of(self.mission),
            mission_open: self.mission_open,
            review_role: self.review_role,
            actor: self.actor,
            is_reply: self.is_reply,
        }
    }
}

/// Why work was not handed out.
#[derive(Debug)]
pub enum AssignError {
    EmptyRequestId,
    EmptyText,
    /// The request id was used for another bot.
    OtherBot { assignment_id: String, target_bot_id: String },
    /// The request id was used with other words: this is not the same request again.
    OtherText { assignment_id: String },
    NotConfigured,
    /// A role cannot hand work to itself.
    ToItself,
    /// The role that would hand over has no bot.
    RoleWithoutBot,
    /// Only a handover between roles can be a reply.
    ReplyToBot,
    NoSuchBot,
    /// The turn that was named is not one of the caller's.
    NotTheirTurn,
    /// The mission has an open assignment already.
    MissionRefused,
    Store(StoreError),
}

/// What came of handing work out.
#[derive(Debug)]
pub enum Assigned {
    /// The same request again: the assignment it made.
    Known(Assignment),
    /// The target is another role: this goes through its queue, from this bot.
    Handover { role: Role, from: String },
    /// Written down, and to be sent. `conflicts` are others who hold some of the paths.
    Queued { assignment: Assignment, conflicts: Vec<Conflict> },
}

/// What handing work out comes to.
pub enum Assigning {
    EmptyRequestId,
    EmptyText,
    OtherBot { id: Seq<char>, bot: Seq<char> },
    OtherText { id: Seq<char> },
    NotConfigured,
    ToItself,
    RoleWithoutBot,
    ReplyToBot,
    NoSuchBot,
    NotTheirTurn,
    MissionRefused,
    Store(StoreError),
    Known(AssignmentView),
    Handover { role: Role, from: Seq<char> },
    Queued { row: AssignmentView, conflicts: Seq<ConflictView> },
}

pub open spec fn result_of(res: Result<Assigned, AssignError>) -> Assigning {
    match res {
        Ok(Assigned::Known(a)) => Assigning::Known(a@),
        Ok(Assigned::Handover { role, from }) => Assigning::Handover { role, from: from@ },
        Ok(Assigned::Queued { assignment, conflicts }) => Assigning::Queued {
            row: assignment@,
            conflicts: table::views(conflicts@),
        },
        Err(AssignError::EmptyRequestId) => Assigning::EmptyRequestId,
        Err(AssignError::EmptyText) => Assigning::EmptyText,
        Err(AssignError::OtherBot { assignment_id, target_bot_id }) => Assigning::OtherBot {
            id: assignment_id@,
            bot: target_bot_id@,
        },
        Err(AssignError::OtherText { assignment_id }) => Assigning::OtherText { id: assignment_id@ },
        Err(AssignError::NotConfigured) => Assigning::NotConfigured,
        Err(AssignError::ToItself) => Assigning::ToItself,
        Err(AssignError::RoleWithoutBot) => Assigning::RoleWithoutBot,
        Err(AssignError::ReplyToBot) => Assigning::ReplyToBot,
        Err(AssignError::NoSuchBot) => Assigning::NoSuchBot,
        Err(AssignError::NotTheirTurn) => Assigning::NotTheirTurn,
        Err(AssignError::MissionRefused) => Assigning::MissionRefused,
        Err(AssignError::Store(e)) => Assigning::Store(e),
    }
}

/// The role of a bot.
pub open spec fn role_of(s: StoreView, bot_id: Seq<char>) -> Option<Role> {
    if roles::registered(s, Role::Patrol) == Some(bot_id) {
        Some(Role::Patrol)
    } else if roles::registered(s, Role::Responder) == Some(bot_id) {
        Some(Role::Responder)
    } else {
        None
    }
}

/// The request that an origin stands for, and the store with it. An origin with a known key is the
/// request that is there.
pub open spec fn requested(s: StoreView, id: Seq<char>, o: OriginView, now: Seq<char>) -> (Result<Seq<char>, StoreError>, StoreView) {
    let key = store::usable_key(o.key);
    let known = if key is Some {
        table::first(s.requests, store::from_source(key->0))
    } else {
        None
    };
    match known {
        Some(r) => (Ok(r.id), s),
        None => if table::any(s.requests, |r: RequestView| r.id == id) {
            (Err(StoreError::IdTaken), s)
        } else {
            (
                Ok(id),
                StoreView {
                    requests: s.requests.push(
                        RequestView {
                            id,
                            source: o.source,
                            source_key: key,
                            text: o.words,
                            status: "open"@,
                            created_at: now,
                        },
                    ),
                    ..s
                },
            )
        },
    }
}

/// The row that work is written down as.
pub open spec fn work_row(w: WorkView, ownership: Seq<Seq<char>>, id: Seq<char>, request_id: Seq<char>, now: Seq<char>) -> AssignmentView {
    assignments::queued_assignment(
        id,
        now,
        Some(request_id),
        w.target_bot_id,
        w.client_request_id,
        w.text,
        assignments::ownership_column(ownership),
        w.follow_up_of,
        if w.expects_review {
            1
        } else {
            0
        },
        w.mission_id,
        w.mission_role,
        match w.review_role {
            Some(r) => Some(r.name()),
            None => None,
        },
    )
}

/// The store with the work in it, and with its parent pointing at it.
pub open spec fn with_work(s: StoreView, w: WorkView, row: AssignmentView, now: Seq<char>) -> StoreView {
    let more = s.assignments.push(row);
    StoreView {
        assignments: match w.follow_up_of {
            Some(parent) => table::changed(more, assignments::with_id(parent), reviews::pointing(row.id, now)),
            None => more,
        },
        ..s
    }
}

/// The row as it is afterwards.
pub open spec fn row_after(w: WorkView, row: AssignmentView, now: Seq<char>) -> AssignmentView {
    if w.follow_up_of == Some(row.id) {
        (reviews::pointing(row.id, now))(row)
    } else {
        row
    }
}

/// What handing work to another role comes to, and the store with the row of the role that hands over.
pub open spec fn handing_over(s: StoreView, w: WorkView, role: Role, manager_id: Seq<char>, now: Seq<char>) -> (
    Assigning,
    StoreView,
) {
    let after = match w.actor {
        Some(r) => roles::with_row_of(s, r, now),
        None => s,
    };
    let from = match w.actor {
        Some(r) => roles::registered(s, r),
        None => Some(manager_id),
    };
    if w.actor == Some(role) || (w.target_bot_id == manager_id && w.actor is None && role == Role::Patrol) {
        (Assigning::ToItself, s)
    } else if from is None {
        (Assigning::RoleWithoutBot, after)
    } else {
        (Assigning::Handover { role, from: from->0 }, after)
    }
}

/// What handing work out comes to, and the store afterwards. The row is there before anything is sent,
/// with its mission and the role that decides on it, so a crash in between leaves work that is sent once.
pub open spec fn assigning(
    s: StoreView,
    w: WorkView,
    ownership: Seq<Seq<char>>,
    talk: TalkView,
    bots: Seq<BotEntryView>,
    request_row: Seq<char>,
    id: Seq<char>,
    now: Seq<char>,
) -> (Assigning, StoreView) {
    let known = table::first(s.assignments, assignments::with_crid(w.client_request_id));
    let base = initialised(s, now);
    let manager = base.supervisor->0.bot_id;
    let read = roles::looked_up(base, w.target_bot_id, now);
    let asked = consulted(read, w.source_turn_id, w.actor, now);
    if text::is_blank(w.client_request_id) {
        (Assigning::EmptyRequestId, s)
    } else if text::is_blank(w.text) {
        (Assigning::EmptyText, s)
    } else if known is Some {
        let a = known->0;
        if a.target_bot_id != w.target_bot_id {
            (Assigning::OtherBot { id: a.id, bot: a.target_bot_id }, s)
        } else if a.text != w.text {
            (Assigning::OtherText { id: a.id }, s)
        } else {
            (Assigning::Known(a), s)
        }
    } else if manager is None {
        (Assigning::NotConfigured, base)
    } else if role_of(base, w.target_bot_id) is Some {
        handing_over(read, w, role_of(base, w.target_bot_id)->0, manager->0, now)
    } else if w.is_reply {
        (Assigning::ReplyToBot, read)
    } else if !table::any(bots, live_bot(w.target_bot_id)) {
        (Assigning::NoSuchBot, read)
    } else {
        match origin_of(read, talk, manager->0, w.source_turn_id, w.text, w.actor) {
            None => (Assigning::NotTheirTurn, asked),
            Some(o) => match requested(asked, request_row, o, now) {
                (Err(e), after) => (Assigning::Store(e), after),
                (Ok(request_id), after) => if w.mission_id is Some && !w.mission_open {
                    (Assigning::MissionRefused, after)
                } else if table::any(after.assignments, assignments::with_id(id)) {
                    (Assigning::Store(StoreError::IdTaken), after)
                } else {
                    let row = work_row(w, ownership, id, request_id, now);
                    (
                        Assigning::Queued {
                            row: row_after(w, row, now),
                            conflicts: conflicts_of(after, ownership, None),
                        },
                        with_work(after, w, row, now),
                    )
                },
            },
        }
    }
}

fn hand_over(s: &mut Store, now: &str, w: Work<'_>, role: Role, manager_id: &str) -> (res: Result<Assigned, AssignError>)
    ensures
        (result_of(res), final(s)@) == handing_over(old(s)@, w@, role, manager_id@, now@),
{
    let to_itself = match w.actor {
        Some(a) => a == role,
        None => text::same(w.target_bot_id, manager_id) && role == Role::Patrol,
    };
    if to_itself {
        return Err(AssignError::ToItself);
    }
    let from = match w.actor {
        Some(a) => roles::bot_for(s, now, a),
        None => Some(manager_id.to_owned()),
    };
    match from {
        Some(f) => Ok(Assigned::Handover { role, from: f }),
        None => Err(AssignError::RoleWithoutBot),
    }
}

/// Hand a piece of work to a bot. It is written down first and sent afterwards, under its request id:
/// a request that comes again is the same assignment, and never a second one.
pub fn assign(
    s: &mut Store,
    now: &str,
    request_row: &str,
    id: &str,
    w: Work<'_>,
    ownership: &Vec<String>,
    talk: &Talk,
    bots: &Vec<BotEntry>,
) -> (res: Result<Assigned, AssignError>)
    ensures
        (result_of(res), final(s)@) == assigning(
            old(s)@,
            w@,
            text::texts(ownership@),
            talk@,
            table::views(bots@),
            request_row@,
            id@,
            now@,
        ),
        res matches Ok(Assigned::Queued { assignment, conflicts }) ==> assignments::owned_parts(assignment@) == text::texts(
            ownership@,
        ),
{
    if text::blank(w.client_request_id) {
        return Err(AssignError::EmptyRequestId);
    }
    if text::blank(w.text) {
        return Err(AssignError::EmptyText);
    }
    if let Some(a) = assignments::assignment_by_crid(s, w.client_request_id) {
        if !text::same(a.target_bot_id.as_str(), w.target_bot_id) {
            return Err(AssignError::OtherBot { assignment_id: a.id, target_bot_id: a.target_bot_id });
        }
        if !text::same(a.text.as_str(), w.text) {
            return Err(AssignError::OtherText { assignment_id: a.id });
        }
        return Ok(Assigned::Known(a));
    }
    proof {
        table::first_is_a_hit(s@.assignments, assignments::with_crid(w@.client_request_id));
    }
    let row = store::get_or_init(s, now);
    let manager_id = match row.bot_id {
        Some(b) => b,
        None => {
            return Err(AssignError::NotConfigured);
        },
    };
    if let Some(role) = roles::role_of_bot(s, now, w.target_bot_id) {
        return hand_over(s, now, w, role, manager_id.as_str());
    }
    if w.is_reply {
        return Err(AssignError::ReplyToBot);
    }
    if !is_live(bots, w.target_bot_id) {
        return Err(AssignError::NoSuchBot);
    }
    let origin = match source_of(s, now, talk, manager_id.as_str(), w.source_turn_id, w.text, w.actor) {
        Some(o) => o,
        None => {
            return Err(AssignError::NotTheirTurn);
        },
    };
    let ghost base = s@;
    let request_id = match store::upsert_request(
        s,
        now,
        request_row,
        origin.source,
        text::borrowed(&origin.key),
        origin.words.as_str(),
    ) {
        Ok(r) => r,
        Err(e) => {
            assert(requested(base, request_row@, origin@, now@) == (Err::<Seq<char>, StoreError>(e), s@));
            return Err(AssignError::Store(e));
        },
    };
    let ghost after = s@;
    assert(requested(base, request_row@, origin@, now@) == (Ok::<Seq<char>, StoreError>(request_id@), after));
    if w.mission.is_some() && !w.mission_open {
        return Err(AssignError::MissionRefused);
    }
    let conflicts = ownership_conflicts(s, ownership, None);
    let review_role = match w.review_role {
        Some(r) => Some(r.as_str()),
        None => None,
    };
    let a = match assignments::insert_assignment_linked(
        s,
        now,
        id,
        Some(request_id.as_str()),
        w.target_bot_id,
        w.client_request_id,
        w.text,
        ownership.as_slice(),
        w.follow_up_of,
        w.expects_review,
        w.mission,
        review_role,
    ) {
        Ok(a) => a,
        Err(e) => {
            return Err(AssignError::Store(e));
        },
    };
    let ghost made = a@;
    assert(made == work_row(w@, text::texts(ownership@), id@, request_id@, now@));
    if let Some(parent) = w.follow_up_of {
        reviews::link_followup(s, now, parent, a.id.as_str());
        if text::same(parent, a.id.as_str()) {
            let pointed = Assignment {
                followup_assignment_id: Some(a.id.clone()),
                updated_at: now.to_owned(),
                ..a.copied()
            };
            assert(pointed@ =~= row_after(w@, made, now@));
            return Ok(Assigned::Queued { assignment: pointed, conflicts });
        }
    }
    Ok(Assigned::Queued { assignment: a, conflicts })
}

/// The words for a write that the store refused.
pub open spec fn store_words(e: StoreError) -> Seq<char> {
    match e {
        StoreError::NoSupervisor => "there is no supervisor row"@,
        StoreError::IdTaken => "the id is taken"@,
        StoreError::RequestIdTaken => "the request id is taken"@,
        StoreError::PayloadNotAnObject => "the payload is not an object"@,
        StoreError::IllegalMove => "the assignment cannot move there"@,
    }
}

/// The detail of a refusal to hand work out; `None` where the answer is words alone.
pub open spec fn refusal_members(a: Assigning) -> Option<Seq<(Seq<char>, json::FieldView)>> {
    match a {
        Assigning::OtherBot { id, bot } => Some(
            seq![("assignment_id"@, json::FieldView::Str(id)), ("target_bot_id"@, json::FieldView::Str(bot))],
        ),
        Assigning::OtherText { id } => Some(
            seq![("assignment_id"@, json::FieldView::Str(id)), ("reason"@, json::FieldView::Str("text_mismatch"@))],
        ),
        Assigning::NotConfigured => Some(seq![("reason"@, json::FieldView::Str("not_configured"@))]),
        Assigning::RoleWithoutBot => Some(seq![("reason"@, json::FieldView::Str("role_not_configured"@))]),
        _ => None,
    }
}

/// The words of a refusal to hand work out. `actor` is the role that the caller proved to be.
pub open spec fn refusal_words(a: Assigning, actor: Option<Role>) -> Seq<char> {
    match a {
        Assigning::EmptyRequestId => "client_request_id must not be empty"@,
        Assigning::EmptyText => "text must not be empty"@,
        Assigning::OtherBot { .. } => "client_request_id already used for another bot"@,
        Assigning::OtherText { .. } => "client_request_id already used with different text"@,
        Assigning::NotConfigured => "supervisor is not set up"@,
        Assigning::ToItself => "the supervisor cannot assign work to itself"@,
        Assigning::RoleWithoutBot => "that AGM role has no bot"@,
        Assigning::ReplyToBot => "ack / reply_to only apply to a handover between AGM roles"@,
        Assigning::NoSuchBot => "bot"@,
        Assigning::NotTheirTurn => "source_turn_id is not a turn of "@ + match actor {
            Some(r) => r.name(),
            None => "the supervisor"@,
        },
        Assigning::MissionRefused => "the mission refuses the assignment"@,
        Assigning::Store(e) => store_words(e),
        _ => ""@,
    }
}

/// What somebody is told whose work was not handed out. A mission that refuses gives its own answer, which
/// the caller has; here it is only said that it did.
pub open spec fn work_refusal(a: Assigning, actor: Option<Role>) -> RefusalView {
    let message = refusal_words(a, actor);
    match refusal_members(a) {
        Some(m) => RefusalView::Conflict { message, detail: json::json_object(m) },
        None => if a is NoSuchBot {
            RefusalView::NotFound(message)
        } else if a is Store || a is MissionRefused {
            RefusalView::Failed(message)
        } else {
            RefusalView::Bad(message)
        },
    }
}

impl AssignError {
    /// The detail of the refusal as a JSON text; `None` where the answer is words alone.
    pub fn detail(&self) -> (r: Option<String>)
        ensures
            ({
                let m = refusal_members(result_of(Err(*self)));
                match r {
                    Some(t) => m is Some && t@ == json::json_object(m->0),
                    None => m is None,
                }
            }),
    {
        let ghost m = refusal_members(result_of(Err(*self)));
        match self {
            AssignError::OtherBot { assignment_id, target_bot_id } => {
                let fields = [
                    ("assignment_id", Field::Str(assignment_id.as_str())),
                    ("target_bot_id", Field::Str(target_bot_id.as_str())),
                ];
                assert(json::members(fields@) =~= m->0);
                Some(json::object(&fields))
            },
            AssignError::OtherText { assignment_id } => {
                let fields = [
                    ("assignment_id", Field::Str(assignment_id.as_str())),
                    ("reason", Field::Str("text_mismatch")),
                ];
                assert(json::members(fields@) =~= m->0);
                Some(json::object(&fields))
            },
            AssignError::NotConfigured => {
                let fields = [("reason", Field::Str("not_configured"))];
                assert(json::members(fields@) =~= m->0);
                Some(json::object(&fields))
            },
            AssignError::RoleWithoutBot => {
                let fields = [("reason", Field::Str("role_not_configured"))];
                assert(json::members(fields@) =~= m->0);
                Some(json::object(&fields))
            },
            _ => None,
        }
    }

    /// The words of the refusal.
    pub fn message(&self, actor: Option<Role>) -> (r: String)
        ensures
            r@ == refusal_words(result_of(Err(*self)), actor),
    {
        match self {
            AssignError::EmptyRequestId => "client_request_id must not be empty".to_owned(),
            AssignError::EmptyText => "text must not be empty".to_owned(),
            AssignError::OtherBot { .. } => "client_request_id already used for another bot".to_owned(),
            AssignError::OtherText { .. } => "client_request_id already used with different text".to_owned(),
            AssignError::NotConfigured => "supervisor is not set up".to_owned(),
            AssignError::ToItself => "the supervisor cannot assign work to itself".to_owned(),
            AssignError::RoleWithoutBot => "that AGM role has no bot".to_owned(),
            AssignError::ReplyToBot => "ack / reply_to only apply to a handover between AGM roles".to_owned(),
            AssignError::NoSuchBot => "bot".to_owned(),
            AssignError::NotTheirTurn => text::joined("source_turn_id is not a turn of ", match actor {
                Some(r) => r.as_str(),
                None => "the supervisor",
            }),
            AssignError::MissionRefused => "the mission refuses the assignment".to_owned(),
            AssignError::Store(e) => match e {
                StoreError::NoSupervisor => "there is no supervisor row".to_owned(),
                StoreError::IdTaken => "the id is taken".to_owned(),
                StoreError::RequestIdTaken => "the request id is taken".to_owned(),
                StoreError::PayloadNotAnObject => "the payload is not an object".to_owned(),
                StoreError::IllegalMove => "the assignment cannot move there".to_owned(),
            },
        }
    }

    /// What the caller is told.
    pub fn refusal(&self, actor: Option<Role>) -> (r: Refusal)
        ensures
            r@ == work_refusal(result_of(Err(*self)), actor),
    {
        let message = self.message(actor);
        match self.detail() {
            Some(detail) => Refusal::Conflict { message, detail },
            None => match self {
                AssignError::NoSuchBot => Refusal::NotFound(message),
                AssignError::Store(_) => Refusal::Failed(message),
                AssignError::MissionRefused => Refusal::Failed(message),
                _ => Refusal::Bad(message),
            },
        }
    }
}

/// Why a bot cannot be handed work.
#[derive(Debug, Clone, Copy, PartialEq, Eq, Structural)]
pub enum NotAssignable {
    /// It is a role: that is a handover, through its queue.
    IsRole,
    NoSuchBot,
}

impl NotAssignable {
    /// What somebody is told who named such a bot.
    pub open spec fn answer(self) -> RefusalView {
        match self {
            NotAssignable::IsRole => RefusalView::Bad(
                "an AGM role cannot be the target of an assignment; hand over through the role queue"@,
            ),
            NotAssignable::NoSuchBot => RefusalView::NotFound("bot"@),
        }
    }

    pub fn refusal(&self) -> (r: Refusal)
        ensures
            r@ == self.answer(),
    {
        match self {
            NotAssignable::IsRole => Refusal::Bad(
                "an AGM role cannot be the target of an assignment; hand over through the role queue".to_owned(),
            ),
            NotAssignable::NoSuchBot => Refusal::NotFound("bot".to_owned()),
        }
    }
}

/// Whether a bot can be handed work.
pub open spec fn assignable(s: StoreView, target_bot_id: Seq<char>, bots: Seq<BotEntryView>) -> Result<(), NotAssignable> {
    if role_of(s, target_bot_id) is Some {
        Err(NotAssignable::IsRole)
    } else if !table::any(bots, live_bot(target_bot_id)) {
        Err(NotAssignable::NoSuchBot)
    } else {
        Ok(())
    }
}

/// Whether a bot can be handed work at all.
pub fn check_assignable(s: &mut Store, now: &str, target_bot_id: &str, bots: &Vec<BotEntry>) -> (res: Result<(), NotAssignable>)
    ensures
        final(s)@ == roles::looked_up(old(s)@, target_bot_id@, now@),
        res == assignable(old(s)@, target_bot_id@, table::views(bots@)),
{
    if roles::role_of_bot(s, now, target_bot_id).is_some() {
        return Err(NotAssignable::IsRole);
    }
    if !is_live(bots, target_bot_id) {
        return Err(NotAssignable::NoSuchBot);
    }
    Ok(())
}

// ---------------------------------------------------------------- what is shown

/// A project, as the manager sees it.
#[derive(Debug)]
pub struct ProjectInfo {
    pub id: String,
    pub label: String,
    pub path: String,
    pub host: String,
}

/// What a `ProjectInfo` holds.
#[verifier::ext_equal]
pub struct ProjectInfoView {
    pub id: Seq<char>,
    pub label: Seq<char>,
    pub path: Seq<char>,
    pub host: Seq<char>,
}

impl View for ProjectInfo {
    type V = ProjectInfoView;

    open spec fn view(&self) -> ProjectInfoView {
        ProjectInfoView {
            id: self.id@,
            label: self.label@,
            path: self.path@,
            host: self.host@,
        }
    }
}

/// The run of a bot.
#[derive(Debug)]
pub struct RunInfo {
    pub id: String,
    pub state: String,
    pub agent_status: String,
    pub agent_title: Option<String>,
    pub native_session_id: Option<String>,
    pub runtime_model: Option<String>,
    pub runtime_effort: Option<String>,
    pub pane_id: Option<String>,
    pub started_at: String,
}

/// What a `RunInfo` holds.
#[verifier::ext_equal]
pub struct RunInfoView {
    pub id: Seq<char>,
    pub state: Seq<char>,
    pub agent_status: Seq<char>,
    pub agent_title: Option<Seq<char>>,
    pub native_session_id: Option<Seq<char>>,
    pub runtime_model: Option<Seq<char>>,
    pub runtime_effort: Option<Seq<char>>,
    pub pane_id: Option<Seq<char>>,
    pub started_at: Seq<char>,
}

impl View for RunInfo {
    type V = RunInfoView;

    open spec fn view(&self) -> RunInfoView {
        RunInfoView {
            id: self.id@,
            state: self.state@,
            agent_status: self.agent_status@,
            agent_title: text::opt(self.agent_title),
            native_session_id: text::opt(self.native_session_id),
            runtime_model: text::opt(self.runtime_model),
            runtime_effort: text::opt(self.runtime_effort),
            pane_id: text::opt(self.pane_id),
            started_at: self.started_at@,
        }
    }
}

/// A bot with its run and the turns that wait for it. The last four are its secrets.
#[derive(Debug)]
pub struct BotInfo {
    pub id: String,
    pub project_id: String,
    pub name: String,
    pub kind: String,
    pub model: Option<String>,
    pub effort: Option<String>,
    pub identity: Option<String>,
    pub managed_by: String,
    pub parent_bot_id: Option<String>,
    pub cwd: Option<String>,
    pub queued_turns: i64,
    pub run: Option<RunInfo>,
    pub hook_token: String,
    pub args: Vec<String>,
    pub env: Vec<(String, String)>,
    pub persona: Option<String>,
}

/// What a `BotInfo` holds.
#[verifier::ext_equal]
pub struct BotInfoView {
    pub id: Seq<char>,
    pub project_id: Seq<char>,
    pub name: Seq<char>,
    pub kind: Seq<char>,
    pub model: Option<Seq<char>>,
    pub effort: Option<Seq<char>>,
    pub identity: Option<Seq<char>>,
    pub managed_by: Seq<char>,
    pub parent_bot_id: Option<Seq<char>>,
    pub cwd: Option<Seq<char>>,
    pub queued_turns: i64,
    pub run: Option<RunInfoView>,
    pub hook_token: Seq<char>,
    pub args: Seq<Seq<char>>,
    pub env: Seq<(Seq<char>, Seq<char>)>,
    pub persona: Option<Seq<char>>,
}

impl View for BotInfo {
    type V = BotInfoView;

    open spec fn view(&self) -> BotInfoView {
        BotInfoView {
            id: self.id@,
            project_id: self.project_id@,
            name: self.name@,
            kind: self.kind@,
            model: text::opt(self.model),
            effort: text::opt(self.effort),
            identity: text::opt(self.identity),
            managed_by: self.managed_by@,
            parent_bot_id: text::opt(self.parent_bot_id),
            cwd: text::opt(self.cwd),
            queued_turns: self.queued_turns,
            run: table::opt_view(self.run),
            hook_token: self.hook_token@,
            args: text::texts(self.args@),
            env: config::pairs(self.env@),
            persona: text::opt(self.persona),
        }
    }
}

/// A project, as it is shown.
pub open spec fn project_members(v: ProjectInfoView) -> Seq<(Seq<char>, json::FieldView)> {
    seq![
        ("id"@, json::FieldView::Str(v.id)),
        ("label"@, json::FieldView::Str(v.label)),
        ("path"@, json::FieldView::Str(v.path)),
        ("host"@, json::FieldView::Str(v.host)),
    ]
}

fn project_json(row: &ProjectInfo) -> (r: String)
    ensures
        r@ == json::json_object(project_members(row@)),
{
    let fields = [
        ("id", Field::Str(row.id.as_str())),
        ("label", Field::Str(row.label.as_str())),
        ("path", Field::Str(row.path.as_str())),
        ("host", Field::Str(row.host.as_str())),
    ];
    assert(json::members(fields@) =~= project_members(row@));
    json::object(&fields)
}

/// A run, as it is shown.
pub open spec fn run_members(v: RunInfoView) -> Seq<(Seq<char>, json::FieldView)> {
    seq![
        ("id"@, json::FieldView::Str(v.id)),
        ("state"@, json::FieldView::Str(v.state)),
        ("agent_status"@, json::FieldView::Str(v.agent_status)),
        ("agent_title"@, json::text_view(v.agent_title)),
        ("native_session_id"@, json::text_view(v.native_session_id)),
        ("runtime_model"@, json::text_view(v.runtime_model)),
        ("runtime_effort"@, json::text_view(v.runtime_effort)),
        ("pane_id"@, json::text_view(v.pane_id)),
        ("started_at"@, json::FieldView::Str(v.started_at)),
    ]
}

fn run_json(row: &RunInfo) -> (r: String)
    ensures
        r@ == json::json_object(run_members(row@)),
{
    let fields = [
        ("id", Field::Str(row.id.as_str())),
        ("state", Field::Str(row.state.as_str())),
        ("agent_status", Field::Str(row.agent_status.as_str())),
        ("agent_title", json::text_or_null(&row.agent_title)),
        ("native_session_id", json::text_or_null(&row.native_session_id)),
        ("runtime_model", json::text_or_null(&row.runtime_model)),
        ("runtime_effort", json::text_or_null(&row.runtime_effort)),
        ("pane_id", json::text_or_null(&row.pane_id)),
        ("started_at", Field::Str(row.started_at.as_str())),
    ];
    assert(json::members(fields@) =~= run_members(row@));
    json::object(&fields)
}

/// The project with this id.
pub open spec fn project_with(id: Seq<char>) -> spec_fn(ProjectInfoView) -> bool {
    |p: ProjectInfoView| p.id == id
}

/// The host of a project.
pub open spec fn host_of(projects: Seq<ProjectInfoView>, id: Seq<char>) -> Option<Seq<char>> {
    let i = table::position(projects, project_with(id));
    if i < projects.len() {
        Some(projects[i].host)
    } else {
        None
    }
}

fn find_host<'a>(projects: &'a Vec<ProjectInfo>, id: &str) -> (r: Option<&'a str>)
    ensures
        text::arg(r) == host_of(table::views(projects@), id@),
{
    let i = table::locate(projects, |p: &ProjectInfo| -> (b: bool)
        ensures b == (project_with(id@))(p@)
        { text::same(p.id.as_str(), id) }, Ghost(project_with(id@)));
    if i < projects.len() {
        proof {
            table::position_is_first(table::views(projects@), project_with(id@));
        }
        assert(projects@[i as int]@ == table::views(projects@)[i as int]);
        Some(projects[i].host.as_str())
    } else {
        None
    }
}

/// The name of the role of a bot.
pub open spec fn role_name(s: StoreView, bot_id: Seq<char>) -> Option<Seq<char>> {
    match role_of(s, bot_id) {
        Some(r) => Some(r.name()),
        None => None,
    }
}

/// A bot, as it is shown: enough to pick one, and nothing that opens an account.
pub open spec fn bot_members(v: BotInfoView, s: StoreView, projects: Seq<ProjectInfoView>, connected: Seq<Seq<char>>) -> Seq<(Seq<char>, json::FieldView)> {
    seq![
        ("id"@, json::FieldView::Str(v.id)),
        ("project_id"@, json::FieldView::Str(v.project_id)),
        ("name"@, json::FieldView::Str(v.name)),
        ("kind"@, json::FieldView::Str(v.kind)),
        ("model"@, json::text_view(v.model)),
        ("effort"@, json::text_view(v.effort)),
        ("identity"@, json::text_view(v.identity)),
        ("managed_by"@, json::FieldView::Str(v.managed_by)),
        ("parent_bot_id"@, json::text_view(v.parent_bot_id)),
        ("is_supervisor"@, json::FieldView::Bool(role_of(s, v.id) is Some)),
        ("supervisor_role"@, json::text_view(role_name(s, v.id))),
        ("cwd"@, json::text_view(v.cwd)),
        ("host"@, json::text_view(host_of(projects, v.project_id))),
        ("host_connected"@, match host_of(projects, v.project_id) {
            Some(h) => json::FieldView::Bool(connected.contains(h)),
            None => json::FieldView::Null,
        }),
        ("queued_turns"@, json::FieldView::Int(v.queued_turns)),
        ("run"@, match v.run {
            Some(r) => json::FieldView::Json(json::json_object(run_members(r))),
            None => json::FieldView::Null,
        }),
    ]
}

fn bot_json(row: &BotInfo, s: &Store, projects: &Vec<ProjectInfo>, connected: &Vec<String>) -> (r: String)
    ensures
        r@ == json::json_object(bot_members(row@, s@, table::views(projects@), text::texts(connected@))),
{
    let role = roles::role_in(s, row.id.as_str());
    let role_text = match role {
        Some(r) => Some(r.as_str()),
        None => None,
    };
    let host = find_host(projects, row.project_id.as_str());
    let run = match &row.run {
        Some(r) => Some(run_json(r)),
        None => None,
    };
    let fields = [
        ("id", Field::Str(row.id.as_str())),
        ("project_id", Field::Str(row.project_id.as_str())),
        ("name", Field::Str(row.name.as_str())),
        ("kind", Field::Str(row.kind.as_str())),
        ("model", json::text_or_null(&row.model)),
        ("effort", json::text_or_null(&row.effort)),
        ("identity", json::text_or_null(&row.identity)),
        ("managed_by", Field::Str(row.managed_by.as_str())),
        ("parent_bot_id", json::text_or_null(&row.parent_bot_id)),
        ("is_supervisor", Field::Bool(role.is_some())),
        ("supervisor_role", json::str_or_null(role_text)),
        ("cwd", json::text_or_null(&row.cwd)),
        ("host", json::str_or_null(host)),
        ("host_connected", match host {
            Some(h) => Field::Bool(maintenance::holds(connected, h)),
            None => Field::Null,
        }),
        ("queued_turns", Field::Int(row.queued_turns)),
        ("run", match &run {
            Some(t) => Field::Json(t.as_str()),
            None => Field::Null,
        }),
    ];
    assert(json::members(fields@) =~= bot_members(row@, s@, table::views(projects@), text::texts(connected@)));
    json::object(&fields)
}

/// The JSON texts of the projects.
pub open spec fn project_texts(v: Seq<ProjectInfoView>) -> Seq<Seq<char>> {
    v.map_values(|p: ProjectInfoView| json::json_object(project_members(p)))
}

/// The JSON texts of the bots.
pub open spec fn bot_texts(v: Seq<BotInfoView>, s: StoreView, projects: Seq<ProjectInfoView>, connected: Seq<Seq<char>>) -> Seq<
    Seq<char>,
> {
    v.map_values(|b: BotInfoView| json::json_object(bot_members(b, s, projects, connected)))
}

fn projects_json(projects: &Vec<ProjectInfo>) -> (r: String)
    ensures
        r@ == json::json_array(project_texts(table::views(projects@))),
{
    let mut out: Vec<String> = Vec::new();
    let mut i: usize = 0;
    while i < projects.len()
        invariant
            i <= projects.len(),
            out.len() == i,
            forall|j: int| 0 <= j < i ==> (#[trigger] out@[j])@ == json::json_object(project_members(projects@[j]@)),
        decreases projects.len() - i,
    {
        out.push(project_json(&projects[i]));
        i += 1;
    }
    assert(text::texts(out@) =~= project_texts(table::views(projects@)));
    json::array(&out)
}

fn bots_json(bots: &Vec<BotInfo>, s: &Store, projects: &Vec<ProjectInfo>, connected: &Vec<String>) -> (r: String)
    ensures
        r@ == json::json_array(
            bot_texts(table::views(bots@), s@, table::views(projects@), text::texts(connected@)),
        ),
{
    let mut out: Vec<String> = Vec::new();
    let mut i: usize = 0;
    while i < bots.len()
        invariant
            i <= bots.len(),
            out.len() == i,
            forall|j: int|
                0 <= j < i ==> (#[trigger] out@[j])@ == json::json_object(
                    bot_members(bots@[j]@, s@, table::views(projects@), text::texts(connected@)),
                ),
        decreases bots.len() - i,
    {
        out.push(bot_json(&bots[i], s, projects, connected));
        i += 1;
    }
    assert(text::texts(out@) =~= bot_texts(
        table::views(bots@),
        s@,
        table::views(projects@),
        text::texts(connected@),
    ));
    json::array(&out)
}

/// What the manager may see of the world.
pub open spec fn state_members(s: StoreView, projects: Seq<ProjectInfoView>, connected: Seq<Seq<char>>, bots: Seq<BotInfoView>) -> Seq<(Seq<char>, json::FieldView)> {
    seq![
        ("supervisor_id"@, json::FieldView::Str("AGM"@)),
        ("projects"@, json::FieldView::Json(json::json_array(project_texts(projects)))),
        ("bots"@, json::FieldView::Json(json::json_array(bot_texts(bots, s, projects, connected)))),
        ("open_assignments"@, json::FieldView::Json(
            json::json_array(
                render::assignment_texts(
                    table::ordered(s.assignments.filter(assignments::unsettled()), assignments::older()),
                ),
            ),
        )),
        ("pending_inbox"@, json::FieldView::Json(
            json::json_array(
                render::event_texts(
                    table::ordered(s.inbox.filter(inbox::in_state("pending"@)), inbox::older()),
                ),
            ),
        )),
        ("open_incidents"@, json::FieldView::Json(
            json::json_array(render::incident_texts(table::ordered(s.incidents.filter(incidents::all_open()), incidents::older()))),
        )),
    ]
}

/// What the manager may see of the world: enough to pick a bot, and no secret of one. Everything that
/// is still owed is on it. The rows of the two roles are made on the first call.
pub fn sanitized_state(s: &mut Store, now: &str, projects: &Vec<ProjectInfo>, connected: &Vec<String>, bots: &Vec<BotInfo>) -> (r: String)
    ensures
        final(s)@ == roles::with_row_of(initialised(old(s)@, now@), Role::Responder, now@),
        r@ == json::json_object(
            state_members(final(s)@, table::views(projects@), text::texts(connected@), table::views(bots@)),
        ),
{
    let _ = store::get_or_init(s, now);
    let _ = roles::get(s, now, Role::Responder);
    let p = projects_json(projects);
    let b = bots_json(bots, s, projects, connected);
    let open = render::assignments_json(&assignments::unsettled_assignments(s));
    let pending = render::events_json(&inbox::pending_inbox(s));
    let faults = render::incidents_json(&incidents::open_incidents(s));
    let fields = [
        ("supervisor_id", Field::Str(store::SUPERVISOR_ID)),
        ("projects", Field::Json(p.as_str())),
        ("bots", Field::Json(b.as_str())),
        ("open_assignments", Field::Json(open.as_str())),
        ("pending_inbox", Field::Json(pending.as_str())),
        ("open_incidents", Field::Json(faults.as_str())),
    ];
    assert(json::members(fields@) =~= state_members(s@, table::views(projects@), text::texts(connected@), table::views(bots@)));
    json::object(&fields)
}

/// The word for the state of the manager: a state that sticks comes before what its run looks like,
/// for the process may be up and unable to answer.
pub open spec fn status_word(configured: bool, status: Seq<char>, liveness: Seq<char>) -> Seq<char> {
    if !configured {
        "not_configured"@
    } else if status != ""@ {
        status
    } else {
        liveness
    }
}

/// What is known of the manager from outside.
#[derive(Debug, Clone, Copy)]
pub struct ManagerFacts<'a> {
    /// The bot, where it is on record and still there, and its project.
    pub bot_id: Option<&'a str>,
    pub project_id: Option<&'a str>,
    pub liveness: &'a str,
    /// The reports on the entry point, on the responder and on the last deployment, as JSON.
    pub remote: &'a str,
    pub responder: &'a str,
    pub last_deploy: &'a str,
}

/// What a `ManagerFacts` holds.
pub struct ManagerFactsView {
    pub bot_id: Option<Seq<char>>,
    pub project_id: Option<Seq<char>>,
    pub liveness: Seq<char>,
    pub remote: Seq<char>,
    pub responder: Seq<char>,
    pub last_deploy: Seq<char>,
}

impl<'a> View for ManagerFacts<'a> {
    type V = ManagerFactsView;

    open spec fn view(&self) -> ManagerFactsView {
        ManagerFactsView {
            bot_id: text::arg(self.bot_id),
            project_id: text::arg(self.project_id),
            liveness: self.liveness@,
            remote: self.remote@,
            responder: self.responder@,
            last_deploy: self.last_deploy@,
        }
    }
}

/// The report on the manager.
pub open spec fn status_members(s: StoreView, v: SupervisorView, patrol: RoleRowView, pending: u64, f: ManagerFactsView) -> Seq<(Seq<char>, json::FieldView)> {
    seq![
        ("configured"@, json::FieldView::Bool(f.bot_id is Some)),
        ("bot_id"@, json::text_view(f.bot_id)),
        ("project_id"@, json::text_view(f.project_id)),
        ("model"@, json::FieldView::Str(v.active_model)),
        ("model_arg"@, json::FieldView::Str(setup::alias_of(v.active_model))),
        ("identity"@, json::FieldView::Str(v.identity)),
        ("effort"@, json::FieldView::Str(v.effort)),
        ("status"@, json::FieldView::Str(status_word(f.bot_id is Some, v.status, f.liveness))),
        ("status_detail"@, json::text_view(v.status_detail)),
        ("generation"@, json::FieldView::Int(v.generation)),
        ("cwd"@, json::text_view(v.cwd)),
        ("quota_reset_at"@, json::text_view(v.quota_reset_at)),
        ("remote"@, json::FieldView::Json(f.remote)),
        ("pending_count"@, json::FieldView::Count(pending)),
        ("assignments"@, json::FieldView::Json(
            json::json_array(
                render::assignment_texts(
                    table::limited(
                        table::ordered(s.assignments.filter(assignments::all_ours()), assignments::newer()),
                        50,
                    ),
                ),
            ),
        )),
        ("role"@, json::FieldView::Str("patrol"@)),
        ("remote_provider"@, json::FieldView::Str("patrol"@)),
        ("stats"@, json::FieldView::Json(json::json_object(render::stats_members(patrol)))),
        ("responder"@, json::FieldView::Json(f.responder)),
        ("last_deploy"@, json::FieldView::Json(f.last_deploy)),
    ]
}

/// How much is still owed, as far as it can be counted.
pub open spec fn owed(s: StoreView) -> u64 {
    let n = table::hits(s.assignments, assignments::unsettled()) + table::hits(s.inbox, inbox::unhandled());
    if n <= u64::MAX {
        n as u64
    } else {
        u64::MAX
    }
}

/// The report on the manager, which the web page and the command line both read.
pub fn status_json(s: &mut Store, now: &str, f: ManagerFacts<'_>) -> (r: String)
    ensures
        ({
            let base = initialised(old(s)@, now@);
            let full = StoreView { roles: roles::with_role(base.roles, Role::Patrol, now@), ..base };
            let patrol = roles::role_row(base.roles, Role::Patrol, now@);
            &&& final(s)@ == full
            &&& r@ == json::json_object(status_members(full, base.supervisor->0, patrol, owed(full), f@))
        }),
{
    let row = store::get_or_init(s, now);
    let patrol = roles::get(s, now, Role::Patrol);
    let stats = patrol.stats_json();
    let many = assignments::pending_count(s);
    let pending: u64 = if many <= u64::MAX as u128 {
        many as u64
    } else {
        u64::MAX
    };
    let list = render::assignments_json(&assignments::list_assignments(s, 50));
    let status = if f.bot_id.is_none() {
        "not_configured"
    } else if !text::same(row.status.as_str(), "") {
        row.status.as_str()
    } else {
        f.liveness
    };
    let fields = [
        ("configured", Field::Bool(f.bot_id.is_some())),
        ("bot_id", json::str_or_null(f.bot_id)),
        ("project_id", json::str_or_null(f.project_id)),
        ("model", Field::Str(row.active_model.as_str())),
        ("model_arg", Field::Str(setup::model_arg(row.active_model.as_str()))),
        ("identity", Field::Str(row.identity.as_str())),
        ("effort", Field::Str(row.effort.as_str())),
        ("status", Field::Str(status)),
        ("status_detail", json::text_or_null(&row.status_detail)),
        ("generation", Field::Int(row.generation)),
        ("cwd", json::text_or_null(&row.cwd)),
        ("quota_reset_at", json::text_or_null(&row.quota_reset_at)),
        ("remote", Field::Json(f.remote)),
        ("pending_count", Field::Count(pending)),
        ("assignments", Field::Json(list.as_str())),
        ("role", Field::Str("patrol")),
        ("remote_provider", Field::Str("patrol")),
        ("stats", Field::Json(stats.as_str())),
        ("responder", Field::Json(f.responder)),
        ("last_deploy", Field::Json(f.last_deploy)),
    ];
    assert(json::members(fields@) =~= status_members(s@, row@, patrol@, pending, f@));
    json::object(&fields)
}

// ---------------------------------------------------------------- laws

/// What the manager sees of a bot tells no secret: bots that differ only in their token, arguments,
/// environment and persona look the same.
pub proof fn the_state_tells_no_secrets(
    v: BotInfoView,
    hook_token: Seq<char>,
    args: Seq<Seq<char>>,
    env: Seq<(Seq<char>, Seq<char>)>,
    persona: Option<Seq<char>>,
    s: StoreView,
    projects: Seq<ProjectInfoView>,
    connected: Seq<Seq<char>>,
)
    ensures
        bot_members(BotInfoView { hook_token, args, env, persona, ..v }, s, projects, connected) == bot_members(
            v,
            s,
            projects,
            connected,
        ),
{
}

/// Two paths overlap both ways round, and a path overlaps itself.
pub proof fn overlap_is_mutual(a: Seq<char>, b: Seq<char>)
    ensures
        overlap(a, b) == overlap(b, a),
        overlap(a, a),
{
}

/// The same request again is the same assignment: once work was written down, asking again with the
/// same words for the same bot finds it and changes nothing.
pub proof fn the_same_request_is_the_same_assignment(
    s: StoreView,
    w: WorkView,
    ownership: Seq<Seq<char>>,
    talk: TalkView,
    bots: Seq<BotEntryView>,
    request_row: Seq<char>,
    id: Seq<char>,
    now: Seq<char>,
    talk2: TalkView,
    bots2: Seq<BotEntryView>,
    request_row2: Seq<char>,
    id2: Seq<char>,
    later: Seq<char>,
)
    requires
        assigning(s, w, ownership, talk, bots, request_row, id, now).0 is Queued,
    ensures
        ({
            let (got, after) = assigning(s, w, ownership, talk, bots, request_row, id, now);
            let again = assigning(after, w, ownership, talk2, bots2, request_row2, id2, later);
            &&& again.0 == Assigning::Known(got->row)
            &&& again.1 == after
        }),
{
    let hit = assignments::with_crid(w.client_request_id);
    let (got, after) = assigning(s, w, ownership, talk, bots, request_row, id, now);
    table::first_is_a_hit(s.assignments, hit);
    let base = initialised(s, now);
    let read = roles::looked_up(base, w.target_bot_id, now);
    let asked = consulted(read, w.source_turn_id, w.actor, now);
    let o = origin_of(read, talk, base.supervisor->0.bot_id->0, w.source_turn_id, w.text, w.actor)->0;
    let request_id = requested(asked, request_row, o, now).0->Ok_0;
    let row = work_row(w, ownership, id, request_id, now);
    let more = s.assignments.push(row);
    assert forall|j: int| 0 <= j < s.assignments.len() implies !hit(#[trigger] more[j]) by {
        assert(!hit(s.assignments[j]));
    }
    table::first_at(more, hit, s.assignments.len() as int);
    match w.follow_up_of {
        Some(parent) => {
            table::first_of_changed(more, hit, assignments::with_id(parent), reviews::pointing(row.id, now));
        },
        None => {},
    }
}

/// Nothing is sent that is not written down: work that is queued is in the store, under its request id,
/// with its mission and the role that decides on it.
pub proof fn work_is_written_down_first(
    s: StoreView,
    w: WorkView,
    ownership: Seq<Seq<char>>,
    talk: TalkView,
    bots: Seq<BotEntryView>,
    request_row: Seq<char>,
    id: Seq<char>,
    now: Seq<char>,
)
    ensures
        ({
            let (got, after) = assigning(s, w, ownership, talk, bots, request_row, id, now);
            got matches Assigning::Queued { row, conflicts } ==> {
                &&& after.assignments.len() == s.assignments.len() + 1
                &&& after.assignments.last() == row
                &&& row.client_request_id == w.client_request_id
                &&& row.status == "queued"@
                &&& row.mission_id == w.mission_id
                &&& row.mission_role == w.mission_role
                &&& row.review_role == match w.review_role {
                    Some(r) => Some(r.name()),
                    None => None,
                }
            }
        }),
{
}

/// A caller who proved a role can name only that role's own turns as its authority.
pub proof fn nobody_names_anothers_turn(s: StoreView, t: TalkView, manager_id: Seq<char>, turn: Seq<char>, words: Seq<char>, role: Role)
    requires
        roles::registered(s, role) is Some,
        !text::is_blank(turn),
        !is_turn_of(t, text::trimmed(turn), roles::registered(s, role)->0),
    ensures
        origin_of(s, t, manager_id, Some(turn), words, Some(role)) is None,
{
}

/// Nobody is quoted who is not known: without a proven role and a named turn the assignment's own words
/// are recorded as such.
pub proof fn nobody_is_quoted_by_guess(s: StoreView, t: TalkView, manager_id: Seq<char>, words: Seq<char>)
    ensures
        origin_of(s, t, manager_id, None, words, None) == Some(
            OriginView { source: "assignment_text_fallback"@, key: None, words },
        ),
{
}

/// Asking for the manager to run, or to stop, is written down where its bot is on record and still
/// there, and begins a new count of its watchdog; the answer is that bot. Otherwise nobody is wanted.
pub proof fn the_intent_is_written_before_anything_is_done(
    s: StoreView,
    now: Seq<char>,
    bots: Seq<BotEntryView>,
    want: bool,
    bot: Option<Seq<char>>,
    after: StoreView,
    id: Seq<char>,
)
    requires
        asking(s, now, bots, want, bot, after),
    ensures
        bot == Some(id) <==> s.supervisor is Some && s.supervisor->0.bot_id == Some(id) && exists|i: int|
            0 <= i < bots.len() && (#[trigger] bots[i]).id == id && bots[i].live,
        after == (StoreView { supervisor: after.supervisor, ..s }),
        bot is Some ==> after.supervisor == Some(
            SupervisorView {
                desired_running: if want {
                    1
                } else {
                    0
                },
                watchdog_attempts: 0,
                watchdog_next_at: None,
                watchdog_gave_up_at: None,
                watchdog_last_error: None,
                updated_at: now,
                ..s.supervisor->0
            },
        ),
        bot is None && s.supervisor is Some ==> after == s,
        bot is None && s.supervisor is None ==> after.supervisor is Some && after.supervisor->0.desired_running == 0,
{
    a_bot_is_there(bots, id);
    if s.supervisor is Some && s.supervisor->0.bot_id is Some {
        a_bot_is_there(bots, s.supervisor->0.bot_id->0);
    }
}

proof fn a_bot_is_there(bots: Seq<BotEntryView>, id: Seq<char>)
    ensures
        table::any(bots, live_bot(id)) <==> exists|i: int| 0 <= i < bots.len() && (#[trigger] bots[i]).id == id && bots[i].live,
{
    let hit = live_bot(id);
    if table::any(bots, hit) {
        let i = choose|i: int| 0 <= i < bots.len() && hit(#[trigger] bots[i]);
        assert(bots[i].id == id && bots[i].live);
    } else {
        assert forall|i: int| 0 <= i < bots.len() implies !hit(#[trigger] bots[i]) by {}
    }
}

/// A manager that came up has asked for its entry point in this session, and no more is known of that;
/// its state is cleared with the detail, and its loop runs under its generation, the first one where
/// there was none. What it is wanted for stays.
pub proof fn a_manager_that_came_up_claims_no_more_than_it_knows(
    s: StoreView,
    now: Seq<char>,
    session: Option<Seq<char>>,
    detail: Option<Seq<char>>,
    gen: i64,
    after: StoreView,
)
    requires
        coming_up(s, now, session, detail, gen, after),
        s.supervisor is Some,
    ensures
        ({
            let was = s.supervisor->0;
            &&& gen == after.supervisor->0.generation
            &&& was.generation != 0 ==> gen == was.generation
            &&& was.generation == 0 ==> gen == 1
            &&& after == (StoreView {
                supervisor: Some(
                    SupervisorView {
                        remote_status: "requested"@,
                        remote_url: None,
                        remote_source: Some("argv"@),
                        remote_session_id: session,
                        remote_actor: None,
                        remote_evidence: None,
                        remote_observed_at: Some(now),
                        status: ""@,
                        status_detail: detail,
                        generation: gen,
                        updated_at: now,
                        ..was
                    },
                ),
                ..s
            })
        }),
{
}

/// Work is sent only into an idle run: one that is up, neither working nor blocked, and on no turn.
pub proof fn only_an_idle_run_takes_work(state: Seq<char>, agent_status: Seq<char>, in_flight: bool)
    ensures
        liveness(None) == "stopped"@,
        liveness(Some((state, agent_status, in_flight))) == "idle"@ <==> state == "running"@ && agent_status != "working"@
            && agent_status != "blocked"@ && !in_flight,
        liveness(Some((state, agent_status, in_flight))) == "busy"@ <==> state == "running"@ && (agent_status == "working"@
            || agent_status == "blocked"@ || in_flight),
        liveness(Some((state, agent_status, in_flight))) == "starting"@ <==> state == "starting"@,
        liveness(Some((state, agent_status, in_flight))) == "stopped"@ <==> state != "starting"@ && state != "running"@,
{
    reveal_strlit("idle");
    reveal_strlit("busy");
    reveal_strlit("starting");
    reveal_strlit("stopped");
    reveal_strlit("running");
    assert("idle"@.len() == 4 && "busy"@.len() == 4 && "starting"@.len() == 8 && "stopped"@.len() == 7);
    assert("running"@.len() == 7 && "idle"@[0] == 'i' && "busy"@[0] == 'b' && "running"@[0] == 'r' && "stopped"@[0] == 's');
}

/// Of two paths without the slashes at their ends the shorter one contains the longer exactly when the
/// longer begins with it and goes on with a slash; two of the same length overlap when they are the same.
pub proof fn a_path_overlaps_what_it_contains(a: Seq<char>, b: Seq<char>)
    ensures
        ({
            let x = text::without_trailing_slashes(a);
            let y = text::without_trailing_slashes(b);
            &&& x.len() == y.len() ==> (overlap(a, b) <==> x == y)
            &&& x.len() < y.len() ==> (overlap(a, b) <==> y[x.len() as int] == '/' && y.subrange(0, x.len() as int) == x)
            &&& y.len() < x.len() ==> (overlap(a, b) <==> x[y.len() as int] == '/' && x.subrange(0, y.len() as int) == y)
        }),
{
    reveal_strlit("/");
    let x = text::without_trailing_slashes(a);
    let y = text::without_trailing_slashes(b);
    contained(x, y);
    contained(y, x);
}

proof fn contained(x: Seq<char>, y: Seq<char>)
    ensures
        (x + "/"@).is_prefix_of(y) <==> x.len() < y.len() && y[x.len() as int] == '/' && y.subrange(0, x.len() as int) == x,
{
    reveal_strlit("/");
    let p = x + "/"@;
    assert(p.len() == x.len() + 1);
    if p.is_prefix_of(y) {
        assert(p =~= y.subrange(0, p.len() as int));
        assert(p[x.len() as int] == y[x.len() as int]);
        assert forall|i: int| 0 <= i < x.len() implies x[i] == y[i] by {
            assert(p[i] == y.subrange(0, p.len() as int)[i]);
        }
        assert(y.subrange(0, x.len() as int) =~= x);
    } else if x.len() < y.len() && y[x.len() as int] == '/' && y.subrange(0, x.len() as int) == x {
        assert forall|i: int| 0 <= i < p.len() implies p[i] == #[trigger] y.subrange(0, p.len() as int)[i] by {
            if i < x.len() {
                assert(y.subrange(0, x.len() as int)[i] == x[i]);
            }
        }
        assert(p =~= y.subrange(0, p.len() as int));
    }
}

proof fn conflicts_are_found(rows: Seq<AssignmentView>, paths: Seq<Seq<char>>, ignore: Option<Seq<char>>, c: ConflictView)
    ensures
        conflicts_in(rows, paths, ignore).contains(c) <==> exists|k: int|
            0 <= k < rows.len() && Some((#[trigger] rows[k]).id) != ignore && conflict_with(rows[k], paths) == c
                && c.paths.len() > 0,
    decreases rows.len(),
{
    if rows.len() > 0 {
        let head = rows.drop_last();
        let before = conflicts_in(head, paths, ignore);
        let all = conflicts_in(rows, paths, ignore);
        conflicts_are_found(head, paths, ignore, c);
        assert(rows.last() == rows[rows.len() - 1]);
        if all.contains(c) {
            let m = choose|m: int| 0 <= m < all.len() && all[m] == c;
            if m < before.len() {
                assert(before[m] == c);
                let k = choose|k: int|
                    0 <= k < head.len() && Some((#[trigger] head[k]).id) != ignore && conflict_with(head[k], paths) == c
                        && c.paths.len() > 0;
                assert(rows[k] == head[k]);
            }
        }
        if exists|k: int|
            0 <= k < rows.len() && Some((#[trigger] rows[k]).id) != ignore && conflict_with(rows[k], paths) == c
                && c.paths.len() > 0 {
            let k = choose|k: int|
                0 <= k < rows.len() && Some((#[trigger] rows[k]).id) != ignore && conflict_with(rows[k], paths) == c
                    && c.paths.len() > 0;
            if k < head.len() {
                assert(head[k] == rows[k]);
                let m = choose|m: int| 0 <= m < before.len() && before[m] == c;
                assert(all[m] == c);
            } else {
                assert(all[before.len() as int] == c);
            }
        }
    }
}

/// Somebody else holds some paths exactly when an assignment that is still open, and is not the one to
/// leave out, owns a part that overlaps one of them; that assignment is named with its bot, its state
/// and just those paths.
pub proof fn an_overlap_is_told(
    s: StoreView,
    paths: Seq<Seq<char>>,
    ignore: Option<Seq<char>>,
    a: AssignmentView,
    path: Seq<char>,
    part: int,
    c: ConflictView,
)
    ensures
        ({
            let open = a.supervisor_id == "AGM"@ && (a.status == "queued"@ || a.status == "delivered"@ || a.status
                == "unknown"@ || a.status == "awaiting_review"@ || a.status == "blocked"@ || a.status == "quota_blocked"@);
            let owned = assignments::owned_parts(a);
            s.assignments.contains(a) && open && Some(a.id) != ignore && paths.contains(path) && 0 <= part < owned.len()
                && overlap(path, owned[part]) ==> exists|k: int|
                0 <= k < conflicts_of(s, paths, ignore).len() && {
                    let told = #[trigger] conflicts_of(s, paths, ignore)[k];
                    &&& told.assignment_id == a.id && told.target_bot_id == a.target_bot_id && told.status == a.status
                    &&& told.paths.contains(path)
                }
        }),
        conflicts_of(s, paths, ignore).contains(c) ==> {
            &&& Some(c.assignment_id) != ignore
            &&& c.paths.len() > 0
            &&& exists|k: int|
                0 <= k < s.assignments.len() && {
                    let held = #[trigger] s.assignments[k];
                    &&& held.id == c.assignment_id && held.target_bot_id == c.target_bot_id && held.status == c.status
                    &&& held.supervisor_id == "AGM"@ && (held.status == "queued"@ || held.status == "delivered"@
                        || held.status == "unknown"@ || held.status == "awaiting_review"@ || held.status == "blocked"@
                        || held.status == "quota_blocked"@)
                    &&& c.paths.contains(path) ==> paths.contains(path) && exists|j: int|
                        0 <= j < assignments::owned_parts(held).len() && overlap(
                            path,
                            #[trigger] assignments::owned_parts(held)[j],
                        )
                }
        },
{
    let rows = table::ordered(s.assignments.filter(assignments::unsettled()), assignments::older());
    let told = conflict_with(a, paths);
    let owned = assignments::owned_parts(a);
    table::ordering_keeps_each_row(s.assignments.filter(assignments::unsettled()), assignments::older(), a);
    table::selecting_takes_each_hit(s.assignments, assignments::unsettled(), a);
    table::selecting_takes_each_hit(paths, overlapping(owned), path);
    conflicts_are_found(rows, paths, ignore, told);
    conflicts_are_found(rows, paths, ignore, c);
    if rows.contains(a) && Some(a.id) != ignore && paths.contains(path) && 0 <= part < owned.len() && overlap(
        path,
        owned[part],
    ) {
        let k = choose|k: int| 0 <= k < rows.len() && rows[k] == a;
        assert(told.paths.contains(path));
        assert(told.paths.len() > 0);
        assert(Some(rows[k].id) != ignore && conflict_with(rows[k], paths) == told);
        let m = choose|m: int|
            0 <= m < conflicts_of(s, paths, ignore).len() && conflicts_of(s, paths, ignore)[m] == told;
        assert(conflicts_of(s, paths, ignore)[m].paths.contains(path));
    }
    if conflicts_of(s, paths, ignore).contains(c) {
        let k = choose|k: int|
            0 <= k < rows.len() && Some((#[trigger] rows[k]).id) != ignore && conflict_with(rows[k], paths) == c
                && c.paths.len() > 0;
        let held = rows[k];
        assert(rows.contains(held));
        table::ordering_keeps_each_row(s.assignments.filter(assignments::unsettled()), assignments::older(), held);
        table::selecting_takes_each_hit(s.assignments, assignments::unsettled(), held);
        table::selecting_takes_each_hit(paths, overlapping(assignments::owned_parts(held)), path);
        let m = choose|m: int| 0 <= m < s.assignments.len() && s.assignments[m] == held;
        assert(s.assignments[m].id == c.assignment_id);
    }
}

/// A person's first words in a turn are what is quoted, and nobody's where those are blank.
pub proof fn the_first_words_of_a_person_are_quoted(t: TalkView, turn_id: Seq<char>, k: int)
    requires
        0 <= k < t.messages.len(),
        t.messages[k].turn_id == Some(turn_id),
        t.messages[k].role == "user"@,
        forall|j: int|
            0 <= j < t.messages.len() && j != k && (#[trigger] t.messages[j]).turn_id == Some(turn_id) && t.messages[j].role
                == "user"@ ==> text::text_before(t.messages[k].created_at, t.messages[j].created_at),
    ensures
        text::is_blank(t.messages[k].content) ==> words_of(t, turn_id) is None,
        !text::is_blank(t.messages[k].content) ==> words_of(t, turn_id) == Some(t.messages[k].content),
{
    let hit = said_in(turn_id);
    let earlier = said_earlier();
    let rows = t.messages.filter(hit);
    let list = table::ordered(rows, earlier);
    let x = t.messages[k];
    table::ranked_by_text(earlier, |m: MessageRowView| m.created_at, true);
    table::ordering_orders(rows, earlier);
    table::selecting_takes_each_hit(t.messages, hit, x);
    table::ordering_keeps_each_row(rows, earlier, x);
    let m = choose|m: int| 0 <= m < list.len() && list[m] == x;
    let y = list[0];
    table::ordering_keeps_each_row(rows, earlier, y);
    table::selecting_takes_each_hit(t.messages, hit, y);
    assert(list.contains(y));
    let n = choose|n: int| 0 <= n < t.messages.len() && t.messages[n] == y;
    if n != k {
        assert(text::text_before(x.created_at, y.created_at));
        if m > 0 {
            assert(!earlier(list[m], list[0]));
        }
    }
}

/// A turn is a bot's when it belongs to the bot's conversation; the turn it is on is the one on record.
pub proof fn a_turn_belongs_to_the_conversation_of_its_bot(t: TalkView, turn_id: Seq<char>, bot_id: Seq<char>, k: int)
    ensures
        0 <= k < t.conversations.len() && t.conversations[k].bot_id == bot_id && (forall|j: int|
            0 <= j < k ==> (#[trigger] t.conversations[j]).bot_id != bot_id) ==> (is_turn_of(t, turn_id, bot_id)
            <==> exists|i: int|
            0 <= i < t.turns.len() && (#[trigger] t.turns[i]).id == turn_id && t.turns[i].conversation_id
                == t.conversations[k].id),
        (forall|j: int| 0 <= j < t.conversations.len() ==> (#[trigger] t.conversations[j]).bot_id != bot_id) ==> !is_turn_of(
            t,
            turn_id,
            bot_id,
        ),
        0 <= k < t.in_flight.len() && t.in_flight[k].bot_id == bot_id && (forall|j: int|
            0 <= j < k ==> (#[trigger] t.in_flight[j]).bot_id != bot_id) ==> turn_on(t, bot_id) == Some(t.in_flight[k].turn_id),
        (forall|j: int| 0 <= j < t.in_flight.len() ==> (#[trigger] t.in_flight[j]).bot_id != bot_id) ==> turn_on(t, bot_id)
            is None,
{
    let hit = conversation_of(bot_id);
    if 0 <= k < t.conversations.len() && t.conversations[k].bot_id == bot_id && (forall|j: int|
        0 <= j < k ==> (#[trigger] t.conversations[j]).bot_id != bot_id) {
        table::first_at(t.conversations, hit, k);
        let c = t.conversations[k].id;
        let of = |x: TurnRowView| x.id == turn_id && x.conversation_id == c;
        if table::any(t.turns, of) {
            let i = choose|i: int| 0 <= i < t.turns.len() && of(#[trigger] t.turns[i]);
            assert(t.turns[i].id == turn_id);
        } else {
            assert forall|i: int| 0 <= i < t.turns.len() implies !of(#[trigger] t.turns[i]) by {}
        }
    }
    if forall|j: int| 0 <= j < t.conversations.len() ==> (#[trigger] t.conversations[j]).bot_id != bot_id {
        table::first_of_none(t.conversations, hit);
    }
    let on = |f: InFlightView| f.bot_id == bot_id;
    if 0 <= k < t.in_flight.len() && t.in_flight[k].bot_id == bot_id && (forall|j: int|
        0 <= j < k ==> (#[trigger] t.in_flight[j]).bot_id != bot_id) {
        table::first_at(t.in_flight, on, k);
    }
    if forall|j: int| 0 <= j < t.in_flight.len() ==> (#[trigger] t.in_flight[j]).bot_id != bot_id {
        table::first_of_none(t.in_flight, on);
    }
}

/// An assignment rests on the turn that was named, or else on the turn that the bot of a proven role is
/// on. Its source is what a person said there, under the turn; where that cannot be read, or there is no
/// turn, it is the assignment's own words, and marked as such. A named turn has to be the caller's own
/// bot's, or one of the two roles' where the caller has no bot.
pub proof fn an_assignment_rests_on_somebodys_words(
    s: StoreView,
    t: TalkView,
    manager_id: Seq<char>,
    source_turn_id: Option<Seq<char>>,
    words: Seq<char>,
    actor: Option<Role>,
)
    ensures
        ({
            let named = source_turn_id is Some && text::trimmed(source_turn_id->0).len() > 0;
            let me = if actor == Some(Role::Patrol) {
                roles::registered(s, Role::Patrol)
            } else if actor == Some(Role::Responder) {
                roles::registered(s, Role::Responder)
            } else {
                None
            };
            let responder = roles::registered(s, Role::Responder);
            let it = text::trimmed(source_turn_id->0);
            let theirs = if me is Some {
                is_turn_of(t, it, me->0)
            } else {
                is_turn_of(t, it, manager_id) || (responder is Some && is_turn_of(t, it, responder->0))
            };
            let turn = if named {
                Some(it)
            } else if me is Some {
                turn_on(t, me->0)
            } else {
                None
            };
            let o = origin_of(s, t, manager_id, source_turn_id, words, actor);
            &&& o is None <==> named && !theirs
            &&& o is Some ==> o->0.key == turn
            &&& o is Some && turn is Some && words_of(t, turn->0) is Some ==> o->0.source == "manager_turn"@ && Some(o->0.words)
                == words_of(t, turn->0)
            &&& o is Some && (turn is None || words_of(t, turn->0) is None) ==> o->0.source == "assignment_text_fallback"@
                && o->0.words == words
        }),
{
}

/// The request behind an assignment is found or made as any other request is.
pub proof fn the_request_behind_it_is_written_down(s: StoreView, id: Seq<char>, o: OriginView, now: Seq<char>)
    ensures
        ({
            let (found, after) = store::upserted(s, id, o.source, o.key, o.words, now);
            let (got, then) = requested(s, id, o, now);
            &&& then == after
            &&& got is Ok <==> found is Some
            &&& got is Ok ==> Some(got->Ok_0) == found
            &&& got is Err ==> got->Err_0 == StoreError::IdTaken
        }),
{
    assert((|r: RequestView| r.id == id) =~= store::with_request_id(id));
}

/// Work is refused for its first fault, in this order: no request id, no words, a request id that was
/// used for another bot or with other words, no manager. A role is handed over to; a reply is only for
/// a role, and work only for a bot that is there.
pub proof fn work_is_refused_for_its_first_fault(
    s: StoreView,
    w: WorkView,
    ownership: Seq<Seq<char>>,
    talk: TalkView,
    bots: Seq<BotEntryView>,
    request_row: Seq<char>,
    id: Seq<char>,
    now: Seq<char>,
    k: int,
)
    ensures
        ({
            let (got, after) = assigning(s, w, ownership, talk, bots, request_row, id, now);
            let no_id = text::trimmed(w.client_request_id).len() == 0;
            let no_words = text::trimmed(w.text).len() == 0;
            let known = 0 <= k < s.assignments.len() && s.assignments[k].supervisor_id == "AGM"@
                && s.assignments[k].client_request_id == w.client_request_id && (forall|j: int|
                0 <= j < k ==> (#[trigger] s.assignments[j]).client_request_id != w.client_request_id);
            let fresh = forall|j: int|
                0 <= j < s.assignments.len() ==> (#[trigger] s.assignments[j]).client_request_id != w.client_request_id;
            let a = s.assignments[k];
            let set_up = s.supervisor is Some && s.supervisor->0.bot_id is Some;
            let to_role = roles::registered(s, Role::Patrol) == Some(w.target_bot_id) || roles::registered(s, Role::Responder)
                == Some(w.target_bot_id);
            let there = exists|i: int| 0 <= i < bots.len() && (#[trigger] bots[i]).id == w.target_bot_id && bots[i].live;
            &&& got is EmptyRequestId <==> no_id
            &&& got is EmptyText <==> !no_id && no_words
            &&& !no_id && !no_words && known ==> {
                &&& after == s
                &&& a.target_bot_id != w.target_bot_id ==> got == Assigning::OtherBot { id: a.id, bot: a.target_bot_id }
                &&& a.target_bot_id == w.target_bot_id && a.text != w.text ==> got == Assigning::OtherText { id: a.id }
                &&& a.target_bot_id == w.target_bot_id && a.text == w.text ==> got == Assigning::Known(a)
            }
            &&& no_id || no_words ==> after == s
            &&& !no_id && !no_words && fresh ==> {
                &&& !set_up ==> got is NotConfigured
                &&& set_up && to_role ==> got is ToItself || got is RoleWithoutBot || got is Handover
                &&& set_up && !to_role && w.is_reply ==> got is ReplyToBot
                &&& set_up && !to_role && !w.is_reply && !there ==> got is NoSuchBot
                &&& set_up && !to_role && !w.is_reply && there ==> got is NotTheirTurn || got is Store || got is MissionRefused
                    || got is Queued
                &&& set_up && !to_role && !w.is_reply && there && w.mission_id is Some && !w.mission_open ==> !(got is Queued)
            }
            &&& !(got is Queued) ==> after.assignments == s.assignments
        }),
{
    let hit = assignments::with_crid(w.client_request_id);
    if 0 <= k < s.assignments.len() && s.assignments[k].supervisor_id == "AGM"@ && s.assignments[k].client_request_id
        == w.client_request_id && (forall|j: int|
        0 <= j < k ==> (#[trigger] s.assignments[j]).client_request_id != w.client_request_id) {
        table::first_at(s.assignments, hit, k);
    }
    if forall|j: int| 0 <= j < s.assignments.len() ==> (#[trigger] s.assignments[j]).client_request_id != w.client_request_id {
        table::first_of_none(s.assignments, hit);
    }
    a_bot_is_there(bots, w.target_bot_id);
}

/// A handover comes from the bot of the role that the caller proved, or from the manager's; nobody hands
/// work to themselves, and a role without a bot hands over nothing.
pub proof fn a_handover_comes_from_the_callers_bot(s: StoreView, w: WorkView, role: Role, manager_id: Seq<char>, now: Seq<char>)
    ensures
        ({
            let got = handing_over(s, w, role, manager_id, now).0;
            let itself = w.actor == Some(role) || (w.actor is None && role == Role::Patrol && w.target_bot_id == manager_id);
            &&& got is ToItself <==> itself
            &&& !itself && w.actor is None ==> got == Assigning::Handover { role, from: manager_id }
            &&& !itself && w.actor is Some && roles::registered(s, w.actor->0) is Some ==> got == Assigning::Handover {
                role,
                from: roles::registered(s, w.actor->0)->0,
            }
            &&& !itself && w.actor is Some && roles::registered(s, w.actor->0) is None ==> got is RoleWithoutBot
        }),
{
}

/// Work that is queued is one new row that says what was asked for: the bot, the words, the request id,
/// what it follows, whether anybody is to accept it, its mission, who decides on it, and exactly the
/// parts that were named as its own. Its parent points at it, and no other assignment changes.
pub proof fn queued_work_is_what_was_asked_for(
    s: StoreView,
    w: WorkView,
    ownership: Seq<Seq<char>>,
    talk: TalkView,
    bots: Seq<BotEntryView>,
    request_row: Seq<char>,
    id: Seq<char>,
    now: Seq<char>,
    i: int,
)
    requires
        assigning(s, w, ownership, talk, bots, request_row, id, now).0 is Queued,
    ensures
        ({
            let (got, after) = assigning(s, w, ownership, talk, bots, request_row, id, now);
            let row = got->row;
            &&& after.assignments.len() == s.assignments.len() + 1
            &&& after.assignments.last() == row
            &&& row.id == id
            &&& row.supervisor_id == "AGM"@
            &&& row.target_bot_id == w.target_bot_id
            &&& row.client_request_id == w.client_request_id
            &&& row.text == w.text
            &&& row.status == "queued"@
            &&& row.follow_up_of == w.follow_up_of
            &&& row.expects_review == if w.expects_review {
                1int
            } else {
                0int
            }
            &&& row.mission_id == w.mission_id && row.mission_role == w.mission_role
            &&& w.review_role is None ==> row.review_role is None
            &&& w.review_role == Some(Role::Patrol) ==> row.review_role == Some("patrol"@)
            &&& w.review_role == Some(Role::Responder) ==> row.review_role == Some("responder"@)
            &&& ownership.len() == 0 ==> row.ownership_json is None
            &&& ownership.len() > 0 ==> row.ownership_json == Some(json::json_list(ownership))
            &&& row.created_at == now && row.updated_at == now
            &&& row.turn_id is None && row.delivery is None && row.attempts == 0 && row.next_attempt_at is None
            &&& row.request_id is Some
            &&& after.requests.len() > 0
            &&& exists|r: int| 0 <= r < after.requests.len() && Some((#[trigger] after.requests[r]).id) == row.request_id
            &&& 0 <= i < s.assignments.len() ==> after.assignments[i] == if w.follow_up_of == Some(s.assignments[i].id) {
                AssignmentView { followup_assignment_id: Some(id), updated_at: now, ..s.assignments[i] }
            } else {
                s.assignments[i]
            }
            &&& forall|j: int| 0 <= j < s.assignments.len() ==> (#[trigger] s.assignments[j]).id != id
        }),
{
    let base = initialised(s, now);
    let read = roles::looked_up(base, w.target_bot_id, now);
    let asked = consulted(read, w.source_turn_id, w.actor, now);
    let o = origin_of(read, talk, base.supervisor->0.bot_id->0, w.source_turn_id, w.text, w.actor)->0;
    let (got, after) = requested(asked, request_row, o, now);
    let (made, end) = assigning(s, w, ownership, talk, bots, request_row, id, now);
    assert(end.requests == after.requests);
    assert(made->row.request_id == Some(got->Ok_0));
    let key = store::usable_key(o.key);
    if key is Some {
        table::first_is_a_hit(asked.requests, store::from_source(key->0));
    }
    if key is Some && table::first(asked.requests, store::from_source(key->0)) is Some {
        let r = choose|r: int|
            0 <= r < asked.requests.len() && asked.requests[r] == table::first(
                asked.requests,
                store::from_source(key->0),
            )->0;
        assert(Some(end.requests[r].id) == made->row.request_id);
    } else {
        assert(Some(end.requests[asked.requests.len() as int].id) == made->row.request_id);
    }
    let hit = assignments::with_id(id);
    assert forall|j: int| 0 <= j < s.assignments.len() implies (#[trigger] s.assignments[j]).id != id by {
        assert(!hit(after.assignments[j]));
    }
}

/// What somebody is told whose work was not handed out: faults of the request are answered as bad ones,
/// a bot that is not there as not found, what collides with something on record as a conflict that names
/// it, and a write that failed as a failure.
pub proof fn each_refusal_of_work_has_its_answer(a: Assigning, actor: Option<Role>, id: Seq<char>, bot: Seq<char>)
    ensures
        work_refusal(Assigning::EmptyRequestId, actor) == RefusalView::Bad("client_request_id must not be empty"@),
        work_refusal(Assigning::EmptyText, actor) == RefusalView::Bad("text must not be empty"@),
        work_refusal(Assigning::ToItself, actor) == RefusalView::Bad("the supervisor cannot assign work to itself"@),
        work_refusal(Assigning::ReplyToBot, actor) == RefusalView::Bad(
            "ack / reply_to only apply to a handover between AGM roles"@,
        ),
        work_refusal(Assigning::NoSuchBot, actor) == RefusalView::NotFound("bot"@),
        work_refusal(Assigning::NotTheirTurn, None) == RefusalView::Bad("source_turn_id is not a turn of "@ + "the supervisor"@),
        work_refusal(Assigning::NotTheirTurn, Some(Role::Patrol)) == RefusalView::Bad(
            "source_turn_id is not a turn of "@ + "patrol"@,
        ),
        work_refusal(Assigning::NotTheirTurn, Some(Role::Responder)) == RefusalView::Bad(
            "source_turn_id is not a turn of "@ + "responder"@,
        ),
        work_refusal(Assigning::MissionRefused, actor) is Failed,
        a is Store ==> work_refusal(a, actor) is Failed,
        work_refusal(Assigning::NotConfigured, actor) == (RefusalView::Conflict {
            message: "supervisor is not set up"@,
            detail: json::json_object(seq![("reason"@, json::FieldView::Str("not_configured"@))]),
        }),
        work_refusal(Assigning::RoleWithoutBot, actor) == (RefusalView::Conflict {
            message: "that AGM role has no bot"@,
            detail: json::json_object(seq![("reason"@, json::FieldView::Str("role_not_configured"@))]),
        }),
        work_refusal(Assigning::OtherBot { id, bot }, actor) == (RefusalView::Conflict {
            message: "client_request_id already used for another bot"@,
            detail: json::json_object(
                seq![("assignment_id"@, json::FieldView::Str(id)), ("target_bot_id"@, json::FieldView::Str(bot))],
            ),
        }),
        work_refusal(Assigning::OtherText { id }, actor) == (RefusalView::Conflict {
            message: "client_request_id already used with different text"@,
            detail: json::json_object(
                seq![("assignment_id"@, json::FieldView::Str(id)), ("reason"@, json::FieldView::Str("text_mismatch"@))],
            ),
        }),
        not_set_up() == work_refusal(Assigning::NotConfigured, actor),
{
}

/// A bot can be handed work unless it is a role's, and while it is there.
pub proof fn who_can_be_handed_work(s: StoreView, id: Seq<char>, bots: Seq<BotEntryView>)
    ensures
        ({
            let is_role = roles::registered(s, Role::Patrol) == Some(id) || roles::registered(s, Role::Responder) == Some(id);
            let there = exists|i: int| 0 <= i < bots.len() && (#[trigger] bots[i]).id == id && bots[i].live;
            &&& assignable(s, id, bots) is Ok <==> !is_role && there
            &&& assignable(s, id, bots) == Err::<(), NotAssignable>(NotAssignable::IsRole) <==> is_role
        }),
        NotAssignable::IsRole.answer() is Bad,
        NotAssignable::NoSuchBot.answer() == RefusalView::NotFound("bot"@),
{
    a_bot_is_there(bots, id);
}

/// The word for the manager: that it is not set up, else the state that sticks, else what its run looks
/// like.
pub proof fn a_state_that_sticks_comes_first(configured: bool, status: Seq<char>, run: Seq<char>)
    ensures
        !configured ==> status_word(configured, status, run) == "not_configured"@,
        configured && status.len() > 0 ==> status_word(configured, status, run) == status,
        configured && status.len() == 0 ==> status_word(configured, status, run) == run,
{
    reveal_strlit("");
    assert(status.len() == 0 ==> status =~= ""@);
}

/// What is owed is the open work and the events that nobody acked, up to the largest number there is.
pub proof fn what_is_owed_is_shown(s: StoreView)
    ensures
        assignments::pending_total(s) <= u64::MAX ==> owed(s) == assignments::pending_total(s),
        assignments::pending_total(s) > u64::MAX ==> owed(s) == u64::MAX,
{
}

/// A project is shown with its id, label, path and host.
pub proof fn a_project_is_shown_whole(v: ProjectInfoView)
    ensures
        ({
            let m = project_members(v);
            &&& m.len() == 4
            &&& m.contains(("id"@, json::FieldView::Str(v.id)))
            &&& m.contains(("label"@, json::FieldView::Str(v.label)))
            &&& m.contains(("path"@, json::FieldView::Str(v.path)))
            &&& m.contains(("host"@, json::FieldView::Str(v.host)))
        }),
{
    let m = project_members(v);
    assert(m[0].0 == "id"@);
    assert(m[1].0 == "label"@);
    assert(m[2].0 == "path"@);
    assert(m[3].0 == "host"@);
}

/// A run is shown with each of its parts under its own name.
pub proof fn a_run_is_shown_whole(v: RunInfoView)
    ensures
        ({
            let m = run_members(v);
            let text_or_null = |o: Option<Seq<char>>|
                match o {
                    Some(x) => json::FieldView::Str(x),
                    None => json::FieldView::Null,
                };
            &&& m.len() == 9
            &&& m.contains(("id"@, json::FieldView::Str(v.id)))
            &&& m.contains(("state"@, json::FieldView::Str(v.state)))
            &&& m.contains(("agent_status"@, json::FieldView::Str(v.agent_status)))
            &&& m.contains(("agent_title"@, text_or_null(v.agent_title)))
            &&& m.contains(("native_session_id"@, text_or_null(v.native_session_id)))
            &&& m.contains(("runtime_model"@, text_or_null(v.runtime_model)))
            &&& m.contains(("runtime_effort"@, text_or_null(v.runtime_effort)))
            &&& m.contains(("pane_id"@, text_or_null(v.pane_id)))
            &&& m.contains(("started_at"@, json::FieldView::Str(v.started_at)))
        }),
{
    let m = run_members(v);
    assert(m[0].0 == "id"@);
    assert(m[1].0 == "state"@);
    assert(m[2].0 == "agent_status"@);
    assert(m[3].0 == "agent_title"@);
    assert(m[4].0 == "native_session_id"@);
    assert(m[5].0 == "runtime_model"@);
    assert(m[6].0 == "runtime_effort"@);
    assert(m[7].0 == "pane_id"@);
    assert(m[8].0 == "started_at"@);
}

/// A bot is shown with its parts, the part that it plays for the supervisor, its host and whether that is
/// connected, and its run.
pub proof fn a_bot_is_shown_with_its_part(v: BotInfoView, s: StoreView, projects: Seq<ProjectInfoView>, connected: Seq<Seq<char>>)
    ensures
        ({
            let m = bot_members(v, s, projects, connected);
            let text_or_null = |o: Option<Seq<char>>|
                match o {
                    Some(x) => json::FieldView::Str(x),
                    None => json::FieldView::Null,
                };
            &&& m.len() == 16
            &&& m.contains(("id"@, json::FieldView::Str(v.id)))
            &&& m.contains(("project_id"@, json::FieldView::Str(v.project_id)))
            &&& m.contains(("name"@, json::FieldView::Str(v.name)))
            &&& m.contains(("kind"@, json::FieldView::Str(v.kind)))
            &&& m.contains(("model"@, text_or_null(v.model)))
            &&& m.contains(("effort"@, text_or_null(v.effort)))
            &&& m.contains(("identity"@, text_or_null(v.identity)))
            &&& m.contains(("managed_by"@, json::FieldView::Str(v.managed_by)))
            &&& m.contains(("parent_bot_id"@, text_or_null(v.parent_bot_id)))
            &&& m.contains(("is_supervisor"@, json::FieldView::Bool(role_of(s, v.id) is Some)))
            &&& m.contains(("supervisor_role"@, text_or_null(role_name(s, v.id))))
            &&& m.contains(("cwd"@, text_or_null(v.cwd)))
            &&& m.contains(("host"@, text_or_null(host_of(projects, v.project_id))))
            &&& m.contains(
                (
                    "host_connected"@,
                    match host_of(projects, v.project_id) { Some(h) => json::FieldView::Bool(connected.contains(h)), None => json::FieldView::Null, },
                ),
            )
            &&& m.contains(("queued_turns"@, json::FieldView::Int(v.queued_turns)))
            &&& m.contains(
                (
                    "run"@,
                    match v.run { Some(r) => json::FieldView::Json(json::json_object(run_members(r))), None => json::FieldView::Null, },
                ),
            )
        }),
{
    let m = bot_members(v, s, projects, connected);
    assert(m[0].0 == "id"@);
    assert(m[1].0 == "project_id"@);
    assert(m[2].0 == "name"@);
    assert(m[3].0 == "kind"@);
    assert(m[4].0 == "model"@);
    assert(m[5].0 == "effort"@);
    assert(m[6].0 == "identity"@);
    assert(m[7].0 == "managed_by"@);
    assert(m[8].0 == "parent_bot_id"@);
    assert(m[9].0 == "is_supervisor"@);
    assert(m[10].0 == "supervisor_role"@);
    assert(m[11].0 == "cwd"@);
    assert(m[12].0 == "host"@);
    assert(m[13].0 == "host_connected"@);
    assert(m[14].0 == "queued_turns"@);
    assert(m[15].0 == "run"@);
}

/// What the manager is shown of the world: the projects, the bots, what is owed, what waits in the inbox, and
/// what is wrong.
pub proof fn the_state_is_shown_list_by_list(s: StoreView, projects: Seq<ProjectInfoView>, connected: Seq<Seq<char>>, bots: Seq<BotInfoView>)
    ensures
        ({
            let m = state_members(s, projects, connected, bots);
            &&& m.len() == 6
            &&& m.contains(("supervisor_id"@, json::FieldView::Str("AGM"@)))
            &&& m.contains(("projects"@, json::FieldView::Json(json::json_array(project_texts(projects)))))
            &&& m.contains(("bots"@, json::FieldView::Json(json::json_array(bot_texts(bots, s, projects, connected)))))
            &&& m.contains(
                (
                    "open_assignments"@,
                    json::FieldView::Json(json::json_array(render::assignment_texts(assignments::unsettled_list(s.assignments)))),
                ),
            )
            &&& m.contains(
                (
                    "pending_inbox"@,
                    json::FieldView::Json(json::json_array(render::event_texts(inbox::pending_list(s.inbox)))),
                ),
            )
            &&& m.contains(
                (
                    "open_incidents"@,
                    json::FieldView::Json(json::json_array(render::incident_texts(incidents::open_list(s.incidents)))),
                ),
            )
        }),
{
    let m = state_members(s, projects, connected, bots);
    assert(m[0].0 == "supervisor_id"@);
    assert(m[1].0 == "projects"@);
    assert(m[2].0 == "bots"@);
    assert(m[3].0 == "open_assignments"@);
    assert(m[4].0 == "pending_inbox"@);
    assert(m[5].0 == "open_incidents"@);
}

/// The manager is shown with its row, what is seen of its bot, and its fifty latest assignments.
pub proof fn the_manager_is_shown_whole(s: StoreView, v: SupervisorView, patrol: RoleRowView, pending: u64, f: ManagerFactsView)
    ensures
        ({
            let m = status_members(s, v, patrol, pending, f);
            let text_or_null = |o: Option<Seq<char>>|
                match o {
                    Some(x) => json::FieldView::Str(x),
                    None => json::FieldView::Null,
                };
            &&& m.len() == 20
            &&& m.contains(("configured"@, json::FieldView::Bool(f.bot_id is Some)))
            &&& m.contains(("bot_id"@, text_or_null(f.bot_id)))
            &&& m.contains(("project_id"@, text_or_null(f.project_id)))
            &&& m.contains(("model"@, json::FieldView::Str(v.active_model)))
            &&& m.contains(("model_arg"@, json::FieldView::Str(setup::alias_of(v.active_model))))
            &&& m.contains(("identity"@, json::FieldView::Str(v.identity)))
            &&& m.contains(("effort"@, json::FieldView::Str(v.effort)))
            &&& m.contains(("status"@, json::FieldView::Str(status_word(f.bot_id is Some, v.status, f.liveness))))
            &&& m.contains(("status_detail"@, text_or_null(v.status_detail)))
            &&& m.contains(("generation"@, json::FieldView::Int(v.generation)))
            &&& m.contains(("cwd"@, text_or_null(v.cwd)))
            &&& m.contains(("quota_reset_at"@, text_or_null(v.quota_reset_at)))
            &&& m.contains(("remote"@, json::FieldView::Json(f.remote)))
            &&& m.contains(("pending_count"@, json::FieldView::Count(pending)))
            &&& m.contains(
                (
                    "assignments"@,
                    json::FieldView::Json(json::json_array(render::assignment_texts(assignments::latest(s.assignments, 50)))),
                ),
            )
            &&& m.contains(("role"@, json::FieldView::Str("patrol"@)))
            &&& m.contains(("remote_provider"@, json::FieldView::Str("patrol"@)))
            &&& m.contains(("stats"@, json::FieldView::Json(json::json_object(render::stats_members(patrol)))))
            &&& m.contains(("responder"@, json::FieldView::Json(f.responder)))
            &&& m.contains(("last_deploy"@, json::FieldView::Json(f.last_deploy)))
        }),
{
    let m = status_members(s, v, patrol, pending, f);
    assert(m[0].0 == "configured"@);
    assert(m[1].0 == "bot_id"@);
    assert(m[2].0 == "project_id"@);
    assert(m[3].0 == "model"@);
    assert(m[4].0 == "model_arg"@);
    assert(m[5].0 == "identity"@);
    assert(m[6].0 == "effort"@);
    assert(m[7].0 == "status"@);
    assert(m[8].0 == "status_detail"@);
    assert(m[9].0 == "generation"@);
    assert(m[10].0 == "cwd"@);
    assert(m[11].0 == "quota_reset_at"@);
    assert(m[12].0 == "remote"@);
    assert(m[13].0 == "pending_count"@);
    assert(m[14].0 == "assignments"@);
    assert(m[15].0 == "role"@);
    assert(m[16].0 == "remote_provider"@);
    assert(m[17].0 == "stats"@);
    assert(m[18].0 == "responder"@);
    assert(m[19].0 == "last_deploy"@);
}

/// What came of handing out work is what was answered.
pub proof fn what_came_of_handing_out_is_what_was_answered(res: Result<Assigned, AssignError>)
    ensures
        ({
            let a = result_of(res);
            &&& res is Ok <==> (a is Known || a is Handover || a is Queued)
            &&& res matches Ok(Assigned::Known(x)) ==> a == Assigning::Known(x@)
            &&& res matches Ok(Assigned::Handover { role, from }) ==> a == (Assigning::Handover { role, from: from@ })
            &&& res matches Ok(Assigned::Queued { assignment, conflicts }) ==> a == (Assigning::Queued {
                row: assignment@,
                conflicts: table::views(conflicts@),
            })
            &&& res matches Err(e) ==> {
                &&& a is EmptyRequestId <==> e is EmptyRequestId
                &&& a is EmptyText <==> e is EmptyText
                &&& a is OtherBot <==> e is OtherBot
                &&& a is OtherText <==> e is OtherText
                &&& a is NotConfigured <==> e is NotConfigured
                &&& a is ToItself <==> e is ToItself
                &&& a is RoleWithoutBot <==> e is RoleWithoutBot
                &&& a is ReplyToBot <==> e is ReplyToBot
                &&& a is NoSuchBot <==> e is NoSuchBot
                &&& a is NotTheirTurn <==> e is NotTheirTurn
                &&& a is MissionRefused <==> e is MissionRefused
                &&& a is Store <==> e is Store
                &&& e matches AssignError::OtherBot { assignment_id, target_bot_id } ==> a == (Assigning::OtherBot {
                    id: assignment_id@,
                    bot: target_bot_id@,
                })
            }
        }),
{
}

/// The manager's bot is the one on its row, while that bot is there.
pub proof fn the_manager_is_the_bot_on_its_row(s: StoreView, bots: Seq<BotEntryView>, id: Seq<char>)
    ensures
        manager_of(s, bots) == Some(id) <==> s.supervisor is Some && s.supervisor->0.bot_id == Some(id) && exists|j: int|
            0 <= j < bots.len() && (#[trigger] bots[j]).id == id && bots[j].live,
{
    let live = live_bot(id);
    if table::any(bots, live) {
        let j = choose|j: int| 0 <= j < bots.len() && live(#[trigger] bots[j]);
        assert(bots[j].id == id);
    } else {
        assert forall|j: int| 0 <= j < bots.len() implies !live(#[trigger] bots[j]) by {}
    }
}

/// Asking who somebody is, or what an assignment rests on, changes nothing where the rows of both roles are
/// there; where one is not, it is made, and nothing else changes.
pub proof fn asking_changes_nothing(
    s: StoreView,
    bot_id: Seq<char>,
    source_turn_id: Option<Seq<char>>,
    actor: Option<Role>,
    now: Seq<char>,
)
    ensures
        ({
            let a = initialised(s, now);
            let b = roles::looked_up(s, bot_id, now);
            let c = consulted(s, source_turn_id, actor, now);
            let there = s.supervisor is Some && exists|k: int|
                0 <= k < s.roles.len() && (#[trigger] s.roles[k]).role == "responder"@;
            &&& s.supervisor is Some ==> a == s
            &&& a.supervisor is Some && a == (StoreView { supervisor: a.supervisor, ..s })
            &&& there ==> b == s && c == s
            &&& b == (StoreView { supervisor: b.supervisor, roles: b.roles, ..s })
            &&& c == (StoreView { supervisor: c.supervisor, roles: c.roles, ..s })
            &&& s.supervisor is Some ==> b.supervisor == s.supervisor && c.supervisor == s.supervisor
            &&& s.roles.is_prefix_of(b.roles) && b.roles.len() <= s.roles.len() + 1
            &&& s.roles.is_prefix_of(c.roles) && c.roles.len() <= s.roles.len() + 1
        }),
{
    let hit = roles::of_role(Role::Responder);
    if exists|k: int| 0 <= k < s.roles.len() && (#[trigger] s.roles[k]).role == "responder"@ {
        let k = choose|k: int| 0 <= k < s.roles.len() && (#[trigger] s.roles[k]).role == "responder"@;
        assert(hit(s.roles[k]));
    }
    let grown = roles::with_role(s.roles, Role::Responder, now);
    if !table::any(s.roles, hit) {
        assert(hit(grown[s.roles.len() as int]));
    }
    assert(roles::with_role(grown, Role::Responder, now) == grown);
    assert(grown.subrange(0, s.roles.len() as int) =~= s.roles);
    assert(s.roles.subrange(0, s.roles.len() as int) =~= s.roles);
}

} // verus!
