//! Databases from before a column existed: which columns to add, and what their old rows hold in it.
use crate::role_inbox;
use crate::rows::{Assignment, AssignmentView, Supervisor, SupervisorView};
use crate::store;
use crate::store::{Store, StoreView};
use crate::table;
use crate::table::Row;
use crate::text;
use vstd::prelude::*;

verus! {

/// A column that a table did not have from the start.
#[derive(Debug, Clone, Copy)]
pub struct Column {
    pub table: &'static str,
    pub name: &'static str,
    /// Its type, and its default where it has one.
    pub kind: &'static str,
}

#[verifier::ext_equal]
pub struct ColumnView {
    pub table: Seq<char>,
    pub name: Seq<char>,
    pub kind: Seq<char>,
}

impl View for Column {
    type V = ColumnView;

    open spec fn view(&self) -> ColumnView {
        ColumnView { table: self.table@, name: self.name@, kind: self.kind@ }
    }
}

impl Row for Column {
    fn copied(&self) -> (r: Self) {
        Column { table: self.table, name: self.name, kind: self.kind }
    }
}

/// The statement that adds a column.
pub open spec fn addition(c: ColumnView) -> Seq<char> {
    "ALTER TABLE "@ + c.table + " ADD COLUMN "@ + c.name + " "@ + c.kind
}

impl Column {
    pub fn statement(&self) -> (r: String)
        ensures
            r@ == addition(self@),
    {
        let mut s = text::joined("ALTER TABLE ", self.table);
        s = text::joined(s.as_str(), " ADD COLUMN ");
        s = text::joined(s.as_str(), self.name);
        s = text::joined(s.as_str(), " ");
        text::joined(s.as_str(), self.kind)
    }
}

/// Columns that an index among the table definitions uses.
pub open spec fn columns_before_tables_spec() -> Seq<ColumnView> {
    seq![
        ColumnView { table: "supervisor_approvals"@, name: "client_request_id"@, kind: "TEXT"@ },
        ColumnView { table: "supervisor_leases"@, name: "lease_token"@, kind: "TEXT"@ },
    ]
}

/// Columns of the tables that are always there.
pub open spec fn columns_after_tables_spec() -> Seq<ColumnView> {
    seq![
        ColumnView { table: "supervisor_approvals"@, name: "wait_since"@, kind: "TEXT"@ },
        ColumnView { table: "supervisor_approvals"@, name: "request_reason"@, kind: "TEXT"@ },
        ColumnView { table: "supervisors"@, name: "desired_running"@, kind: "INTEGER NOT NULL DEFAULT 0"@ },
        ColumnView { table: "supervisors"@, name: "watchdog_attempts"@, kind: "INTEGER NOT NULL DEFAULT 0"@ },
        ColumnView { table: "supervisors"@, name: "watchdog_next_at"@, kind: "TEXT"@ },
        ColumnView { table: "supervisors"@, name: "last_notify_at"@, kind: "TEXT"@ },
        ColumnView { table: "supervisors"@, name: "persona_text"@, kind: "TEXT"@ },
        ColumnView { table: "supervisors"@, name: "persona_version"@, kind: "INTEGER NOT NULL DEFAULT 0"@ },
        ColumnView { table: "supervisors"@, name: "persona_hash"@, kind: "TEXT"@ },
        ColumnView { table: "supervisors"@, name: "persona_source"@, kind: "TEXT"@ },
        ColumnView { table: "supervisors"@, name: "persona_updated_at"@, kind: "TEXT"@ },
        ColumnView { table: "supervisors"@, name: "persona_seed_hash"@, kind: "TEXT"@ },
        ColumnView { table: "supervisors"@, name: "remote_source"@, kind: "TEXT"@ },
        ColumnView { table: "supervisors"@, name: "remote_observed_at"@, kind: "TEXT"@ },
        ColumnView { table: "supervisors"@, name: "remote_session_id"@, kind: "TEXT"@ },
        ColumnView { table: "supervisors"@, name: "remote_actor"@, kind: "TEXT"@ },
        ColumnView { table: "supervisors"@, name: "remote_evidence"@, kind: "TEXT"@ },
        ColumnView { table: "supervisors"@, name: "watchdog_gave_up_at"@, kind: "TEXT"@ },
        ColumnView { table: "supervisors"@, name: "watchdog_last_error"@, kind: "TEXT"@ },
        ColumnView { table: "supervisor_assignments"@, name: "turn_status"@, kind: "TEXT"@ },
        ColumnView { table: "supervisor_assignments"@, name: "evidence_complete"@, kind: "INTEGER"@ },
        ColumnView { table: "supervisor_assignments"@, name: "reviewed_at"@, kind: "TEXT"@ },
        ColumnView { table: "supervisor_assignments"@, name: "reviewed_by"@, kind: "TEXT"@ },
        ColumnView { table: "supervisor_assignments"@, name: "review_decision"@, kind: "TEXT"@ },
        ColumnView { table: "supervisor_assignments"@, name: "review_reason"@, kind: "TEXT"@ },
        ColumnView { table: "supervisor_assignments"@, name: "followup_assignment_id"@, kind: "TEXT"@ },
        ColumnView { table: "supervisor_assignments"@, name: "follow_up_of"@, kind: "TEXT"@ },
        ColumnView { table: "supervisor_assignments"@, name: "legacy_closed"@, kind: "INTEGER NOT NULL DEFAULT 0"@ },
        ColumnView { table: "supervisor_assignments"@, name: "ownership_json"@, kind: "TEXT"@ },
        ColumnView { table: "supervisor_assignments"@, name: "expects_review"@, kind: "INTEGER NOT NULL DEFAULT 1"@ },
        ColumnView { table: "supervisor_assignments"@, name: "resume_at"@, kind: "TEXT"@ },
        ColumnView { table: "supervisor_assignments"@, name: "quota_retries"@, kind: "INTEGER NOT NULL DEFAULT 0"@ },
        ColumnView { table: "supervisor_assignments"@, name: "mission_id"@, kind: "TEXT"@ },
        ColumnView { table: "supervisor_assignments"@, name: "mission_role"@, kind: "TEXT"@ },
        ColumnView { table: "supervisor_assignments"@, name: "turn_error"@, kind: "TEXT"@ },
        ColumnView { table: "supervisor_assignments"@, name: "conflict_since"@, kind: "TEXT"@ },
        ColumnView { table: "supervisor_inbox"@, name: "notify_delivery"@, kind: "TEXT"@ },
        ColumnView { table: "supervisor_inbox"@, name: "notify_attempts"@, kind: "INTEGER NOT NULL DEFAULT 0"@ },
        ColumnView { table: "supervisor_inbox"@, name: "notify_next_at"@, kind: "TEXT"@ },
        ColumnView { table: "supervisor_inbox"@, name: "notify_error"@, kind: "TEXT"@ },
        ColumnView { table: "supervisor_inbox"@, name: "delivered_at"@, kind: "TEXT"@ },
        ColumnView { table: "supervisor_inbox"@, name: "role"@, kind: "TEXT"@ },
        ColumnView { table: "supervisor_inbox"@, name: "wake"@, kind: "INTEGER"@ },
        ColumnView { table: "supervisor_inbox"@, name: "acked_by"@, kind: "TEXT"@ },
        ColumnView { table: "supervisor_inbox"@, name: "merged_into"@, kind: "TEXT"@ },
        ColumnView { table: "supervisor_inbox"@, name: "claimed_by"@, kind: "TEXT"@ },
        ColumnView { table: "supervisor_assignments"@, name: "review_role"@, kind: "TEXT"@ },
    ]
}

/// Columns of the table of roles.
pub open spec fn columns_after_roles_spec() -> Seq<ColumnView> {
    seq![
        ColumnView { table: "supervisor_roles"@, name: "waiting_since"@, kind: "TEXT"@ },
    ]
}

/// To be added, where their table is there, before the tables are defined.
pub fn columns_before_tables() -> (r: Vec<Column>)
    ensures
        table::views(r@) == columns_before_tables_spec(),
{
    let r = vec![
        Column { table: "supervisor_approvals", name: "client_request_id", kind: "TEXT" },
        Column { table: "supervisor_leases", name: "lease_token", kind: "TEXT" },
    ];
    assert(table::views(r@) =~= columns_before_tables_spec());
    r
}

/// To be added once the tables are defined.
pub fn columns_after_tables() -> (r: Vec<Column>)
    ensures
        table::views(r@) == columns_after_tables_spec(),
{
    let r = vec![
        Column { table: "supervisor_approvals", name: "wait_since", kind: "TEXT" },
        Column { table: "supervisor_approvals", name: "request_reason", kind: "TEXT" },
        Column { table: "supervisors", name: "desired_running", kind: "INTEGER NOT NULL DEFAULT 0" },
        Column { table: "supervisors", name: "watchdog_attempts", kind: "INTEGER NOT NULL DEFAULT 0" },
        Column { table: "supervisors", name: "watchdog_next_at", kind: "TEXT" },
        Column { table: "supervisors", name: "last_notify_at", kind: "TEXT" },
        Column { table: "supervisors", name: "persona_text", kind: "TEXT" },
        Column { table: "supervisors", name: "persona_version", kind: "INTEGER NOT NULL DEFAULT 0" },
        Column { table: "supervisors", name: "persona_hash", kind: "TEXT" },
        Column { table: "supervisors", name: "persona_source", kind: "TEXT" },
        Column { table: "supervisors", name: "persona_updated_at", kind: "TEXT" },
        Column { table: "supervisors", name: "persona_seed_hash", kind: "TEXT" },
        Column { table: "supervisors", name: "remote_source", kind: "TEXT" },
        Column { table: "supervisors", name: "remote_observed_at", kind: "TEXT" },
        Column { table: "supervisors", name: "remote_session_id", kind: "TEXT" },
        Column { table: "supervisors", name: "remote_actor", kind: "TEXT" },
        Column { table: "supervisors", name: "remote_evidence", kind: "TEXT" },
        Column { table: "supervisors", name: "watchdog_gave_up_at", kind: "TEXT" },
        Column { table: "supervisors", name: "watchdog_last_error", kind: "TEXT" },
        Column { table: "supervisor_assignments", name: "turn_status", kind: "TEXT" },
        Column { table: "supervisor_assignments", name: "evidence_complete", kind: "INTEGER" },
        Column { table: "supervisor_assignments", name: "reviewed_at", kind: "TEXT" },
        Column { table: "supervisor_assignments", name: "reviewed_by", kind: "TEXT" },
        Column { table: "supervisor_assignments", name: "review_decision", kind: "TEXT" },
        Column { table: "supervisor_assignments", name: "review_reason", kind: "TEXT" },
        Column { table: "supervisor_assignments", name: "followup_assignment_id", kind: "TEXT" },
        Column { table: "supervisor_assignments", name: "follow_up_of", kind: "TEXT" },
        Column { table: "supervisor_assignments", name: "legacy_closed", kind: "INTEGER NOT NULL DEFAULT 0" },
        Column { table: "supervisor_assignments", name: "ownership_json", kind: "TEXT" },
        Column { table: "supervisor_assignments", name: "expects_review", kind: "INTEGER NOT NULL DEFAULT 1" },
        Column { table: "supervisor_assignments", name: "resume_at", kind: "TEXT" },
        Column { table: "supervisor_assignments", name: "quota_retries", kind: "INTEGER NOT NULL DEFAULT 0" },
        Column { table: "supervisor_assignments", name: "mission_id", kind: "TEXT" },
        Column { table: "supervisor_assignments", name: "mission_role", kind: "TEXT" },
        Column { table: "supervisor_assignments", name: "turn_error", kind: "TEXT" },
        Column { table: "supervisor_assignments", name: "conflict_since", kind: "TEXT" },
        Column { table: "supervisor_inbox", name: "notify_delivery", kind: "TEXT" },
        Column { table: "supervisor_inbox", name: "notify_attempts", kind: "INTEGER NOT NULL DEFAULT 0" },
        Column { table: "supervisor_inbox", name: "notify_next_at", kind: "TEXT" },
        Column { table: "supervisor_inbox", name: "notify_error", kind: "TEXT" },
        Column { table: "supervisor_inbox", name: "delivered_at", kind: "TEXT" },
        Column { table: "supervisor_inbox", name: "role", kind: "TEXT" },
        Column { table: "supervisor_inbox", name: "wake", kind: "INTEGER" },
        Column { table: "supervisor_inbox", name: "acked_by", kind: "TEXT" },
        Column { table: "supervisor_inbox", name: "merged_into", kind: "TEXT" },
        Column { table: "supervisor_inbox", name: "claimed_by", kind: "TEXT" },
        Column { table: "supervisor_assignments", name: "review_role", kind: "TEXT" },
    ];
    assert(table::views(r@) =~= columns_after_tables_spec());
    r
}

/// To be added once the table of roles is defined.
pub fn columns_after_roles() -> (r: Vec<Column>)
    ensures
        table::views(r@) == columns_after_roles_spec(),
{
    let r = vec![
        Column { table: "supervisor_roles", name: "waiting_since", kind: "TEXT" },
    ];
    assert(table::views(r@) =~= columns_after_roles_spec());
    r
}

/// A column that a database has.
pub struct Present {
    pub table: String,
    pub name: String,
}

#[verifier::ext_equal]
pub struct PresentView {
    pub table: Seq<char>,
    pub name: Seq<char>,
}

impl View for Present {
    type V = PresentView;

    open spec fn view(&self) -> PresentView {
        PresentView { table: self.table@, name: self.name@ }
    }
}

pub open spec fn of_table(name: Seq<char>) -> spec_fn(PresentView) -> bool {
    |p: PresentView| p.table == name
}

pub open spec fn is_column(c: ColumnView) -> spec_fn(PresentView) -> bool {
    |p: PresentView| p.table == c.table && p.name == c.name
}

/// The table is there and lacks the column.
pub open spec fn lacking(present: Seq<PresentView>) -> spec_fn(ColumnView) -> bool {
    |c: ColumnView| table::any(present, of_table(c.table)) && !table::any(present, is_column(c))
}

/// Which of the columns are to be added, in order.
pub fn missing(wanted: &Vec<Column>, present: &Vec<Present>) -> (r: Vec<Column>)
    ensures
        table::views(r@) == table::views(wanted@).filter(lacking(table::views(present@))),
{
    let ghost here = table::views(present@);
    table::select(wanted, |c: &Column| -> (b: bool)
        ensures b == (lacking(here))(c@)
        { is_lacking(c, present) }, Ghost(lacking(here)))
}

fn is_lacking(c: &Column, present: &Vec<Present>) -> (r: bool)
    ensures
        r == (lacking(table::views(present@)))(c@),
{
    let ghost here = table::views(present@);
    let t = table::locate(present, |p: &Present| -> (b: bool)
        ensures b == (of_table(c@.table))(p@)
        { text::same(p.table.as_str(), c.table) }, Ghost(of_table(c@.table)));
    let i = table::locate(present, |p: &Present| -> (b: bool)
        ensures b == (is_column(c@))(p@)
        { text::same(p.table.as_str(), c.table) && text::same(p.name.as_str(), c.name) }, Ghost(is_column(c@)));
    proof {
        table::position_is_first(here, of_table(c@.table));
        table::position_is_first(here, is_column(c@));
    }
    t < present.len() && i == present.len()
}

// ---------------------------------------------------------------- old rows

/// A manager that was started before anybody could say whether it should run was never told to stop.
pub open spec fn still_wanted() -> spec_fn(SupervisorView) -> SupervisorView {
    |r: SupervisorView|
        if r.bot_id is Some && r.generation > 0 {
            SupervisorView { desired_running: 1, ..r }
        } else {
            r
        }
}

/// Work that was closed when its turn ended, without anybody accepting it.
pub open spec fn closed_unaccepted() -> spec_fn(AssignmentView) -> bool {
    |a: AssignmentView| a.status == "completed"@ || a.status == "failed"@ || a.status == "cancelled"@
}

pub open spec fn marked_legacy() -> spec_fn(AssignmentView) -> AssignmentView {
    |a: AssignmentView| (AssignmentView { legacy_closed: 1, ..a })
}

/// Work whose turn ended well: that fact is recoverable, the acceptance is not.
pub open spec fn turn_ended_well() -> spec_fn(AssignmentView) -> bool {
    |a: AssignmentView| a.status == "completed"@
}

pub open spec fn with_ended_turn() -> spec_fn(AssignmentView) -> AssignmentView {
    |a: AssignmentView| (AssignmentView { turn_status: Some("completed"@), ..a })
}

/// The store after a column was added: what the rows from before it hold.
pub open spec fn filled(s: StoreView, c: ColumnView) -> StoreView {
    if c.table == "supervisors"@ && c.name == "desired_running"@ {
        store::with_supervisor(s, still_wanted())
    } else if c.table == "supervisor_assignments"@ && c.name == "legacy_closed"@ {
        StoreView { assignments: table::changed(s.assignments, closed_unaccepted(), marked_legacy()), ..s }
    } else if c.table == "supervisor_assignments"@ && c.name == "turn_status"@ {
        StoreView { assignments: table::changed(s.assignments, turn_ended_well(), with_ended_turn()), ..s }
    } else if c.table == "supervisor_inbox"@ && c.name == "claimed_by"@ {
        StoreView {
            inbox: table::changed(s.inbox, role_inbox::sent_unclaimed(), role_inbox::claimed_as(Some("patrol"@))),
            ..s
        }
    } else {
        s
    }
}

pub fn backfill(s: &mut Store, added: &Column)
    ensures
        final(s)@ == filled(old(s)@, added@),
{
    if text::same(added.table, "supervisors") && text::same(added.name, "desired_running") {
        if let Some(r) = s.supervisor.take() {
            let wanted: i64 = if r.bot_id.is_some() && r.generation > 0 {
                1
            } else {
                r.desired_running
            };
            s.supervisor = Some(Supervisor { desired_running: wanted, ..r });
        }
        assert(s@ == store::with_supervisor(old(s)@, still_wanted()));
    } else if text::same(added.table, "supervisor_assignments") && text::same(added.name, "legacy_closed") {
        let _ = table::change(
            &mut s.assignments,
            |a: &Assignment| -> (b: bool)
                ensures b == (closed_unaccepted())(a@)
                {
                    text::same(a.status.as_str(), "completed") || text::same(a.status.as_str(), "failed") || text::same(
                        a.status.as_str(),
                        "cancelled",
                    )
                },
            |a: &Assignment| -> (x: Assignment)
                ensures x@ == (marked_legacy())(a@)
                { Assignment { legacy_closed: 1, ..a.copied() } },
            Ghost(closed_unaccepted()),
            Ghost(marked_legacy()),
        );
    } else if text::same(added.table, "supervisor_assignments") && text::same(added.name, "turn_status") {
        let _ = table::change(
            &mut s.assignments,
            |a: &Assignment| -> (b: bool)
                ensures b == (turn_ended_well())(a@)
                { text::same(a.status.as_str(), "completed") },
            |a: &Assignment| -> (x: Assignment)
                ensures x@ == (with_ended_turn())(a@)
                { Assignment { turn_status: Some("completed".to_owned()), ..a.copied() } },
            Ghost(turn_ended_well()),
            Ghost(with_ended_turn()),
        );
    } else if text::same(added.table, "supervisor_inbox") && text::same(added.name, "claimed_by") {
        let _ = role_inbox::backfill_claims(s);
    }
}

/// The store after some columns were added, one after the other.
pub open spec fn filled_all(s: StoreView, added: Seq<ColumnView>) -> StoreView
    decreases added.len(),
{
    if added.len() == 0 {
        s
    } else {
        filled(filled_all(s, added.drop_last()), added.last())
    }
}

/// The store after an upgrade.
pub open spec fn migrated(s: StoreView, added: Seq<ColumnView>) -> StoreView {
    let f = filled_all(s, added);
    StoreView {
        inbox: table::changed(f.inbox, role_inbox::claimed_unsent(), role_inbox::claimed_as(None)),
        ..f
    }
}

/// Upgrade the rows after these columns were added. With nothing added it only mends claims that were
/// recorded wrongly.
pub fn migrate(s: &mut Store, added: &Vec<Column>)
    ensures
        final(s)@ == migrated(old(s)@, table::views(added@)),
{
    let mut i: usize = 0;
    assert(table::views(added@).take(0) =~= Seq::empty());
    while i < added.len()
        invariant
            i <= added.len(),
            s@ == filled_all(old(s)@, table::views(added@).take(i as int)),
        decreases added.len() - i,
    {
        assert(table::views(added@).take(i as int + 1).drop_last() =~= table::views(added@).take(i as int));
        backfill(s, &added[i]);
        i += 1;
    }
    assert(table::views(added@).take(i as int) =~= table::views(added@));
    let _ = role_inbox::repair_unsent_patrol_claims(s);
}

// ---------------------------------------------------------------- laws

/// Once the missing columns are there, none is missing any more.
pub proof fn nothing_is_added_twice(wanted: Seq<ColumnView>, present: Seq<PresentView>, c: ColumnView)
    requires
        wanted.filter(lacking(present)).contains(c),
    ensures
        !(lacking(
            present + wanted.filter(lacking(present)).map_values(
                |c: ColumnView| PresentView { table: c.table, name: c.name },
            ),
        ))(c),
{
    let added = wanted.filter(lacking(present));
    let names = added.map_values(|c: ColumnView| PresentView { table: c.table, name: c.name });
    let i = choose|i: int| 0 <= i < added.len() && added[i] == c;
    assert((is_column(c))((present + names)[present.len() + i]));
}

/// Upgrading again, when no column is left to add, changes nothing.
pub proof fn migrating_again_changes_nothing(s: StoreView, added: Seq<ColumnView>)
    ensures
        migrated(migrated(s, added), Seq::empty()) == migrated(s, added),
{
    let once = migrated(s, added);
    assert(once.inbox =~= migrated(once, Seq::empty()).inbox);
}

/// An upgrade re-opens no work and closes none.
pub proof fn an_upgrade_decides_nothing(s: StoreView, added: Seq<ColumnView>)
    ensures
        migrated(s, added).assignments.len() == s.assignments.len(),
        forall|i: int|
            0 <= i < s.assignments.len() ==> (#[trigger] migrated(s, added).assignments[i]).status
                == s.assignments[i].status,
        migrated(s, added).reviews == s.reviews,
    decreases added.len(),
{
    if added.len() > 0 {
        an_upgrade_decides_nothing(s, added.drop_last());
        let before = filled_all(s, added.drop_last());
        let after = filled(before, added.last());
        assert(migrated(s, added.drop_last()).assignments == before.assignments);
        assert forall|i: int| 0 <= i < s.assignments.len() implies (#[trigger] after.assignments[i]).status
            == s.assignments[i].status by {
            assert(migrated(s, added.drop_last()).assignments[i].status == s.assignments[i].status);
        }
        assert(migrated(s, added).assignments == after.assignments);
    }
}

/// A column is added where its table is there and the column is not.
pub proof fn a_column_is_added_where_its_table_lacks_it(present: Seq<PresentView>, c: ColumnView)
    ensures
        (lacking(present))(c) <==> {
            &&& exists|i: int| 0 <= i < present.len() && (#[trigger] present[i]).table == c.table
            &&& forall|i: int| 0 <= i < present.len() && (#[trigger] present[i]).table == c.table ==> present[i].name != c.name
        },
        addition(c) == "ALTER TABLE "@ + c.table + " ADD COLUMN "@ + c.name + " "@ + c.kind,
{
    let t = of_table(c.table);
    let n = is_column(c);
    if table::any(present, t) {
        let i = choose|i: int| 0 <= i < present.len() && t(#[trigger] present[i]);
        assert(present[i].table == c.table);
    } else {
        assert forall|i: int| 0 <= i < present.len() implies (#[trigger] present[i]).table != c.table by {
            assert(!t(present[i]));
        }
    }
    if table::any(present, n) {
        let i = choose|i: int| 0 <= i < present.len() && n(#[trigger] present[i]);
        assert(present[i].table == c.table && present[i].name == c.name);
    } else {
        assert forall|i: int| 0 <= i < present.len() && (#[trigger] present[i]).table == c.table implies present[i].name
            != c.name by {
            assert(!n(present[i]));
        }
    }
}

/// What the rows from before a column hold in it: a manager that has a bot and ran is wanted; work that
/// was closed before anybody accepted work is marked as that; a turn that ended well is known of work
/// that was completed; and what went out is patrol's. Every other column leaves the rows as they are.
pub proof fn what_old_rows_hold(s: StoreView, c: ColumnView, i: int, k: int)
    ensures
        ({
            let after = filled(s, c);
            let wanted = c.table == "supervisors"@ && c.name == "desired_running"@;
            let closed = c.table == "supervisor_assignments"@ && c.name == "legacy_closed"@;
            let ended = c.table == "supervisor_assignments"@ && c.name == "turn_status"@;
            let claimed = c.table == "supervisor_inbox"@ && c.name == "claimed_by"@;
            &&& !wanted && !closed && !ended && !claimed ==> after == s
            &&& wanted ==> after == (StoreView { supervisor: after.supervisor, ..s })
            &&& wanted && s.supervisor is None ==> after == s
            &&& wanted && s.supervisor is Some ==> after.supervisor == Some(
                SupervisorView {
                    desired_running: if s.supervisor->0.bot_id is Some && s.supervisor->0.generation > 0 {
                        1
                    } else {
                        s.supervisor->0.desired_running
                    },
                    ..s.supervisor->0
                },
            )
            &&& closed || ended ==> after == (StoreView { assignments: after.assignments, ..s })
                && after.assignments.len() == s.assignments.len()
            &&& closed && 0 <= i < s.assignments.len() ==> after.assignments[i] == if s.assignments[i].status == "completed"@
                || s.assignments[i].status == "failed"@ || s.assignments[i].status == "cancelled"@ {
                AssignmentView { legacy_closed: 1, ..s.assignments[i] }
            } else {
                s.assignments[i]
            }
            &&& ended && 0 <= i < s.assignments.len() ==> after.assignments[i] == if s.assignments[i].status == "completed"@ {
                AssignmentView { turn_status: Some("completed"@), ..s.assignments[i] }
            } else {
                s.assignments[i]
            }
            &&& claimed ==> after == (StoreView { inbox: after.inbox, ..s }) && after.inbox.len() == s.inbox.len()
            &&& claimed && 0 <= k < s.inbox.len() ==> after.inbox[k].claimed_by == if s.inbox[k].claimed_by is None && (
            s.inbox[k].notify_turn_id is Some || s.inbox[k].delivered_at is Some || s.inbox[k].state == "delivered"@) {
                Some("patrol"@)
            } else {
                s.inbox[k].claimed_by
            }
        }),
{
    reveal_strlit("supervisors");
    reveal_strlit("supervisor_assignments");
    reveal_strlit("supervisor_inbox");
    reveal_strlit("legacy_closed");
    reveal_strlit("turn_status");
    assert("supervisors"@.len() == 11 && "supervisor_assignments"@.len() == 22 && "supervisor_inbox"@.len() == 16);
    assert("legacy_closed"@.len() == 13 && "turn_status"@.len() == 11);
}

/// An upgrade fills the columns one after the other, and then gives back every claim of patrol's on an
/// event that waits, was never sent out and was never acked.
pub proof fn an_upgrade_mends_the_claims(s: StoreView, added: Seq<ColumnView>, c: ColumnView, k: int)
    ensures
        migrated(s, seq![]).assignments == s.assignments,
        filled_all(s, seq![]) == s,
        filled_all(s, added.push(c)) == filled(filled_all(s, added), c),
        ({
            let f = filled_all(s, added);
            let m = migrated(s, added);
            &&& m == (StoreView { inbox: m.inbox, ..f })
            &&& m.inbox.len() == f.inbox.len()
            &&& 0 <= k < f.inbox.len() ==> m.inbox[k].claimed_by == if f.inbox[k].claimed_by == Some("patrol"@)
                && f.inbox[k].state == "pending"@ && f.inbox[k].acked_by is None && f.inbox[k].notify_turn_id is None
                && f.inbox[k].delivered_at is None {
                None
            } else {
                f.inbox[k].claimed_by
            }
        }),
{
    assert(added.push(c).drop_last() =~= added);
    reveal_strlit("pending");
    reveal_strlit("delivered");
    assert("pending"@.len() == 7 && "delivered"@.len() == 9);
}

} // verus!
