//! Incidents: one row per resource that is wrong, not one per tick that noticed it.
//!
//! A fault that comes back after it was resolved is a new incident.
use crate::rows::{Incident, IncidentView};
use crate::store::{Store, StoreError, StoreView, SUPERVISOR_ID};
use crate::table;
use crate::table::Row;
use crate::text;
use vstd::prelude::*;

verus! {

/// The open incident of this kind about this resource.
pub open spec fn open_for(kind: Seq<char>, resource: Seq<char>) -> spec_fn(IncidentView) -> bool {
    |i: IncidentView| i.supervisor_id == "AGM"@ && i.kind == kind && i.resource == resource && i.status == "open"@
}

/// The incident with this id.
pub open spec fn with_id(id: Seq<char>) -> spec_fn(IncidentView) -> bool {
    |i: IncidentView| i.id == id
}

/// An incident that was just noticed.
pub open spec fn noticed(
    id: Seq<char>,
    kind: Seq<char>,
    resource: Seq<char>,
    severity: Seq<char>,
    detail: Seq<char>,
    now: Seq<char>,
) -> IncidentView {
    IncidentView {
        id,
        supervisor_id: "AGM"@,
        kind,
        resource,
        severity,
        status: "open"@,
        detail_json: detail,
        occurrences: 1,
        first_seen_at: now,
        last_seen_at: now,
        resolved_at: None,
    }
}

/// An incident that was seen again.
pub open spec fn seen_again(severity: Seq<char>, detail: Seq<char>, now: Seq<char>) -> spec_fn(IncidentView) -> IncidentView {
    |i: IncidentView|
        (IncidentView {
            last_seen_at: now,
            occurrences: table::bumped(i.occurrences),
            severity,
            detail_json: detail,
            ..i
        })
}

/// An incident whose condition cleared.
pub open spec fn cleared(now: Seq<char>) -> spec_fn(IncidentView) -> IncidentView {
    |i: IncidentView|
        (IncidentView { status: "resolved"@, resolved_at: Some(now), last_seen_at: now, ..i })
}

fn is_open_for(i: &Incident, kind: &str, resource: &str) -> (b: bool)
    ensures
        b == (open_for(kind@, resource@))(i@),
{
    text::same(i.supervisor_id.as_str(), SUPERVISOR_ID) && text::same(i.kind.as_str(), kind) && text::same(
        i.resource.as_str(),
        resource,
    ) && text::same(i.status.as_str(), "open")
}

fn current(s: &Store, kind: &str, resource: &str) -> (r: Option<Incident>)
    ensures
        table::opt_view(r) == table::first(s@.incidents, open_for(kind@, resource@)),
{
    match table::find(&s.incidents, |i: &Incident| -> (b: bool)
        ensures b == (open_for(kind@, resource@))(i@)
        { is_open_for(i, kind, resource) }, Ghost(open_for(kind@, resource@))) {
        Some(i) => Some(i.copied()),
        None => None,
    }
}

fn by_id(s: &Store, id: &str) -> (r: Option<Incident>)
    ensures
        table::opt_view(r) == table::first(s@.incidents, with_id(id@)),
{
    match table::find(&s.incidents, |i: &Incident| -> (b: bool)
        ensures b == (with_id(id@))(i@)
        { text::same(i.id.as_str(), id) }, Ghost(with_id(id@))) {
        Some(i) => Some(i.copied()),
        None => None,
    }
}

/// What opening an incident answers and leaves in the store.
pub open spec fn opening(
    s: StoreView,
    now: Seq<char>,
    id: Seq<char>,
    kind: Seq<char>,
    resource: Seq<char>,
    severity: Seq<char>,
    detail: Seq<char>,
    res: Result<(IncidentView, bool), StoreError>,
    after: StoreView,
) -> bool {
    let hit = open_for(kind, resource);
    let row = noticed(id, kind, resource, severity, detail, now);
    let seen = table::changed(s.incidents, hit, seen_again(severity, detail, now));
    if table::any(s.incidents, hit) {
        &&& res is Ok && !res->Ok_0.1
        &&& Some(res->Ok_0.0) == table::first(seen, hit)
        &&& after == (StoreView { incidents: seen, ..s })
    } else if table::any(s.incidents, with_id(id)) {
        res is Err && res->Err_0 == StoreError::IdTaken && after == s
    } else {
        &&& res is Ok && res->Ok_0.1
        &&& res->Ok_0.0 == row
        &&& after == (StoreView { incidents: s.incidents.push(row), ..s })
    }
}

/// Open an incident, or refresh the one that is open. The flag is true only for the call that opened
/// it, which keeps a long outage at one notification.
pub fn open_incident(
    s: &mut Store,
    now: &str,
    id: &str,
    kind: &str,
    resource: &str,
    severity: &str,
    detail: &str,
) -> (res: Result<(Incident, bool), StoreError>)
    ensures
        opening(
            old(s)@,
            now@,
            id@,
            kind@,
            resource@,
            severity@,
            detail@,
            match res {
                Ok(v) => Ok((v.0@, v.1)),
                Err(e) => Err(e),
            },
            final(s)@,
        ),
{
    let ghost was = s@.incidents;
    let ghost hit = open_for(kind@, resource@);
    let ghost to = seen_again(severity@, detail@, now@);
    proof {
        table::first_is_a_hit(was, hit);
        table::first_is_a_hit(was, with_id(id@));
        table::first_of_changed(was, hit, hit, to);
    }
    if current(s, kind, resource).is_some() {
        table::change(
            &mut s.incidents,
            |i: &Incident| -> (b: bool)
                ensures b == (open_for(kind@, resource@))(i@)
                { is_open_for(i, kind, resource) },
            |i: &Incident| -> (x: Incident)
                ensures x@ == (seen_again(severity@, detail@, now@))(i@)
                {
                    Incident {
                        last_seen_at: now.to_owned(),
                        occurrences: table::bump(i.occurrences),
                        severity: severity.to_owned(),
                        detail_json: detail.to_owned(),
                        ..i.copied()
                    }
                },
            Ghost(hit),
            Ghost(to),
        );
        return match current(s, kind, resource) {
            Some(i) => Ok((i, false)),
            None => Err(StoreError::IdTaken),
        };
    }
    if by_id(s, id).is_some() {
        return Err(StoreError::IdTaken);
    }
    let row = Incident {
        id: id.to_owned(),
        supervisor_id: SUPERVISOR_ID.to_owned(),
        kind: kind.to_owned(),
        resource: resource.to_owned(),
        severity: severity.to_owned(),
        status: "open".to_owned(),
        detail_json: detail.to_owned(),
        occurrences: 1,
        first_seen_at: now.to_owned(),
        last_seen_at: now.to_owned(),
        resolved_at: None,
    };
    let out = row.copied();
    s.incidents.push(row);
    assert(s@.incidents =~= was.push(out@));
    Ok((out, true))
}

/// What clearing a condition answers and leaves in the store.
pub open spec fn clearing(
    s: StoreView,
    now: Seq<char>,
    kind: Seq<char>,
    resource: Seq<char>,
    r: Option<IncidentView>,
    after: StoreView,
) -> bool {
    match table::first(s.incidents, open_for(kind, resource)) {
        None => r is None && after == s,
        Some(i) => {
            let done = table::changed(s.incidents, with_id(i.id), cleared(now));
            &&& after == (StoreView { incidents: done, ..s })
            &&& r is Some
            &&& r == table::first(done, with_id(i.id))
        },
    }
}

/// The condition cleared. `None` is that nothing was open, which is the ordinary case.
pub fn resolve_incident(s: &mut Store, now: &str, kind: &str, resource: &str) -> (r: Option<Incident>)
    ensures
        clearing(old(s)@, now@, kind@, resource@, table::opt_view(r), final(s)@),
{
    let row = match current(s, kind, resource) {
        Some(i) => i,
        None => {
            return None;
        },
    };
    let id = row.id.as_str();
    let ghost was = s@.incidents;
    proof {
        table::first_is_a_hit(was, open_for(kind@, resource@));
        let i = choose|i: int| 0 <= i < was.len() && was[i] == row@;
        assert((with_id(id@))(was[i]));
        table::first_is_a_hit(was, with_id(id@));
        table::first_of_changed(was, with_id(id@), with_id(id@), cleared(now@));
    }
    table::change(
        &mut s.incidents,
        |i: &Incident| -> (b: bool)
            ensures b == (with_id(id@))(i@)
            { text::same(i.id.as_str(), id) },
        |i: &Incident| -> (x: Incident)
            ensures x@ == (cleared(now@))(i@)
            {
                Incident {
                    status: "resolved".to_owned(),
                    resolved_at: Some(now.to_owned()),
                    last_seen_at: now.to_owned(),
                    ..i.copied()
                }
            },
        Ghost(with_id(id@)),
        Ghost(cleared(now@)),
    );
    by_id(s, id)
}

/// The supervisor's open incidents.
pub open spec fn all_open() -> spec_fn(IncidentView) -> bool {
    |i: IncidentView| i.supervisor_id == "AGM"@ && i.status == "open"@
}

/// The supervisor's incidents.
pub open spec fn all_ours() -> spec_fn(IncidentView) -> bool {
    |i: IncidentView| i.supervisor_id == "AGM"@
}

/// One incident was noticed before another.
pub open spec fn older() -> spec_fn(IncidentView, IncidentView) -> bool {
    |a: IncidentView, b: IncidentView| text::text_before(a.first_seen_at, b.first_seen_at)
}

/// One incident was noticed after another.
pub open spec fn newer() -> spec_fn(IncidentView, IncidentView) -> bool {
    |a: IncidentView, b: IncidentView| text::text_before(b.first_seen_at, a.first_seen_at)
}

/// What is wrong now, oldest first.
pub open spec fn open_list(rows: Seq<IncidentView>) -> Seq<IncidentView> {
    table::ordered(rows.filter(all_open()), older())
}

/// At most `limit` incidents, the newest first.
pub open spec fn latest(rows: Seq<IncidentView>, limit: int) -> Seq<IncidentView> {
    table::limited(table::ordered(rows.filter(all_ours()), newer()), limit)
}

/// Everything that is wrong now, oldest first.
pub fn open_incidents(s: &Store) -> (r: Vec<Incident>)
    ensures
        table::views(r@) == open_list(s@.incidents),
{
    let rows = table::select(&s.incidents, |i: &Incident| -> (b: bool)
        ensures b == (all_open())(i@)
        { text::same(i.supervisor_id.as_str(), SUPERVISOR_ID) && text::same(i.status.as_str(), "open") }, Ghost(
        all_open(),
    ));
    table::arrange(rows, |a: &Incident, b: &Incident| -> (c: bool)
        ensures c == (older())(a@, b@)
        { text::precedes(a.first_seen_at.as_str(), b.first_seen_at.as_str()) }, Ghost(older()))
}

/// The latest incidents.
pub fn incidents(s: &Store, limit: i64) -> (r: Vec<Incident>)
    ensures
        table::views(r@) == latest(s@.incidents, limit as int),
{
    let rows = table::select(&s.incidents, |i: &Incident| -> (b: bool)
        ensures b == (all_ours())(i@)
        { text::same(i.supervisor_id.as_str(), SUPERVISOR_ID) }, Ghost(all_ours()));
    let sorted = table::arrange(rows, |a: &Incident, b: &Incident| -> (c: bool)
        ensures c == (newer())(a@, b@)
        { text::precedes(b.first_seen_at.as_str(), a.first_seen_at.as_str()) }, Ghost(newer()));
    table::limit(sorted, limit)
}

// ---------------------------------------------------------------- laws

/// At most one incident of a kind about a resource is open.
pub open spec fn open_once(rows: Seq<IncidentView>) -> bool {
    forall|i: int, j: int, kind: Seq<char>, resource: Seq<char>|
        0 <= i < j < rows.len() && #[trigger] (open_for(kind, resource))(rows[i]) ==> !#[trigger] (open_for(kind, resource))(
            rows[j],
        )
}

/// Noticing a fault, for the first time or again, and clearing it keep it at one open incident.
pub proof fn a_fault_is_open_at_most_once(
    rows: Seq<IncidentView>,
    id: Seq<char>,
    kind: Seq<char>,
    resource: Seq<char>,
    severity: Seq<char>,
    detail: Seq<char>,
    now: Seq<char>,
)
    requires
        open_once(rows),
    ensures
        !table::any(rows, open_for(kind, resource)) ==> open_once(
            rows.push(noticed(id, kind, resource, severity, detail, now)),
        ),
        open_once(table::changed(rows, open_for(kind, resource), seen_again(severity, detail, now))),
        open_once(table::changed(rows, with_id(id), cleared(now))),
{
    reveal_strlit("open");
    reveal_strlit("resolved");
    assert("open"@.len() == 4 && "resolved"@.len() == 8);
    let row = noticed(id, kind, resource, severity, detail, now);
    if !table::any(rows, open_for(kind, resource)) {
        let more = rows.push(row);
        assert forall|i: int, j: int, k: Seq<char>, r: Seq<char>|
            0 <= i < j < more.len() && #[trigger] (open_for(k, r))(more[i]) implies !#[trigger] (open_for(k, r))(more[j]) by {
            assert((open_for(k, r))(rows[i]));
            if j == rows.len() {
                if (open_for(k, r))(row) {
                    assert((open_for(kind, resource))(rows[i]));
                }
            } else {
                assert(more[j] == rows[j]);
            }
        }
    }
    let again = table::changed(rows, open_for(kind, resource), seen_again(severity, detail, now));
    assert forall|i: int, j: int, k: Seq<char>, r: Seq<char>|
        0 <= i < j < again.len() && #[trigger] (open_for(k, r))(again[i]) implies !#[trigger] (open_for(k, r))(again[j]) by {
        assert((open_for(k, r))(rows[i]));
        assert(!(open_for(k, r))(rows[j]));
    }
    let done = table::changed(rows, with_id(id), cleared(now));
    assert forall|i: int, j: int, k: Seq<char>, r: Seq<char>|
        0 <= i < j < done.len() && #[trigger] (open_for(k, r))(done[i]) implies !#[trigger] (open_for(k, r))(done[j]) by {
        assert((open_for(k, r))(rows[i]));
        assert(!(open_for(k, r))(rows[j]));
    }
}

/// A fault that comes back after it was cleared is a new incident: nothing of it is open any more.
pub proof fn a_cleared_fault_is_no_longer_open(rows: Seq<IncidentView>, kind: Seq<char>, resource: Seq<char>, now: Seq<char>)
    requires
        open_once(rows),
        table::any(rows, open_for(kind, resource)),
    ensures
        !table::any(
            table::changed(rows, with_id(table::first(rows, open_for(kind, resource))->0.id), cleared(now)),
            open_for(kind, resource),
        ),
{
    reveal_strlit("open");
    reveal_strlit("resolved");
    assert("open"@.len() == 4 && "resolved"@.len() == 8);
    let hit = open_for(kind, resource);
    table::first_is_a_hit(rows, hit);
    let row = table::first(rows, hit)->0;
    let k = choose|k: int| 0 <= k < rows.len() && rows[k] == row;
    assert(hit(rows[k]));
    let after = table::changed(rows, with_id(row.id), cleared(now));
    assert forall|i: int| 0 <= i < after.len() implies !hit(#[trigger] after[i]) by {
        if i < k {
            if hit(rows[i]) {
                assert(!hit(rows[k]));
            }
        } else if i > k {
            assert(hit(rows[k]));
            assert(!hit(rows[i]));
        }
    }
}

/// A fault that nobody noticed before is one new open incident, seen once and just now; its row says
/// what was reported of it, and the caller is told that it is new. A fault that is open already gets no
/// second row: the one it has is counted once more, takes the report that came last and keeps when it
/// was first seen.
pub proof fn a_fault_is_written_down_as_it_was_reported(
    s: StoreView,
    now: Seq<char>,
    id: Seq<char>,
    kind: Seq<char>,
    resource: Seq<char>,
    severity: Seq<char>,
    detail: Seq<char>,
    res: Result<(IncidentView, bool), StoreError>,
    after: StoreView,
    i: int,
)
    requires
        opening(s, now, id, kind, resource, severity, detail, res, after),
    ensures
        after == (StoreView { incidents: after.incidents, ..s }),
        res is Err <==> {
            &&& forall|k: int|
                0 <= k < s.incidents.len() ==> {
                    let was = #[trigger] s.incidents[k];
                    !(was.supervisor_id == "AGM"@ && was.kind == kind && was.resource == resource && was.status == "open"@)
                }
            &&& exists|k: int| 0 <= k < s.incidents.len() && (#[trigger] s.incidents[k]).id == id
        },
        res is Err ==> after == s,
        res is Ok && res->Ok_0.1 ==> {
            &&& after.incidents == s.incidents.push(res->Ok_0.0)
            &&& res->Ok_0.0.id == id
            &&& res->Ok_0.0.supervisor_id == "AGM"@
            &&& res->Ok_0.0.kind == kind
            &&& res->Ok_0.0.resource == resource
            &&& res->Ok_0.0.severity == severity
            &&& res->Ok_0.0.status == "open"@
            &&& res->Ok_0.0.detail_json == detail
            &&& res->Ok_0.0.occurrences == 1
            &&& res->Ok_0.0.first_seen_at == now
            &&& res->Ok_0.0.last_seen_at == now
            &&& res->Ok_0.0.resolved_at is None
        },
        res is Ok ==> (res->Ok_0.1 <==> forall|k: int|
            0 <= k < s.incidents.len() ==> {
                let was = #[trigger] s.incidents[k];
                !(was.supervisor_id == "AGM"@ && was.kind == kind && was.resource == resource && was.status == "open"@)
            }),
        res is Ok && !res->Ok_0.1 ==> {
            let got = res->Ok_0.0;
            &&& after.incidents.contains(got)
            &&& got.supervisor_id == "AGM"@ && got.kind == kind && got.resource == resource && got.status == "open"@
            &&& got.severity == severity && got.detail_json == detail && got.last_seen_at == now
        },
        res is Ok && !res->Ok_0.1 && 0 <= i < s.incidents.len() ==> {
            let was = s.incidents[i];
            &&& after.incidents.len() == s.incidents.len()
            &&& after.incidents[i] == if was.supervisor_id == "AGM"@ && was.kind == kind && was.resource == resource
                && was.status == "open"@ {
                IncidentView {
                    severity,
                    detail_json: detail,
                    last_seen_at: now,
                    occurrences: if was.occurrences < i64::MAX {
                        (was.occurrences + 1) as i64
                    } else {
                        i64::MAX
                    },
                    ..was
                }
            } else {
                was
            }
        },
{
    let hit = open_for(kind, resource);
    let to = seen_again(severity, detail, now);
    table::first_is_a_hit(s.incidents, hit);
    table::first_of_changed(s.incidents, hit, hit, to);
    if table::any(s.incidents, hit) {
        let k = choose|k: int| 0 <= k < s.incidents.len() && hit(#[trigger] s.incidents[k]);
        assert(s.incidents[k].supervisor_id == "AGM"@);
        let seen = table::changed(s.incidents, hit, to);
        table::first_is_a_hit(seen, hit);
        let j = choose|j: int| 0 <= j < s.incidents.len() && s.incidents[j] == table::first(s.incidents, hit)->0;
        assert(seen[j] == to(s.incidents[j]));
    } else {
        assert forall|k: int| 0 <= k < s.incidents.len() implies !hit(#[trigger] s.incidents[k]) by {}
        if table::any(s.incidents, with_id(id)) {
            let k = choose|k: int| 0 <= k < s.incidents.len() && (with_id(id))(#[trigger] s.incidents[k]);
            assert(s.incidents[k].id == id);
        } else {
            assert forall|k: int| 0 <= k < s.incidents.len() implies (#[trigger] s.incidents[k]).id != id by {
                assert(!(with_id(id))(s.incidents[k]));
            }
        }
    }
}

/// A condition that cleared closes the incident that was open about it, with the moment, and hands it
/// back; every row with another id stays as it was. Where nothing was open, nothing changes.
pub proof fn a_cleared_fault_is_closed_with_the_moment(
    s: StoreView,
    now: Seq<char>,
    kind: Seq<char>,
    resource: Seq<char>,
    r: Option<IncidentView>,
    after: StoreView,
    i: int,
)
    requires
        clearing(s, now, kind, resource, r, after),
    ensures
        after == (StoreView { incidents: after.incidents, ..s }),
        r is None ==> after == s,
        r is Some <==> exists|k: int|
            0 <= k < s.incidents.len() && {
                let was = #[trigger] s.incidents[k];
                was.supervisor_id == "AGM"@ && was.kind == kind && was.resource == resource && was.status == "open"@
            },
        r is Some ==> {
            &&& after.incidents.len() == s.incidents.len()
            &&& after.incidents.contains(r->0)
            &&& r->0.status == "resolved"@
            &&& r->0.resolved_at == Some(now)
            &&& r->0.last_seen_at == now
            &&& exists|k: int|
                0 <= k < s.incidents.len() && {
                    let was = #[trigger] s.incidents[k];
                    &&& was.supervisor_id == "AGM"@ && was.kind == kind && was.resource == resource
                        && was.status == "open"@
                    &&& was.id == r->0.id
                }
        },
        r is Some && 0 <= i < s.incidents.len() ==> after.incidents[i] == if s.incidents[i].id == r->0.id {
            IncidentView { status: "resolved"@, resolved_at: Some(now), last_seen_at: now, ..s.incidents[i] }
        } else {
            s.incidents[i]
        },
{
    let hit = open_for(kind, resource);
    table::first_is_a_hit(s.incidents, hit);
    if table::any(s.incidents, hit) {
        let row = table::first(s.incidents, hit)->0;
        let k = choose|k: int| 0 <= k < s.incidents.len() && s.incidents[k] == row;
        assert((with_id(row.id))(s.incidents[k]));
        table::first_is_a_hit(s.incidents, with_id(row.id));
        table::first_of_changed(s.incidents, with_id(row.id), with_id(row.id), cleared(now));
        let done = table::changed(s.incidents, with_id(row.id), cleared(now));
        let j = choose|j: int|
            0 <= j < s.incidents.len() && s.incidents[j] == table::first(s.incidents, with_id(row.id))->0;
        assert(done[j] == (cleared(now))(s.incidents[j]));
        assert(s.incidents[k].status == "open"@ && s.incidents[k].id == r->0.id);
    } else {
        assert forall|k: int| 0 <= k < s.incidents.len() implies !hit(#[trigger] s.incidents[k]) by {}
    }
}

/// The open incidents are the supervisor's rows that say `open`, each of them and no other, the one
/// that was noticed first in front.
pub proof fn what_is_wrong_is_listed_oldest_first(rows: Seq<IncidentView>, x: IncidentView, i: int, j: int)
    ensures
        open_list(rows).contains(x) <==> rows.contains(x) && x.supervisor_id == "AGM"@ && x.status == "open"@,
        0 <= i < j < open_list(rows).len() ==> !text::text_before(
            open_list(rows)[j].first_seen_at,
            open_list(rows)[i].first_seen_at,
        ),
{
    table::ranked_by_text(older(), |v: IncidentView| v.first_seen_at, true);
    table::listing(rows, all_open(), older(), x, i, j);
}

/// A listing of incidents holds the supervisor's rows, the one that was noticed last in front, and no
/// more of them than was asked for; without a limit it holds them all.
pub proof fn incidents_are_listed_newest_first(rows: Seq<IncidentView>, limit: int, x: IncidentView, i: int, j: int)
    ensures
        latest(rows, limit).contains(x) ==> rows.contains(x) && x.supervisor_id == "AGM"@,
        limit >= 0 ==> latest(rows, limit).len() <= limit,
        (limit < 0 || latest(rows, limit).len() < limit) && rows.contains(x) && x.supervisor_id == "AGM"@ ==> latest(
            rows,
            limit,
        ).contains(x),
        0 <= i < j < latest(rows, limit).len() ==> !text::text_before(
            latest(rows, limit)[i].first_seen_at,
            latest(rows, limit)[j].first_seen_at,
        ),
        rows.contains(x) && x.supervisor_id == "AGM"@ && !latest(rows, limit).contains(x) && 0 <= i < latest(
            rows,
            limit,
        ).len() ==> !text::text_before(latest(rows, limit)[i].first_seen_at, x.first_seen_at),
{
    table::ranked_by_text(newer(), |v: IncidentView| v.first_seen_at, false);
    table::listing_up_to(rows, all_ours(), newer(), limit, x, i, j);
}

} // verus!
