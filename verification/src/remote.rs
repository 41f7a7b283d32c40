//! The phone entry point, and what can honestly be said about it.
//!
//! The launch arguments are a request, not a connection. A person can say that they reached it; that
//! claim is bound to the session it was made about, and it expires.
use crate::json;
use crate::json::Field;
use crate::rows::{Supervisor, SupervisorView};
use crate::store;
use crate::text;
use crate::time;
use crate::time::Instant;
use vstd::prelude::*;

verus! {

/// Seconds that an observation counts for.
pub const OBSERVATION_TTL_SECS: i64 = 900;

/// Where a claim about the entry point came from.
#[derive(Debug, Clone, Copy, PartialEq, Eq, Structural)]
pub enum Source {
    /// The launch arguments asked for it.
    Argv,
    /// A person says that they reached it.
    Manual,
    /// The provider said so.
    Provider,
}

impl Source {
    pub open spec fn name(self) -> Seq<char> {
        match self {
            Source::Argv => "argv"@,
            Source::Manual => "manual"@,
            Source::Provider => "provider"@,
        }
    }

    pub fn as_str(self) -> (r: &'static str)
        ensures
            r@ == self.name(),
    {
        match self {
            Source::Argv => "argv",
            Source::Manual => "manual",
            Source::Provider => "provider",
        }
    }

    pub fn parse(s: &str) -> (r: Option<Self>)
        ensures
            forall|x: Source| (r == Some(x)) == (#[trigger] x.name() == s@),
    {
        proof {
            names_differ();
        }
        if text::same(s, "argv") {
            Some(Source::Argv)
        } else if text::same(s, "manual") {
            Some(Source::Manual)
        } else if text::same(s, "provider") {
            Some(Source::Provider)
        } else {
            None
        }
    }

    /// Only a person or the provider can claim that the entry point works.
    pub open spec fn verifies(self) -> bool {
        self is Manual || self is Provider
    }

    pub fn can_verify(self) -> (r: bool)
        ensures
            r == self.verifies(),
    {
        match self {
            Source::Manual | Source::Provider => true,
            Source::Argv => false,
        }
    }
}

proof fn names_differ()
    ensures
        "argv"@ != "manual"@,
        "argv"@ != "provider"@,
        "manual"@ != "provider"@,
{
    reveal_strlit("argv");
    reveal_strlit("manual");
    reveal_strlit("provider");
    assert("argv"@.len() == 4 && "manual"@.len() == 6 && "provider"@.len() == 8);
}

/// Why a caller may not record a claim from this source; `None` where they may.
pub open spec fn outside_claim(source: Source) -> Option<Seq<char>> {
    match source {
        Source::Manual => None,
        Source::Argv => Some("argv is daemon bookkeeping, not an external observation"@),
        Source::Provider => Some("provider observations are unsupported; use an attributed manual check"@),
    }
}

/// Callers may record a check that a person made, and never make up evidence.
pub fn validate_external_source(source: Source) -> (r: Result<(), &'static str>)
    ensures
        match outside_claim(source) {
            None => r is Ok,
            Some(why) => r matches Err(e) && e@ == why,
        },
{
    match source {
        Source::Manual => Ok(()),
        Source::Argv => Err("argv is daemon bookkeeping, not an external observation"),
        Source::Provider => Err("provider observations are unsupported; use an attributed manual check"),
    }
}

/// What was looked at for a way to observe the entry point.
pub const CHECKED: [&'static str; 4] = ["herdr pane state", "hook payloads", "session rows", "bot args"];

/// What the daemon can observe of the entry point, as JSON: nothing, which says nothing of the phone.
pub open spec fn capability_text() -> Seq<char> {
    json::json_object(
        seq![
            ("status"@, json::FieldView::Str("unsupported"@)),
            (
                "reason"@,
                json::FieldView::Str("no provider-backed observation source for Remote Control sessions on this deployment"@),
            ),
            (
                "checked"@,
                json::FieldView::Json(
                    json::json_list(seq!["herdr pane state"@, "hook payloads"@, "session rows"@, "bot args"@]),
                ),
            ),
            ("manual_confirmation"@, json::FieldView::Bool(true)),
        ],
    )
}

pub fn capability() -> (r: String)
    ensures
        r@ == capability_text(),
{
    let mut checked: Vec<String> = Vec::new();
    checked.push(CHECKED[0].to_owned());
    checked.push(CHECKED[1].to_owned());
    checked.push(CHECKED[2].to_owned());
    checked.push(CHECKED[3].to_owned());
    assert(text::texts(checked@) =~= seq!["herdr pane state"@, "hook payloads"@, "session rows"@, "bot args"@]);
    let list = json::list_text(checked.as_slice());
    let fields = [
        ("status", Field::Str("unsupported")),
        ("reason", Field::Str("no provider-backed observation source for Remote Control sessions on this deployment")),
        ("checked", Field::Json(list.as_str())),
        ("manual_confirmation", Field::Bool(true)),
    ];
    assert(json::members(fields@) =~= seq![
        ("status"@, json::FieldView::Str("unsupported"@)),
        ("reason"@, json::FieldView::Str("no provider-backed observation source for Remote Control sessions on this deployment"@)),
        (
            "checked"@,
            json::FieldView::Json(
                json::json_list(seq!["herdr pane state"@, "hook payloads"@, "session rows"@, "bot args"@]),
            ),
        ),
        ("manual_confirmation"@, json::FieldView::Bool(true)),
    ]);
    json::object(&fields)
}

/// The states. Arguments make `requested`; `verified` needs a source that can verify; `unavailable`
/// needs evidence of a failure; everything else is `unknown`.
pub const STATES: [&'static str; 4] = ["requested", "verified", "unavailable", "unknown"];

/// Why a stored status no longer holds.
#[derive(Debug, Clone, Copy, PartialEq, Eq, Structural)]
pub enum Revoked {
    /// The session that was observed is gone.
    SessionChanged,
    /// The observation is too old.
    Expired,
    /// Nothing is running.
    NotRunning,
}

impl Revoked {
    pub open spec fn name(self) -> Seq<char> {
        match self {
            Revoked::SessionChanged => "session_changed"@,
            Revoked::Expired => "observation_expired"@,
            Revoked::NotRunning => "manager_not_running"@,
        }
    }

    pub fn as_str(self) -> (r: &'static str)
        ensures
            r@ == self.name(),
    {
        match self {
            Revoked::SessionChanged => "session_changed",
            Revoked::Expired => "observation_expired",
            Revoked::NotRunning => "manager_not_running",
        }
    }
}

/// The observation is recent: not from the future, and not too old.
pub open spec fn is_fresh(observed_at: Option<Seq<char>>, now: Instant) -> bool {
    match observed_at {
        Some(t) => match time::rfc3339(t) {
            Some(at) => 0 <= time::whole_seconds(at, now) < 900,
            None => false,
        },
        None => false,
    }
}

/// Why a stored status no longer holds; `None` where it does.
pub open spec fn revoked(
    status: Seq<char>,
    observed_at: Option<Seq<char>>,
    observed_session: Option<Seq<char>>,
    current_session: Option<Seq<char>>,
    now: Instant,
) -> Option<Revoked> {
    if status == "unknown"@ {
        None
    } else if current_session is None {
        Some(Revoked::NotRunning)
    } else if observed_session is Some && observed_session != current_session {
        Some(Revoked::SessionChanged)
    } else if status == "requested"@ {
        None
    } else if observed_session is None {
        Some(Revoked::SessionChanged)
    } else if is_fresh(observed_at, now) {
        None
    } else {
        Some(Revoked::Expired)
    }
}

/// What a stored observation is still worth.
pub fn revocation(
    stored_status: &str,
    observed_at: Option<&str>,
    observed_session: Option<&str>,
    current_session: Option<&str>,
    now: Instant,
) -> (r: Option<Revoked>)
    requires
        now.valid(),
    ensures
        r == revoked(stored_status@, text::arg(observed_at), text::arg(observed_session), text::arg(current_session), now),
{
    if text::same(stored_status, "unknown") {
        return None;
    }
    let current = match current_session {
        Some(c) => c,
        None => {
            return Some(Revoked::NotRunning);
        },
    };
    let requested = text::same(stored_status, "requested");
    let moved = match observed_session {
        Some(s) => !text::same(s, current),
        None => !requested,
    };
    if moved {
        return Some(Revoked::SessionChanged);
    }
    if requested {
        return None;
    }
    match observed_at {
        None => Some(Revoked::Expired),
        Some(t) => match time::parse_rfc3339(t) {
            None => Some(Revoked::Expired),
            Some(at) => {
                let age: i64 = time::seconds_between(at, now);
                if age < 0 || age >= OBSERVATION_TTL_SECS {
                    Some(Revoked::Expired)
                } else {
                    None
                }
            },
        },
    }
}

/// The status as it is to be reported now.
pub open spec fn effective(r: SupervisorView, current_session: Option<Seq<char>>, now: Instant) -> Seq<char> {
    if revoked(r.remote_status, r.remote_observed_at, r.remote_session_id, current_session, now) is Some {
        "unknown"@
    } else {
        r.remote_status
    }
}

/// The report on the entry point. A url is shown only with an observation that holds, and is never
/// evidence.
pub open spec fn status_members(r: SupervisorView, current_session: Option<Seq<char>>, now: Instant) -> Seq<
    (Seq<char>, json::FieldView),
> {
    let why = revoked(r.remote_status, r.remote_observed_at, r.remote_session_id, current_session, now);
    seq![
        ("status"@, json::FieldView::Str(effective(r, current_session, now))),
        ("stored_status"@, json::FieldView::Str(r.remote_status)),
        (
            "revoked"@,
            match why {
                Some(w) => json::FieldView::Str(w.name()),
                None => json::FieldView::Null,
            },
        ),
        ("source"@, json::text_view(r.remote_source)),
        ("observed_at"@, json::text_view(r.remote_observed_at)),
        ("observed_by"@, json::text_view(r.remote_actor)),
        ("session_id"@, json::text_view(r.remote_session_id)),
        ("current_session_id"@, json::text_view(current_session)),
        (
            "url"@,
            if why is Some {
                json::FieldView::Null
            } else {
                json::text_view(r.remote_url)
            },
        ),
        ("url_is_evidence"@, json::FieldView::Bool(false)),
        ("capability"@, json::FieldView::Json(capability_text())),
        ("ttl_secs"@, json::FieldView::Int(900)),
    ]
}

/// The entry point as it is to be reported now: expiry and session binding applied to what is stored.
pub fn status(sup: &Supervisor, current_session: Option<&str>, now: Instant) -> (r: String)
    requires
        now.valid(),
    ensures
        r@ == json::json_object(status_members(sup@, text::arg(current_session), now)),
{
    let why = revocation(
        sup.remote_status.as_str(),
        text::borrowed(&sup.remote_observed_at),
        text::borrowed(&sup.remote_session_id),
        current_session,
        now,
    );
    let capability = capability();
    let fields = [
        (
            "status",
            Field::Str(
                if why.is_some() {
                    "unknown"
                } else {
                    sup.remote_status.as_str()
                },
            ),
        ),
        ("stored_status", Field::Str(sup.remote_status.as_str())),
        (
            "revoked",
            match why {
                Some(w) => Field::Str(w.as_str()),
                None => Field::Null,
            },
        ),
        ("source", json::text_or_null(&sup.remote_source)),
        ("observed_at", json::text_or_null(&sup.remote_observed_at)),
        ("observed_by", json::text_or_null(&sup.remote_actor)),
        ("session_id", json::text_or_null(&sup.remote_session_id)),
        ("current_session_id", json::str_or_null(current_session)),
        (
            "url",
            if why.is_some() {
                Field::Null
            } else {
                json::text_or_null(&sup.remote_url)
            },
        ),
        ("url_is_evidence", Field::Bool(false)),
        ("capability", Field::Json(capability.as_str())),
        ("ttl_secs", Field::Int(OBSERVATION_TTL_SECS)),
    ];
    assert(json::members(fields@) =~= status_members(sup@, text::arg(current_session), now));
    json::object(&fields)
}

/// How bad a status is: only a failure that was seen counts.
pub open spec fn severity_of(status: Seq<char>) -> Seq<char> {
    if status == "unavailable"@ {
        "degraded"@
    } else if status == "unknown"@ {
        "unknown"@
    } else {
        "healthy"@
    }
}

pub fn severity(status: &str) -> (r: &'static str)
    ensures
        r@ == severity_of(status@),
{
    if text::same(status, "unavailable") {
        "degraded"
    } else if text::same(status, "unknown") {
        "unknown"
    } else {
        "healthy"
    }
}

// ---------------------------------------------------------------- laws

/// The launch arguments never verify anything.
pub proof fn argv_never_verifies(s: Source)
    ensures
        s.verifies() <==> s != Source::Argv,
{
}

/// A claim that the entry point works, or does not, lasts no longer than its session and fifteen
/// minutes: outside either it is reported as unknown.
pub proof fn a_claim_does_not_outlive_its_session(r: SupervisorView, current_session: Option<Seq<char>>, now: Instant)
    requires
        r.remote_status != "requested"@,
        current_session is None || r.remote_session_id != current_session || !is_fresh(r.remote_observed_at, now),
    ensures
        effective(r, current_session, now) == "unknown"@,
{
}

/// A request is bound to its session and to no clock.
pub proof fn a_request_needs_no_clock(r: SupervisorView, session: Seq<char>, now: Instant, later: Instant)
    requires
        r.remote_status == "requested"@,
    ensures
        effective(r, Some(session), now) == effective(r, Some(session), later),
        r.remote_session_id == Some(session) ==> effective(r, Some(session), now) == "requested"@,
{
    reveal_strlit("requested");
    reveal_strlit("unknown");
    assert("requested"@.len() == 9 && "unknown"@.len() == 7);
}

/// What the daemon writes down as asked for never counts as more than requested, whatever it wrote.
pub proof fn asking_is_at_most_a_request(
    r: SupervisorView,
    status: Seq<char>,
    url: Option<Seq<char>>,
    at: Seq<char>,
    current_session: Option<Seq<char>>,
    now: Instant,
)
    ensures
        ({
            let shown = effective((store::asked_for(status, url, at))(r), current_session, now);
            shown == "requested"@ || shown == "unknown"@
        }),
{
}

/// A status holds while its session runs: `unknown` always does, `requested` as long as it names no
/// other session, and every other as long as it names this session and is less than fifteen minutes old,
/// and not from the future.
pub proof fn when_a_status_holds(
    status: Seq<char>,
    observed_at: Option<Seq<char>>,
    observed_session: Option<Seq<char>>,
    current_session: Option<Seq<char>>,
    now: Instant,
)
    ensures
        ({
            let r = revoked(status, observed_at, observed_session, current_session, now);
            let readable = observed_at is Some && time::rfc3339(observed_at->0) is Some;
            let age = time::whole_seconds(time::rfc3339(observed_at->0)->0, now);
            let recent = readable && 0 <= age && age < 15 * 60;
            &&& status == "unknown"@ ==> r is None
            &&& status != "unknown"@ && current_session is None ==> r == Some(Revoked::NotRunning)
            &&& status == "requested"@ && current_session is Some ==> (r is None <==> observed_session is None
                || observed_session == current_session)
            &&& status != "unknown"@ && status != "requested"@ && current_session is Some ==> (r is None <==> observed_session
                == current_session && recent)
            &&& r == Some(Revoked::NotRunning) ==> current_session is None
            &&& r == Some(Revoked::SessionChanged) ==> current_session is Some && observed_session != current_session
            &&& r == Some(Revoked::Expired) ==> observed_session == current_session && !recent
        }),
{
    reveal_strlit("requested");
    reveal_strlit("unknown");
    assert("requested"@.len() == 9 && "unknown"@.len() == 7);
}

/// A status that holds is reported as it is stored, and one that does not as unknown, with the reason
/// and without its url.
pub proof fn what_does_not_hold_is_not_shown(r: SupervisorView, current_session: Option<Seq<char>>, now: Instant)
    ensures
        ({
            let why = revoked(r.remote_status, r.remote_observed_at, r.remote_session_id, current_session, now);
            let m = status_members(r, current_session, now);
            &&& why is None ==> effective(r, current_session, now) == r.remote_status
            &&& why is Some ==> effective(r, current_session, now) == "unknown"@
            &&& m.contains(("status"@, json::FieldView::Str(effective(r, current_session, now))))
            &&& m.contains(("stored_status"@, json::FieldView::Str(r.remote_status)))
            &&& why is Some ==> m.contains(("url"@, json::FieldView::Null))
            &&& why is None && r.remote_url is Some ==> m.contains(("url"@, json::FieldView::Str(r.remote_url->0)))
            &&& why is None ==> m.contains(("revoked"@, json::FieldView::Null))
            &&& why == Some(Revoked::NotRunning) ==> m.contains(("revoked"@, json::FieldView::Str("manager_not_running"@)))
            &&& why == Some(Revoked::SessionChanged) ==> m.contains(("revoked"@, json::FieldView::Str("session_changed"@)))
            &&& why == Some(Revoked::Expired) ==> m.contains(("revoked"@, json::FieldView::Str("observation_expired"@)))
            &&& m.contains(("url_is_evidence"@, json::FieldView::Bool(false)))
            &&& m.contains(("ttl_secs"@, json::FieldView::Int(900)))
        }),
{
    let m = status_members(r, current_session, now);
    assert(m[0].0 == "status"@);
    assert(m[1].0 == "stored_status"@);
    assert(m[2].0 == "revoked"@);
    assert(m[8].0 == "url"@);
    assert(m[9].0 == "url_is_evidence"@);
    assert(m[11].0 == "ttl_secs"@);
}

/// Only a person's own check may be recorded from outside, and each source has its own name.
pub proof fn only_a_persons_check_comes_from_outside(s: Source)
    ensures
        outside_claim(s) is None <==> s == Source::Manual,
        s.name() == "argv"@ <==> s == Source::Argv,
        s.name() == "manual"@ <==> s == Source::Manual,
        s.name() == "provider"@ <==> s == Source::Provider,
        s.verifies() <==> s == Source::Manual || s == Source::Provider,
{
    names_differ();
}

/// Only a failure that was seen degrades; not knowing is said to be that, and all else is healthy.
pub proof fn only_a_failure_degrades(status: Seq<char>)
    ensures
        severity_of(status) == "degraded"@ <==> status == "unavailable"@,
        severity_of(status) == "unknown"@ <==> status == "unknown"@,
        severity_of(status) == "healthy"@ <==> status != "unavailable"@ && status != "unknown"@,
{
    reveal_strlit("degraded");
    reveal_strlit("unknown");
    reveal_strlit("healthy");
    reveal_strlit("unavailable");
    assert("degraded"@.len() == 8 && "unknown"@.len() == 7 && "healthy"@.len() == 7 && "unavailable"@.len() == 11);
    assert("unknown"@[0] == 'u' && "healthy"@[0] == 'h');
}

} // verus!
