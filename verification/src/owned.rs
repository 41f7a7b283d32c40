//! Which bots belong to the manager, and the guard in front of deleting one of them.
//!
//! A bot belongs to the manager when it is the manager or one of its roles, when it was opened by one
//! of those, or when it lives in one of their projects. Deleting such a bot, or its project, takes an
//! explicit confirmation; without it nothing is deleted and patrol is told.
use crate::inbox;
use crate::json;
use crate::json::Field;
use crate::maintenance::LcError;
use crate::store::{Store, StoreView};
use crate::table;
use crate::table::Row;
use crate::text;
use vstd::prelude::*;

verus! {

/// The query value that lets the deletion of a bot of the manager through.
pub const CONFIRM: &'static str = "supervisor";

/// A bot, as far as the guard looks at it.
pub struct Bot {
    pub id: String,
    pub name: String,
    pub project_id: String,
    pub parent_bot_id: Option<String>,
    pub deleted: bool,
}

#[verifier::ext_equal]
pub struct BotView {
    pub id: Seq<char>,
    pub name: Seq<char>,
    pub project_id: Seq<char>,
    pub parent_bot_id: Option<Seq<char>>,
    pub deleted: bool,
}

impl View for Bot {
    type V = BotView;

    open spec fn view(&self) -> BotView {
        BotView {
            id: self.id@,
            name: self.name@,
            project_id: self.project_id@,
            parent_bot_id: text::opt(self.parent_bot_id),
            deleted: self.deleted,
        }
    }
}

/// The manager or one of its roles: the bot that plays it and the project it lives in.
pub struct Holder {
    pub bot_id: Option<String>,
    pub project_id: Option<String>,
    pub responder: bool,
}

#[verifier::ext_equal]
pub struct HolderView {
    pub bot_id: Option<Seq<char>>,
    pub project_id: Option<Seq<char>>,
    pub responder: bool,
}

impl View for Holder {
    type V = HolderView;

    open spec fn view(&self) -> HolderView {
        HolderView {
            bot_id: text::opt(self.bot_id),
            project_id: text::opt(self.project_id),
            responder: self.responder,
        }
    }
}

impl Row for Holder {
    fn copied(&self) -> (r: Self) {
        Holder {
            bot_id: text::copied(&self.bot_id),
            project_id: text::copied(&self.project_id),
            responder: self.responder,
        }
    }
}

/// What belongs to the manager.
pub struct Owned {
    pub holders: Vec<Holder>,
}

impl View for Owned {
    type V = Seq<HolderView>;

    open spec fn view(&self) -> Seq<HolderView> {
        table::views(self.holders@)
    }
}

/// The manager first, then the roles as they were written.
pub open spec fn holders_of(s: StoreView) -> Seq<HolderView> {
    let manager = match s.supervisor {
        Some(r) => seq![HolderView { bot_id: r.bot_id, project_id: r.project_id, responder: false }],
        None => Seq::empty(),
    };
    manager + s.roles.map_values(
        |r: crate::rows::RoleRowView|
            HolderView { bot_id: r.bot_id, project_id: r.project_id, responder: r.role == "responder"@ },
    )
}

pub fn load(s: &Store) -> (r: Owned)
    ensures
        r@ == holders_of(s@),
{
    let mut holders: Vec<Holder> = Vec::new();
    if let Some(r) = &s.supervisor {
        holders.push(
            Holder { bot_id: text::copied(&r.bot_id), project_id: text::copied(&r.project_id), responder: false },
        );
    }
    let ghost manager = table::views(holders@);
    let ghost all = holders_of(s@);
    assert(manager =~= all.take(manager.len() as int));
    let mut i: usize = 0;
    while i < s.roles.len()
        invariant
            i <= s.roles.len(),
            all == holders_of(s@),
            all.len() == manager.len() + s.roles.len(),
            forall|j: int|
                0 <= j < s.roles.len() ==> #[trigger] all[manager.len() + j] == (HolderView {
                    bot_id: s.roles@[j]@.bot_id,
                    project_id: s.roles@[j]@.project_id,
                    responder: s.roles@[j]@.role == "responder"@,
                }),
            table::views(holders@) == all.take(manager.len() + i),
        decreases s.roles.len() - i,
    {
        let ghost was = holders@;
        let h = Holder {
            bot_id: text::copied(&s.roles[i].bot_id),
            project_id: text::copied(&s.roles[i].project_id),
            responder: text::same(s.roles[i].role.as_str(), "responder"),
        };
        assert(h@ == all[manager.len() + i]);
        holders.push(h);
        assert(table::views(holders@) =~= table::views(was).push(h@));
        assert(all.take(manager.len() + i).push(h@) =~= all.take(manager.len() + i + 1));
        i += 1;
    }
    assert(all.take(manager.len() + i) =~= all);
    Owned { holders }
}

/// A holder that this bot plays.
pub open spec fn played_by(id: Seq<char>) -> spec_fn(HolderView) -> bool {
    |h: HolderView| id.len() > 0 && h.bot_id == Some(id)
}

/// A holder that lives in this project.
pub open spec fn living_in(id: Seq<char>) -> spec_fn(HolderView) -> bool {
    |h: HolderView| id.len() > 0 && h.project_id == Some(id)
}

/// The bot was opened by a holder.
pub open spec fn is_child(owned: Seq<HolderView>, b: BotView) -> bool {
    b.parent_bot_id matches Some(p) && table::any(owned, played_by(p))
}

/// The bot belongs to the manager.
pub open spec fn belongs(owned: Seq<HolderView>, b: BotView) -> bool {
    table::any(owned, played_by(b.id)) || is_child(owned, b) || table::any(owned, living_in(b.project_id))
}

/// What a bot of the manager is, in words for people.
pub open spec fn role_name(owned: Seq<HolderView>, b: BotView) -> Seq<char> {
    match table::first(owned, played_by(b.id)) {
        Some(h) => if h.responder {
            "AGM 協調者"@
        } else {
            "AGM 總管（巡檢）"@
        },
        None => if is_child(owned, b) {
            "AGM 開出去的子 agent"@
        } else {
            "AGM 專案裡的常駐工人"@
        },
    }
}

impl Owned {
    fn player(&self, id: &str) -> (r: Option<&Holder>)
        ensures
            match r {
                Some(h) => table::first(self@, played_by(id@)) == Some(h@),
                None => table::first(self@, played_by(id@)) is None,
            },
    {
        let empty: bool = id.unicode_len() == 0;
        table::find(&self.holders, |h: &Holder| -> (b: bool)
            ensures b == (played_by(id@))(h@)
            { !empty && text::is_text(&h.bot_id, id) }, Ghost(played_by(id@)))
    }

    fn plays(&self, id: &str) -> (r: bool)
        ensures
            r == table::any(self@, played_by(id@)),
    {
        proof {
            table::first_is_a_hit(self@, played_by(id@));
        }
        self.player(id).is_some()
    }

    fn opened(&self, b: &Bot) -> (r: bool)
        ensures
            r == is_child(self@, b@),
    {
        match &b.parent_bot_id {
            Some(p) => self.plays(p.as_str()),
            None => false,
        }
    }

    fn houses(&self, project_id: &str) -> (r: bool)
        ensures
            r == table::any(self@, living_in(project_id@)),
    {
        let empty: bool = project_id.unicode_len() == 0;
        proof {
            table::first_is_a_hit(self@, living_in(project_id@));
        }
        table::find(&self.holders, |h: &Holder| -> (b: bool)
            ensures b == (living_in(project_id@))(h@)
            { !empty && text::is_text(&h.project_id, project_id) }, Ghost(living_in(project_id@))).is_some()
    }

    pub fn owns(&self, b: &Bot) -> (r: bool)
        ensures
            r == belongs(self@, b@),
    {
        self.plays(b.id.as_str()) || self.opened(b) || self.houses(b.project_id.as_str())
    }

    /// What this bot is to the manager. It means something only for a bot that belongs to it.
    pub fn role(&self, b: &Bot) -> (r: &'static str)
        ensures
            r@ == role_name(self@, b@),
    {
        match self.player(b.id.as_str()) {
            Some(h) => if h.responder {
                "AGM 協調者"
            } else {
                "AGM 總管（巡檢）"
            },
            None => if self.opened(b) {
                "AGM 開出去的子 agent"
            } else {
                "AGM 專案裡的常駐工人"
            },
        }
    }
}

// ---------------------------------------------------------------- alerts

/// A character that may stand in the subject of an alert: no control character, and not the separator.
pub open spec fn speakable() -> spec_fn(char) -> bool {
    |c: char| !((c as int) < 0x20 || 0x7f <= (c as int) <= 0x9f) && c != ':'
}

/// What an alert is about, as it stands in the key: at most eighty characters.
pub open spec fn subject_of(subject: Seq<char>) -> Seq<char> {
    table::limited(subject.filter(speakable()), 80)
}

/// The hour that a timestamp lies in, which is how long a repeated alert counts as the same one.
pub open spec fn hour_of(now: Seq<char>) -> Seq<char> {
    if now.len() >= 13 {
        now.take(13)
    } else {
        Seq::empty()
    }
}

pub open spec fn alert_key(reason: Seq<char>, subject: Seq<char>, hour: Seq<char>) -> Seq<char> {
    "ops_alert:daemon:"@ + reason + ":"@ + subject + ":"@ + hour
}

pub open spec fn alert_action() -> Seq<char> {
    "有東西要刪 AGM 的 bot，daemon 已擋下、什麼都沒刪：查 detail 裡的呼叫端與 config.toml 寫入紀錄（daemon.log 搜 `config.toml written`），確認是不是該刪；真的要刪就 `agm bot delete <id> --confirm-supervisor`"@
}

pub open spec fn alert_members(reason: Seq<char>, subject: Seq<char>, detail: Seq<char>) -> Seq<(Seq<char>, json::FieldView)> {
    seq![
        ("source"@, json::FieldView::Str("daemon"@)),
        ("reason"@, json::FieldView::Str(reason)),
        ("subject"@, json::FieldView::Str(subject)),
        ("detail"@, json::FieldView::Str(detail)),
        ("action"@, json::FieldView::Str(alert_action())),
    ]
}

/// The store after an alert.
pub open spec fn alerted(s: StoreView, event_id: Seq<char>, reason: Seq<char>, subject: Seq<char>, detail: Seq<char>, now: Seq<char>) -> StoreView {
    let subject = subject_of(subject);
    StoreView {
        inbox: inbox::with_event(
            s.inbox,
            inbox::fresh_event(
                event_id,
                alert_key(reason, subject, hour_of(now)),
                "ops_alert"@,
                None,
                None,
                None,
                json::json_object(alert_members(reason, subject, detail)),
                now,
            ),
        ),
        ..s
    }
}

fn speaks(c: char) -> (r: bool)
    ensures
        r == (speakable())(c),
{
    let u: u32 = c as u32;
    !(u < 0x20 || (0x7f <= u && u <= 0x9f)) && c != ':'
}

fn plain_subject(subject: &str) -> (r: String)
    ensures
        r@ == subject_of(subject@),
{
    let n: usize = subject.unicode_len();
    let v = text::chars_of(subject);
    let mut out: String = "".to_owned();
    let mut kept: usize = 0;
    let mut i: usize = 0;
    proof {
        reveal_strlit("");
        reveal(Seq::filter);
        assert(out@ =~= subject@.take(0).filter(speakable()));
    }
    while i < n && kept < 80
        invariant
            i <= n,
            n == subject@.len(),
            v@ == subject@,
            kept <= 80,
            kept == out@.len(),
            out@ == subject@.take(i as int).filter(speakable()),
        decreases n - i,
    {
        let ghost head = subject@.take(i as int);
        proof {
            reveal(Seq::filter);
            assert(subject@.take(i as int + 1).drop_last() =~= head);
            assert(subject@.take(i as int + 1).last() == subject@[i as int]);
        }
        if speaks(v[i]) {
            let c = subject.substring_char(i, i + 1);
            assert(c@ =~= seq![subject@[i as int]]);
            let ghost was = out@;
            out.append(c);
            assert(out@ =~= was.push(subject@[i as int]));
            kept += 1;
        }
        i += 1;
    }
    proof {
        let head = subject@.take(i as int);
        let rest = subject@.skip(i as int);
        let all = subject@.filter(speakable());
        assert(subject@ =~= head + rest);
        Seq::filter_distributes_over_add(head, rest, speakable());
        if i == n {
            assert(rest =~= Seq::empty());
            reveal(Seq::filter);
            assert(all =~= out@);
        }
        assert(table::limited(all, 80) =~= out@);
    }
    out
}

fn hour(now: &str) -> (r: &str)
    ensures
        r@ == hour_of(now@),
{
    let n: usize = now.unicode_len();
    let end: usize = if n >= 13 {
        13
    } else {
        0
    };
    let r = now.substring_char(0, end);
    assert(r@ =~= hour_of(now@));
    r
}

/// Tell patrol. The same subject within the same hour is one alert, and another subject is another.
pub fn alert(s: &mut Store, now: &str, event_id: &str, reason: &str, subject: &str, detail: &str)
    ensures
        final(s)@ == alerted(old(s)@, event_id@, reason@, subject@, detail@, now@),
{
    let about = plain_subject(subject);
    let mut key = text::joined("ops_alert:daemon:", reason);
    key = text::joined(key.as_str(), ":");
    key = text::joined(key.as_str(), about.as_str());
    key = text::joined(key.as_str(), ":");
    key = text::joined(key.as_str(), hour(now));
    let fields = [
        ("source", Field::Str("daemon")),
        ("reason", Field::Str(reason)),
        ("subject", Field::Str(about.as_str())),
        ("detail", Field::Str(detail)),
        (
            "action",
            Field::Str(
                "有東西要刪 AGM 的 bot，daemon 已擋下、什麼都沒刪：查 detail 裡的呼叫端與 config.toml 寫入紀錄（daemon.log 搜 `config.toml written`），確認是不是該刪；真的要刪就 `agm bot delete <id> --confirm-supervisor`",
            ),
        ),
    ];
    assert(json::members(fields@) =~= alert_members(reason@, about@, detail@));
    let payload = json::object(&fields);
    let _ = inbox::push_inbox(s, now, event_id, key.as_str(), "ops_alert", None, None, None, payload.as_str());
}

// ---------------------------------------------------------------- the guard

pub open spec fn refused_detail(what: Seq<char>, by: Seq<char>) -> Seq<char> {
    "刪除 API 要刪 AGM 的 "@ + what + "，沒帶 confirm=supervisor，已拒絕；呼叫端："@ + by
}

pub open spec fn refused_message(what: Seq<char>) -> Seq<char> {
    what + " 屬於 AGM（總管／角色本身、它們的 child、或在總管專案裡）；確定要刪請帶 ?confirm=supervisor"@
}

/// The store after a deletion was refused.
pub open spec fn refused(s: StoreView, event_id: Seq<char>, subject: Seq<char>, what: Seq<char>, by: Seq<char>, now: Seq<char>) -> StoreView {
    alerted(s, event_id, "supervisor_bot_delete_refused"@, subject, refused_detail(what, by), now)
}

pub open spec fn bot_words(b: BotView, role: Seq<char>) -> Seq<char> {
    "bot `"@ + b.name + "`（"@ + b.id + "，"@ + role + "）"@
}

pub open spec fn project_words(id: Seq<char>) -> Seq<char> {
    "專案 `"@ + id + "`"@
}

/// The answer to a refused deletion of a bot.
pub open spec fn bot_members(b: BotView, role: Seq<char>) -> Seq<(Seq<char>, json::FieldView)> {
    seq![
        ("reason"@, json::FieldView::Str("supervisor_owned"@)),
        ("bot_id"@, json::FieldView::Str(b.id)),
        ("name"@, json::FieldView::Str(b.name)),
        ("role"@, json::FieldView::Str(role)),
        ("message"@, json::FieldView::Str(refused_message(bot_words(b, role)))),
    ]
}

/// The answer to a refused deletion of a project.
pub open spec fn project_members(id: Seq<char>) -> Seq<(Seq<char>, json::FieldView)> {
    seq![
        ("reason"@, json::FieldView::Str("supervisor_owned"@)),
        ("project_id"@, json::FieldView::Str(id)),
        ("message"@, json::FieldView::Str(refused_message(project_words(id)))),
    ]
}

/// The bot is there and belongs to the manager.
pub open spec fn guarded_bot(s: StoreView, bot: Option<BotView>) -> bool {
    bot matches Some(b) && !b.deleted && belongs(holders_of(s), b)
}

/// A live bot of the manager in this project.
pub open spec fn ours_in(owned: Seq<HolderView>, project_id: Seq<char>) -> spec_fn(BotView) -> bool {
    |b: BotView| !b.deleted && b.project_id == project_id && belongs(owned, b)
}

/// The project is one of the manager's, or a bot of the manager lives in it.
pub open spec fn guarded_project(s: StoreView, project_id: Seq<char>, bots: Seq<BotView>) -> bool {
    table::any(holders_of(s), living_in(project_id)) || table::any(bots, ours_in(holders_of(s), project_id))
}

fn confirmed(confirm: Option<&str>) -> (r: bool)
    ensures
        r == (text::arg(confirm) == Some(CONFIRM@)),
{
    match confirm {
        Some(c) => text::same(c, CONFIRM),
        None => false,
    }
}

fn tell_refused(s: &mut Store, now: &str, event_id: &str, subject: &str, what: &str, by: &str)
    ensures
        final(s)@ == refused(old(s)@, event_id@, subject@, what@, by@, now@),
{
    let mut detail = text::joined("刪除 API 要刪 AGM 的 ", what);
    detail = text::joined(detail.as_str(), "，沒帶 confirm=supervisor，已拒絕；呼叫端：");
    detail = text::joined(detail.as_str(), by);
    alert(s, now, event_id, "supervisor_bot_delete_refused", subject, detail.as_str());
}

/// What the guard in front of deleting a bot answers, and what it leaves in the store; the answer is the
/// body of a refusal.
pub open spec fn guarding_bot(
    s: StoreView,
    now: Seq<char>,
    event_id: Seq<char>,
    bot: Option<BotView>,
    confirm: Option<Seq<char>>,
    by: Seq<char>,
    refusal: Option<Seq<char>>,
    after: StoreView,
) -> bool {
    if guarded_bot(s, bot) && confirm != Some(CONFIRM@) {
        let role = role_name(holders_of(s), bot->0);
        &&& refusal == Some(json::json_object(bot_members(bot->0, role)))
        &&& after == refused(s, event_id, bot->0.id, bot_words(bot->0, role), by, now)
    } else {
        refusal is None && after == s
    }
}

/// The guard in front of deleting a bot: one of the manager's is refused unless the deletion is
/// confirmed. A bot that is not there passes, and so does a deleted one.
pub fn guard_bot_delete(s: &mut Store, now: &str, event_id: &str, bot: Option<&Bot>, confirm: Option<&str>, by: &str) -> (res: Result<(), LcError>)
    ensures
        res matches Err(e) ==> e is Conflict,
        guarding_bot(
            old(s)@,
            now@,
            event_id@,
            match bot {
                Some(x) => Some(x@),
                None => None,
            },
            text::arg(confirm),
            by@,
            match res {
                Ok(_) => None,
                Err(LcError::Conflict(body)) => Some(body@),
                Err(LcError::Unavailable(_)) => None,
            },
            final(s)@,
        ),
{
    let b = match bot {
        None => {
            return Ok(());
        },
        Some(b) => b,
    };
    let owned = load(s);
    if b.deleted || !owned.owns(b) || confirmed(confirm) {
        return Ok(());
    }
    let role = owned.role(b);
    let mut what = text::joined("bot `", b.name.as_str());
    what = text::joined(what.as_str(), "`（");
    what = text::joined(what.as_str(), b.id.as_str());
    what = text::joined(what.as_str(), "，");
    what = text::joined(what.as_str(), role);
    what = text::joined(what.as_str(), "）");
    tell_refused(s, now, event_id, b.id.as_str(), what.as_str(), by);
    let message = text::joined(
        what.as_str(),
        " 屬於 AGM（總管／角色本身、它們的 child、或在總管專案裡）；確定要刪請帶 ?confirm=supervisor",
    );
    let fields = [
        ("reason", Field::Str("supervisor_owned")),
        ("bot_id", Field::Str(b.id.as_str())),
        ("name", Field::Str(b.name.as_str())),
        ("role", Field::Str(role)),
        ("message", Field::Str(message.as_str())),
    ];
    assert(json::members(fields@) =~= bot_members(b@, role@));
    Err(LcError::Conflict(json::object(&fields)))
}

/// What the guard in front of deleting a project answers, and what it leaves in the store.
pub open spec fn guarding_project(
    s: StoreView,
    now: Seq<char>,
    event_id: Seq<char>,
    project_id: Seq<char>,
    bots: Seq<BotView>,
    confirm: Option<Seq<char>>,
    by: Seq<char>,
    refusal: Option<Seq<char>>,
    after: StoreView,
) -> bool {
    if guarded_project(s, project_id, bots) && confirm != Some(CONFIRM@) {
        &&& refusal == Some(json::json_object(project_members(project_id)))
        &&& after == refused(s, event_id, project_id, project_words(project_id), by, now)
    } else {
        refusal is None && after == s
    }
}

/// The guard in front of deleting a whole project.
pub fn guard_project_delete(
    s: &mut Store,
    now: &str,
    event_id: &str,
    project_id: &str,
    bots: &Vec<Bot>,
    confirm: Option<&str>,
    by: &str,
) -> (res: Result<(), LcError>)
    ensures
        res matches Err(e) ==> e is Conflict,
        guarding_project(
            old(s)@,
            now@,
            event_id@,
            project_id@,
            table::views(bots@),
            text::arg(confirm),
            by@,
            match res {
                Ok(_) => None,
                Err(LcError::Conflict(body)) => Some(body@),
                Err(LcError::Unavailable(_)) => None,
            },
            final(s)@,
        ),
{
    let owned = load(s);
    let ghost hit = ours_in(owned@, project_id@);
    let i = table::locate(bots, |b: &Bot| -> (x: bool)
        ensures x == (ours_in(owned@, project_id@))(b@)
        { !b.deleted && text::same(b.project_id.as_str(), project_id) && owned.owns(b) }, Ghost(hit));
    proof {
        table::position_is_first(table::views(bots@), hit);
    }
    if !owned.houses(project_id) && i == bots.len() {
        return Ok(());
    }
    if confirmed(confirm) {
        return Ok(());
    }
    let what = text::joined(text::joined("專案 `", project_id).as_str(), "`");
    tell_refused(s, now, event_id, project_id, what.as_str(), by);
    let message = text::joined(
        what.as_str(),
        " 屬於 AGM（總管／角色本身、它們的 child、或在總管專案裡）；確定要刪請帶 ?confirm=supervisor",
    );
    let fields = [
        ("reason", Field::Str("supervisor_owned")),
        ("project_id", Field::Str(project_id)),
        ("message", Field::Str(message.as_str())),
    ];
    assert(json::members(fields@) =~= project_members(project_id@));
    Err(LcError::Conflict(json::object(&fields)))
}

// ---------------------------------------------------------------- laws

/// Two subjects that differ in their key have alerts of their own within the same hour.
pub proof fn each_subject_has_its_own_alert(reason: Seq<char>, a: Seq<char>, b: Seq<char>, hour: Seq<char>)
    requires
        subject_of(a) != subject_of(b),
    ensures
        alert_key(reason, subject_of(a), hour) != alert_key(reason, subject_of(b), hour),
{
    let front = "ops_alert:daemon:"@ + reason + ":"@;
    let x = subject_of(a);
    let y = subject_of(b);
    let k = alert_key(reason, x, hour);
    let l = alert_key(reason, y, hour);
    assert(k.len() == front.len() + x.len() + ":"@.len() + hour.len());
    assert(l.len() == front.len() + y.len() + ":"@.len() + hour.len());
    if k == l {
        assert(k.subrange(front.len() as int, (front.len() + x.len()) as int) =~= x);
        assert(l.subrange(front.len() as int, (front.len() + y.len()) as int) =~= y);
    }
}

/// A refusal is never silent: under a fresh id, afterwards the inbox holds an alert about it.
pub proof fn a_refusal_is_reported(s: StoreView, event_id: Seq<char>, subject: Seq<char>, what: Seq<char>, by: Seq<char>, now: Seq<char>)
    requires
        !table::any(s.inbox, inbox::with_id(event_id)),
    ensures
        table::any(
            refused(s, event_id, subject, what, by, now).inbox,
            |e: crate::rows::InboxEventView|
                e.event_key == alert_key("supervisor_bot_delete_refused"@, subject_of(subject), hour_of(now)),
        ),
{
    let key = alert_key("supervisor_bot_delete_refused"@, subject_of(subject), hour_of(now));
    let after = refused(s, event_id, subject, what, by, now).inbox;
    let hit = |e: crate::rows::InboxEventView| e.event_key == key;
    let known = inbox::known_event(event_id, key);
    if table::any(s.inbox, known) {
        let i = choose|i: int| 0 <= i < s.inbox.len() && known(#[trigger] s.inbox[i]);
        if s.inbox[i].id == event_id {
            assert((inbox::with_id(event_id))(s.inbox[i]));
        }
        assert(hit(after[i]));
    } else {
        assert(hit(after[s.inbox.len() as int]));
    }
}

/// A refusal deletes nothing and touches nothing but the inbox.
pub proof fn a_refusal_changes_nothing_else(s: StoreView, event_id: Seq<char>, subject: Seq<char>, what: Seq<char>, by: Seq<char>, now: Seq<char>)
    ensures
        (StoreView { inbox: s.inbox, ..refused(s, event_id, subject, what, by, now) }) == s,
        s.inbox.is_prefix_of(refused(s, event_id, subject, what, by, now).inbox),
{
    let after = refused(s, event_id, subject, what, by, now).inbox;
    assert(s.inbox =~= after.subrange(0, s.inbox.len() as int));
}

/// The manager, whom it opened and who lives in its project all belong to it.
pub proof fn there_are_three_ways_to_belong(s: StoreView, b: BotView)
    requires
        s.supervisor is Some,
    ensures
        s.supervisor->0.bot_id == Some(b.id) && b.id.len() > 0 ==> belongs(holders_of(s), b),
        b.parent_bot_id is Some && s.supervisor->0.bot_id == b.parent_bot_id && b.parent_bot_id->0.len() > 0 ==> belongs(
            holders_of(s),
            b,
        ),
        s.supervisor->0.project_id == Some(b.project_id) && b.project_id.len() > 0 ==> belongs(holders_of(s), b),
{
    let h = holders_of(s);
    assert(h[0].bot_id == s.supervisor->0.bot_id && h[0].project_id == s.supervisor->0.project_id);
    assert((played_by(b.id))(h[0]) || s.supervisor->0.bot_id != Some(b.id) || b.id.len() == 0);
    assert((living_in(b.project_id))(h[0]) || s.supervisor->0.project_id != Some(b.project_id) || b.project_id.len() == 0);
    if let Some(p) = b.parent_bot_id {
        assert((played_by(p))(h[0]) || s.supervisor->0.bot_id != Some(p) || p.len() == 0);
    }
}

/// Somebody plays for the manager exactly as the row of the supervisor, or of a role, says; and a project
/// is the manager's exactly as one of these rows says.
pub proof fn who_holds_what_is_on_record(s: StoreView, id: Seq<char>)
    ensures
        table::any(holders_of(s), played_by(id)) <==> id.len() > 0 && ((s.supervisor is Some && s.supervisor->0.bot_id == Some(
            id,
        )) || exists|i: int| 0 <= i < s.roles.len() && (#[trigger] s.roles[i]).bot_id == Some(id)),
        table::any(holders_of(s), living_in(id)) <==> id.len() > 0 && ((s.supervisor is Some && s.supervisor->0.project_id
            == Some(id)) || exists|i: int| 0 <= i < s.roles.len() && (#[trigger] s.roles[i]).project_id == Some(id)),
{
    let h = holders_of(s);
    let m: int = if s.supervisor is Some {
        1
    } else {
        0
    };
    assert(h.len() == m + s.roles.len());
    assert forall|i: int| 0 <= i < s.roles.len() implies #[trigger] h[m + i].bot_id == s.roles[i].bot_id && h[m + i].project_id
        == s.roles[i].project_id by {}
    if table::any(h, played_by(id)) {
        let k = choose|k: int| 0 <= k < h.len() && (played_by(id))(#[trigger] h[k]);
        if k >= m {
            assert(h[m + (k - m)].bot_id == s.roles[k - m].bot_id);
            assert(s.roles[k - m].bot_id == Some(id));
        }
    }
    if table::any(h, living_in(id)) {
        let k = choose|k: int| 0 <= k < h.len() && (living_in(id))(#[trigger] h[k]);
        if k >= m {
            assert(h[m + (k - m)].project_id == s.roles[k - m].project_id);
            assert(s.roles[k - m].project_id == Some(id));
        }
    }
    if id.len() > 0 && s.supervisor is Some && s.supervisor->0.bot_id == Some(id) {
        assert((played_by(id))(h[0]));
    }
    if id.len() > 0 && s.supervisor is Some && s.supervisor->0.project_id == Some(id) {
        assert((living_in(id))(h[0]));
    }
    if id.len() > 0 && exists|i: int| 0 <= i < s.roles.len() && (#[trigger] s.roles[i]).bot_id == Some(id) {
        let i = choose|i: int| 0 <= i < s.roles.len() && (#[trigger] s.roles[i]).bot_id == Some(id);
        assert((played_by(id))(h[m + i]));
    }
    if id.len() > 0 && exists|i: int| 0 <= i < s.roles.len() && (#[trigger] s.roles[i]).project_id == Some(id) {
        let i = choose|i: int| 0 <= i < s.roles.len() && (#[trigger] s.roles[i]).project_id == Some(id);
        assert((living_in(id))(h[m + i]));
    }
}

/// A bot belongs to the manager when it plays one of its roles, was opened by a bot that does, or lives
/// in one of its projects, and not otherwise.
pub proof fn these_are_all_the_ways_to_belong(s: StoreView, b: BotView)
    ensures
        belongs(holders_of(s), b) <==> {
            ||| table::any(holders_of(s), played_by(b.id))
            ||| b.parent_bot_id is Some && table::any(holders_of(s), played_by(b.parent_bot_id->0))
            ||| table::any(holders_of(s), living_in(b.project_id))
        },
{
}

/// What a bot is called: the responder where its own row says so, the manager for any other row of its
/// own, a child where a bot of the manager opened it, and a worker of its project otherwise.
pub proof fn what_a_bot_is_to_the_manager(owned: Seq<HolderView>, b: BotView, k: int)
    ensures
        0 <= k < owned.len() && b.id.len() > 0 && owned[k].bot_id == Some(b.id) && (forall|j: int|
            0 <= j < k ==> (#[trigger] owned[j]).bot_id != Some(b.id)) ==> role_name(owned, b) == if owned[k].responder {
            "AGM 協調者"@
        } else {
            "AGM 總管（巡檢）"@
        },
        (b.id.len() == 0 || forall|j: int| 0 <= j < owned.len() ==> (#[trigger] owned[j]).bot_id != Some(b.id))
            && b.parent_bot_id is Some && b.parent_bot_id->0.len() > 0 && 0 <= k < owned.len() && owned[k].bot_id
            == b.parent_bot_id ==> role_name(owned, b) == "AGM 開出去的子 agent"@,
        (b.id.len() == 0 || forall|j: int| 0 <= j < owned.len() ==> (#[trigger] owned[j]).bot_id != Some(b.id))
            && b.parent_bot_id is None ==> role_name(owned, b) == "AGM 專案裡的常駐工人"@,
{
    let hit = played_by(b.id);
    if 0 <= k < owned.len() && b.id.len() > 0 && owned[k].bot_id == Some(b.id) && (forall|j: int|
        0 <= j < k ==> (#[trigger] owned[j]).bot_id != Some(b.id)) {
        table::first_at(owned, hit, k);
    }
    if b.id.len() == 0 || (forall|j: int| 0 <= j < owned.len() ==> (#[trigger] owned[j]).bot_id != Some(b.id)) {
        table::first_of_none(owned, hit);
    }
    if b.parent_bot_id is Some && b.parent_bot_id->0.len() > 0 && 0 <= k < owned.len() && owned[k].bot_id == b.parent_bot_id {
        assert((played_by(b.parent_bot_id->0))(owned[k]));
    }
}

/// A bot of the manager that is there is not deleted without the word for it, and everything else is; a
/// refusal names the bot, and is told to patrol with who asked.
pub proof fn a_bot_of_the_manager_is_deleted_only_when_confirmed(
    s: StoreView,
    now: Seq<char>,
    event_id: Seq<char>,
    bot: Option<BotView>,
    confirm: Option<Seq<char>>,
    by: Seq<char>,
    refusal: Option<Seq<char>>,
    after: StoreView,
)
    requires
        guarding_bot(s, now, event_id, bot, confirm, by, refusal, after),
    ensures
        refusal is Some <==> bot is Some && !bot->0.deleted && belongs(holders_of(s), bot->0) && confirm != Some("supervisor"@),
        refusal is None ==> after == s,
        refusal is Some ==> {
            let b = bot->0;
            let role = role_name(holders_of(s), b);
            let what = "bot `"@ + b.name + "`（"@ + b.id + "，"@ + role + "）"@;
            &&& refusal->0 == json::json_object(
                seq![
                    ("reason"@, json::FieldView::Str("supervisor_owned"@)),
                    ("bot_id"@, json::FieldView::Str(b.id)),
                    ("name"@, json::FieldView::Str(b.name)),
                    ("role"@, json::FieldView::Str(role)),
                    (
                        "message"@,
                        json::FieldView::Str(
                            what + " 屬於 AGM（總管／角色本身、它們的 child、或在總管專案裡）；確定要刪請帶 ?confirm=supervisor"@,
                        ),
                    ),
                ],
            )
            &&& after == alerted(
                s,
                event_id,
                "supervisor_bot_delete_refused"@,
                b.id,
                "刪除 API 要刪 AGM 的 "@ + what + "，沒帶 confirm=supervisor，已拒絕；呼叫端："@ + by,
                now,
            )
        },
{
}

/// The same holds of a project of the manager, and of one that a bot of the manager which is there lives
/// in.
pub proof fn a_project_of_the_manager_is_deleted_only_when_confirmed(
    s: StoreView,
    now: Seq<char>,
    event_id: Seq<char>,
    project_id: Seq<char>,
    bots: Seq<BotView>,
    confirm: Option<Seq<char>>,
    by: Seq<char>,
    refusal: Option<Seq<char>>,
    after: StoreView,
)
    requires
        guarding_project(s, now, event_id, project_id, bots, confirm, by, refusal, after),
    ensures
        refusal is Some <==> confirm != Some("supervisor"@) && (table::any(holders_of(s), living_in(project_id)) || exists|
            i: int,
        |
            0 <= i < bots.len() && !(#[trigger] bots[i]).deleted && bots[i].project_id == project_id && belongs(
                holders_of(s),
                bots[i],
            )),
        refusal is None ==> after == s,
        refusal is Some ==> {
            let what = "專案 `"@ + project_id + "`"@;
            &&& refusal->0 == json::json_object(
                seq![
                    ("reason"@, json::FieldView::Str("supervisor_owned"@)),
                    ("project_id"@, json::FieldView::Str(project_id)),
                    (
                        "message"@,
                        json::FieldView::Str(
                            what + " 屬於 AGM（總管／角色本身、它們的 child、或在總管專案裡）；確定要刪請帶 ?confirm=supervisor"@,
                        ),
                    ),
                ],
            )
            &&& after == alerted(
                s,
                event_id,
                "supervisor_bot_delete_refused"@,
                project_id,
                "刪除 API 要刪 AGM 的 "@ + what + "，沒帶 confirm=supervisor，已拒絕；呼叫端："@ + by,
                now,
            )
        },
{
    let hit = ours_in(holders_of(s), project_id);
    if table::any(bots, hit) {
        let i = choose|i: int| 0 <= i < bots.len() && hit(#[trigger] bots[i]);
        assert(!bots[i].deleted && bots[i].project_id == project_id);
    } else {
        assert forall|i: int| 0 <= i < bots.len() implies !hit(#[trigger] bots[i]) by {}
    }
}

/// An alert is an event of its own kind, with what was reported in it, and is about the subject within
/// the hour: the first thirteen characters of the moment.
pub proof fn an_alert_is_one_event_an_hour(
    s: StoreView,
    event_id: Seq<char>,
    reason: Seq<char>,
    subject: Seq<char>,
    detail: Seq<char>,
    now: Seq<char>,
)
    requires
        now.len() >= 13,
    ensures
        ({
            let key = "ops_alert:daemon:"@ + reason + ":"@ + subject_of(subject) + ":"@ + now.subrange(0, 13);
            let known = exists|i: int|
                0 <= i < s.inbox.len() && ((#[trigger] s.inbox[i]).event_key == key || s.inbox[i].id == event_id);
            let after = alerted(s, event_id, reason, subject, detail, now);
            &&& known ==> after == s
            &&& !known ==> {
                let e = after.inbox.last();
                &&& after == (StoreView { inbox: s.inbox.push(e), ..s })
                &&& e.id == event_id && e.event_key == key && e.kind == "ops_alert"@ && e.state == "pending"@
                &&& e.assignment_id is None && e.bot_id is None && e.turn_id is None && e.created_at == now
                &&& e.payload_json == json::json_object(alert_members(reason, subject_of(subject), detail))
            }
        }),
        alert_members(reason, subject, detail).contains(("reason"@, json::FieldView::Str(reason))),
        alert_members(reason, subject, detail).contains(("subject"@, json::FieldView::Str(subject))),
        alert_members(reason, subject, detail).contains(("detail"@, json::FieldView::Str(detail))),
        alert_members(reason, subject, detail).contains(("source"@, json::FieldView::Str("daemon"@))),
{
    let m = alert_members(reason, subject, detail);
    assert(m[0].0 == "source"@ && m[1].0 == "reason"@ && m[2].0 == "subject"@ && m[3].0 == "detail"@);
    assert(now.take(13) =~= now.subrange(0, 13));
    let key = "ops_alert:daemon:"@ + reason + ":"@ + subject_of(subject) + ":"@ + now.subrange(0, 13);
    let hit = inbox::known_event(event_id, key);
    if table::any(s.inbox, hit) {
        let i = choose|i: int| 0 <= i < s.inbox.len() && hit(#[trigger] s.inbox[i]);
        assert(s.inbox[i].event_key == key || s.inbox[i].id == event_id);
    } else {
        assert forall|i: int| 0 <= i < s.inbox.len() implies !hit(#[trigger] s.inbox[i]) by {}
    }
}

/// The subject of an alert is what was named, without control characters and colons, cut at eighty
/// characters.
pub proof fn a_subject_can_stand_in_a_key(subject: Seq<char>, c: char)
    ensures
        subject_of(subject).len() <= 80,
        subject_of(subject).contains(c) ==> subject.contains(c) && c != ':' && (c as int) >= 0x20 && !(0x7f <= (c as int)
            <= 0x9f),
        (forall|i: int|
            0 <= i < subject.len() ==> #[trigger] subject[i] != ':' && (subject[i] as int) >= 0x20 && !(0x7f <= (
            subject[i] as int) <= 0x9f)) && subject.len() <= 80 ==> subject_of(subject) == subject,
{
    let all = subject.filter(speakable());
    table::selecting_takes_each_hit(subject, speakable(), c);
    if subject_of(subject).contains(c) {
        let k = choose|k: int| 0 <= k < subject_of(subject).len() && subject_of(subject)[k] == c;
        assert(all[k] == c);
    }
    if forall|i: int|
        0 <= i < subject.len() ==> #[trigger] subject[i] != ':' && (subject[i] as int) >= 0x20 && !(0x7f <= (subject[i] as int)
            <= 0x9f) {
        all_speak(subject);
    }
}

proof fn all_speak(s: Seq<char>)
    requires
        forall|i: int|
            0 <= i < s.len() ==> #[trigger] s[i] != ':' && (s[i] as int) >= 0x20 && !(0x7f <= (s[i] as int) <= 0x9f),
    ensures
        s.filter(speakable()) == s,
    decreases s.len(),
{
    reveal(Seq::filter);
    if s.len() > 0 {
        assert(s.last() == s[s.len() - 1]);
        assert forall|i: int| 0 <= i < s.drop_last().len() implies #[trigger] s.drop_last()[i] != ':' && (
        s.drop_last()[i] as int) >= 0x20 && !(0x7f <= (s.drop_last()[i] as int) <= 0x9f) by {
            assert(s.drop_last()[i] == s[i]);
        }
        all_speak(s.drop_last());
        assert(s.drop_last().push(s.last()) =~= s);
    }
}

} // verus!
