//! The responder: the second bot of the supervisor, which answers requests and reports.
//!
//! It has a directory of its own, because sessions are keyed by it; no remote control, because people
//! come in through the manager; and no other model to fall back to. Out of quota it waits.
use crate::config;
use crate::config::{Placement, PlacementView, ProjectCfg, ProjectCfgView};
use crate::inbox;
use crate::json;
use crate::json::Field;
use crate::maintenance::{BotEntry, BotEntryView};
use crate::persona;
use crate::persona::Loaded;
use crate::refusal::{Refusal, RefusalView};
use crate::render;
use crate::role_inbox;
use crate::roles;
use crate::roles::Role;
use crate::rows::{InboxEvent, InboxEventView, RoleRow, RoleRowView};
use crate::setup;
use crate::setup::{Deployed, FileOut};
use crate::store;
use crate::store::{Store, StoreView};
use crate::supervisor;
use crate::table;
use crate::text;
use crate::time;
use crate::time::Instant;
use crate::watchdog;
use crate::watchdog::{Plan, Watched};
use vstd::prelude::*;

verus! {

pub const BOT_NAME: &'static str = "AGM-responder";

// ---------------------------------------------------------------- what becomes an argument

/// A small letter or a digit.
pub open spec fn is_alnum(c: char) -> bool {
    ('a' <= c && c <= 'z') || ('0' <= c && c <= '9')
}

/// What a model alias is made of.
pub open spec fn is_alias_char(c: char) -> bool {
    is_alnum(c) || c == '.' || c == '_' || c == '-'
}

/// The text looks like a model alias: it cannot be a flag, hold blanks, or be overlong.
pub open spec fn is_alias(m: Seq<char>) -> bool {
    &&& 1 <= m.len() <= 40
    &&& is_alnum(m[0])
    &&& forall|i: int| 0 <= i < m.len() ==> is_alias_char(#[trigger] m[i])
}

fn alnum(c: char) -> (r: bool)
    ensures
        r == is_alnum(c),
{
    ('a' <= c && c <= 'z') || ('0' <= c && c <= '9')
}

/// Which models there are changes with the CLI, so the shape is looked at, and not a list.
pub fn valid_model(m: &str) -> (r: bool)
    ensures
        r == is_alias(m@),
{
    let v = text::chars_of(m);
    if v.len() == 0 || v.len() > 40 || !alnum(v[0]) {
        return false;
    }
    let mut i: usize = 0;
    while i < v.len()
        invariant
            i <= v.len(),
            v@ == m@,
            forall|j: int| 0 <= j < i ==> is_alias_char(#[trigger] m@[j]),
        decreases v.len() - i,
    {
        let c: char = v[i];
        if !(alnum(c) || c == '.' || c == '_' || c == '-') {
            assert(!is_alias_char(m@[i as int]));
            return false;
        }
        i += 1;
    }
    true
}

/// The directory of the responder.
pub fn dir(data_dir: &str) -> (r: String)
    ensures
        r@ == setup::role_dir(data_dir@, "AGM-responder"@),
{
    setup::join(setup::join(data_dir, "supervisor").as_str(), BOT_NAME)
}

/// The embedded persona: the seed of a first install and nothing more.
pub fn persona_body(doc: &str) -> (r: String)
    ensures
        r@ == setup::body_of(doc@),
{
    setup::persona_body(doc)
}

// ---------------------------------------------------------------- persona

/// The row of the responder.
pub open spec fn row(s: StoreView, now: Seq<char>) -> RoleRowView {
    roles::role_row(s.roles, Role::Responder, now)
}

/// The store with the row of the responder changed.
pub open spec fn with_row(s: StoreView, to: spec_fn(RoleRowView) -> RoleRowView, now: Seq<char>) -> StoreView {
    StoreView {
        roles: table::changed(
            roles::with_role(s.roles, Role::Responder, now),
            roles::of_role(Role::Responder),
            to,
        ),
        ..s
    }
}

/// The responder without a persona.
pub open spec fn unseeded() -> spec_fn(RoleRowView) -> bool {
    |r: RoleRowView| r.role == "responder"@ && store::unset(r.persona_text)
}

/// The row with the embedded persona.
pub open spec fn seeded(embedded: Seq<char>, now: Seq<char>) -> spec_fn(RoleRowView) -> RoleRowView {
    |r: RoleRowView|
        (RoleRowView {
            persona_text: Some(embedded),
            persona_hash: Some(persona::hash_text(embedded)),
            persona_source: Some("embedded"@),
            persona_updated_at: Some(now),
            persona_seed_hash: Some(persona::hash_text(embedded)),
            persona_version: table::bumped(r.persona_version),
            updated_at: now,
            ..r
        })
}

/// The store with a persona for the responder, seeded where there was none.
pub open spec fn with_persona(s: StoreView, embedded: Seq<char>, now: Seq<char>) -> StoreView {
    StoreView {
        roles: table::changed(roles::with_role(s.roles, Role::Responder, now), unseeded(), seeded(embedded, now)),
        ..s
    }
}

/// The persona that the responder runs on: what is stored, and otherwise the embedded text, which is
/// then stored.
pub fn effective_persona(s: &mut Store, now: &str, embedded: &str) -> (r: String)
    ensures
        final(s)@ == with_persona(old(s)@, embedded@, now@),
        r@ == setup::running_on(row(with_persona(old(s)@, embedded@, now@), now@).persona_text, embedded@),
{
    let _ = roles::get(s, now, Role::Responder);
    table::change(
        &mut s.roles,
        |a: &RoleRow| -> (b: bool)
            ensures b == (unseeded())(a@)
            {
                text::same(a.role.as_str(), "responder") && (match &a.persona_text {
                    Some(t) => text::same(t.as_str(), ""),
                    None => true,
                })
            },
        |a: &RoleRow| -> (x: RoleRow)
            ensures x@ == (seeded(embedded@, now@))(a@)
            {
                RoleRow {
                    persona_text: Some(embedded.to_owned()),
                    persona_hash: Some(persona::hash(embedded)),
                    persona_source: Some("embedded".to_owned()),
                    persona_updated_at: Some(now.to_owned()),
                    persona_seed_hash: Some(persona::hash(embedded)),
                    persona_version: table::bump(a.persona_version),
                    updated_at: now.to_owned(),
                    ..table::Row::copied(a)
                }
            },
        Ghost(unseeded()),
        Ghost(seeded(embedded@, now@)),
    );
    proof {
        row_stays(old(s)@, unseeded(), seeded(embedded@, now@), now@);
    }
    let r = roles::get(s, now, Role::Responder);
    match r.persona_text {
        Some(t) => if text::same(t.as_str(), "") {
            embedded.to_owned()
        } else {
            t
        },
        None => embedded.to_owned(),
    }
}

/// A change that leaves the roles of the rows alone leaves the responder's row where it is.
proof fn row_stays(s: StoreView, hit: spec_fn(RoleRowView) -> bool, to: spec_fn(RoleRowView) -> RoleRowView, now: Seq<char>)
    requires
        forall|r: RoleRowView| (#[trigger] to(r)).role == r.role,
    ensures
        ({
            let rows = roles::with_role(s.roles, Role::Responder, now);
            let after = table::changed(rows, hit, to);
            forall|later: Seq<char>| #[trigger] roles::with_role(after, Role::Responder, later) == after
        }),
{
    let rows = roles::with_role(s.roles, Role::Responder, now);
    let after = table::changed(rows, hit, to);
    roles::a_role_has_a_row(s.roles, Role::Responder, now);
    let i = choose|i: int| 0 <= i < rows.len() && (roles::of_role(Role::Responder))(#[trigger] rows[i]);
    assert((roles::of_role(Role::Responder))(after[i]));
}

/// The row with a persona that was set by hand.
pub open spec fn told(words: Seq<char>, now: Seq<char>) -> spec_fn(RoleRowView) -> RoleRowView {
    |r: RoleRowView|
        (RoleRowView {
            persona_text: Some(words),
            persona_hash: Some(persona::hash_text(words)),
            persona_source: Some("api"@),
            persona_updated_at: Some(now),
            persona_version: table::bumped(r.persona_version),
            updated_at: now,
            ..r
        })
}

/// The persona changed since it was read.
#[derive(Debug, Clone, Copy, PartialEq, Eq, Structural)]
pub struct VersionMismatch {
    pub expected: i64,
    pub current: i64,
}

/// What setting the persona answers and leaves in the store.
pub open spec fn telling(
    s: StoreView,
    now: Seq<char>,
    words: Seq<char>,
    expected_version: Option<i64>,
    res: Result<i64, VersionMismatch>,
    after: StoreView,
) -> bool {
    let was = row(s, now);
    let base = StoreView { roles: roles::with_role(s.roles, Role::Responder, now), ..s };
    if was.persona_text == Some(words) {
        res == Ok::<i64, VersionMismatch>(was.persona_version) && after == base
    } else if expected_version is Some && expected_version->0 != was.persona_version {
        &&& res == Err::<i64, VersionMismatch>(
            VersionMismatch { expected: expected_version->0, current: was.persona_version },
        )
        &&& after == base
    } else {
        &&& res == Ok::<i64, VersionMismatch>(table::bumped(was.persona_version))
        &&& after == with_row(s, told(words, now), now)
    }
}

/// Set the persona. Gives its version; the same text again is no new one, and needs no right version.
pub fn set_persona(s: &mut Store, now: &str, words: &str, expected_version: Option<i64>) -> (res: Result<i64, VersionMismatch>)
    ensures
        telling(old(s)@, now@, words@, expected_version, res, final(s)@),
{
    let r = roles::get(s, now, Role::Responder);
    if text::is_text(&r.persona_text, words) {
        return Ok(r.persona_version);
    }
    if let Some(expected) = expected_version {
        if expected != r.persona_version {
            return Err(VersionMismatch { expected, current: r.persona_version });
        }
    }
    table::change(
        &mut s.roles,
        |a: &RoleRow| -> (b: bool)
            ensures b == (roles::of_role(Role::Responder))(a@)
            { text::same(a.role.as_str(), Role::Responder.as_str()) },
        |a: &RoleRow| -> (x: RoleRow)
            ensures x@ == (told(words@, now@))(a@)
            {
                RoleRow {
                    persona_text: Some(words.to_owned()),
                    persona_hash: Some(persona::hash(words)),
                    persona_source: Some("api".to_owned()),
                    persona_updated_at: Some(now.to_owned()),
                    persona_version: table::bump(a.persona_version),
                    updated_at: now.to_owned(),
                    ..table::Row::copied(a)
                }
            },
        Ghost(roles::of_role(Role::Responder)),
        Ghost(told(words@, now@)),
    );
    Ok(table::bump(r.persona_version))
}

// ---------------------------------------------------------------- files

/// The notes up to the port of the daemon.
pub const MD_TITLE: &'static str = "# AGM 協調者 — agents-manager

你是 AGM 的協調者（responder）。角色前導詞由 daemon 以 persona 注入（同目錄 `persona.md` 是可讀副本）。

## 執行期
- AG Man daemon：`http://127.0.0.1:";

/// The notes between the port and the id of the bot.
pub const MD_BOT: &'static str = "`
- 你自己的 bot id：`";

/// The notes between the id of the bot and its directory.
pub const MD_DIR: &'static str = "`
- 工作目錄：`";

/// The notes behind the directory.
pub const MD_REST: &'static str = "`（只屬於協調者；巡檢 AGM 在另一個目錄）
- 執行期設定：`runtime.json`（`role` = `responder`；沒有 token）

## 可用工具
- `bin/agm`：先跑 `bin/agm --help`。沒出現在 `--help` 的子命令就是不存在。

## 恢復流程
讀 `handoff.md` → `bin/agm inbox --role responder` → `bin/agm assignments --awaiting-review` → 即時狀態。

## 邊界
- 這個目錄不是任何專案的原始碼，不要在這裡改程式。
- 不開 Remote Control；使用者入口是巡檢 AGM。
- 不要把 token、登入秘密或完整環境變數寫進任何檔案或回覆。
";

/// The handoff notes of a responder that has written none.
pub const HANDOFF: &'static str = "# AGM 協調者管理摘要

（尚未寫入。權威紀錄在 AG Man 資料庫。）
";

/// The notes in the responder's directory.
pub open spec fn notes(dir: Seq<char>, bot_id: Seq<char>, port: u16) -> Seq<char> {
    MD_TITLE@ + text::digits(port as nat) + MD_BOT@ + bot_id + MD_DIR@ + dir + MD_REST@
}

/// What the responder finds in its directory about itself.
pub fn claude_md(dir: &str, bot_id: &str, port: u16) -> (r: String)
    ensures
        r@ == notes(dir@, bot_id@, port),
{
    let mut t = text::joined(MD_TITLE, text::number(port as u64).as_str());
    t = text::joined(t.as_str(), MD_BOT);
    t = text::joined(t.as_str(), bot_id);
    t = text::joined(t.as_str(), MD_DIR);
    t = text::joined(t.as_str(), dir);
    text::joined(t.as_str(), MD_REST)
}

/// The runtime settings of the command line tool in the responder's directory. No token is among them.
pub open spec fn runtime_members(port: u16, self_id: Seq<char>, manager_id: Option<Seq<char>>, data_dir: Seq<char>) -> Seq<
    (Seq<char>, json::FieldView),
> {
    seq![
        ("daemon_url"@, json::FieldView::Str(setup::daemon_url(port))),
        ("role"@, json::FieldView::Str("responder"@)),
        ("self_bot_id"@, json::FieldView::Str(self_id)),
        ("responder_bot_id"@, json::FieldView::Str(self_id)),
        ("manager_bot_id"@, json::text_view(manager_id)),
        ("data_dir"@, json::FieldView::Str(data_dir)),
        ("supervisor_id"@, json::FieldView::Str("AGM"@)),
    ]
}

pub fn runtime_json(port: u16, self_id: &str, manager_id: Option<&str>, data_dir: &str) -> (r: String)
    ensures
        r@ == json::json_object(runtime_members(port, self_id@, text::arg(manager_id), data_dir@)),
{
    let url = setup::url_of(port);
    let fields = [
        ("daemon_url", Field::Str(url.as_str())),
        ("role", Field::Str("responder")),
        ("self_bot_id", Field::Str(self_id)),
        ("responder_bot_id", Field::Str(self_id)),
        ("manager_bot_id", json::str_or_null(manager_id)),
        ("data_dir", Field::Str(data_dir)),
        ("supervisor_id", Field::Str(store::SUPERVISOR_ID)),
    ];
    assert(json::members(fields@) =~= runtime_members(port, self_id@, text::arg(manager_id), data_dir@));
    json::object(&fields)
}

/// The files of the responder's directory.
pub fn deploy_files(
    data_dir: &str,
    notes_name: &str,
    port: u16,
    bot_id: &str,
    manager_id: Option<&str>,
    persona: &str,
    cli: &str,
) -> (r: (Vec<FileOut>, Deployed))
    ensures
        ({
            let dir = setup::role_dir(data_dir@, "AGM-responder"@);
            &&& table::views(r.0@) == setup::role_files_of(
                dir,
                notes_name@,
                notes(dir, bot_id@, port),
                persona@,
                json::json_object(runtime_members(port, bot_id@, text::arg(manager_id), data_dir@)),
                HANDOFF@,
                cli@,
            )
            &&& r.1.cwd@ == dir
            &&& r.1.agm_cli@ == "deployed"@
        }),
{
    let d = dir(data_dir);
    let md = claude_md(d.as_str(), bot_id, port);
    let runtime = runtime_json(port, bot_id, manager_id, data_dir);
    let files = setup::role_files(d.as_str(), notes_name, md.as_str(), persona, runtime.as_str(), HANDOFF, cli);
    (files, Deployed { cwd: d, agm_cli: "deployed".to_owned() })
}

// ---------------------------------------------------------------- the environment

/// What the responder is to run on: what was given, or what is on record.
pub open spec fn given_or(given: Option<Seq<char>>, stored: Seq<char>) -> Seq<char> {
    match given {
        Some(t) => if text::is_blank(t) {
            stored
        } else {
            text::trimmed(t)
        },
        None => stored,
    }
}

fn or_stored(given: Option<&str>, stored: &String) -> (r: String)
    ensures
        r@ == given_or(text::arg(given), stored@),
{
    match given {
        Some(t) => {
            let u = text::trim(t);
            if u.unicode_len() == 0 {
                stored.clone()
            } else {
                u.to_owned()
            }
        },
        None => stored.clone(),
    }
}

/// What the responder is asked to run on.
#[derive(Debug)]
pub struct Runtime {
    pub identity: String,
    pub model: String,
    pub effort: String,
}

/// The model does not look like an alias.
#[derive(Debug)]
pub struct BadModel {
    pub model: String,
}

impl BadModel {
    /// What the caller is told.
    pub fn refusal(&self) -> (r: Refusal)
        ensures
            r@ == RefusalView::Bad(
                "model must look like a CLI alias ([a-z0-9][a-z0-9._-]{0,39}), got "@ + text::quoted_text(self.model@),
            ),
    {
        Refusal::Bad(
            text::joined(
                "model must look like a CLI alias ([a-z0-9][a-z0-9._-]{0,39}), got ",
                text::quoted(self.model.as_str()).as_str(),
            ),
        )
    }
}

/// What the caller is told where no effort is left to run at.
pub fn no_effort() -> (r: Refusal)
    ensures
        r@ == RefusalView::Bad("effort must not be empty"@),
{
    Refusal::Bad("effort must not be empty".to_owned())
}

/// What the caller is told where the account that the responder is to run under is not there.
pub fn no_identity(identity: &str) -> (r: Refusal)
    ensures
        r@ == (RefusalView::Conflict {
            message: "responder identity is not configured on this host"@,
            detail: json::json_object(
                seq![
                    ("reason"@, json::FieldView::Str("identity_missing"@)),
                    ("identity"@, json::FieldView::Str(identity@)),
                ],
            ),
        }),
{
    let fields = [("reason", Field::Str("identity_missing")), ("identity", Field::Str(identity))];
    assert(json::members(fields@) =~= seq![
        ("reason"@, json::FieldView::Str("identity_missing"@)),
        ("identity"@, json::FieldView::Str(identity@)),
    ]);
    Refusal::Conflict {
        message: "responder identity is not configured on this host".to_owned(),
        detail: json::object(&fields),
    }
}

/// What the caller is told where another bot has the name of the responder.
pub fn name_taken() -> (r: Refusal)
    ensures
        r@ == (RefusalView::Conflict {
            message: "a different bot is already called AGM-responder in the responder project"@,
            detail: json::json_object(
                seq![
                    ("reason"@, json::FieldView::Str("name_taken"@)),
                    ("name"@, json::FieldView::Str("AGM-responder"@)),
                ],
            ),
        }),
{
    let fields = [("reason", Field::Str("name_taken")), ("name", Field::Str("AGM-responder"))];
    assert(json::members(fields@) =~= seq![
        ("reason"@, json::FieldView::Str("name_taken"@)),
        ("name"@, json::FieldView::Str("AGM-responder"@)),
    ]);
    Refusal::Conflict {
        message: "a different bot is already called AGM-responder in the responder project".to_owned(),
        detail: json::object(&fields),
    }
}

/// What the responder is to run on: its account, its model and its effort, or the model that is none.
pub open spec fn settled(
    was: RoleRowView,
    identity: Option<Seq<char>>,
    model: Option<Seq<char>>,
    effort: Option<Seq<char>>,
) -> Result<(Seq<char>, Seq<char>, Seq<char>), Seq<char>> {
    let m = given_or(model, was.model);
    if is_alias(m) {
        Ok((given_or(identity, was.identity), m, given_or(effort, was.effort)))
    } else {
        Err(m)
    }
}

/// Settle what the responder is to run on. These become arguments, so the shape of the model is looked
/// at; the effort and the account are the caller's to check.
pub fn resolve(s: &mut Store, now: &str, identity: Option<&str>, model: Option<&str>, effort: Option<&str>) -> (res: Result<
    Runtime,
    BadModel,
>)
    ensures
        final(s)@ == (StoreView { roles: roles::with_role(old(s)@.roles, Role::Responder, now@), ..old(s)@ }),
        match settled(row(old(s)@, now@), text::arg(identity), text::arg(model), text::arg(effort)) {
            Ok(t) => res matches Ok(r) && r.identity@ == t.0 && r.model@ == t.1 && r.effort@ == t.2,
            Err(m) => res matches Err(e) && e.model@ == m,
        },
{
    let r = roles::get(s, now, Role::Responder);
    let model = or_stored(model, &r.model);
    if !valid_model(model.as_str()) {
        return Err(BadModel { model });
    }
    Ok(Runtime { identity: or_stored(identity, &r.identity), model, effort: or_stored(effort, &r.effort) })
}

/// The project of the manager.
pub open spec fn manager_project(s: StoreView) -> Option<Seq<char>> {
    match s.supervisor {
        Some(r) => r.project_id,
        None => None,
    }
}

/// The bot of the responder is in another project than the manager's.
pub open spec fn apart(s: StoreView, projects: Seq<ProjectCfgView>) -> bool {
    match (roles::registered(s, Role::Responder), manager_project(s)) {
        (Some(b), Some(p)) => config::is_elsewhere(projects, b, p),
        _ => false,
    }
}

/// Whether setting the responder up, or merging it, is going to move its bot.
pub fn is_apart(s: &Store, projects: &Vec<ProjectCfg>) -> (r: bool)
    ensures
        r == apart(s@, table::views(projects@)),
{
    let project = match &s.supervisor {
        Some(r) => text::borrowed(&r.project_id),
        None => None,
    };
    match (roles::registered_bot(s, Role::Responder), project) {
        (Some(b), Some(p)) => config::bot_is_elsewhere(projects, b.as_str(), p),
        _ => false,
    }
}

/// What moving the responder into the project of the manager comes to.
pub open spec fn adopting(s: StoreView, projects: Seq<ProjectCfgView>, bot_id: Seq<char>, cwd: Seq<char>, now: Seq<char>) -> (
    Option<Seq<char>>,
    StoreView,
    Seq<ProjectCfgView>,
) {
    let base = supervisor::initialised(s, now);
    match manager_project(s) {
        None => (None, base, projects),
        Some(p) => {
            let (moved, after) = config::moving(projects, bot_id, p, cwd);
            if moved is Missing {
                (None, base, after)
            } else {
                (Some(p), with_row(base, roles::placed_in(bot_id, p, cwd, now), now), after)
            }
        },
    }
}

/// Move the responder's bot into the project of the manager: they are two roles of one supervisor.
/// Their directories stay apart, so the bot keeps its own. `None` is that there is nothing to move, or
/// nowhere to move it. It can be done again and again.
pub fn adopt_into_manager_project(s: &mut Store, now: &str, projects: &mut Vec<ProjectCfg>, bot_id: &str, cwd: &str) -> (r: Option<
    String,
>)
    ensures
        (text::opt(r), final(s)@, table::views(final(projects)@)) == adopting(
            old(s)@,
            table::views(old(projects)@),
            bot_id@,
            cwd@,
            now@,
        ),
{
    let project = match store::get_or_init(s, now).project_id {
        Some(p) => p,
        None => {
            return None;
        },
    };
    match config::adopt(projects, bot_id, project.as_str(), cwd) {
        None => None,
        Some(_) => {
            roles::set_env(s, now, Role::Responder, bot_id, project.as_str(), cwd);
            Some(project)
        },
    }
}

/// What moving the bot on record into the project of the manager comes to.
pub open spec fn merging(s: StoreView, projects: Seq<ProjectCfgView>, cwd: Seq<char>, now: Seq<char>) -> (
    Option<Seq<char>>,
    StoreView,
    Seq<ProjectCfgView>,
) {
    let base = StoreView { roles: roles::with_role(s.roles, Role::Responder, now), ..s };
    match row(s, now).bot_id {
        None => (None, base, projects),
        Some(b) => adopting(base, projects, b, cwd, now),
    }
}

/// The same for the bot on record, where there is one.
pub fn merge_into_manager_project(s: &mut Store, now: &str, projects: &mut Vec<ProjectCfg>, cwd: &str) -> (r: Option<String>)
    ensures
        (text::opt(r), final(s)@, table::views(final(projects)@)) == merging(
            old(s)@,
            table::views(old(projects)@),
            cwd@,
            now@,
        ),
{
    let r = roles::get(s, now, Role::Responder);
    match r.bot_id {
        None => None,
        Some(b) => adopt_into_manager_project(s, now, projects, b.as_str(), cwd),
    }
}

/// Where the responder goes: into the project of the manager, where there is one.
pub open spec fn placement(
    manager_project: Option<Seq<char>>,
    known_project: Option<Seq<char>>,
    kind: Seq<char>,
    known_bot: Option<Seq<char>>,
    path: Seq<char>,
    identity: Seq<char>,
    model: Seq<char>,
    effort: Seq<char>,
    persona: Seq<char>,
    fresh_project: Seq<char>,
    fresh_bot: Seq<char>,
) -> PlacementView {
    PlacementView {
        name: "AGM-responder"@,
        kind,
        first_project: manager_project,
        second_project: known_project,
        path,
        known_bot,
        fresh_project,
        fresh_bot,
        model,
        effort,
        identity,
        persona,
        remote_name: None,
    }
}

/// The environment of the responder is ready.
#[derive(Debug)]
pub struct Ready {
    pub project_id: String,
    pub bot_id: String,
    pub persona: String,
}

/// What setting the responder up goes through: the persona, then the move into the manager's project.
pub open spec fn prepared(s: StoreView, projects: Seq<ProjectCfgView>, path: Seq<char>, embedded: Seq<char>, now: Seq<char>) -> (
    Option<Seq<char>>,
    StoreView,
    Seq<ProjectCfgView>,
) {
    let was = row(s, now);
    let with = with_persona(s, embedded, now);
    match was.bot_id {
        Some(b) => adopting(with, projects, b, path, now),
        None => (None, with, projects),
    }
}

/// What setting the responder up answers and leaves behind; the answer is its project, its bot and its
/// persona.
pub open spec fn setting_up(
    s: StoreView,
    now: Seq<char>,
    before: Seq<ProjectCfgView>,
    kind: Seq<char>,
    identity: Seq<char>,
    model: Seq<char>,
    effort: Seq<char>,
    path: Seq<char>,
    embedded: Seq<char>,
    fresh_project: Seq<char>,
    fresh_bot: Seq<char>,
    res: Option<(Seq<char>, Seq<char>, Seq<char>)>,
    projects: Seq<ProjectCfgView>,
    end: StoreView,
) -> bool {
    let was = row(s, now);
    let (adopted, after, moved) = prepared(s, before, path, embedded, now);
    let words = setup::running_on(row(with_persona(s, embedded, now), now).persona_text, embedded);
    let p = placement(
        manager_project(s),
        if adopted is Some {
            adopted
        } else {
            was.project_id
        },
        kind,
        was.bot_id,
        path,
        identity,
        model,
        effort,
        words,
        fresh_project,
        fresh_bot,
    );
    let t = config::target(moved, p);
    &&& end == supervisor::initialised(after, now)
    &&& if config::name_is_taken(t, p) {
        res is None && projects == moved
    } else {
        &&& projects == config::placed(moved, p)
        &&& res == Some((config::id_or(t.id, fresh_project), config::placed_bot(t, p), words))
    }
}

/// Create, or find, the project and the bot of the responder. Nothing is started. `run` was settled
/// with `resolve` and its account is there; `kind` is the command line program that it runs, and `path`
/// is the real path of the directory. What it runs on and where it is are written down with
/// `record_env` once the files are.
pub fn ensure_env(
    s: &mut Store,
    now: &str,
    projects: &mut Vec<ProjectCfg>,
    kind: &str,
    run: &Runtime,
    path: &str,
    embedded: &str,
    fresh_project: &str,
    fresh_bot: &str,
) -> (res: Result<Ready, config::NameTaken>)
    ensures
        setting_up(
            old(s)@,
            now@,
            table::views(old(projects)@),
            kind@,
            run.identity@,
            run.model@,
            run.effort@,
            path@,
            embedded@,
            fresh_project@,
            fresh_bot@,
            match res {
                Ok(r) => Some((r.project_id@, r.bot_id@, r.persona@)),
                Err(_) => None,
            },
            table::views(final(projects)@),
            final(s)@,
        ),
{
    let r = roles::get(s, now, Role::Responder);
    let ghost base = s@;
    proof {
        roles::a_role_has_a_row(old(s)@.roles, Role::Responder, now@);
        assert(with_persona(base, embedded@, now@) == with_persona(old(s)@, embedded@, now@));
    }
    let persona = effective_persona(s, now, embedded);
    let adopted = match &r.bot_id {
        Some(b) => adopt_into_manager_project(s, now, projects, b.as_str(), path),
        None => None,
    };
    let manager = store::get_or_init(s, now).project_id;
    let known = match adopted {
        Some(p) => Some(p),
        None => r.project_id,
    };
    let p = Placement {
        name: BOT_NAME,
        kind,
        first_project: text::borrowed(&manager),
        second_project: text::borrowed(&known),
        path,
        known_bot: text::borrowed(&r.bot_id),
        fresh_project,
        fresh_bot,
        model: run.model.as_str(),
        effort: run.effort.as_str(),
        identity: run.identity.as_str(),
        persona: persona.as_str(),
        remote_name: None,
    };
    match config::place(projects, p) {
        Ok((project_id, bot_id)) => Ok(Ready { project_id, bot_id, persona }),
        Err(e) => Err(e),
    }
}

/// The store with where the responder is and what it runs on.
pub open spec fn recorded(
    s: StoreView,
    now: Seq<char>,
    bot_id: Seq<char>,
    project_id: Seq<char>,
    cwd: Seq<char>,
    identity: Seq<char>,
    model: Seq<char>,
    effort: Seq<char>,
) -> StoreView {
    with_row(
        with_row(s, roles::placed_in(bot_id, project_id, cwd, now), now),
        roles::running_on(identity, model, effort, now),
        now,
    )
}

/// Write down where the responder is and what it runs on.
pub fn record_env(s: &mut Store, now: &str, bot_id: &str, project_id: &str, cwd: &str, run: &Runtime)
    ensures
        final(s)@ == recorded(old(s)@, now@, bot_id@, project_id@, cwd@, run.identity@, run.model@, run.effort@),
{
    roles::set_env(s, now, Role::Responder, bot_id, project_id, cwd);
    roles::set_runtime(s, now, Role::Responder, run.identity.as_str(), run.model.as_str(), run.effort.as_str());
}

/// The responder was never set up, or its bot is gone.
#[derive(Debug, Clone, Copy, PartialEq, Eq, Structural)]
pub struct NotSetUp;

impl NotSetUp {
    /// What the caller is told.
    pub fn refusal(&self) -> (r: Refusal)
        ensures
            r@ == (RefusalView::Conflict {
                message: "responder is not set up"@,
                detail: json::json_object(seq![("reason"@, json::FieldView::Str("responder_not_configured"@))]),
            }),
    {
        let fields = [("reason", Field::Str("responder_not_configured"))];
        assert(json::members(fields@) =~= seq![("reason"@, json::FieldView::Str("responder_not_configured"@))]);
        Refusal::Conflict { message: "responder is not set up".to_owned(), detail: json::object(&fields) }
    }
}

/// What asking for the bot to start answers and leaves in the store.
pub open spec fn starting(s: StoreView, now: Seq<char>, bots: Seq<BotEntryView>, bot: Option<Seq<char>>, after: StoreView) -> bool {
    &&& bot == roles::live_responder(s, now, bots)
    &&& after == (StoreView { roles: roles::with_role(s.roles, Role::Responder, now), ..s })
}

/// Which bot to start. What the responder is wanted for is left alone: the watchdog comes this way too.
pub fn start(s: &mut Store, now: &str, bots: &Vec<BotEntry>) -> (res: Result<String, NotSetUp>)
    ensures
        starting(
            old(s)@,
            now@,
            table::views(bots@),
            match res {
                Ok(b) => Some(b@),
                Err(_) => None,
            },
            final(s)@,
        ),
{
    match roles::responder_bot(s, now, bots) {
        Some(id) => Ok(id),
        None => Err(NotSetUp),
    }
}

/// What the responder coming up answers and leaves in the store.
pub open spec fn coming_up(s: StoreView, now: Seq<char>, detail: Option<Seq<char>>, gen: Option<i64>, after: StoreView) -> bool {
    let base = supervisor::initialised(s, now);
    &&& after == (StoreView {
        roles: table::changed(base.roles, roles::of_role(Role::Responder), roles::with_detail(detail, now)),
        ..base
    })
    &&& gen == if base.supervisor->0.bot_id is Some {
        Some(base.supervisor->0.generation)
    } else {
        None
    }
}

/// The responder came up. It is woken by the loop of the manager: gives the generation of the one that
/// has to run, where the manager is set up.
pub fn came_up(s: &mut Store, now: &str, detail: Option<&str>) -> (gen: Option<i64>)
    ensures
        coming_up(old(s)@, now@, text::arg(detail), gen, final(s)@),
{
    roles::set_status_detail(s, now, Role::Responder, detail);
    let sup = store::get_or_init(s, now);
    if sup.bot_id.is_some() {
        Some(sup.generation)
    } else {
        None
    }
}

/// What asking for the responder to stop answers and leaves in the store.
pub open spec fn stopping(s: StoreView, now: Seq<char>, bots: Seq<BotEntryView>, bot: Option<Seq<char>>, after: StoreView) -> bool {
    &&& bot == roles::live_responder(s, now, bots)
    &&& after == if bot is Some {
        with_row(s, roles::wanted_or_not(false, now), now)
    } else {
        StoreView { roles: roles::with_role(s.roles, Role::Responder, now), ..s }
    }
}

/// Somebody wants the responder stopped. That is written down first, so that the watchdog does not
/// bring it back between the two steps. Gives the bot to stop.
pub fn stop(s: &mut Store, now: &str, bots: &Vec<BotEntry>) -> (res: Result<String, NotSetUp>)
    ensures
        stopping(
            old(s)@,
            now@,
            table::views(bots@),
            match res {
                Ok(b) => Some(b@),
                Err(_) => None,
            },
            final(s)@,
        ),
{
    match roles::responder_bot(s, now, bots) {
        Some(id) => {
            proof {
                roles::a_role_has_a_row(old(s)@.roles, Role::Responder, now@);
            }
            roles::set_desired_running(s, now, Role::Responder, false);
            Ok(id)
        },
        None => Err(NotSetUp),
    }
}

// ---------------------------------------------------------------- watchdog

/// The detail shown while the bot of the responder is gone.
pub open spec fn missing_detail() -> Seq<char> {
    "登記的協調者 bot 不存在（已刪除）；事件留在它的 inbox，請重新 `agm responder setup` 與 start"@
}

/// The event that tells patrol that the bot of the responder is gone. Its key has the bot in it, so a
/// new bot that goes too is a new event.
pub open spec fn missing_event(event_id: Seq<char>, bot_id: Seq<char>, now: Seq<char>) -> InboxEventView {
    inbox::fresh_event(
        event_id,
        "responder_bot_missing:"@ + bot_id,
        "responder_bot_missing"@,
        None,
        None,
        None,
        json::json_object(
            seq![
                ("bot_id"@, json::FieldView::Str(bot_id)),
                (
                    "action"@,
                    json::FieldView::Str("`bin/agm responder setup` 再 `responder start`；協調的事件不會倒回巡檢"@),
                ),
            ],
        ),
        now,
    )
}

/// The store after it was reported that the bot is gone.
pub open spec fn missing_reported(s: StoreView, event_id: Seq<char>, bot_id: Seq<char>, now: Seq<char>) -> StoreView {
    let shown = StoreView {
        roles: table::changed(
            s.roles,
            roles::of_role(Role::Responder),
            roles::with_detail(Some(missing_detail()), now),
        ),
        ..s
    };
    StoreView { inbox: inbox::with_event(shown.inbox, missing_event(event_id, bot_id, now)), ..shown }
}

/// The bot on record was deleted. Patrol is told once; the events stay in the responder's queue.
pub fn report_missing(s: &mut Store, now: &str, event_id: &str, bot_id: &str) -> (told: bool)
    ensures
        final(s)@ == missing_reported(old(s)@, event_id@, bot_id@, now@),
        told == watchdog::is_news(old(s)@, final(s)@),
{
    roles::set_status_detail(
        s,
        now,
        Role::Responder,
        Some("登記的協調者 bot 不存在（已刪除）；事件留在它的 inbox，請重新 `agm responder setup` 與 start"),
    );
    let fields = [
        ("bot_id", Field::Str(bot_id)),
        ("action", Field::Str("`bin/agm responder setup` 再 `responder start`；協調的事件不會倒回巡檢")),
    ];
    assert(json::members(fields@) =~= seq![
        ("bot_id"@, json::FieldView::Str(bot_id@)),
        ("action"@, json::FieldView::Str("`bin/agm responder setup` 再 `responder start`；協調的事件不會倒回巡檢"@)),
    ]);
    let payload = json::object(&fields);
    let key = text::joined("responder_bot_missing:", bot_id);
    let pushed = inbox::push_inbox(
        s,
        now,
        event_id,
        key.as_str(),
        "responder_bot_missing",
        None,
        None,
        None,
        payload.as_str(),
    );
    pushed.is_some()
}

/// The event that tells patrol that the watchdog of the responder gave up.
pub open spec fn gave_up_event(event_id: Seq<char>, why: Seq<char>, at: Seq<char>) -> InboxEventView {
    inbox::fresh_event(
        event_id,
        "responder_watchdog:gave_up:"@ + at,
        "responder_watchdog_gave_up"@,
        None,
        None,
        None,
        json::json_object(
            seq![
                ("why"@, json::FieldView::Str(why)),
                ("gave_up_at"@, json::FieldView::Str(at)),
                (
                    "action"@,
                    json::FieldView::Str("`bin/agm responder-start`；協調的事件留在 inbox，不會改由巡檢處理"@),
                ),
            ],
        ),
        at,
    )
}

/// The store after the watchdog of the responder gave up: said the first time, and never again until
/// it is re-armed.
pub open spec fn gave_up(s: StoreView, event_id: Seq<char>, why: Seq<char>, now: Seq<char>) -> StoreView {
    if table::any(s.roles, roles::still_watched(Role::Responder)) {
        let marked = table::changed(s.roles, roles::still_watched(Role::Responder), roles::given_up(why, now));
        StoreView {
            roles: table::changed(
                marked,
                roles::of_role(Role::Responder),
                roles::with_detail(Some("watchdog 已停止重試；請手動 responder-start。原因："@ + why), now),
            ),
            inbox: inbox::with_event(s.inbox, gave_up_event(event_id, why, now)),
            ..s
        }
    } else {
        s
    }
}

/// The watchdog of the responder has not said yet that it gave up.
pub open spec fn unsaid(rows: Seq<RoleRowView>) -> bool {
    table::any(rows, roles::still_watched(Role::Responder))
}

/// A fallen responder is patrol's to know of: it is the one that looks out for what has fallen.
pub fn report_gave_up(s: &mut Store, now: &str, event_id: &str, why: &str) -> (told: bool)
    ensures
        final(s)@ == gave_up(old(s)@, event_id@, why@, now@),
        told == unsaid(old(s)@.roles),
{
    let ghost was = s@.roles;
    let first = roles::mark_watchdog_gave_up(s, now, Role::Responder, why);
    if !first {
        assert(table::changed(was, roles::still_watched(Role::Responder), roles::given_up(why@, now@)) =~= was);
        return false;
    }
    let detail = text::joined("watchdog 已停止重試；請手動 responder-start。原因：", why);
    roles::set_status_detail(s, now, Role::Responder, Some(detail.as_str()));
    let fields = [
        ("why", Field::Str(why)),
        ("gave_up_at", Field::Str(now)),
        ("action", Field::Str("`bin/agm responder-start`；協調的事件留在 inbox，不會改由巡檢處理")),
    ];
    assert(json::members(fields@) =~= seq![
        ("why"@, json::FieldView::Str(why@)),
        ("gave_up_at"@, json::FieldView::Str(now@)),
        ("action"@, json::FieldView::Str("`bin/agm responder-start`；協調的事件留在 inbox，不會改由巡檢處理"@)),
    ]);
    let payload = json::object(&fields);
    let key = text::joined("responder_watchdog:gave_up:", now);
    let _ = inbox::push_inbox(
        s,
        now,
        event_id,
        key.as_str(),
        "responder_watchdog_gave_up",
        None,
        None,
        None,
        payload.as_str(),
    );
    true
}

/// What the watchdog is to do about the responder.
pub open spec fn planned(r: RoleRowView, liveness: Seq<char>, now: Instant) -> Plan {
    watchdog::plan_of(
        true,
        r.desired_running != 0,
        r.status == "waiting_quota"@,
        r.watchdog_attempts,
        r.watchdog_next_at,
        liveness,
        now,
    )
}

/// Why the watchdog gave up, where no start ever failed outright.
pub open spec fn died_each_time() -> Seq<char> {
    "協調者自動啟動 5 次後仍未持續存活"@
}

/// What is left to do after a tick of the responder's watchdog.
#[derive(Debug, Clone, Copy, PartialEq, Eq, Structural)]
pub enum Step {
    Nothing,
    /// The bot on record is gone; `told` is that this tick reported it.
    Missing { told: bool },
    /// Start it, as this attempt, and say how it went.
    Start { attempt: i64 },
    GaveUp { told: bool },
}

/// The store after a tick of the responder's watchdog.
pub open spec fn ticked(s: StoreView, event_id: Seq<char>, bot_present: bool, liveness: Seq<char>, now: Instant) -> StoreView {
    let iso = time::iso_millis(now);
    let base = StoreView { roles: roles::with_role(s.roles, Role::Responder, iso), ..s };
    let r = row(s, iso);
    if !bot_present {
        match r.bot_id {
            Some(b) => missing_reported(base, event_id, b, iso),
            None => base,
        }
    } else {
        match planned(r, liveness, now) {
            Plan::Idle => if watchdog::answers(liveness) && (r.watchdog_attempts > 0 || r.watchdog_next_at is Some) {
                with_row(base, roles::watched(0, None, None, iso), iso)
            } else {
                base
            },
            Plan::Wait { schedule } => if schedule {
                with_row(
                    base,
                    roles::watched(
                        r.watchdog_attempts,
                        Some(time::iso_millis(now.plus(watchdog::backoff(r.watchdog_attempts as int) as int))),
                        None,
                        iso,
                    ),
                    iso,
                )
            } else {
                base
            },
            Plan::Start => base,
            Plan::GaveUp => gave_up(
                base,
                event_id,
                match r.watchdog_last_error {
                    Some(e) => e,
                    None => died_each_time(),
                },
                iso,
            ),
        }
    }
}

/// What is left to do after a tick of the responder's watchdog; `told` is that the tick reported something.
pub open spec fn next_step(s: StoreView, bot_present: bool, liveness: Seq<char>, now: Instant, told: bool) -> Step {
    let r = row(s, time::iso_millis(now));
    if !bot_present {
        if r.bot_id is Some {
            Step::Missing { told }
        } else {
            Step::Nothing
        }
    } else {
        match planned(r, liveness, now) {
            Plan::Start => Step::Start { attempt: table::bumped(r.watchdog_attempts) },
            Plan::GaveUp => Step::GaveUp {
                told: table::any(
                    roles::with_role(s.roles, Role::Responder, time::iso_millis(now)),
                    roles::still_watched(Role::Responder),
                ),
            },
            _ => Step::Nothing,
        }
    }
}

/// One tick's worth of watching the responder. `bot_present` is that its bot still exists.
pub fn watchdog_tick(s: &mut Store, now: Instant, event_id: &str, bot_present: bool, liveness: &str) -> (step: Step)
    requires
        watchdog::has_room(now),
    ensures
        final(s)@ == ticked(old(s)@, event_id@, bot_present, liveness@, now),
        step == next_step(old(s)@, bot_present, liveness@, now, watchdog::is_news(old(s)@, final(s)@)),
{
    let iso = time::iso(now);
    let r = roles::get(s, iso.as_str(), Role::Responder);
    proof {
        roles::a_role_has_a_row(old(s)@.roles, Role::Responder, iso@);
    }
    if !bot_present {
        return match &r.bot_id {
            Some(b) => {
                let told = report_missing(s, iso.as_str(), event_id, b.as_str());
                Step::Missing { told }
            },
            None => Step::Nothing,
        };
    }
    let plan = watchdog::plan_at(
        Watched {
            configured: true,
            wanted: r.desired_running != 0,
            waiting_quota: text::same(r.status.as_str(), "waiting_quota"),
            attempts: r.watchdog_attempts,
            next_at: text::borrowed(&r.watchdog_next_at),
        },
        liveness,
        now,
    );
    match plan {
        Plan::Idle => {
            if watchdog::is_answering(liveness) && (r.watchdog_attempts > 0 || r.watchdog_next_at.is_some()) {
                roles::set_watchdog(s, iso.as_str(), Role::Responder, 0, None, None);
            }
            Step::Nothing
        },
        Plan::Wait { schedule } => {
            if schedule {
                let next = time::iso(now.later(watchdog::backoff_secs(r.watchdog_attempts)));
                roles::set_watchdog(s, iso.as_str(), Role::Responder, r.watchdog_attempts, Some(next.as_str()), None);
            }
            Step::Nothing
        },
        Plan::Start => Step::Start { attempt: table::bump(r.watchdog_attempts) },
        Plan::GaveUp => {
            let why = match &r.watchdog_last_error {
                Some(e) => e.clone(),
                None => "協調者自動啟動 5 次後仍未持續存活".to_owned(),
            };
            let told = report_gave_up(s, iso.as_str(), event_id, why.as_str());
            Step::GaveUp { told }
        },
    }
}

/// The store after a start of the responder went through.
pub open spec fn begun(s: StoreView, attempt: i64, now: Instant) -> StoreView {
    StoreView {
        roles: table::changed(
            s.roles,
            roles::of_role(Role::Responder),
            roles::watched(
                attempt,
                Some(time::iso_millis(now.plus(watchdog::backoff(attempt as int) as int))),
                None,
                time::iso_millis(now),
            ),
        ),
        ..s
    }
}

/// The start went through; it counts as an attempt until the responder is seen answering.
pub fn started(s: &mut Store, now: Instant, attempt: i64)
    requires
        watchdog::has_room(now),
    ensures
        final(s)@ == begun(old(s)@, attempt, now),
{
    let iso = time::iso(now);
    let next = time::iso(now.later(watchdog::backoff_secs(attempt)));
    roles::set_watchdog(s, iso.as_str(), Role::Responder, attempt, Some(next.as_str()), None);
}

/// The roles after a failed start was counted.
pub open spec fn failure_counted(rows: Seq<RoleRowView>, attempt: i64, why: Seq<char>, now: Instant) -> Seq<RoleRowView> {
    let next = if attempt < 5 {
        Some(time::iso_millis(now.plus(watchdog::backoff(attempt as int) as int)))
    } else {
        None
    };
    table::changed(
        rows,
        roles::of_role(Role::Responder),
        roles::watched(attempt, next, Some(why), time::iso_millis(now)),
    )
}

/// The store after a start failed.
pub open spec fn failed(s: StoreView, event_id: Seq<char>, attempt: i64, why: Seq<char>, now: Instant) -> StoreView {
    let iso = time::iso_millis(now);
    let counted = StoreView { roles: failure_counted(s.roles, attempt, why, now), ..s };
    if attempt >= 5 {
        gave_up(counted, event_id, why, iso)
    } else {
        counted
    }
}

/// The start failed: counted, and either scheduled again or given up.
pub fn start_failed(s: &mut Store, now: Instant, event_id: &str, attempt: i64, why: &str) -> (told: bool)
    requires
        watchdog::has_room(now),
    ensures
        final(s)@ == failed(old(s)@, event_id@, attempt, why@, now),
        told == (attempt >= 5 && unsaid(failure_counted(old(s)@.roles, attempt, why@, now))),
{
    let iso = time::iso(now);
    if attempt < watchdog::MAX_ATTEMPTS {
        let next = time::iso(now.later(watchdog::backoff_secs(attempt)));
        roles::set_watchdog(s, iso.as_str(), Role::Responder, attempt, Some(next.as_str()), Some(why));
        false
    } else {
        roles::set_watchdog(s, iso.as_str(), Role::Responder, attempt, None, Some(why));
        report_gave_up(s, iso.as_str(), event_id, why)
    }
}

// ---------------------------------------------------------------- what is shown

/// What is known of the responder from outside.
#[derive(Debug, Clone, Copy)]
pub struct Seen<'a> {
    /// Its bot still exists, and the project of that bot.
    pub bot_present: bool,
    pub project_id: Option<&'a str>,
    pub liveness: &'a str,
    /// What it really runs on, which may not be what it was set up with.
    pub runtime_model: Option<&'a str>,
    pub runtime_effort: Option<&'a str>,
    pub started_at: Option<&'a str>,
}

/// What a `Seen` holds.
pub struct SeenView {
    pub bot_present: bool,
    pub project_id: Option<Seq<char>>,
    pub liveness: Seq<char>,
    pub runtime_model: Option<Seq<char>>,
    pub runtime_effort: Option<Seq<char>>,
    pub started_at: Option<Seq<char>>,
}

impl<'a> View for Seen<'a> {
    type V = SeenView;

    open spec fn view(&self) -> SeenView {
        SeenView {
            bot_present: self.bot_present,
            project_id: text::arg(self.project_id),
            liveness: self.liveness@,
            runtime_model: text::arg(self.runtime_model),
            runtime_effort: text::arg(self.runtime_effort),
            started_at: text::arg(self.started_at),
        }
    }
}

/// The word for the state of the responder. One whose bot was deleted is missing, and not unconfigured:
/// its events are still its own.
pub open spec fn status_word(r: RoleRowView, f: SeenView) -> Seq<char> {
    if !f.bot_present {
        if r.bot_id is Some {
            "missing"@
        } else {
            "not_configured"@
        }
    } else if r.status != ""@ {
        r.status
    } else {
        f.liveness
    }
}

/// Events of the responder that are not closed.
pub open spec fn open_events() -> spec_fn(InboxEventView) -> bool {
    |e: InboxEventView| role_inbox::owner(e) == Some("responder"@) && e.state != "handled"@
}

/// What the responder really runs on.
pub open spec fn live_members(f: SeenView) -> Seq<(Seq<char>, json::FieldView)> {
    seq![
        ("model"@, json::text_view(f.runtime_model)),
        ("effort"@, json::text_view(f.runtime_effort)),
        ("started_at"@, json::text_view(f.started_at)),
    ]
}

fn live_json(f: Seen<'_>) -> (r: String)
    ensures
        r@ == json::json_object(live_members(f@)),
{
    let fields = [
        ("model", json::str_or_null(f.runtime_model)),
        ("effort", json::str_or_null(f.runtime_effort)),
        ("started_at", json::str_or_null(f.started_at)),
    ];
    assert(json::members(fields@) =~= live_members(f@));
    json::object(&fields)
}

/// The count of the watchdog.
pub open spec fn watch_members(v: RoleRowView) -> Seq<(Seq<char>, json::FieldView)> {
    seq![
        ("attempts"@, json::FieldView::Int(v.watchdog_attempts)),
        ("next_at"@, json::text_view(v.watchdog_next_at)),
        ("gave_up_at"@, json::text_view(v.watchdog_gave_up_at)),
    ]
}

fn watch_json(row: &RoleRow) -> (r: String)
    ensures
        r@ == json::json_object(watch_members(row@)),
{
    let fields = [
        ("attempts", Field::Int(row.watchdog_attempts)),
        ("next_at", json::text_or_null(&row.watchdog_next_at)),
        ("gave_up_at", json::text_or_null(&row.watchdog_gave_up_at)),
    ];
    assert(json::members(fields@) =~= watch_members(row@));
    json::object(&fields)
}

/// The report on the responder.
pub open spec fn status_members(v: RoleRowView, open: u64, f: SeenView) -> Seq<(Seq<char>, json::FieldView)> {
    seq![
        ("configured"@, json::FieldView::Bool(v.bot_id is Some)),
        ("bot_present"@, json::FieldView::Bool(f.bot_present)),
        ("bot_id"@, json::text_view(v.bot_id)),
        ("project_id"@, json::text_view(f.project_id)),
        ("identity"@, json::FieldView::Str(v.identity)),
        ("model"@, json::FieldView::Str(v.model)),
        ("effort"@, json::FieldView::Str(v.effort)),
        ("runtime"@, json::FieldView::Json(json::json_object(live_members(f)))),
        ("remote_control"@, json::FieldView::Bool(false)),
        ("status"@, json::FieldView::Str(status_word(v, f))),
        ("status_detail"@, json::text_view(v.status_detail)),
        ("quota_reset_at"@, json::text_view(v.quota_reset_at)),
        ("desired_running"@, json::FieldView::Bool(v.desired_running != 0)),
        ("watchdog"@, json::FieldView::Json(json::json_object(watch_members(v)))),
        ("inbox_open"@, json::FieldView::Count(open)),
        ("stats"@, json::FieldView::Json(json::json_object(render::stats_members(v)))),
    ]
}

/// The report on the responder.
pub fn status_json(s: &mut Store, now: &str, f: Seen<'_>) -> (r: String)
    ensures
        final(s)@ == (StoreView { roles: roles::with_role(old(s)@.roles, Role::Responder, now@), ..old(s)@ }),
        r@ == json::json_object(
            status_members(row(old(s)@, now@), table::hits(old(s)@.inbox, open_events()) as u64, f@),
        ),
{
    let row = roles::get(s, now, Role::Responder);
    let open: u64 = table::count(&s.inbox, |e: &InboxEvent| -> (b: bool)
        ensures b == (open_events())(e@)
        {
            text::same_opt(role_inbox::owner_of(e), Some("responder")) && !text::same(e.state.as_str(), "handled")
        }, Ghost(open_events())) as u64;
    let live = live_json(f);
    let watch = watch_json(&row);
    let stats = row.stats_json();
    let status = if !f.bot_present {
        if row.bot_id.is_some() {
            "missing"
        } else {
            "not_configured"
        }
    } else if !text::same(row.status.as_str(), "") {
        row.status.as_str()
    } else {
        f.liveness
    };
    let fields = [
        ("configured", Field::Bool(row.bot_id.is_some())),
        ("bot_present", Field::Bool(f.bot_present)),
        ("bot_id", json::text_or_null(&row.bot_id)),
        ("project_id", json::str_or_null(f.project_id)),
        ("identity", Field::Str(row.identity.as_str())),
        ("model", Field::Str(row.model.as_str())),
        ("effort", Field::Str(row.effort.as_str())),
        ("runtime", Field::Json(live.as_str())),
        ("remote_control", Field::Bool(false)),
        ("status", Field::Str(status)),
        ("status_detail", json::text_or_null(&row.status_detail)),
        ("quota_reset_at", json::text_or_null(&row.quota_reset_at)),
        ("desired_running", Field::Bool(row.desired_running != 0)),
        ("watchdog", Field::Json(watch.as_str())),
        ("inbox_open", Field::Count(open)),
        ("stats", Field::Json(stats.as_str())),
    ];
    assert(json::members(fields@) =~= status_members(row@, open, f@));
    json::object(&fields)
}

/// The stored persona.
pub open spec fn stored_members(v: RoleRowView, words: Seq<char>) -> Seq<(Seq<char>, json::FieldView)> {
    seq![
        ("version"@, json::FieldView::Int(v.persona_version)),
        ("hash"@, json::text_view(v.persona_hash)),
        ("source"@, json::text_view(v.persona_source)),
        ("updated_at"@, json::text_view(v.persona_updated_at)),
        ("seeded_from"@, json::text_view(v.persona_seed_hash)),
        ("length"@, json::FieldView::Count(words.len() as u64)),
        ("text"@, json::FieldView::Str(words)),
    ]
}

fn stored_json(row: &RoleRow, words: &str) -> (r: String)
    ensures
        r@ == json::json_object(stored_members(row@, words@)),
{
    let fields = [
        ("version", Field::Int(row.persona_version)),
        ("hash", json::text_or_null(&row.persona_hash)),
        ("source", json::text_or_null(&row.persona_source)),
        ("updated_at", json::text_or_null(&row.persona_updated_at)),
        ("seeded_from", json::text_or_null(&row.persona_seed_hash)),
        ("length", Field::Count(words.unicode_len() as u64)),
        ("text", Field::Str(words)),
    ];
    assert(json::members(fields@) =~= stored_members(row@, words@));
    json::object(&fields)
}

/// The embedded persona.
pub open spec fn embedded_members(embedded: Seq<char>) -> Seq<(Seq<char>, json::FieldView)> {
    seq![
        ("hash"@, json::FieldView::Str(persona::hash_text(embedded))),
        ("length"@, json::FieldView::Count(embedded.len() as u64)),
    ]
}

fn embedded_json(embedded: &str, hash: &str) -> (r: String)
    requires
        hash@ == persona::hash_text(embedded@),
    ensures
        r@ == json::json_object(embedded_members(embedded@)),
{
    let fields = [
        ("hash", Field::Str(hash)),
        ("length", Field::Count(embedded.unicode_len() as u64)),
    ];
    assert(json::members(fields@) =~= embedded_members(embedded@));
    json::object(&fields)
}

/// What the running session was started with.
pub open spec fn loaded_members(state: Loaded, started: Option<Seq<char>>) -> Seq<(Seq<char>, json::FieldView)> {
    seq![
        ("status"@, json::FieldView::Str(persona::word(state))),
        ("run_started_at"@, json::text_view(started)),
    ]
}

fn loaded_json(state: Loaded, started: Option<&str>) -> (r: String)
    ensures
        r@ == json::json_object(loaded_members(state, text::arg(started))),
{
    let fields = [
        ("status", Field::Str(state.as_str())),
        ("run_started_at", json::str_or_null(started)),
    ];
    assert(json::members(fields@) =~= loaded_members(state, text::arg(started)));
    json::object(&fields)
}

/// The report on the persona: what is stored, what is embedded, and what the session was started with.
pub open spec fn persona_members(v: RoleRowView, words: Seq<char>, embedded: Seq<char>, started: Option<Seq<char>>) -> Seq<(Seq<char>, json::FieldView)> {
    seq![
        ("role"@, json::FieldView::Str("responder"@)),
        ("stored"@, json::FieldView::Json(json::json_object(stored_members(v, words)))),
        ("embedded"@, json::FieldView::Json(json::json_object(embedded_members(embedded)))),
        ("loaded"@, json::FieldView::Json(json::json_object(loaded_members(persona::loaded(started, v.persona_updated_at), started)))),
        ("upgrade_available"@, json::FieldView::Bool(v.persona_seed_hash is Some && v.persona_seed_hash->0 != persona::hash_text(embedded))),
        ("needs_restart"@, json::FieldView::Bool(persona::loaded(started, v.persona_updated_at) == Loaded::Stale)),
    ]
}

/// The report on the persona. `run_started` is when the running session was started.
pub fn persona_json(s: &mut Store, now: &str, embedded: &str, run_started: Option<&str>) -> (r: String)
    ensures
        ({
            let after = with_persona(old(s)@, embedded@, now@);
            let v = row(after, now@);
            &&& final(s)@ == after
            &&& r@ == json::json_object(
                persona_members(v, setup::running_on(v.persona_text, embedded@), embedded@, text::arg(run_started)),
            )
        }),
{
    let words = effective_persona(s, now, embedded);
    proof {
        row_stays(old(s)@, unseeded(), seeded(embedded@, now@), now@);
    }
    let row = roles::get(s, now, Role::Responder);
    let hash = persona::hash(embedded);
    let state = persona::loaded_state(run_started, text::borrowed(&row.persona_updated_at));
    let stored = stored_json(&row, words.as_str());
    let seed = embedded_json(embedded, hash.as_str());
    let loaded = loaded_json(state, run_started);
    let upgrade = match &row.persona_seed_hash {
        Some(h) => !text::same(h.as_str(), hash.as_str()),
        None => false,
    };
    let fields = [
        ("role", Field::Str("responder")),
        ("stored", Field::Json(stored.as_str())),
        ("embedded", Field::Json(seed.as_str())),
        ("loaded", Field::Json(loaded.as_str())),
        ("upgrade_available", Field::Bool(upgrade)),
        ("needs_restart", Field::Bool(state.needs_restart())),
    ];
    assert(json::members(fields@) =~= persona_members(row@, words@, embedded@, text::arg(run_started)));
    json::object(&fields)
}

/// Why a persona was not stored.
#[derive(Debug, Clone, Copy, PartialEq, Eq, Structural)]
pub enum PersonaError {
    Empty,
    Changed(VersionMismatch),
}

impl PersonaError {
    /// What somebody is told whose persona was not stored.
    pub open spec fn answer(self) -> RefusalView {
        match self {
            PersonaError::Empty => RefusalView::Bad("persona text must not be empty"@),
            PersonaError::Changed(m) => RefusalView::Conflict {
                message: "the persona changed since you read it"@,
                detail: json::json_object(
                    seq![
                        ("reason"@, json::FieldView::Str("version_mismatch"@)),
                        ("expected"@, json::FieldView::Int(m.expected)),
                        ("current"@, json::FieldView::Int(m.current)),
                    ],
                ),
            },
        }
    }

    pub fn refusal(&self) -> (r: Refusal)
        ensures
            r@ == self.answer(),
    {
        match self {
            PersonaError::Empty => Refusal::Bad("persona text must not be empty".to_owned()),
            PersonaError::Changed(m) => {
                let fields = [
                    ("reason", Field::Str("version_mismatch")),
                    ("expected", Field::Int(m.expected)),
                    ("current", Field::Int(m.current)),
                ];
                assert(json::members(fields@) =~= seq![
                    ("reason"@, json::FieldView::Str("version_mismatch"@)),
                    ("expected"@, json::FieldView::Int(m.expected)),
                    ("current"@, json::FieldView::Int(m.current)),
                ]);
                Refusal::Conflict {
                    message: "the persona changed since you read it".to_owned(),
                    detail: json::object(&fields),
                }
            },
        }
    }
}

/// What the caller is told where a persona was stored, and its copies were not all written.
pub fn half_synced(version: i64, why: &str) -> (r: Refusal)
    ensures
        r@ == (RefusalView::Conflict {
            message: "persona stored but projection sync is incomplete; retry the same text to repair"@,
            detail: json::json_object(
                seq![
                    ("reason"@, json::FieldView::Str("persona_sync_incomplete"@)),
                    ("stored"@, json::FieldView::Bool(true)),
                    ("version"@, json::FieldView::Int(version)),
                    ("sync_error"@, json::FieldView::Str(why@)),
                ],
            ),
        }),
{
    let fields = [
        ("reason", Field::Str("persona_sync_incomplete")),
        ("stored", Field::Bool(true)),
        ("version", Field::Int(version)),
        ("sync_error", Field::Str(why)),
    ];
    assert(json::members(fields@) =~= seq![
        ("reason"@, json::FieldView::Str("persona_sync_incomplete"@)),
        ("stored"@, json::FieldView::Bool(true)),
        ("version"@, json::FieldView::Int(version)),
        ("sync_error"@, json::FieldView::Str(why@)),
    ]);
    Refusal::Conflict {
        message: "persona stored but projection sync is incomplete; retry the same text to repair".to_owned(),
        detail: json::object(&fields),
    }
}

/// What handing a persona in answers and leaves in the store.
pub open spec fn handing_in(
    s: StoreView,
    now: Seq<char>,
    words: Seq<char>,
    expected_version: Option<i64>,
    res: Result<i64, PersonaError>,
    after: StoreView,
) -> bool {
    if text::is_blank(words) {
        res == Err::<i64, PersonaError>(PersonaError::Empty) && after == s
    } else {
        telling(
            s,
            now,
            text::trimmed(words),
            expected_version,
            match res {
                Ok(v) => Ok(v),
                Err(PersonaError::Changed(m)) => Err(m),
                Err(PersonaError::Empty) => Err(VersionMismatch { expected: 0, current: 0 }),
            },
            after,
        ) && res != Err::<i64, PersonaError>(PersonaError::Empty)
    }
}

/// Store a persona that was handed in: trimmed, and not empty. Gives its version.
pub fn put_persona(s: &mut Store, now: &str, words: &str, expected_version: Option<i64>) -> (res: Result<i64, PersonaError>)
    ensures
        handing_in(old(s)@, now@, words@, expected_version, res, final(s)@),
{
    let t = text::trim(words);
    if t.unicode_len() == 0 {
        return Err(PersonaError::Empty);
    }
    match set_persona(s, now, t, expected_version) {
        Ok(v) => Ok(v),
        Err(e) => Err(PersonaError::Changed(e)),
    }
}

// ---------------------------------------------------------------- laws

/// Merging leaves the configuration alone unless the bot is apart from the manager, and then it is
/// moved.
pub proof fn only_a_bot_that_is_apart_is_moved(
    s: StoreView,
    projects: Seq<ProjectCfgView>,
    bot_id: Seq<char>,
    cwd: Seq<char>,
    now: Seq<char>,
)
    requires
        roles::registered(s, Role::Responder) == Some(bot_id),
    ensures
        !apart(s, projects) ==> adopting(s, projects, bot_id, cwd, now).2 == projects,
        apart(s, projects) ==> {
            let p = manager_project(s)->0;
            let (moved, after) = config::moving(projects, bot_id, p, cwd);
            &&& moved is Done
            &&& adopting(s, projects, bot_id, cwd, now).0 == Some(p)
            &&& adopting(s, projects, bot_id, cwd, now).2 == after
        },
{
    if let Some(p) = manager_project(s) {
        config::only_a_bot_elsewhere_is_moved(projects, bot_id, p, cwd);
    }
}

/// What the responder is given as a model cannot become a flag.
pub proof fn an_alias_is_no_flag(m: Seq<char>)
    requires
        is_alias(m),
    ensures
        m[0] != '-',
        !m.contains(' '),
{
    if m.contains(' ') {
        let i = choose|i: int| 0 <= i < m.len() && m[i] == ' ';
        assert(is_alias_char(m[i]));
    }
}

/// A persona that was seeded is not seeded again.
pub proof fn a_seed_is_planted_once(r: RoleRowView, embedded: Seq<char>, now: Seq<char>)
    requires
        embedded != ""@,
    ensures
        !(unseeded())((seeded(embedded, now))(r)),
{
}

/// A stopped or waiting responder is no outage: the watchdog leaves it alone.
pub proof fn a_wait_is_no_outage(r: RoleRowView, liveness: Seq<char>, now: Instant)
    ensures
        r.status == "waiting_quota"@ ==> planned(r, liveness, now) == Plan::Idle,
        r.desired_running == 0 ==> planned(r, liveness, now) == Plan::Idle,
{
}

/// A give-up of the responder is told once: the second report changes nothing.
pub proof fn a_give_up_is_told_once(s: StoreView, id: Seq<char>, why: Seq<char>, now: Seq<char>, id2: Seq<char>, why2: Seq<char>, later: Seq<char>)
    ensures
        gave_up(gave_up(s, id, why, now), id2, why2, later) == gave_up(s, id, why, now),
{
    let watched = roles::still_watched(Role::Responder);
    let once = gave_up(s, id, why, now);
    if table::any(s.roles, watched) {
        let marked = table::changed(s.roles, watched, roles::given_up(why, now));
        assert forall|i: int| 0 <= i < once.roles.len() implies !watched(#[trigger] once.roles[i]) by {
            assert(marked[i] == if watched(s.roles[i]) {
                (roles::given_up(why, now))(s.roles[i])
            } else {
                s.roles[i]
            });
        }
    }
}

/// After a failed start that is not the last, the responder is tried again when the wait is over and not a
/// moment earlier, and the reason is on record; one that went through waits as long, and keeps the reason
/// of the last failure. Nothing else in the store changes, and nobody is told.
pub proof fn a_failed_start_is_tried_again_after_the_wait(
    s: StoreView,
    event_id: Seq<char>,
    attempt: i64,
    why: Seq<char>,
    now: Instant,
    moment: Instant,
    i: int,
)
    requires
        0 <= i < s.roles.len(),
        attempt < 5,
        now.valid(),
        now.secs + 300 <= 8_210_266_876_799,
    ensures
        ({
            let wait: int = if attempt <= 0 {
                30
            } else if attempt == 1 {
                60
            } else if attempt == 2 {
                120
            } else {
                300
            };
            let due = Instant { secs: (now.secs + wait) as i64, nanos: (now.nanos as int % 1_000_000_000) as u32 };
            let was = s.roles[i];
            let mine = was.role == "responder"@;
            let after = failed(s, event_id, attempt, why, now);
            let went = begun(s, attempt, now);
            &&& after == (StoreView { roles: after.roles, ..s }) && after.roles.len() == s.roles.len()
            &&& went == (StoreView { roles: went.roles, ..s }) && went.roles.len() == s.roles.len()
            &&& !mine ==> after.roles[i] == was && went.roles[i] == was
            &&& mine ==> after.roles[i] == (RoleRowView {
                watchdog_attempts: attempt,
                watchdog_next_at: Some(time::iso_millis(due)),
                watchdog_last_error: Some(why),
                updated_at: time::iso_millis(now),
                ..was
            })
            &&& mine ==> went.roles[i] == (RoleRowView {
                watchdog_attempts: attempt,
                watchdog_next_at: Some(time::iso_millis(due)),
                updated_at: time::iso_millis(now),
                ..was
            })
            &&& mine && was.desired_running != 0 && was.status != "waiting_quota"@ ==> (time::rfc3339(time::iso_millis(due))
                matches Some(t) ==> planned(after.roles[i], "stopped"@, moment) == if moment.secs < t.secs || (moment.secs
                == t.secs && moment.nanos < t.nanos) {
                Plan::Wait { schedule: false }
            } else {
                Plan::Start
            })
        }),
{
}

/// The fifth failure in a row ends the retries of the responder: nothing is scheduled, and the first time
/// the moment and the reason are on record, shown, and told to patrol in one event.
pub proof fn the_fifth_failure_is_the_last(
    s: StoreView,
    event_id: Seq<char>,
    attempt: i64,
    why: Seq<char>,
    now: Instant,
    moment: Instant,
    i: int,
)
    requires
        0 <= i < s.roles.len(),
        attempt >= 5,
        s.roles[i].role == "responder"@,
        forall|a: int, b: int| 0 <= a < b < s.roles.len() ==> (#[trigger] s.roles[a]).role != (#[trigger] s.roles[b]).role,
    ensures
        ({
            let iso = time::iso_millis(now);
            let was = s.roles[i];
            let after = failed(s, event_id, attempt, why, now);
            let is = after.roles[i];
            let first = was.watchdog_gave_up_at is None;
            let key = "responder_watchdog:gave_up:"@ + iso;
            let known = exists|k: int|
                0 <= k < s.inbox.len() && ((#[trigger] s.inbox[k]).event_key == key || s.inbox[k].id == event_id);
            &&& after == (StoreView { roles: after.roles, inbox: after.inbox, ..s })
            &&& is == (RoleRowView {
                watchdog_attempts: attempt,
                watchdog_next_at: None,
                watchdog_last_error: Some(why),
                watchdog_gave_up_at: if first {
                    Some(iso)
                } else {
                    was.watchdog_gave_up_at
                },
                status_detail: if first {
                    Some("watchdog 已停止重試；請手動 responder-start。原因："@ + why)
                } else {
                    was.status_detail
                },
                updated_at: iso,
                ..was
            })
            &&& was.desired_running != 0 && was.status != "waiting_quota"@ ==> planned(is, "stopped"@, moment) == Plan::GaveUp
            &&& !first || known ==> after.inbox == s.inbox
            &&& first && !known ==> {
                let e = after.inbox.last();
                &&& after.inbox.len() == s.inbox.len() + 1
                &&& after.inbox.drop_last() == s.inbox
                &&& e.id == event_id && e.event_key == key && e.kind == "responder_watchdog_gave_up"@
                &&& e.state == "pending"@ && e.created_at == iso
            }
        }),
{
    let iso = time::iso_millis(now);
    let key = "responder_watchdog:gave_up:"@ + iso;
    let hit = inbox::known_event(event_id, key);
    let counted = failure_counted(s.roles, attempt, why, now);
    let live = roles::still_watched(Role::Responder);
    assert(live(counted[i]) <==> s.roles[i].watchdog_gave_up_at is None);
    if table::any(counted, live) {
        let k = choose|k: int| 0 <= k < counted.len() && live(#[trigger] counted[k]);
        assert(s.roles[k].role == s.roles[i].role);
        assert(k == i);
    }
    if table::any(s.inbox, hit) {
        let k = choose|k: int| 0 <= k < s.inbox.len() && hit(#[trigger] s.inbox[k]);
        assert(s.inbox[k].event_key == key || s.inbox[k].id == event_id);
    } else {
        assert forall|k: int| 0 <= k < s.inbox.len() implies !hit(#[trigger] s.inbox[k]) by {
        }
        let after = failed(s, event_id, attempt, why, now).inbox;
        if after.len() > s.inbox.len() {
            assert(after.drop_last() =~= s.inbox);
        }
    }
}

/// A tick starts the responder exactly when its bot is there, it is wanted, not waiting for quota, down, has
/// failed fewer than five times and its next attempt has come, as one more attempt; it gives up exactly at
/// five. A bot that is on record and gone is reported instead. The first sight of an outage only writes
/// down when to try, a wait ahead that goes with the failures so far, and an answer clears the count.
pub proof fn a_tick_does_what_is_due(
    s: StoreView,
    event_id: Seq<char>,
    bot_present: bool,
    liveness: Seq<char>,
    now: Instant,
    told: bool,
    i: int,
)
    requires
        0 <= i < s.roles.len(),
        s.roles[i].role == "responder"@,
        forall|a: int, b: int| 0 <= a < b < s.roles.len() ==> (#[trigger] s.roles[a]).role != (#[trigger] s.roles[b]).role,
        now.valid(),
        now.secs + 300 <= 8_210_266_876_799,
    ensures
        ({
            let iso = time::iso_millis(now);
            let was = s.roles[i];
            let attempt = was.watchdog_attempts;
            let wait: int = if attempt <= 0 {
                30
            } else if attempt == 1 {
                60
            } else if attempt == 2 {
                120
            } else {
                300
            };
            let due = Instant { secs: (now.secs + wait) as i64, nanos: (now.nanos as int % 1_000_000_000) as u32 };
            let step = next_step(s, bot_present, liveness, now, told);
            let after = ticked(s, event_id, bot_present, liveness, now);
            let down = was.desired_running != 0 && was.status != "waiting_quota"@ && liveness == "stopped"@;
            let come = match was.watchdog_next_at {
                Some(t) => match time::rfc3339(t) {
                    Some(x) => x.secs < now.secs || (x.secs == now.secs && x.nanos <= now.nanos),
                    None => true,
                },
                None => false,
            };
            &&& !bot_present ==> step == if was.bot_id is Some {
                Step::Missing { told }
            } else {
                Step::Nothing
            }
            &&& bot_present ==> {
                &&& step is Start <==> down && attempt < 5 && come
                &&& step matches Step::Start { attempt: n } ==> n == attempt + 1 && after == s
                &&& step is GaveUp <==> down && attempt >= 5
                &&& step matches Step::GaveUp { told: t } ==> t == (was.watchdog_gave_up_at is None)
                &&& !(step is Missing)
                &&& down && attempt < 5 && was.watchdog_next_at is Some && !come ==> after == s
                &&& down && attempt < 5 && was.watchdog_next_at is None ==> {
                    &&& after == (StoreView { roles: after.roles, ..s })
                    &&& after.roles[i].watchdog_attempts == attempt
                    &&& after.roles[i].watchdog_next_at == Some(time::iso_millis(due))
                    &&& after.roles[i].desired_running == was.desired_running && after.roles[i].status == was.status
                }
                &&& !down && (liveness == "idle"@ || liveness == "busy"@) && (attempt > 0 || was.watchdog_next_at is Some)
                    ==> after == (StoreView { roles: after.roles, ..s }) && after.roles[i] == (RoleRowView {
                    watchdog_attempts: 0,
                    watchdog_next_at: None,
                    watchdog_last_error: None,
                    watchdog_gave_up_at: None,
                    updated_at: iso,
                    ..was
                })
                &&& !down && !((liveness == "idle"@ || liveness == "busy"@) && (attempt > 0 || was.watchdog_next_at
                    is Some)) ==> after == s
            }
        }),
{
    let hit = roles::of_role(Role::Responder);
    let iso = time::iso_millis(now);
    assert(hit(s.roles[i]));
    assert forall|j: int| 0 <= j < i implies !hit(#[trigger] s.roles[j]) by {
        assert(s.roles[j].role != s.roles[i].role);
    }
    table::first_at(s.roles, hit, i);
    let live = roles::still_watched(Role::Responder);
    assert(live(s.roles[i]) <==> s.roles[i].watchdog_gave_up_at is None);
    if table::any(s.roles, live) {
        let k = choose|k: int| 0 <= k < s.roles.len() && live(#[trigger] s.roles[k]);
        assert(s.roles[k].role == s.roles[i].role);
        assert(k == i);
    }
}

/// A bot that is on record and gone is shown as such and told to patrol once, in an event under its id;
/// what it was to be sent stays its own.
pub proof fn a_missing_bot_is_reported(s: StoreView, event_id: Seq<char>, bot_id: Seq<char>, now: Seq<char>, i: int)
    requires
        0 <= i < s.roles.len(),
    ensures
        ({
            let after = missing_reported(s, event_id, bot_id, now);
            let key = "responder_bot_missing:"@ + bot_id;
            let known = exists|k: int|
                0 <= k < s.inbox.len() && ((#[trigger] s.inbox[k]).event_key == key || s.inbox[k].id == event_id);
            &&& after == (StoreView { roles: after.roles, inbox: after.inbox, ..s })
            &&& after.roles[i] == if s.roles[i].role == "responder"@ {
                RoleRowView {
                    status_detail: Some("登記的協調者 bot 不存在（已刪除）；事件留在它的 inbox，請重新 `agm responder setup` 與 start"@),
                    updated_at: now,
                    ..s.roles[i]
                }
            } else {
                s.roles[i]
            }
            &&& known ==> after.inbox == s.inbox
            &&& !known ==> {
                let e = after.inbox.last();
                &&& after.inbox.len() == s.inbox.len() + 1
                &&& after.inbox.drop_last() == s.inbox
                &&& e.id == event_id && e.event_key == key && e.kind == "responder_bot_missing"@
                &&& e.state == "pending"@ && e.created_at == now
            }
        }),
{
    let key = "responder_bot_missing:"@ + bot_id;
    let hit = inbox::known_event(event_id, key);
    if table::any(s.inbox, hit) {
        let k = choose|k: int| 0 <= k < s.inbox.len() && hit(#[trigger] s.inbox[k]);
        assert(s.inbox[k].event_key == key || s.inbox[k].id == event_id);
    } else {
        assert forall|k: int| 0 <= k < s.inbox.len() implies !hit(#[trigger] s.inbox[k]) by {
        }
        assert(missing_reported(s, event_id, bot_id, now).inbox.drop_last() =~= s.inbox);
    }
}

proof fn the_row_on_record(s: StoreView, now: Seq<char>, k: int)
    requires
        0 <= k < s.roles.len(),
        s.roles[k].role == "responder"@,
        forall|j: int| 0 <= j < k ==> (#[trigger] s.roles[j]).role != "responder"@,
    ensures
        row(s, now) == s.roles[k],
        roles::with_role(s.roles, Role::Responder, now) == s.roles,
{
    let hit = roles::of_role(Role::Responder);
    assert(hit(s.roles[k]));
    assert forall|j: int| 0 <= j < k implies !hit(#[trigger] s.roles[j]) by {
        assert(s.roles[j].role != "responder"@);
    }
    table::first_at(s.roles, hit, k);
}

/// The same words again are no new persona and need no version; other words need the version on record,
/// where one is named, and are written under the next one, with their hash and the moment. A blank text
/// is refused, and white space around one goes.
pub proof fn a_persona_is_replaced_by_who_has_read_it(
    s: StoreView,
    now: Seq<char>,
    words: Seq<char>,
    expected: Option<i64>,
    res: Result<i64, PersonaError>,
    after: StoreView,
    k: int,
)
    requires
        handing_in(s, now, words, expected, res, after),
        0 <= k < s.roles.len(),
        s.roles[k].role == "responder"@,
        forall|j: int| 0 <= j < k ==> (#[trigger] s.roles[j]).role != "responder"@,
    ensures
        ({
            let was = s.roles[k];
            let t = text::trimmed(words);
            let same = was.persona_text == Some(t);
            let stale = !same && expected is Some && expected->0 != was.persona_version;
            let next = if was.persona_version == i64::MAX {
                i64::MAX
            } else {
                (was.persona_version + 1) as i64
            };
            &&& t.len() == 0 <==> res == Err::<i64, PersonaError>(PersonaError::Empty)
            &&& t.len() > 0 && same ==> res == Ok::<i64, PersonaError>(was.persona_version)
            &&& t.len() > 0 && stale ==> res == Err::<i64, PersonaError>(
                PersonaError::Changed(VersionMismatch { expected: expected->0, current: was.persona_version }),
            )
            &&& t.len() > 0 && !same && !stale ==> {
                &&& res == Ok::<i64, PersonaError>(next)
                &&& after == (StoreView { roles: after.roles, ..s })
                &&& after.roles.len() == s.roles.len()
                &&& after.roles[k] == (RoleRowView {
                    persona_text: Some(t),
                    persona_hash: Some(persona::hash_text(t)),
                    persona_source: Some("api"@),
                    persona_updated_at: Some(now),
                    persona_version: next,
                    updated_at: now,
                    ..was
                })
            }
            &&& t.len() == 0 || same || stale ==> after == s
        }),
{
    the_row_on_record(s, now, k);
}

/// The responder runs on its stored persona; where there is none, the embedded text is stored with its
/// hash as both the text and the seed, under the next version.
pub proof fn the_responders_persona_is_seeded_once(s: StoreView, embedded: Seq<char>, now: Seq<char>, k: int)
    requires
        0 <= k < s.roles.len(),
        s.roles[k].role == "responder"@,
        forall|j: int| 0 <= j < k ==> (#[trigger] s.roles[j]).role != "responder"@,
    ensures
        ({
            let was = s.roles[k];
            let none = was.persona_text is None || was.persona_text == Some(""@);
            let after = with_persona(s, embedded, now);
            &&& after == (StoreView { roles: after.roles, ..s })
            &&& row(after, now) == after.roles[k]
            &&& !none ==> after.roles[k] == was
            &&& none ==> after.roles[k] == (RoleRowView {
                persona_text: Some(embedded),
                persona_hash: Some(persona::hash_text(embedded)),
                persona_source: Some("embedded"@),
                persona_updated_at: Some(now),
                persona_seed_hash: Some(persona::hash_text(embedded)),
                persona_version: if was.persona_version == i64::MAX {
                    i64::MAX
                } else {
                    (was.persona_version + 1) as i64
                },
                updated_at: now,
                ..was
            })
        }),
{
    the_row_on_record(s, now, k);
    let after = with_persona(s, embedded, now);
    assert forall|j: int| 0 <= j < k implies (#[trigger] after.roles[j]).role != "responder"@ by {
        assert(s.roles[j].role != "responder"@);
    }
    the_row_on_record(after, now, k);
}

/// What the responder is to run on is what was given, without the white space around it, and what is on
/// record where nothing was given. A model that does not look like an alias is refused whatever the
/// rest: one to forty small letters, digits, dots, lines and strokes, with a letter or a digit in front.
pub proof fn what_was_given_comes_before_what_is_on_record(
    was: RoleRowView,
    identity: Option<Seq<char>>,
    model: Option<Seq<char>>,
    effort: Option<Seq<char>>,
)
    ensures
        ({
            let pick = |given: Option<Seq<char>>, stored: Seq<char>|
                if given is Some && text::trimmed(given->0).len() > 0 {
                    text::trimmed(given->0)
                } else {
                    stored
                };
            let m = pick(model, was.model);
            let small = |c: char| ('a' <= c <= 'z') || ('0' <= c <= '9');
            let fits = 1 <= m.len() && m.len() <= 40 && small(m[0]) && forall|i: int|
                0 <= i < m.len() ==> small(#[trigger] m[i]) || m[i] == '.' || m[i] == '_' || m[i] == '-';
            &&& settled(was, identity, model, effort) is Ok <==> fits
            &&& !fits ==> settled(was, identity, model, effort) == Err::<(Seq<char>, Seq<char>, Seq<char>), Seq<char>>(m)
            &&& fits ==> settled(was, identity, model, effort) == Ok::<(Seq<char>, Seq<char>, Seq<char>), Seq<char>>(
                (pick(identity, was.identity), m, pick(effort, was.effort)),
            )
        }),
{
    let m = given_or(model, was.model);
    if is_alias(m) {
        assert forall|i: int| 0 <= i < m.len() implies ('a' <= #[trigger] m[i] <= 'z') || ('0' <= m[i] <= '9') || m[i] == '.'
            || m[i] == '_' || m[i] == '-' by {
            assert(is_alias_char(m[i]));
        }
    } else if 1 <= m.len() <= 40 && is_alnum(m[0]) {
        let i = choose|i: int| 0 <= i < m.len() && !is_alias_char(#[trigger] m[i]);
        assert(!is_alnum(m[i]) && m[i] != '.' && m[i] != '_' && m[i] != '-');
    }
}

/// Where the responder is and what it runs on are written on its row, and on no other.
pub proof fn the_responders_whereabouts_are_on_record(
    s: StoreView,
    now: Seq<char>,
    bot_id: Seq<char>,
    project_id: Seq<char>,
    cwd: Seq<char>,
    identity: Seq<char>,
    model: Seq<char>,
    effort: Seq<char>,
    i: int,
)
    requires
        0 <= i < s.roles.len(),
        exists|k: int| 0 <= k < s.roles.len() && (#[trigger] s.roles[k]).role == "responder"@,
    ensures
        ({
            let after = recorded(s, now, bot_id, project_id, cwd, identity, model, effort);
            &&& after == (StoreView { roles: after.roles, ..s })
            &&& after.roles.len() == s.roles.len()
            &&& after.roles[i] == if s.roles[i].role == "responder"@ {
                RoleRowView {
                    bot_id: Some(bot_id),
                    project_id: Some(project_id),
                    cwd: Some(cwd),
                    identity,
                    model,
                    effort,
                    updated_at: now,
                    ..s.roles[i]
                }
            } else {
                s.roles[i]
            }
        }),
{
    let k = choose|k: int| 0 <= k < s.roles.len() && (#[trigger] s.roles[k]).role == "responder"@;
    let hit = roles::of_role(Role::Responder);
    assert(hit(s.roles[k]));
    let mid = with_row(s, roles::placed_in(bot_id, project_id, cwd, now), now);
    assert(hit(mid.roles[k]));
}

/// Starting and stopping name the bot on record while it is there; a stop is written down first and
/// clears the count of the watchdog, a start leaves what is wanted alone.
pub proof fn a_stop_is_written_before_it_is_done(
    s: StoreView,
    now: Seq<char>,
    bots: Seq<BotEntryView>,
    to_start: Option<Seq<char>>,
    started: StoreView,
    to_stop: Option<Seq<char>>,
    stopped: StoreView,
    k: int,
)
    requires
        starting(s, now, bots, to_start, started),
        stopping(s, now, bots, to_stop, stopped),
        0 <= k < s.roles.len(),
        s.roles[k].role == "responder"@,
        forall|j: int| 0 <= j < k ==> (#[trigger] s.roles[j]).role != "responder"@,
    ensures
        to_start == to_stop,
        started == s,
        to_stop is Some ==> to_stop == s.roles[k].bot_id && exists|i: int|
            0 <= i < bots.len() && Some((#[trigger] bots[i]).id) == s.roles[k].bot_id && bots[i].live,
        to_stop is None ==> stopped == s && (s.roles[k].bot_id is None || forall|i: int|
            0 <= i < bots.len() && Some((#[trigger] bots[i]).id) == s.roles[k].bot_id ==> !bots[i].live),
        to_stop is Some ==> stopped == (StoreView { roles: stopped.roles, ..s }) && stopped.roles.len() == s.roles.len()
            && stopped.roles[k] == (RoleRowView {
            desired_running: 0,
            watchdog_attempts: 0,
            watchdog_next_at: None,
            watchdog_gave_up_at: None,
            watchdog_last_error: None,
            updated_at: now,
            ..s.roles[k]
        }),
{
    the_row_on_record(s, now, k);
    if s.roles[k].bot_id is Some {
        let live = supervisor::live_bot(s.roles[k].bot_id->0);
        if table::any(bots, live) {
            let i = choose|i: int| 0 <= i < bots.len() && live(#[trigger] bots[i]);
            assert(Some(bots[i].id) == s.roles[k].bot_id && bots[i].live);
        } else {
            assert forall|i: int| 0 <= i < bots.len() && Some((#[trigger] bots[i]).id) == s.roles[k].bot_id implies !bots[i].live by {
                assert(!live(bots[i]));
            }
        }
    }
}

/// A responder that came up shows the detail, and is woken by the loop of the manager's generation, where
/// the manager is set up.
pub proof fn a_responder_that_came_up_is_woken_by_the_manager(
    s: StoreView,
    now: Seq<char>,
    detail: Option<Seq<char>>,
    gen: Option<i64>,
    after: StoreView,
    i: int,
)
    requires
        coming_up(s, now, detail, gen, after),
        s.supervisor is Some,
        0 <= i < s.roles.len(),
    ensures
        s.supervisor->0.bot_id is Some ==> gen == Some(s.supervisor->0.generation),
        s.supervisor->0.bot_id is None ==> gen is None,
        after == (StoreView { roles: after.roles, ..s }),
        after.roles[i] == if s.roles[i].role == "responder"@ {
            RoleRowView { status_detail: detail, updated_at: now, ..s.roles[i] }
        } else {
            s.roles[i]
        },
{
}

/// The responder is set up in the manager's project where there is one, and else where it is on record;
/// it asks for no remote entry point, and runs on what was settled, with its own persona.
pub proof fn the_responder_is_set_up_beside_the_manager(
    s: StoreView,
    now: Seq<char>,
    before: Seq<ProjectCfgView>,
    kind: Seq<char>,
    identity: Seq<char>,
    model: Seq<char>,
    effort: Seq<char>,
    path: Seq<char>,
    embedded: Seq<char>,
    fresh_project: Seq<char>,
    fresh_bot: Seq<char>,
    res: Option<(Seq<char>, Seq<char>, Seq<char>)>,
    projects: Seq<ProjectCfgView>,
    end: StoreView,
    k: int,
)
    requires
        setting_up(
            s,
            now,
            before,
            kind,
            identity,
            model,
            effort,
            path,
            embedded,
            fresh_project,
            fresh_bot,
            res,
            projects,
            end,
        ),
        s.supervisor is Some,
        0 <= k < s.roles.len(),
        s.roles[k].role == "responder"@,
        forall|j: int| 0 <= j < k ==> (#[trigger] s.roles[j]).role != "responder"@,
    ensures
        ({
            let was = s.roles[k];
            let words = if was.persona_text is None || was.persona_text == Some(""@) {
                embedded
            } else {
                was.persona_text->0
            };
            let home = s.supervisor->0.project_id;
            let moving = was.bot_id is Some && home is Some;
            let moved = if moving {
                config::moving(before, was.bot_id->0, home->0, path).1
            } else {
                before
            };
            let adopted = moving && !(config::moving(before, was.bot_id->0, home->0, path).0 is Missing);
            let p = PlacementView {
                name: "AGM-responder"@,
                kind,
                first_project: home,
                second_project: if adopted {
                    home
                } else {
                    was.project_id
                },
                path,
                known_bot: was.bot_id,
                fresh_project,
                fresh_bot,
                model,
                effort,
                identity,
                persona: words,
                remote_name: None,
            };
            &&& end.supervisor == s.supervisor
            &&& res is None <==> config::name_is_taken(config::target(moved, p), p)
            &&& res is None ==> projects == moved
            &&& res is Some ==> projects == config::placed(moved, p) && (res->0).2 == words && (res->0).1 == config::placed_bot(
                config::target(moved, p),
                p,
            )
            &&& end.roles.len() == s.roles.len()
            &&& adopted ==> end.roles[k].project_id == home && end.roles[k].bot_id == was.bot_id && end.roles[k].cwd == Some(
                path,
            )
            &&& !adopted ==> end.roles[k].project_id == was.project_id && end.roles[k].bot_id == was.bot_id
        }),
{
    the_row_on_record(s, now, k);
    the_responders_persona_is_seeded_once(s, embedded, now, k);
    let with = with_persona(s, embedded, now);
    assert forall|j: int| 0 <= j < k implies (#[trigger] with.roles[j]).role != "responder"@ by {
        assert(s.roles[j].role != "responder"@);
    }
    the_row_on_record(with, now, k);
    reveal_strlit("");
}

/// The word for the responder: that it was never set up, that its bot is gone, the state that sticks, or
/// what its run looks like, in that order.
pub proof fn a_deleted_responder_is_missing(r: RoleRowView, f: SeenView)
    ensures
        !f.bot_present && r.bot_id is None ==> status_word(r, f) == "not_configured"@,
        !f.bot_present && r.bot_id is Some ==> status_word(r, f) == "missing"@,
        f.bot_present && r.status.len() > 0 ==> status_word(r, f) == r.status,
        f.bot_present && r.status.len() == 0 ==> status_word(r, f) == f.liveness,
{
    reveal_strlit("");
    assert(r.status.len() == 0 ==> r.status =~= ""@);
}

/// An open event of the responder's is one that it was delivered or, undelivered, routed to it, and that
/// nobody acked.
pub proof fn what_is_open_for_the_responder(e: InboxEventView)
    ensures
        (open_events())(e) <==> e.state != "handled"@ && (e.claimed_by == Some("responder"@) || (e.claimed_by is None && e.role
            == Some("responder"@))),
{
}

/// A watchdog that gave up says so once, on the responder's row and to patrol; the event names the moment
/// and the reason, and its key the moment.
pub proof fn a_give_up_is_told_to_patrol(s: StoreView, event_id: Seq<char>, why: Seq<char>, now: Seq<char>, k: int)
    requires
        0 <= k < s.roles.len(),
        s.roles[k].role == "responder"@,
        s.roles[k].watchdog_gave_up_at is None,
        forall|i: int|
            0 <= i < s.inbox.len() ==> (#[trigger] s.inbox[i]).id != event_id && s.inbox[i].event_key
                != "responder_watchdog:gave_up:"@ + now,
    ensures
        ({
            let after = gave_up(s, event_id, why, now);
            let e = after.inbox.last();
            &&& after == (StoreView { inbox: after.inbox, roles: after.roles, ..s })
            &&& after.roles[k].watchdog_gave_up_at == Some(now)
            &&& after.roles[k].watchdog_last_error == Some(why)
            &&& after.roles[k].status_detail == Some("watchdog 已停止重試；請手動 responder-start。原因："@ + why)
            &&& after.inbox == s.inbox.push(e)
            &&& e.id == event_id && e.kind == "responder_watchdog_gave_up"@ && e.state == "pending"@ && e.event_key
                == "responder_watchdog:gave_up:"@ + now
            &&& e.created_at == now && e.bot_id is None && e.assignment_id is None
            &&& e.payload_json == json::json_object(
                seq![
                    ("why"@, json::FieldView::Str(why)),
                    ("gave_up_at"@, json::FieldView::Str(now)),
                    (
                        "action"@,
                        json::FieldView::Str("`bin/agm responder-start`；協調的事件留在 inbox，不會改由巡檢處理"@),
                    ),
                ],
            )
        }),
{
    let hit = roles::still_watched(Role::Responder);
    assert(hit(s.roles[k]));
    let known = inbox::known_event(event_id, "responder_watchdog:gave_up:"@ + now);
    assert forall|i: int| 0 <= i < s.inbox.len() implies !known(#[trigger] s.inbox[i]) by {}
}

/// The responder is told the address of the daemon, its own bot, the bot of the manager, and where its data is.
pub proof fn the_responder_is_told_where_it_is(port: u16, self_id: Seq<char>, manager_id: Option<Seq<char>>, data_dir: Seq<char>)
    ensures
        ({
            let m = runtime_members(port, self_id, manager_id, data_dir);
            let text_or_null = |o: Option<Seq<char>>|
                match o {
                    Some(x) => json::FieldView::Str(x),
                    None => json::FieldView::Null,
                };
            &&& m.len() == 7
            &&& m.contains(("daemon_url"@, json::FieldView::Str(setup::daemon_url(port))))
            &&& m.contains(("role"@, json::FieldView::Str("responder"@)))
            &&& m.contains(("self_bot_id"@, json::FieldView::Str(self_id)))
            &&& m.contains(("responder_bot_id"@, json::FieldView::Str(self_id)))
            &&& m.contains(("manager_bot_id"@, text_or_null(manager_id)))
            &&& m.contains(("data_dir"@, json::FieldView::Str(data_dir)))
            &&& m.contains(("supervisor_id"@, json::FieldView::Str("AGM"@)))
        }),
{
    let m = runtime_members(port, self_id, manager_id, data_dir);
    assert(m[0].0 == "daemon_url"@);
    assert(m[1].0 == "role"@);
    assert(m[2].0 == "self_bot_id"@);
    assert(m[3].0 == "responder_bot_id"@);
    assert(m[4].0 == "manager_bot_id"@);
    assert(m[5].0 == "data_dir"@);
    assert(m[6].0 == "supervisor_id"@);
}

/// What runs is shown with its model, its effort and when it was started.
pub proof fn what_runs_is_shown(f: SeenView)
    ensures
        ({
            let m = live_members(f);
            let text_or_null = |o: Option<Seq<char>>|
                match o {
                    Some(x) => json::FieldView::Str(x),
                    None => json::FieldView::Null,
                };
            &&& m.len() == 3
            &&& m.contains(("model"@, text_or_null(f.runtime_model)))
            &&& m.contains(("effort"@, text_or_null(f.runtime_effort)))
            &&& m.contains(("started_at"@, text_or_null(f.started_at)))
        }),
{
    let m = live_members(f);
    assert(m[0].0 == "model"@);
    assert(m[1].0 == "effort"@);
    assert(m[2].0 == "started_at"@);
}

/// The watchdog of the responder is shown with its count, its next attempt and whether it gave up.
pub proof fn the_watch_over_the_responder_is_shown(v: RoleRowView)
    ensures
        ({
            let m = watch_members(v);
            let text_or_null = |o: Option<Seq<char>>|
                match o {
                    Some(x) => json::FieldView::Str(x),
                    None => json::FieldView::Null,
                };
            &&& m.len() == 3
            &&& m.contains(("attempts"@, json::FieldView::Int(v.watchdog_attempts)))
            &&& m.contains(("next_at"@, text_or_null(v.watchdog_next_at)))
            &&& m.contains(("gave_up_at"@, text_or_null(v.watchdog_gave_up_at)))
        }),
{
    let m = watch_members(v);
    assert(m[0].0 == "attempts"@);
    assert(m[1].0 == "next_at"@);
    assert(m[2].0 == "gave_up_at"@);
}

/// The responder is shown with its row, with what is seen of its bot, and with how much of its inbox is open.
pub proof fn the_responder_is_shown_whole(v: RoleRowView, open: u64, f: SeenView)
    ensures
        ({
            let m = status_members(v, open, f);
            let text_or_null = |o: Option<Seq<char>>|
                match o {
                    Some(x) => json::FieldView::Str(x),
                    None => json::FieldView::Null,
                };
            &&& m.len() == 16
            &&& m.contains(("configured"@, json::FieldView::Bool(v.bot_id is Some)))
            &&& m.contains(("bot_present"@, json::FieldView::Bool(f.bot_present)))
            &&& m.contains(("bot_id"@, text_or_null(v.bot_id)))
            &&& m.contains(("project_id"@, text_or_null(f.project_id)))
            &&& m.contains(("identity"@, json::FieldView::Str(v.identity)))
            &&& m.contains(("model"@, json::FieldView::Str(v.model)))
            &&& m.contains(("effort"@, json::FieldView::Str(v.effort)))
            &&& m.contains(("runtime"@, json::FieldView::Json(json::json_object(live_members(f)))))
            &&& m.contains(("remote_control"@, json::FieldView::Bool(false)))
            &&& m.contains(("status"@, json::FieldView::Str(status_word(v, f))))
            &&& m.contains(("status_detail"@, text_or_null(v.status_detail)))
            &&& m.contains(("quota_reset_at"@, text_or_null(v.quota_reset_at)))
            &&& m.contains(("desired_running"@, json::FieldView::Bool(v.desired_running != 0)))
            &&& m.contains(("watchdog"@, json::FieldView::Json(json::json_object(watch_members(v)))))
            &&& m.contains(("inbox_open"@, json::FieldView::Count(open)))
            &&& m.contains(("stats"@, json::FieldView::Json(json::json_object(render::stats_members(v)))))
        }),
{
    let m = status_members(v, open, f);
    assert(m[0].0 == "configured"@);
    assert(m[1].0 == "bot_present"@);
    assert(m[2].0 == "bot_id"@);
    assert(m[3].0 == "project_id"@);
    assert(m[4].0 == "identity"@);
    assert(m[5].0 == "model"@);
    assert(m[6].0 == "effort"@);
    assert(m[7].0 == "runtime"@);
    assert(m[8].0 == "remote_control"@);
    assert(m[9].0 == "status"@);
    assert(m[10].0 == "status_detail"@);
    assert(m[11].0 == "quota_reset_at"@);
    assert(m[12].0 == "desired_running"@);
    assert(m[13].0 == "watchdog"@);
    assert(m[14].0 == "inbox_open"@);
    assert(m[15].0 == "stats"@);
}

/// The stored persona is shown with its version, its hash and where it came from, and in full.
pub proof fn the_stored_persona_is_shown(v: RoleRowView, words: Seq<char>)
    ensures
        ({
            let m = stored_members(v, words);
            let text_or_null = |o: Option<Seq<char>>|
                match o {
                    Some(x) => json::FieldView::Str(x),
                    None => json::FieldView::Null,
                };
            &&& m.len() == 7
            &&& m.contains(("version"@, json::FieldView::Int(v.persona_version)))
            &&& m.contains(("hash"@, text_or_null(v.persona_hash)))
            &&& m.contains(("source"@, text_or_null(v.persona_source)))
            &&& m.contains(("updated_at"@, text_or_null(v.persona_updated_at)))
            &&& m.contains(("seeded_from"@, text_or_null(v.persona_seed_hash)))
            &&& m.contains(("length"@, json::FieldView::Count(words.len() as u64)))
            &&& m.contains(("text"@, json::FieldView::Str(words)))
        }),
{
    let m = stored_members(v, words);
    assert(m[0].0 == "version"@);
    assert(m[1].0 == "hash"@);
    assert(m[2].0 == "source"@);
    assert(m[3].0 == "updated_at"@);
    assert(m[4].0 == "seeded_from"@);
    assert(m[5].0 == "length"@);
    assert(m[6].0 == "text"@);
}

/// The embedded persona is shown by its hash and its length.
pub proof fn the_embedded_persona_is_shown(embedded: Seq<char>)
    ensures
        ({
            let m = embedded_members(embedded);
            &&& m.len() == 2
            &&& m.contains(("hash"@, json::FieldView::Str(persona::hash_text(embedded))))
            &&& m.contains(("length"@, json::FieldView::Count(embedded.len() as u64)))
        }),
{
    let m = embedded_members(embedded);
    assert(m[0].0 == "hash"@);
    assert(m[1].0 == "length"@);
}

/// Whether the run has the stored persona is shown with when it was started.
pub proof fn what_was_loaded_is_shown(state: Loaded, started: Option<Seq<char>>)
    ensures
        ({
            let m = loaded_members(state, started);
            let text_or_null = |o: Option<Seq<char>>|
                match o {
                    Some(x) => json::FieldView::Str(x),
                    None => json::FieldView::Null,
                };
            &&& m.len() == 2
            &&& m.contains(("status"@, json::FieldView::Str(persona::word(state))))
            &&& m.contains(("run_started_at"@, text_or_null(started)))
        }),
{
    let m = loaded_members(state, started);
    assert(m[0].0 == "status"@);
    assert(m[1].0 == "run_started_at"@);
}

/// The stored, the embedded and the loaded persona are shown side by side; a seed that is no longer the
/// embedded text is an upgrade to be had, and a run with an older text needs a restart.
pub proof fn the_personas_are_shown_side_by_side(v: RoleRowView, words: Seq<char>, embedded: Seq<char>, started: Option<Seq<char>>)
    ensures
        ({
            let m = persona_members(v, words, embedded, started);
            &&& m.len() == 6
            &&& m.contains(("role"@, json::FieldView::Str("responder"@)))
            &&& m.contains(("stored"@, json::FieldView::Json(json::json_object(stored_members(v, words)))))
            &&& m.contains(("embedded"@, json::FieldView::Json(json::json_object(embedded_members(embedded)))))
            &&& m.contains(
                (
                    "loaded"@,
                    json::FieldView::Json(json::json_object(loaded_members(persona::loaded(started, v.persona_updated_at), started))),
                ),
            )
            &&& m.contains(
                (
                    "upgrade_available"@,
                    json::FieldView::Bool(v.persona_seed_hash is Some && v.persona_seed_hash->0 != persona::hash_text(embedded)),
                ),
            )
            &&& m.contains(
                (
                    "needs_restart"@,
                    json::FieldView::Bool(persona::loaded(started, v.persona_updated_at) == Loaded::Stale),
                ),
            )
        }),
{
    let m = persona_members(v, words, embedded, started);
    assert(m[0].0 == "role"@);
    assert(m[1].0 == "stored"@);
    assert(m[2].0 == "embedded"@);
    assert(m[3].0 == "loaded"@);
    assert(m[4].0 == "upgrade_available"@);
    assert(m[5].0 == "needs_restart"@);
}

/// A give-up is told by the first report of it, and only by that: while the row of the responder has no moment
/// of giving up on it. Counting a failure does not say that anybody gave up.
pub proof fn the_first_report_tells(rows: Seq<RoleRowView>, attempt: i64, why: Seq<char>, now: Instant)
    ensures
        unsaid(rows) <==> exists|k: int|
            0 <= k < rows.len() && (#[trigger] rows[k]).role == "responder"@ && rows[k].watchdog_gave_up_at is None,
        unsaid(failure_counted(rows, attempt, why, now)) == unsaid(rows),
{
    let hit = roles::still_watched(Role::Responder);
    let after = failure_counted(rows, attempt, why, now);
    if unsaid(rows) {
        let k = choose|k: int| 0 <= k < rows.len() && hit(#[trigger] rows[k]);
        assert(rows[k].role == "responder"@);
        assert(hit(after[k]));
    }
    if unsaid(after) {
        let k = choose|k: int| 0 <= k < after.len() && hit(#[trigger] after[k]);
        assert(hit(rows[k]));
    }
    if exists|k: int| 0 <= k < rows.len() && (#[trigger] rows[k]).role == "responder"@ && rows[k].watchdog_gave_up_at is None {
        let k = choose|k: int|
            0 <= k < rows.len() && (#[trigger] rows[k]).role == "responder"@ && rows[k].watchdog_gave_up_at is None;
        assert(hit(rows[k]));
    }
}

/// Without a bot on record there is nothing to move; with one, it is that bot that is moved.
pub proof fn the_bot_on_record_is_moved(s: StoreView, projects: Seq<ProjectCfgView>, cwd: Seq<char>, now: Seq<char>, k: int)
    requires
        0 <= k < s.roles.len(),
        s.roles[k].role == "responder"@,
        forall|j: int| 0 <= j < k ==> (#[trigger] s.roles[j]).role != "responder"@,
        s.supervisor is Some,
    ensures
        ({
            let (into, after, moved) = merging(s, projects, cwd, now);
            let was = s.roles[k];
            let home = s.supervisor->0.project_id;
            let there = was.bot_id is Some && home is Some;
            &&& !there ==> into is None && moved == projects && after == s
            &&& there ==> moved == config::moving(projects, was.bot_id->0, home->0, cwd).1
            &&& there && config::moving(projects, was.bot_id->0, home->0, cwd).0 is Missing ==> into is None && after == s
            &&& there && !(config::moving(projects, was.bot_id->0, home->0, cwd).0 is Missing) ==> into == home && after.roles[k]
                == (RoleRowView { project_id: home, cwd: Some(cwd), updated_at: now, ..was })
        }),
{
    the_row_on_record(s, now, k);
}

} // verus!
