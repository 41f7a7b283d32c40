//! The configuration, as far as setting up the roles touches it: projects and the bots in them.
use crate::table;
use crate::text;
use vstd::prelude::*;

verus! {

/// The machine that the daemon runs on.
pub const LOCAL_HOST: &'static str = "local";

/// The pairs of a list of settings.
pub open spec fn pairs(v: Seq<(String, String)>) -> Seq<(Seq<char>, Seq<char>)> {
    v.map_values(|p: (String, String)| (p.0@, p.1@))
}

/// A bot in the configuration.
#[derive(Debug)]
pub struct BotCfg {
    pub id: Option<String>,
    pub name: String,
    pub kind: String,
    pub model: Option<String>,
    pub effort: Option<String>,
    pub fast: bool,
    pub persona: Option<String>,
    pub args: Vec<String>,
    pub autostart: bool,
    pub inject_hooks: bool,
    pub auto_approve: bool,
    pub identity: Option<String>,
    pub env: Vec<(String, String)>,
    pub herdr_session: Option<String>,
}

/// What a `BotCfg` holds.
#[verifier::ext_equal]
pub struct BotCfgView {
    pub id: Option<Seq<char>>,
    pub name: Seq<char>,
    pub kind: Seq<char>,
    pub model: Option<Seq<char>>,
    pub effort: Option<Seq<char>>,
    pub fast: bool,
    pub persona: Option<Seq<char>>,
    pub args: Seq<Seq<char>>,
    pub autostart: bool,
    pub inject_hooks: bool,
    pub auto_approve: bool,
    pub identity: Option<Seq<char>>,
    pub env: Seq<(Seq<char>, Seq<char>)>,
    pub herdr_session: Option<Seq<char>>,
}

impl View for BotCfg {
    type V = BotCfgView;

    open spec fn view(&self) -> BotCfgView {
        BotCfgView {
            id: text::opt(self.id),
            name: self.name@,
            kind: self.kind@,
            model: text::opt(self.model),
            effort: text::opt(self.effort),
            fast: self.fast,
            persona: text::opt(self.persona),
            args: text::texts(self.args@),
            autostart: self.autostart,
            inject_hooks: self.inject_hooks,
            auto_approve: self.auto_approve,
            identity: text::opt(self.identity),
            env: pairs(self.env@),
            herdr_session: text::opt(self.herdr_session),
        }
    }
}

/// A project in the configuration.
#[derive(Debug)]
pub struct ProjectCfg {
    pub id: Option<String>,
    pub path: String,
    pub label: String,
    pub host: String,
    pub bots: Vec<BotCfg>,
}

/// What a `ProjectCfg` holds.
#[verifier::ext_equal]
pub struct ProjectCfgView {
    pub id: Option<Seq<char>>,
    pub path: Seq<char>,
    pub label: Seq<char>,
    pub host: Seq<char>,
    pub bots: Seq<BotCfgView>,
}

impl View for ProjectCfg {
    type V = ProjectCfgView;

    open spec fn view(&self) -> ProjectCfgView {
        ProjectCfgView {
            id: text::opt(self.id),
            path: self.path@,
            label: self.label@,
            host: self.host@,
            bots: table::views(self.bots@),
        }
    }
}

/// The project with this id.
pub open spec fn project_with(id: Seq<char>) -> spec_fn(ProjectCfgView) -> bool {
    |p: ProjectCfgView| p.id == Some(id)
}

/// The project at this path on this machine.
pub open spec fn project_at(path: Seq<char>) -> spec_fn(ProjectCfgView) -> bool {
    |p: ProjectCfgView| p.path == path && p.host == "local"@
}

/// The bot with this id.
pub open spec fn bot_with(id: Seq<char>) -> spec_fn(BotCfgView) -> bool {
    |b: BotCfgView| b.id == Some(id)
}

/// A bot of this name.
pub open spec fn bot_called(name: Seq<char>) -> spec_fn(BotCfgView) -> bool {
    |b: BotCfgView| b.name == name
}

/// A project that holds the bot.
pub open spec fn project_of(bot_id: Seq<char>) -> spec_fn(ProjectCfgView) -> bool {
    |p: ProjectCfgView| table::any(p.bots, bot_with(bot_id))
}

/// Where the project with an id stands; behind the last one where the id is not known.
pub open spec fn known_place(projects: Seq<ProjectCfgView>, id: Option<Seq<char>>) -> int {
    match id {
        Some(x) => table::position(projects, project_with(x)),
        None => projects.len() as int,
    }
}

fn find_known(projects: &Vec<ProjectCfg>, id: Option<&str>) -> (r: usize)
    ensures
        r == known_place(table::views(projects@), text::arg(id)),
        r <= projects.len(),
{
    match id {
        Some(x) => table::locate(projects, |p: &ProjectCfg| -> (b: bool)
            ensures b == (project_with(x@))(p@)
            { text::is_text(&p.id, x) }, Ghost(project_with(x@))),
        None => projects.len(),
    }
}

fn find_bot(bots: &Vec<BotCfg>, id: Option<&str>) -> (r: usize)
    ensures
        r == bot_place(table::views(bots@), text::arg(id)),
        r <= bots.len(),
{
    match id {
        Some(x) => table::locate(bots, |b: &BotCfg| -> (c: bool)
            ensures c == (bot_with(x@))(b@)
            { text::is_text(&b.id, x) }, Ghost(bot_with(x@))),
        None => bots.len(),
    }
}

/// Where the bot with an id stands; behind the last one where the id is not known.
pub open spec fn bot_place(bots: Seq<BotCfgView>, id: Option<Seq<char>>) -> int {
    match id {
        Some(x) => table::position(bots, bot_with(x)),
        None => bots.len() as int,
    }
}

// ---------------------------------------------------------------- placing a role

/// Where the bot of a role goes and how it is set up. Ids that are on record come before the
/// directory, and the name identifies nobody: a bot may have been renamed, and another one may have
/// been given the name.
#[derive(Debug, Clone, Copy)]
pub struct Placement<'a> {
    pub name: &'a str,
    /// Which command line program it runs.
    pub kind: &'a str,
    /// The project to look for first, and the one to look for next.
    pub first_project: Option<&'a str>,
    pub second_project: Option<&'a str>,
    pub path: &'a str,
    pub known_bot: Option<&'a str>,
    pub fresh_project: &'a str,
    pub fresh_bot: &'a str,
    pub model: &'a str,
    pub effort: &'a str,
    pub identity: &'a str,
    pub persona: &'a str,
    /// The remote control entry point that is asked for, where there is one.
    pub remote_name: Option<&'a str>,
}

/// What a `Placement` holds.
pub struct PlacementView {
    pub name: Seq<char>,
    pub kind: Seq<char>,
    pub first_project: Option<Seq<char>>,
    pub second_project: Option<Seq<char>>,
    pub path: Seq<char>,
    pub known_bot: Option<Seq<char>>,
    pub fresh_project: Seq<char>,
    pub fresh_bot: Seq<char>,
    pub model: Seq<char>,
    pub effort: Seq<char>,
    pub identity: Seq<char>,
    pub persona: Seq<char>,
    pub remote_name: Option<Seq<char>>,
}

impl<'a> View for Placement<'a> {
    type V = PlacementView;

    open spec fn view(&self) -> PlacementView {
        PlacementView {
            name: self.name@,
            kind: self.kind@,
            first_project: text::arg(self.first_project),
            second_project: text::arg(self.second_project),
            path: self.path@,
            known_bot: text::arg(self.known_bot),
            fresh_project: self.fresh_project@,
            fresh_bot: self.fresh_bot@,
            model: self.model@,
            effort: self.effort@,
            identity: self.identity@,
            persona: self.persona@,
            remote_name: text::arg(self.remote_name),
        }
    }
}

/// Which project the bot goes into: behind the last one is a new one.
pub open spec fn chosen(projects: Seq<ProjectCfgView>, p: PlacementView) -> int {
    let n = projects.len() as int;
    if known_place(projects, p.first_project) < n {
        known_place(projects, p.first_project)
    } else if known_place(projects, p.second_project) < n {
        known_place(projects, p.second_project)
    } else {
        table::position(projects, project_at(p.path))
    }
}

/// A project made for a role.
pub open spec fn new_project(p: PlacementView) -> ProjectCfgView {
    ProjectCfgView { id: Some(p.fresh_project), path: p.path, label: p.name, host: "local"@, bots: Seq::empty() }
}

/// A bot made for a role, before it is set up.
pub open spec fn new_bot(p: PlacementView) -> BotCfgView {
    BotCfgView {
        id: Some(p.fresh_bot),
        name: p.name,
        kind: p.kind,
        model: None,
        effort: None,
        fast: false,
        persona: None,
        args: Seq::empty(),
        autostart: false,
        inject_hooks: true,
        auto_approve: true,
        identity: None,
        env: Seq::empty(),
        herdr_session: None,
    }
}

/// The arguments of the bot of a role.
pub open spec fn launch_args(remote_name: Option<Seq<char>>) -> Seq<Seq<char>> {
    match remote_name {
        Some(n) => seq!["--remote-control"@, n],
        None => Seq::empty(),
    }
}

/// A bot that is set up for a role. Its name is left alone: a rename is the user's.
pub open spec fn set_up(b: BotCfgView, p: PlacementView) -> BotCfgView {
    BotCfgView {
        id: if b.id is Some {
            b.id
        } else {
            Some(p.fresh_bot)
        },
        kind: p.kind,
        model: Some(p.model),
        effort: Some(p.effort),
        identity: Some(p.identity),
        persona: Some(p.persona),
        args: launch_args(p.remote_name),
        autostart: false,
        inject_hooks: true,
        ..b
    }
}

/// The id of a project, or the fresh one.
pub open spec fn id_or(id: Option<Seq<char>>, fresh: Seq<char>) -> Seq<char> {
    match id {
        Some(x) => x,
        None => fresh,
    }
}

/// A name is taken by a bot that is not the one on record.
pub open spec fn name_is_taken(project: ProjectCfgView, p: PlacementView) -> bool {
    bot_place(project.bots, p.known_bot) == project.bots.len() && table::any(project.bots, bot_called(p.name))
}

/// The project that the bot goes into, with the bot set up in it.
pub open spec fn filled(project: ProjectCfgView, p: PlacementView) -> ProjectCfgView {
    let j = bot_place(project.bots, p.known_bot);
    ProjectCfgView {
        id: Some(id_or(project.id, p.fresh_project)),
        bots: if j < project.bots.len() {
            project.bots.update(j, set_up(project.bots[j], p))
        } else {
            project.bots.push(set_up(new_bot(p), p))
        },
        ..project
    }
}

/// The project that is looked into.
pub open spec fn target(projects: Seq<ProjectCfgView>, p: PlacementView) -> ProjectCfgView {
    let i = chosen(projects, p);
    if i < projects.len() {
        projects[i]
    } else {
        new_project(p)
    }
}

/// The projects after the bot of a role was placed.
pub open spec fn placed(projects: Seq<ProjectCfgView>, p: PlacementView) -> Seq<ProjectCfgView> {
    let i = chosen(projects, p);
    if i < projects.len() {
        projects.update(i, filled(projects[i], p))
    } else {
        projects.push(filled(new_project(p), p))
    }
}

/// The id of the bot that was placed.
pub open spec fn placed_bot(project: ProjectCfgView, p: PlacementView) -> Seq<char> {
    let j = bot_place(project.bots, p.known_bot);
    if j < project.bots.len() {
        id_or(project.bots[j].id, p.fresh_bot)
    } else {
        p.fresh_bot
    }
}

/// Another bot already has the name of the role.
#[derive(Debug, Clone, Copy, PartialEq, Eq, Structural)]
pub struct NameTaken;

fn is_called(bots: &Vec<BotCfg>, name: &str) -> (r: bool)
    ensures
        r == table::any(table::views(bots@), bot_called(name@)),
{
    let i = table::locate(bots, |b: &BotCfg| -> (c: bool)
        ensures c == (bot_called(name@))(b@)
        { text::same(b.name.as_str(), name) }, Ghost(bot_called(name@)));
    proof {
        table::position_is_first(table::views(bots@), bot_called(name@));
    }
    i < bots.len()
}

fn args_of(remote_name: Option<&str>) -> (r: Vec<String>)
    ensures
        text::texts(r@) == launch_args(text::arg(remote_name)),
{
    let mut args: Vec<String> = Vec::new();
    if let Some(n) = remote_name {
        args.push("--remote-control".to_owned());
        args.push(n.to_owned());
    }
    assert(text::texts(args@) =~= launch_args(text::arg(remote_name)));
    args
}

fn set_up_bot(b: BotCfg, p: Placement<'_>) -> (r: (String, BotCfg))
    ensures
        r.1@ == set_up(b@, p@),
        r.0@ == id_or(b@.id, p@.fresh_bot),
{
    let id = match b.id {
        Some(x) => x,
        None => p.fresh_bot.to_owned(),
    };
    let bot = BotCfg {
        id: Some(id.clone()),
        name: b.name,
        kind: p.kind.to_owned(),
        model: Some(p.model.to_owned()),
        effort: Some(p.effort.to_owned()),
        fast: b.fast,
        persona: Some(p.persona.to_owned()),
        args: args_of(p.remote_name),
        autostart: false,
        inject_hooks: true,
        auto_approve: b.auto_approve,
        identity: Some(p.identity.to_owned()),
        env: b.env,
        herdr_session: b.herdr_session,
    };
    (id, bot)
}

fn fill(project: ProjectCfg, p: Placement<'_>) -> (r: (String, String, ProjectCfg))
    ensures
        r.2@ == filled(project@, p@),
        r.0@ == id_or(project@.id, p@.fresh_project),
        r.1@ == placed_bot(project@, p@),
{
    let project_id = match project.id {
        Some(x) => x,
        None => p.fresh_project.to_owned(),
    };
    let ghost was = table::views(project.bots@);
    let mut bots = project.bots;
    let j = find_bot(&bots, p.known_bot);
    let bot_id = if j < bots.len() {
        let b = bots.remove(j);
        assert(b@ == was[j as int]);
        let (id, done) = set_up_bot(b, p);
        let ghost d = done@;
        bots.insert(j, done);
        assert(table::views(bots@) =~= was.update(j as int, d));
        id
    } else {
        let env: Vec<(String, String)> = Vec::new();
        let args: Vec<String> = Vec::new();
        assert(pairs(env@) =~= Seq::<(Seq<char>, Seq<char>)>::empty());
        assert(text::texts(args@) =~= Seq::<Seq<char>>::empty());
        let fresh = BotCfg {
            id: Some(p.fresh_bot.to_owned()),
            name: p.name.to_owned(),
            kind: p.kind.to_owned(),
            model: None,
            effort: None,
            fast: false,
            persona: None,
            args,
            autostart: false,
            inject_hooks: true,
            auto_approve: true,
            identity: None,
            env,
            herdr_session: None,
        };
        assert(fresh@ =~= new_bot(p@));
        let (id, done) = set_up_bot(fresh, p);
        let ghost d = done@;
        bots.push(done);
        assert(table::views(bots@) =~= was.push(d));
        id
    };
    let r = ProjectCfg {
        id: Some(project_id.clone()),
        path: project.path,
        label: project.label,
        host: project.host,
        bots,
    };
    (project_id, bot_id, r)
}

/// What placing a role answers and leaves in the configuration.
pub open spec fn placing(
    was: Seq<ProjectCfgView>,
    p: PlacementView,
    ids: Option<(Seq<char>, Seq<char>)>,
    after: Seq<ProjectCfgView>,
) -> bool {
    let t = target(was, p);
    if name_is_taken(t, p) {
        ids is None && after == was
    } else {
        &&& ids == Some((id_or(t.id, p.fresh_project), placed_bot(t, p)))
        &&& after == placed(was, p)
    }
}

/// Create, or find, the project and the bot of a role. Gives their ids.
pub fn place(projects: &mut Vec<ProjectCfg>, p: Placement<'_>) -> (res: Result<(String, String), NameTaken>)
    ensures
        placing(
            table::views(old(projects)@),
            p@,
            match res {
                Ok(ids) => Some((ids.0@, ids.1@)),
                Err(_) => None,
            },
            table::views(final(projects)@),
        ),
{
    let ghost was = table::views(projects@);
    let n = projects.len();
    let mut i = find_known(projects, p.first_project);
    if i == n {
        i = find_known(projects, p.second_project);
    }
    if i == n {
        let path = p.path;
        i = table::locate(projects, |x: &ProjectCfg| -> (b: bool)
            ensures b == (project_at(path@))(x@)
            { text::same(x.path.as_str(), path) && text::same(x.host.as_str(), LOCAL_HOST) }, Ghost(project_at(path@)));
    }
    assert(i == chosen(was, p@));
    if i < n {
        assert(projects@[i as int]@ == was[i as int]);
        if find_bot(&projects[i].bots, p.known_bot) == projects[i].bots.len() && is_called(&projects[i].bots, p.name) {
            return Err(NameTaken);
        }
        let project = projects.remove(i);
        let (project_id, bot_id, done) = fill(project, p);
        let ghost d = done@;
        projects.insert(i, done);
        assert(table::views(projects@) =~= was.update(i as int, d));
        Ok((project_id, bot_id))
    } else {
        let bots: Vec<BotCfg> = Vec::new();
        assert(table::views(bots@) =~= Seq::<BotCfgView>::empty());
        let project = ProjectCfg {
            id: Some(p.fresh_project.to_owned()),
            path: p.path.to_owned(),
            label: p.name.to_owned(),
            host: LOCAL_HOST.to_owned(),
            bots,
        };
        assert(project@ =~= new_project(p@));
        proof {
            if p@.known_bot is Some {
                table::position_is_first(Seq::<BotCfgView>::empty(), bot_with(p@.known_bot->0));
            }
        }
        let (project_id, bot_id, done) = fill(project, p);
        let ghost d = done@;
        projects.push(done);
        assert(table::views(projects@) =~= was.push(d));
        Ok((project_id, bot_id))
    }
}

// ---------------------------------------------------------------- moving a role

/// What came of moving a bot into a project.
pub enum Moved {
    /// The bot, or the project, is not in the configuration.
    Missing,
    /// The bot is there already.
    There,
    Done,
}

/// The project without the bot at a place.
pub open spec fn without_bot(p: ProjectCfgView, at: int) -> ProjectCfgView {
    ProjectCfgView { bots: p.bots.remove(at), ..p }
}

/// The project with one more bot.
pub open spec fn with_bot(p: ProjectCfgView, b: BotCfgView) -> ProjectCfgView {
    ProjectCfgView { bots: p.bots.push(b), ..p }
}

/// What moving a bot into a project comes to, and the projects afterwards. The project it leaves goes
/// too, where it is left empty and was only the shell around the directory `cwd`.
pub open spec fn moving(projects: Seq<ProjectCfgView>, bot_id: Seq<char>, project_id: Seq<char>, cwd: Seq<char>) -> (
    Moved,
    Seq<ProjectCfgView>,
) {
    let n = projects.len() as int;
    let from = table::position(projects, project_of(bot_id));
    let to = table::position(projects, project_with(project_id));
    if from == n {
        (Moved::Missing, projects)
    } else if projects[from].id == Some(project_id) {
        (Moved::There, projects)
    } else if to == n {
        (Moved::Missing, projects)
    } else {
        let at = table::position(projects[from].bots, bot_with(bot_id));
        let left = without_bot(projects[from], at);
        let after = projects.update(from, left).update(to, with_bot(projects[to], projects[from].bots[at]));
        if left.bots.len() == 0 && left.path == cwd {
            (Moved::Done, after.remove(from))
        } else {
            (Moved::Done, after)
        }
    }
}

/// A bot is in the configuration, and so is a project, but the bot is in another one.
pub open spec fn is_elsewhere(projects: Seq<ProjectCfgView>, bot_id: Seq<char>, project_id: Seq<char>) -> bool {
    let from = table::position(projects, project_of(bot_id));
    &&& from < projects.len()
    &&& projects[from].id != Some(project_id)
    &&& table::position(projects, project_with(project_id)) < projects.len()
}

fn holds_bot(p: &ProjectCfg, bot_id: &str) -> (r: bool)
    ensures
        r == (project_of(bot_id@))(p@),
{
    proof {
        table::position_is_first(table::views(p.bots@), bot_with(bot_id@));
    }
    find_bot(&p.bots, Some(bot_id)) < p.bots.len()
}

/// Whether a bot would be moved to get into a project.
pub fn bot_is_elsewhere(projects: &Vec<ProjectCfg>, bot_id: &str, project_id: &str) -> (r: bool)
    ensures
        r == is_elsewhere(table::views(projects@), bot_id@, project_id@),
{
    let n = projects.len();
    let from = table::locate(projects, |p: &ProjectCfg| -> (b: bool)
        ensures b == (project_of(bot_id@))(p@)
        { holds_bot(p, bot_id) }, Ghost(project_of(bot_id@)));
    if from == n {
        return false;
    }
    assert(projects@[from as int]@ == table::views(projects@)[from as int]);
    !text::is_text(&projects[from].id, project_id) && find_known(projects, Some(project_id)) < n
}

/// Move a bot into a project. `None` is that the bot or the project is not there; `Some(false)` is
/// that there was nothing to move.
pub fn adopt(projects: &mut Vec<ProjectCfg>, bot_id: &str, project_id: &str, cwd: &str) -> (res: Option<bool>)
    ensures
        ({
            let (moved, after) = moving(table::views(old(projects)@), bot_id@, project_id@, cwd@);
            &&& table::views(final(projects)@) == after
            &&& res == match moved {
                Moved::Missing => None::<bool>,
                Moved::There => Some(false),
                Moved::Done => Some(true),
            }
        }),
{
    let ghost was = table::views(projects@);
    let n = projects.len();
    let from = table::locate(projects, |p: &ProjectCfg| -> (b: bool)
        ensures b == (project_of(bot_id@))(p@)
        { holds_bot(p, bot_id) }, Ghost(project_of(bot_id@)));
    if from == n {
        return None;
    }
    proof {
        table::position_is_first(was, project_of(bot_id@));
        assert(projects@[from as int]@ == was[from as int]);
        table::position_is_first(was[from as int].bots, bot_with(bot_id@));
        table::position_is_first(was, project_with(project_id@));
    }
    if text::is_text(&projects[from].id, project_id) {
        return Some(false);
    }
    let to = find_known(projects, Some(project_id));
    if to == n {
        return None;
    }
    let mut source = projects.remove(from);
    let at = find_bot(&source.bots, Some(bot_id));
    let ghost bots = table::views(source.bots@);
    let bot = source.bots.remove(at);
    let ghost b = bot@;
    assert(b == bots[at as int]);
    assert(table::views(source.bots@) =~= bots.remove(at as int));
    let ghost left = source@;
    assert(left =~= without_bot(was[from as int], at as int));
    let empty = source.bots.len() == 0 && text::same(source.path.as_str(), cwd);
    projects.insert(from, source);
    assert(table::views(projects@) =~= was.update(from as int, left));
    let mut goal = projects.remove(to);
    assert(goal@ == was[to as int]);
    let ghost there = table::views(goal.bots@);
    goal.bots.push(bot);
    assert(table::views(goal.bots@) =~= there.push(b));
    let ghost g = goal@;
    assert(g =~= with_bot(was[to as int], b));
    projects.insert(to, goal);
    let ghost after = was.update(from as int, left).update(to as int, g);
    assert(table::views(projects@) =~= after);
    if empty {
        let _ = projects.remove(from);
        assert(table::views(projects@) =~= after.remove(from as int));
    }
    Some(true)
}

// ---------------------------------------------------------------- personas

/// A project in which the first bot with an id has another persona.
pub open spec fn with_persona(p: ProjectCfgView, bot_id: Seq<char>, persona: Seq<char>) -> ProjectCfgView {
    let at = table::position(p.bots, bot_with(bot_id));
    if at < p.bots.len() {
        ProjectCfgView {
            bots: p.bots.update(at, BotCfgView { persona: Some(persona), ..p.bots[at] }),
            ..p
        }
    } else {
        p
    }
}

/// What writing a persona back answers and leaves in the configuration.
pub open spec fn writing_persona(
    was: Seq<ProjectCfgView>,
    bot_id: Seq<char>,
    persona: Seq<char>,
    found: bool,
    after: Seq<ProjectCfgView>,
) -> bool {
    &&& found == table::any(was, project_of(bot_id))
    &&& after == was.map_values(|p: ProjectCfgView| with_persona(p, bot_id, persona))
}

/// Write a persona back to the bot, wherever it is. False is that the bot is not in the configuration.
pub fn write_persona(projects: &mut Vec<ProjectCfg>, bot_id: &str, persona: &str) -> (found: bool)
    ensures
        writing_persona(table::views(old(projects)@), bot_id@, persona@, found, table::views(final(projects)@)),
{
    let ghost was = table::views(projects@);
    let mut found = false;
    let mut i: usize = 0;
    while i < projects.len()
        invariant
            i <= projects.len(),
            was == table::views(old(projects)@),
            projects.len() == was.len(),
            found == exists|j: int| 0 <= j < i && (project_of(bot_id@))(#[trigger] was[j]),
            forall|j: int| 0 <= j < i ==> (#[trigger] projects@[j])@ == with_persona(was[j], bot_id@, persona@),
            forall|j: int| i <= j < was.len() ==> (#[trigger] projects@[j])@ == was[j],
        decreases projects.len() - i,
    {
        let mut p = projects.remove(i);
        let ghost pv = p@;
        assert(pv == was[i as int]);
        let at = find_bot(&p.bots, Some(bot_id));
        proof {
            table::position_is_first(pv.bots, bot_with(bot_id@));
        }
        if at < p.bots.len() {
            found = true;
            assert((project_of(bot_id@))(was[i as int]));
            let b = p.bots.remove(at);
            assert(b@ == pv.bots[at as int]);
            let done = BotCfg { persona: Some(persona.to_owned()), ..b };
            let ghost d = done@;
            p.bots.insert(at, done);
            assert(table::views(p.bots@) =~= pv.bots.update(at as int, d));
        }
        assert(p@ =~= with_persona(was[i as int], bot_id@, persona@));
        projects.insert(i, p);
        i += 1;
    }
    assert(table::views(projects@) =~= was.map_values(|p: ProjectCfgView| with_persona(p, bot_id@, persona@)));
    found
}

// ---------------------------------------------------------------- laws

/// No two projects have the same id.
pub open spec fn ids_are_unique(projects: Seq<ProjectCfgView>) -> bool {
    forall|i: int, j: int|
        0 <= i < j < projects.len() && projects[i].id is Some ==> (#[trigger] projects[i]).id != (#[trigger] projects[j]).id
}

/// The placement of the same role, once the ids of its project and bot are on record.
pub open spec fn on_record(p: PlacementView, project_id: Seq<char>, bot_id: Seq<char>) -> PlacementView {
    PlacementView { first_project: Some(project_id), known_bot: Some(bot_id), ..p }
}

/// Setting a role up again finds the same project and the same bot, and changes nothing. The fresh ids
/// are taken to be unused.
pub proof fn setting_up_again_changes_nothing(projects: Seq<ProjectCfgView>, p: PlacementView)
    requires
        ids_are_unique(projects),
        forall|i: int| 0 <= i < projects.len() ==> (#[trigger] projects[i]).id != Some(p.fresh_project),
        forall|j: int| 0 <= j < target(projects, p).bots.len() ==> (#[trigger] target(projects, p).bots[j]).id != Some(p.fresh_bot),
        !name_is_taken(target(projects, p), p),
    ensures
        ({
            let t = target(projects, p);
            let again = on_record(p, id_or(t.id, p.fresh_project), placed_bot(t, p));
            let after = placed(projects, p);
            !name_is_taken(target(after, again), again) && placed(after, again) == after
        }),
{
    let t = target(projects, p);
    let pid = id_or(t.id, p.fresh_project);
    let bid = placed_bot(t, p);
    let again = on_record(p, pid, bid);
    let after = placed(projects, p);
    let i = chosen(projects, p);
    let n = projects.len() as int;
    if p.first_project is Some {
        table::position_is_first(projects, project_with(p.first_project->0));
    }
    if p.second_project is Some {
        table::position_is_first(projects, project_with(p.second_project->0));
    }
    table::position_is_first(projects, project_at(p.path));
    let k = if i < n {
        i
    } else {
        n
    };
    assert(after[k] == filled(t, p));
    assert forall|j: int| 0 <= j < k implies !(project_with(pid))(#[trigger] after[j]) by {
        assert(after[j] == projects[j]);
        if i < n && projects[i].id is Some {
            if projects[j].id == projects[i].id {
                assert(projects[j].id is Some);
            }
        }
    }
    table::position_at(after, project_with(pid), k);
    if p.known_bot is Some {
        table::position_is_first(t.bots, bot_with(p.known_bot->0));
    }
    let j = bot_place(t.bots, p.known_bot);
    let bots = filled(t, p).bots;
    let at = if j < t.bots.len() {
        j
    } else {
        t.bots.len() as int
    };
    assert(bots[at].id == Some(bid));
    assert forall|m: int| 0 <= m < at implies !(bot_with(bid))(#[trigger] bots[m]) by {
        assert(bots[m] == t.bots[m]);
        if j < t.bots.len() {
            assert(!(bot_with(p.known_bot->0))(t.bots[m]));
        }
    }
    table::position_at(bots, bot_with(bid), at);
    assert(chosen(after, again) == k);
    assert(target(after, again) == filled(t, p));
    assert(set_up(bots[at], again) =~= bots[at]);
    assert(filled(filled(t, p), again).bots =~= bots);
    assert(placed(after, again) =~= after);
}

/// Setting a role up touches no other project, and in its own project no other bot.
pub proof fn setting_up_touches_nobody_else(projects: Seq<ProjectCfgView>, p: PlacementView, i: int, j: int)
    requires
        0 <= i < projects.len(),
    ensures
        i != chosen(projects, p) ==> placed(projects, p)[i] == projects[i],
        ({
            let was = projects[i].bots;
            let now = placed(projects, p)[i].bots;
            i == chosen(projects, p) && 0 <= j < was.len() && j != bot_place(was, p.known_bot) ==> now[j] == was[j]
        }),
{
    if p.first_project is Some {
        table::position_is_first(projects, project_with(p.first_project->0));
    }
    if p.second_project is Some {
        table::position_is_first(projects, project_with(p.second_project->0));
    }
    table::position_is_first(projects, project_at(p.path));
    if p.known_bot is Some {
        table::position_is_first(projects[i].bots, bot_with(p.known_bot->0));
    }
}

/// A bot is moved exactly where it is in another project than the one it goes to.
pub proof fn only_a_bot_elsewhere_is_moved(projects: Seq<ProjectCfgView>, bot_id: Seq<char>, project_id: Seq<char>, cwd: Seq<char>)
    ensures
        moving(projects, bot_id, project_id, cwd).0 is Done <==> is_elsewhere(projects, bot_id, project_id),
{
    table::position_is_first(projects, project_of(bot_id));
    table::position_is_first(projects, project_with(project_id));
}

/// Moving a bot puts it into the project, and moving it again finds it there.
pub proof fn moving_again_moves_nothing(projects: Seq<ProjectCfgView>, bot_id: Seq<char>, project_id: Seq<char>, cwd: Seq<char>)
    requires
        ({
            let from = table::position(projects, project_of(bot_id));
            &&& moving(projects, bot_id, project_id, cwd).0 is Done
            &&& forall|k: int| 0 <= k < projects.len() && k != from ==> !(project_of(bot_id))(#[trigger] projects[k])
            &&& forall|a: int, b: int|
                0 <= a < b < projects[from].bots.len() && (bot_with(bot_id))(#[trigger] projects[from].bots[a]) ==> !(bot_with(
                    bot_id,
                ))(#[trigger] projects[from].bots[b])
        }),
    ensures
        ({
            let after = moving(projects, bot_id, project_id, cwd).1;
            moving(after, bot_id, project_id, cwd) == (Moved::There, after)
        }),
{
    let holds = project_of(bot_id);
    let is = bot_with(bot_id);
    let from = table::position(projects, holds);
    let to = table::position(projects, project_with(project_id));
    table::position_is_first(projects, holds);
    table::position_is_first(projects, project_with(project_id));
    let bots = projects[from].bots;
    let at = table::position(bots, is);
    table::position_is_first(bots, is);
    let left = without_bot(projects[from], at);
    let goal = with_bot(projects[to], bots[at]);
    let mid = projects.update(from, left).update(to, goal);
    let after = moving(projects, bot_id, project_id, cwd).1;
    assert(to != from);
    assert(is(goal.bots[goal.bots.len() - 1]));
    assert(holds(goal));
    assert(!holds(left)) by {
        if table::any(left.bots, is) {
            let m = choose|m: int| 0 <= m < left.bots.len() && is(#[trigger] left.bots[m]);
            if m < at {
                assert(is(bots[m]));
            } else {
                assert(is(bots[m + 1]));
                assert(is(bots[at]));
            }
        }
    }
    let at2 = if after.len() == mid.len() {
        to
    } else if to > from {
        to - 1
    } else {
        to
    };
    assert(after[at2] == goal);
    assert forall|k: int| 0 <= k < at2 implies !holds(#[trigger] after[k]) by {
        let m = if after.len() == mid.len() || k < from {
            k
        } else {
            k + 1
        };
        assert(after[k] == mid[m]);
        if m != from {
            assert(mid[m] == projects[m]);
        }
    }
    table::position_at(after, holds, at2);
}

/// A role goes into the project on record, or the next one on record, or the one at its path on this
/// machine, in that order, and into a new one where there is none of them.
pub proof fn a_role_goes_where_it_is_on_record(projects: Seq<ProjectCfgView>, p: PlacementView, k: int)
    ensures
        ({
            let n = projects.len();
            let by_first = p.first_project is Some && exists|i: int|
                0 <= i < n && (#[trigger] projects[i]).id == p.first_project;
            let by_second = p.second_project is Some && exists|i: int|
                0 <= i < n && (#[trigger] projects[i]).id == p.second_project;
            let by_path = exists|i: int|
                0 <= i < n && (#[trigger] projects[i]).path == p.path && projects[i].host == "local"@;
            let c = chosen(projects, p);
            &&& by_first ==> 0 <= c < n && projects[c].id == p.first_project && (0 <= k < c ==> projects[k].id
                != p.first_project)
            &&& !by_first && by_second ==> 0 <= c < n && projects[c].id == p.second_project && (0 <= k < c ==> projects[k].id
                != p.second_project)
            &&& !by_first && !by_second && by_path ==> 0 <= c < n && projects[c].path == p.path && projects[c].host
                == "local"@ && (0 <= k < c ==> !(projects[k].path == p.path && projects[k].host == "local"@))
            &&& !by_first && !by_second && !by_path ==> c == n && target(projects, p) == (ProjectCfgView {
                id: Some(p.fresh_project),
                path: p.path,
                label: p.name,
                host: "local"@,
                bots: seq![],
            })
            &&& c < n ==> target(projects, p) == projects[c]
        }),
{
    project_is_known(projects, p.first_project);
    project_is_known(projects, p.second_project);
    if p.first_project is Some {
        table::position_is_first(projects, project_with(p.first_project->0));
    }
    if p.second_project is Some {
        table::position_is_first(projects, project_with(p.second_project->0));
    }
    let hit = project_at(p.path);
    table::position_is_first(projects, hit);
    if table::any(projects, hit) {
        let i = choose|i: int| 0 <= i < projects.len() && hit(#[trigger] projects[i]);
        assert(projects[i].path == p.path && projects[i].host == "local"@);
    } else {
        assert forall|i: int| 0 <= i < projects.len() implies !hit(#[trigger] projects[i]) by {}
    }
}

proof fn project_is_known(projects: Seq<ProjectCfgView>, id: Option<Seq<char>>)
    ensures
        known_place(projects, id) < projects.len() <==> id is Some && exists|i: int|
            0 <= i < projects.len() && (#[trigger] projects[i]).id == id,
{
    if id is Some {
        let hit = project_with(id->0);
        table::position_is_first(projects, hit);
        if table::any(projects, hit) {
            let i = choose|i: int| 0 <= i < projects.len() && hit(#[trigger] projects[i]);
            assert(projects[i].id == id);
        } else {
            assert forall|i: int| 0 <= i < projects.len() implies (#[trigger] projects[i]).id != id by {
                assert(!hit(projects[i]));
            }
        }
    }
}

proof fn bot_is_known(bots: Seq<BotCfgView>, id: Option<Seq<char>>)
    ensures
        0 <= bot_place(bots, id) <= bots.len(),
        bot_place(bots, id) < bots.len() <==> id is Some && exists|i: int|
            0 <= i < bots.len() && (#[trigger] bots[i]).id == id,
        bot_place(bots, id) < bots.len() ==> bots[bot_place(bots, id)].id == id && forall|k: int|
            0 <= k < bot_place(bots, id) ==> (#[trigger] bots[k]).id != id,
{
    if id is Some {
        let hit = bot_with(id->0);
        table::position_is_first(bots, hit);
        if table::any(bots, hit) {
            let i = choose|i: int| 0 <= i < bots.len() && hit(#[trigger] bots[i]);
            assert(bots[i].id == id);
            assert forall|k: int| 0 <= k < bot_place(bots, id) implies (#[trigger] bots[k]).id != id by {
                assert(!hit(bots[k]));
            }
        } else {
            assert forall|i: int| 0 <= i < bots.len() implies (#[trigger] bots[i]).id != id by {
                assert(!hit(bots[i]));
            }
        }
    }
}

/// In its project the bot on record is set up; without one a bot is made, unless another has the name,
/// which stops everything. What is set up runs the program, the model, the effort, the account and the
/// persona that were asked for, starts only when told to, reports through its hooks, and asks for the
/// remote entry point where one is named. Its name, its environment and its other settings stay.
pub proof fn a_role_is_set_up_as_it_was_asked_for(
    was: Seq<ProjectCfgView>,
    p: PlacementView,
    ids: Option<(Seq<char>, Seq<char>)>,
    after: Seq<ProjectCfgView>,
    j: int,
)
    requires
        placing(was, p, ids, after),
    ensures
        ({
            let t = target(was, p);
            let known = p.known_bot is Some && exists|i: int| 0 <= i < t.bots.len() && (#[trigger] t.bots[i]).id == p.known_bot;
            let named = exists|i: int| 0 <= i < t.bots.len() && (#[trigger] t.bots[i]).name == p.name;
            let c = chosen(was, p);
            let at = if c < was.len() {
                c
            } else {
                was.len() as int
            };
            let project = after[at];
            let here = if known {
                0 <= j < t.bots.len() && t.bots[j].id == p.known_bot && (forall|i: int|
                    0 <= i < j ==> (#[trigger] t.bots[i]).id != p.known_bot)
            } else {
                j == t.bots.len()
            };
            &&& ids is None <==> !known && named
            &&& ids is None ==> after == was
            &&& ids is Some && here ==> {
                    let b = project.bots[j];
                    let old_bot = if known {
                        t.bots[j]
                    } else {
                        BotCfgView {
                            id: Some(p.fresh_bot),
                            name: p.name,
                            kind: p.kind,
                            model: None,
                            effort: None,
                            fast: false,
                            persona: None,
                            args: seq![],
                            autostart: false,
                            inject_hooks: true,
                            auto_approve: true,
                            identity: None,
                            env: seq![],
                            herdr_session: None,
                        }
                    };
                    &&& known ==> project.bots.len() == t.bots.len()
                    &&& !known ==> project.bots.len() == t.bots.len() + 1
                    &&& b.id == Some((ids->0).1)
                    &&& b == (BotCfgView {
                        id: b.id,
                        kind: p.kind,
                        model: Some(p.model),
                        effort: Some(p.effort),
                        identity: Some(p.identity),
                        persona: Some(p.persona),
                        autostart: false,
                        inject_hooks: true,
                        args: b.args,
                        ..old_bot
                    })
                    &&& p.remote_name is None ==> b.args.len() == 0
                    &&& p.remote_name is Some ==> b.args.len() == 2 && b.args[0] == "--remote-control"@ && b.args[1]
                        == p.remote_name->0
                    &&& known ==> (ids->0).1 == p.known_bot->0
                    &&& !known ==> (ids->0).1 == p.fresh_bot
                }
            &&& ids is Some ==> {
                &&& project.id == Some((ids->0).0)
                &&& t.id is Some ==> project.id == t.id
                &&& t.id is None ==> project.id == Some(p.fresh_project)
                &&& project.path == t.path && project.label == t.label && project.host == t.host
            }
        }),
{
    let t = target(was, p);
    let hit = bot_called(p.name);
    if table::any(t.bots, hit) {
        let i = choose|i: int| 0 <= i < t.bots.len() && hit(#[trigger] t.bots[i]);
        assert(t.bots[i].name == p.name);
    } else {
        assert forall|i: int| 0 <= i < t.bots.len() implies !hit(#[trigger] t.bots[i]) by {}
    }
    bot_is_known(t.bots, p.known_bot);
    let c = chosen(was, p);
    if p.first_project is Some {
        table::position_is_first(was, project_with(p.first_project->0));
    }
    if p.second_project is Some {
        table::position_is_first(was, project_with(p.second_project->0));
    }
    table::position_is_first(was, project_at(p.path));
    if ids is Some {
        let at = if c < was.len() {
            c
        } else {
            was.len() as int
        };
        let k = bot_place(t.bots, p.known_bot);
        let project = after[at];
        assert(project == filled(t, p));
        assert(new_bot(p).args =~= seq![] && new_bot(p).env =~= seq![]);
        if k < t.bots.len() {
            assert(project.bots[k] == set_up(t.bots[k], p));
            if 0 <= j < t.bots.len() && t.bots[j].id == p.known_bot && (forall|i: int|
                0 <= i < j ==> (#[trigger] t.bots[i]).id != p.known_bot) {
                if j < k {
                    assert(t.bots[j].id != p.known_bot);
                }
                assert(j == k);
            }
        } else {
            assert(project.bots[k] == set_up(new_bot(p), p));
        }
    }
}

/// Moving a bot takes it out of the project it is in and puts it, as it is, behind the others of the
/// project it goes to. The project it leaves goes too where it is left empty at the directory; every
/// other project stays.
pub proof fn a_bot_moves_as_it_is(projects: Seq<ProjectCfgView>, bot_id: Seq<char>, project_id: Seq<char>, cwd: Seq<char>, k: int)
    requires
        moving(projects, bot_id, project_id, cwd).0 is Done,
    ensures
        ({
            let from = table::position(projects, project_of(bot_id));
            let to = table::position(projects, project_with(project_id));
            let after = moving(projects, bot_id, project_id, cwd).1;
            let gone = projects[from].bots.len() == 1 && projects[from].path == cwd;
            let place = |i: int|
                if gone && i > from {
                    i - 1
                } else {
                    i
                };
            &&& 0 <= from < projects.len() && 0 <= to < projects.len() && from != to
            &&& projects[to].id == Some(project_id)
            &&& after.len() == if gone {
                projects.len() - 1
            } else {
                projects.len() as int
            }
            &&& after[place(to)].bots.drop_last() == projects[to].bots
            &&& after[place(to)].bots.last().id == Some(bot_id)
            &&& projects[from].bots.contains(after[place(to)].bots.last())
            &&& after[place(to)].id == projects[to].id && after[place(to)].path == projects[to].path
            &&& !gone ==> after[from].bots.len() == projects[from].bots.len() - 1 && after[from].id == projects[from].id
            &&& 0 <= k < projects.len() && k != from && k != to ==> after[place(k)] == projects[k]
        }),
{
    let from = table::position(projects, project_of(bot_id));
    let to = table::position(projects, project_with(project_id));
    table::position_is_first(projects, project_of(bot_id));
    table::position_is_first(projects, project_with(project_id));
    let bots = projects[from].bots;
    let at = table::position(bots, bot_with(bot_id));
    table::position_is_first(bots, bot_with(bot_id));
    assert(bots.contains(bots[at]));
    assert(projects[to].bots.push(bots[at]).drop_last() =~= projects[to].bots);
}

/// A persona is written to the bot in each project that holds it, and to nobody else.
pub proof fn a_persona_is_written_to_its_bot(
    was: Seq<ProjectCfgView>,
    bot_id: Seq<char>,
    persona: Seq<char>,
    found: bool,
    after: Seq<ProjectCfgView>,
    i: int,
    j: int,
)
    requires
        writing_persona(was, bot_id, persona, found, after),
        0 <= i < was.len(),
        0 <= j < was[i].bots.len(),
    ensures
        after.len() == was.len(),
        after[i].bots.len() == was[i].bots.len(),
        after[i].id == was[i].id && after[i].path == was[i].path && after[i].label == was[i].label && after[i].host
            == was[i].host,
        was[i].bots[j].id != Some(bot_id) ==> after[i].bots[j] == was[i].bots[j],
        was[i].bots[j].id == Some(bot_id) && (forall|k: int| 0 <= k < j ==> (#[trigger] was[i].bots[k]).id != Some(bot_id))
            ==> after[i].bots[j] == (BotCfgView { persona: Some(persona), ..was[i].bots[j] }),
        was[i].bots[j].id == Some(bot_id) ==> found,
{
    let bots = was[i].bots;
    let hit = bot_with(bot_id);
    table::position_is_first(bots, hit);
    if bots[j].id == Some(bot_id) {
        assert(hit(bots[j]));
        assert((project_of(bot_id))(was[i]));
        if forall|k: int| 0 <= k < j ==> (#[trigger] bots[k]).id != Some(bot_id) {
            table::position_at(bots, hit, j);
        }
    }
}

} // verus!
