//! Finding an external tool (yt-dlp, ffmpeg), installing it when it cannot be
//! found. The search is a state machine: each step takes what the system
//! answered to the last request and gives the next request, until the tool is
//! found or the search gives up. The caller carries the requests out.
use vstd::prelude::*;
use crate::text::{concat_text, trim, trimmed, views};

verus! {

/// The system the search runs on, with what it reads from the environment to
/// build the usual install locations.
pub enum Platform {
    /// Windows: `where`, and paths under these directories.
    Windows { user_name: String, local_app_data: String, app_data: String },
    /// Any other system: `which`, and the usual Unix directories.
    Unix,
}

/// What the search is for.
pub struct ToolConfig {
    /// The tool's command name (`yt-dlp`).
    pub name: String,
    /// The environment variable that may hold the tool's path.
    pub env_var: String,
    /// The command that looks a program up (`which` or `where`).
    pub find_command: String,
    /// The usual install locations, in the order they are tried.
    pub candidates: Vec<String>,
    /// The install command tried first (program, then arguments); may be empty.
    pub primary_install: Vec<String>,
    /// The install commands tried if the first fails; empty ones are skipped.
    pub fallback_installs: Vec<Vec<String>>,
}

pub struct ConfigModel {
    pub name: Seq<char>,
    pub env_var: Seq<char>,
    pub find_command: Seq<char>,
    pub candidates: Seq<Seq<char>>,
    pub primary_install: Seq<Seq<char>>,
    pub fallback_installs: Seq<Seq<Seq<char>>>,
}

impl View for ToolConfig {
    type V = ConfigModel;

    open spec fn view(&self) -> ConfigModel {
        ConfigModel {
            name: self.name@,
            env_var: self.env_var@,
            find_command: self.find_command@,
            candidates: views(self.candidates@),
            primary_install: views(self.primary_install@),
            fallback_installs: self.fallback_installs@.map_values(|v: Vec<String>| views(v@)),
        }
    }
}

/// A request the search makes of the system.
pub enum ResolveAction {
    /// Read an environment variable.
    ReadEnv(String),
    /// Tell whether a path exists.
    CheckExists(String),
    /// Run a program with arguments and report whether it succeeded, with its
    /// standard output.
    Run { program: String, args: Vec<String> },
    /// Wait this many milliseconds.
    Sleep(u64),
    /// The search is over: the tool is at this path.
    Found(String),
    /// The search is over: the tool was not found; the message says why.
    Failed(String),
}

/// What the system answered.
pub enum ResolveEvent {
    /// The first step, before any request.
    Begin,
    /// The environment variable's value, if it is set.
    EnvValue(Option<String>),
    /// Whether the path exists.
    Exists(bool),
    /// The program ran: `success` when it could be started and exited with
    /// success; its standard output, as text.
    Ran { success: bool, stdout: String },
    /// The wait is over.
    Slept,
}

pub enum ActionModel {
    ReadEnv(Seq<char>),
    CheckExists(Seq<char>),
    Run(Seq<char>, Seq<Seq<char>>),
    Sleep(nat),
    Found(Seq<char>),
    Failed(Seq<char>),
}

pub enum EventModel {
    Begin,
    EnvValue(Option<Seq<char>>),
    Exists(bool),
    Ran(bool, Seq<char>),
    Slept,
}

impl View for ResolveAction {
    type V = ActionModel;

    open spec fn view(&self) -> ActionModel {
        match self {
            ResolveAction::ReadEnv(v) => ActionModel::ReadEnv(v@),
            ResolveAction::CheckExists(p) => ActionModel::CheckExists(p@),
            ResolveAction::Run { program, args } => ActionModel::Run(program@, views(args@)),
            ResolveAction::Sleep(ms) => ActionModel::Sleep(*ms as nat),
            ResolveAction::Found(p) => ActionModel::Found(p@),
            ResolveAction::Failed(m) => ActionModel::Failed(m@),
        }
    }
}

impl View for ResolveEvent {
    type V = EventModel;

    open spec fn view(&self) -> EventModel {
        match self {
            ResolveEvent::Begin => EventModel::Begin,
            ResolveEvent::EnvValue(v) => EventModel::EnvValue(
                match v {
                    Some(s) => Some(s@),
                    None => None,
                },
            ),
            ResolveEvent::Exists(b) => EventModel::Exists(*b),
            ResolveEvent::Ran { success, stdout } => EventModel::Ran(*success, stdout@),
            ResolveEvent::Slept => EventModel::Slept,
        }
    }
}

/// Where the search stands. `after_install` marks the second look, made after
/// an install command succeeded.
pub enum Phase {
    Start,
    AwaitEnv,
    CheckEnvPath(String),
    AwaitFind { after_install: bool },
    CheckFoundPath { after_install: bool, path: String },
    CheckCandidate { after_install: bool, index: usize },
    AwaitPrimary,
    AwaitFallback { index: usize },
    Sleeping,
    Done(Option<String>),
}

pub enum PhaseModel {
    Start,
    AwaitEnv,
    CheckEnvPath(Seq<char>),
    AwaitFind(bool),
    CheckFoundPath(bool, Seq<char>),
    CheckCandidate(bool, nat),
    AwaitPrimary,
    AwaitFallback(nat),
    Sleeping,
    Done(Option<Seq<char>>),
}

impl View for Phase {
    type V = PhaseModel;

    open spec fn view(&self) -> PhaseModel {
        match self {
            Phase::Start => PhaseModel::Start,
            Phase::AwaitEnv => PhaseModel::AwaitEnv,
            Phase::CheckEnvPath(p) => PhaseModel::CheckEnvPath(p@),
            Phase::AwaitFind { after_install } => PhaseModel::AwaitFind(*after_install),
            Phase::CheckFoundPath { after_install, path } => PhaseModel::CheckFoundPath(
                *after_install,
                path@,
            ),
            Phase::CheckCandidate { after_install, index } => PhaseModel::CheckCandidate(
                *after_install,
                *index as nat,
            ),
            Phase::AwaitPrimary => PhaseModel::AwaitPrimary,
            Phase::AwaitFallback { index } => PhaseModel::AwaitFallback(*index as nat),
            Phase::Sleeping => PhaseModel::Sleeping,
            Phase::Done(p) => PhaseModel::Done(
                match p {
                    Some(s) => Some(s@),
                    None => None,
                },
            ),
        }
    }
}

/// The message given when the tool is neither found nor installed.
pub open spec fn failure_text(name: Seq<char>) -> Seq<char> {
    "未找到 "@ + name + " 且自动安装失败。请手动安装后重试。\n推荐安装方式：\n  - Windows: winget install "@
        + name + " 或 pip install "@ + name
}

/// Running a command given as program then arguments.
pub open spec fn run_of(cmd: Seq<Seq<char>>) -> ActionModel {
    ActionModel::Run(cmd[0], cmd.skip(1))
}

pub open spec fn give_up(c: ConfigModel) -> (PhaseModel, ActionModel) {
    (PhaseModel::Done(None), ActionModel::Failed(failure_text(c.name)))
}

pub open spec fn found(p: Seq<char>) -> (PhaseModel, ActionModel) {
    (PhaseModel::Done(Some(p)), ActionModel::Found(p))
}

/// Ask `where`/`which` for the tool.
pub open spec fn enter_find(c: ConfigModel, after_install: bool) -> (PhaseModel, ActionModel) {
    (PhaseModel::AwaitFind(after_install), ActionModel::Run(c.find_command, seq![c.name]))
}

/// The first fallback install command at or after `j` that is not empty.
pub open spec fn first_runnable_fallback(c: ConfigModel, j: int) -> Option<nat>
    decreases c.fallback_installs.len() - j,
{
    if j < 0 || j >= c.fallback_installs.len() {
        None
    } else if c.fallback_installs[j].len() > 0 {
        Some(j as nat)
    } else {
        first_runnable_fallback(c, j + 1)
    }
}

pub open spec fn enter_fallback(c: ConfigModel, j: int) -> (PhaseModel, ActionModel) {
    match first_runnable_fallback(c, j) {
        Some(k) => (PhaseModel::AwaitFallback(k), run_of(c.fallback_installs[k as int])),
        None => give_up(c),
    }
}

pub open spec fn enter_install(c: ConfigModel) -> (PhaseModel, ActionModel) {
    if c.primary_install.len() > 0 {
        (PhaseModel::AwaitPrimary, run_of(c.primary_install))
    } else {
        enter_fallback(c, 0)
    }
}

/// Try the usual install locations from the `i`-th on; when they are used
/// up, install (first look) or give up (second look).
pub open spec fn enter_candidates(c: ConfigModel, after_install: bool, i: int) -> (
    PhaseModel,
    ActionModel,
) {
    if 0 <= i < c.candidates.len() {
        (PhaseModel::CheckCandidate(after_install, i as nat), ActionModel::CheckExists(c.candidates[i]))
    } else if !after_install {
        enter_install(c)
    } else {
        give_up(c)
    }
}

/// One step of the search: from where it stands and what the system answered
/// to the next place and request. An answer of another kind than the one
/// asked for counts as a negative answer.
pub open spec fn next_step(c: ConfigModel, ph: PhaseModel, e: EventModel) -> (PhaseModel, ActionModel) {
    match ph {
        PhaseModel::Start => (PhaseModel::AwaitEnv, ActionModel::ReadEnv(c.env_var)),
        PhaseModel::AwaitEnv => match e {
            EventModel::EnvValue(Some(p)) => (PhaseModel::CheckEnvPath(p), ActionModel::CheckExists(p)),
            _ => enter_find(c, false),
        },
        PhaseModel::CheckEnvPath(p) => match e {
            EventModel::Exists(true) => found(p),
            _ => enter_find(c, false),
        },
        PhaseModel::AwaitFind(ai) => match e {
            EventModel::Ran(true, out) => if trim(out).len() > 0 {
                (PhaseModel::CheckFoundPath(ai, trim(out)), ActionModel::CheckExists(trim(out)))
            } else {
                enter_candidates(c, ai, 0)
            },
            _ => enter_candidates(c, ai, 0),
        },
        PhaseModel::CheckFoundPath(ai, p) => match e {
            EventModel::Exists(true) => found(p),
            _ => enter_candidates(c, ai, 0),
        },
        PhaseModel::CheckCandidate(ai, i) => match e {
            EventModel::Exists(true) => found(c.candidates[i as int]),
            _ => enter_candidates(c, ai, i + 1int),
        },
        PhaseModel::AwaitPrimary => match e {
            EventModel::Ran(true, _) => (PhaseModel::Sleeping, ActionModel::Sleep(500)),
            _ => enter_fallback(c, 0),
        },
        PhaseModel::AwaitFallback(k) => match e {
            EventModel::Ran(true, _) => (PhaseModel::Sleeping, ActionModel::Sleep(500)),
            _ => enter_fallback(c, k + 1int),
        },
        PhaseModel::Sleeping => enter_find(c, true),
        PhaseModel::Done(p) => (
            PhaseModel::Done(p),
            match p {
                Some(q) => ActionModel::Found(q),
                None => ActionModel::Failed(failure_text(c.name)),
            },
        ),
    }
}

/// The places the search can stand at for configuration `c`.
pub open spec fn phase_ok(c: ConfigModel, ph: PhaseModel) -> bool {
    match ph {
        PhaseModel::CheckCandidate(_, i) => i < c.candidates.len(),
        PhaseModel::AwaitPrimary => c.primary_install.len() > 0,
        PhaseModel::AwaitFallback(k) => k < c.fallback_installs.len()
            && c.fallback_installs[k as int].len() > 0,
        _ => true,
    }
}

proof fn lemma_first_runnable_fallback(c: ConfigModel, j: int)
    requires
        0 <= j,
    ensures
        first_runnable_fallback(c, j) matches Some(k) ==> j <= k < c.fallback_installs.len()
            && c.fallback_installs[k as int].len() > 0,
    decreases c.fallback_installs.len() - j,
{
    if j < c.fallback_installs.len() && c.fallback_installs[j].len() == 0 {
        lemma_first_runnable_fallback(c, j + 1);
    }
}

/// Every step keeps the search at a place that its configuration allows.
pub proof fn lemma_next_step_ok(c: ConfigModel, ph: PhaseModel, e: EventModel)
    requires
        phase_ok(c, ph),
    ensures
        phase_ok(c, next_step(c, ph, e).0),
{
    lemma_first_runnable_fallback(c, 0);
    if let PhaseModel::AwaitFallback(k) = ph {
        lemma_first_runnable_fallback(c, k + 1int);
    }
}


/// The search for one tool.
pub struct ToolResolver {
    config: ToolConfig,
    phase: Phase,
}

pub struct ResolverModel {
    pub config: ConfigModel,
    pub phase: PhaseModel,
}

impl View for ToolResolver {
    type V = ResolverModel;

    closed spec fn view(&self) -> ResolverModel {
        ResolverModel { config: self.config@, phase: self.phase@ }
    }
}

fn copy_strings(v: &Vec<String>, from: usize) -> (r: Vec<String>)
    requires
        from <= v@.len(),
    ensures
        views(r@) == views(v@).skip(from as int),
{
    let mut r: Vec<String> = Vec::new();
    let mut i = from;
    while i < v.len()
        invariant
            from <= i <= v@.len(),
            views(r@) == views(v@).subrange(from as int, i as int),
        decreases v@.len() - i,
    {
        let ghost before = views(r@);
        let s = v[i].clone();
        r.push(s);
        assert(views(r@) =~= before.push(v@[i as int]@));
        assert(views(v@).subrange(from as int, i + 1) =~= views(v@).subrange(from as int, i as int).push(
            v@[i as int]@,
        ));
        i = i + 1;
    }
    assert(views(v@).subrange(from as int, v@.len() as int) =~= views(v@).skip(from as int));
    r
}

fn command_action(cmd: &Vec<String>) -> (a: ResolveAction)
    requires
        cmd@.len() > 0,
    ensures
        a@ == run_of(views(cmd@)),
{
    let program = cmd[0].clone();
    let args = copy_strings(cmd, 1);
    ResolveAction::Run { program, args }
}

/// The message given when `name` is neither found nor installed.
pub fn failure_message(name: &str) -> (r: String)
    ensures
        r@ == failure_text(name@),
{
    let a = concat_text("未找到 ", name);
    let b = concat_text(a.as_str(), " 且自动安装失败。请手动安装后重试。\n推荐安装方式：\n  - Windows: winget install ");
    let c = concat_text(b.as_str(), name);
    let d = concat_text(c.as_str(), " 或 pip install ");
    concat_text(d.as_str(), name)
}

impl ToolConfig {
    fn give_up(&self) -> (r: (Phase, ResolveAction))
        ensures
            (r.0@, r.1@) == give_up(self@),
    {
        (Phase::Done(None), ResolveAction::Failed(failure_message(self.name.as_str())))
    }

    fn enter_find(&self, after_install: bool) -> (r: (Phase, ResolveAction))
        ensures
            (r.0@, r.1@) == enter_find(self@, after_install),
    {
        let program = self.find_command.clone();
        let args = vec![self.name.clone()];
        assert(views(args@) =~= seq![self.name@]);
        (Phase::AwaitFind { after_install }, ResolveAction::Run { program, args })
    }

    fn enter_fallback(&self, j: usize) -> (r: (Phase, ResolveAction))
        ensures
            (r.0@, r.1@) == enter_fallback(self@, j as int),
    {
        let n = self.fallback_installs.len();
        let mut k = j;
        while k < n && self.fallback_installs[k].len() == 0
            invariant
                n == self@.fallback_installs.len(),
                j <= k,
                first_runnable_fallback(self@, j as int) == first_runnable_fallback(self@, k as int),
            decreases n - k,
        {
            assert(self@.fallback_installs[k as int] == views(self.fallback_installs@[k as int]@));
            k = k + 1;
        }
        if k < n {
            assert(self@.fallback_installs[k as int] == views(self.fallback_installs@[k as int]@));
            let a = command_action(&self.fallback_installs[k]);
            (Phase::AwaitFallback { index: k }, a)
        } else {
            self.give_up()
        }
    }

    fn enter_install(&self) -> (r: (Phase, ResolveAction))
        ensures
            (r.0@, r.1@) == enter_install(self@),
    {
        if self.primary_install.len() > 0 {
            (Phase::AwaitPrimary, command_action(&self.primary_install))
        } else {
            self.enter_fallback(0)
        }
    }

    fn enter_candidates(&self, after_install: bool, i: usize) -> (r: (Phase, ResolveAction))
        ensures
            (r.0@, r.1@) == enter_candidates(self@, after_install, i as int),
    {
        if i < self.candidates.len() {
            let p = self.candidates[i].clone();
            assert(self@.candidates[i as int] == self.candidates@[i as int]@);
            (Phase::CheckCandidate { after_install, index: i }, ResolveAction::CheckExists(p))
        } else if !after_install {
            self.enter_install()
        } else {
            self.give_up()
        }
    }
}

impl ToolResolver {
    #[verifier::type_invariant]
    closed spec fn well_placed(self) -> bool {
        phase_ok(self.config@, self.phase@)
    }

    /// A search for the tool that `config` describes, not yet begun.
    pub fn new(config: ToolConfig) -> (r: Self)
        ensures
            r@.config == config@,
            r@.phase == PhaseModel::Start,
    {
        ToolResolver { config, phase: Phase::Start }
    }

    /// What the search is for.
    pub fn config(&self) -> (r: &ToolConfig)
        ensures
            r@ == self@.config,
    {
        &self.config
    }

    /// Takes the system's answer to the last request and gives the next
    /// request, as `next_step` says.
    pub fn next(&mut self, event: ResolveEvent) -> (a: ResolveAction)
        ensures
            final(self)@.config == old(self)@.config,
            (final(self)@.phase, a@) == next_step(old(self)@.config, old(self)@.phase, event@),
    {
        proof {
            use_type_invariant(&*self);
            lemma_next_step_ok(self.config@, self.phase@, event@);
        }
        let c = &self.config;
        let (phase, action) = match &self.phase {
            Phase::Start => (Phase::AwaitEnv, ResolveAction::ReadEnv(c.env_var.clone())),
            Phase::AwaitEnv => match event {
                ResolveEvent::EnvValue(Some(p)) => {
                    let q = p.clone();
                    (Phase::CheckEnvPath(p), ResolveAction::CheckExists(q))
                },
                _ => c.enter_find(false),
            },
            Phase::CheckEnvPath(p) => match event {
                ResolveEvent::Exists(true) => (Phase::Done(Some(p.clone())), ResolveAction::Found(p.clone())),
                _ => c.enter_find(false),
            },
            Phase::AwaitFind { after_install } => match event {
                ResolveEvent::Ran { success: true, stdout } => {
                    let t = trimmed(stdout.as_str());
                    if !t.as_str().is_empty() {
                        let q = t.clone();
                        (
                            Phase::CheckFoundPath { after_install: *after_install, path: t },
                            ResolveAction::CheckExists(q),
                        )
                    } else {
                        c.enter_candidates(*after_install, 0)
                    }
                },
                _ => c.enter_candidates(*after_install, 0),
            },
            Phase::CheckFoundPath { after_install, path } => match event {
                ResolveEvent::Exists(true) => (
                    Phase::Done(Some(path.clone())),
                    ResolveAction::Found(path.clone()),
                ),
                _ => c.enter_candidates(*after_install, 0),
            },
            Phase::CheckCandidate { after_install, index } => match event {
                ResolveEvent::Exists(true) => {
                    let p = c.candidates[*index].clone();
                    let q = c.candidates[*index].clone();
                    assert(c@.candidates[*index as int] == c.candidates@[*index as int]@);
                    (Phase::Done(Some(p)), ResolveAction::Found(q))
                },
                _ => {
                    assert(c@.candidates.len() == c.candidates@.len());
                    let i: usize = *index;
                    assert(i < c.candidates.len());
                    c.enter_candidates(*after_install, i + 1)
                },
            },
            Phase::AwaitPrimary => match event {
                ResolveEvent::Ran { success: true, .. } => (Phase::Sleeping, ResolveAction::Sleep(500)),
                _ => c.enter_fallback(0),
            },
            Phase::AwaitFallback { index } => match event {
                ResolveEvent::Ran { success: true, .. } => (Phase::Sleeping, ResolveAction::Sleep(500)),
                _ => {
                    assert(c@.fallback_installs.len() == c.fallback_installs@.len());
                    let k: usize = *index;
                    assert(k < c.fallback_installs.len());
                    c.enter_fallback(k + 1)
                },
            },
            Phase::Sleeping => c.enter_find(true),
            Phase::Done(p) => match p {
                Some(q) => (Phase::Done(Some(q.clone())), ResolveAction::Found(q.clone())),
                None => c.give_up(),
            },
        };
        self.phase = phase;
        action
    }
}


/// The usual install locations of `name` on `platform`, in the order tried.
pub open spec fn usual_locations(platform: Platform, name: Seq<char>) -> Seq<Seq<char>> {
    match platform {
        Platform::Windows { user_name, local_app_data, app_data } => {
            let exe = name + ".exe"@;
            seq![
                "C:\\ProgramData\\chocolatey\\bin\\"@ + exe,
                "C:\\Users\\"@ + user_name@ + "\\scoop\\shims\\"@ + exe,
                local_app_data@ + "\\Programs\\Python\\Python311\\Scripts\\"@ + exe,
                local_app_data@ + "\\Programs\\Python\\Python310\\Scripts\\"@ + exe,
                local_app_data@ + "\\Python311\\Scripts\\"@ + exe,
                local_app_data@ + "\\Python310\\Scripts\\"@ + exe,
                local_app_data@ + "\\"@ + exe,
                app_data@ + "\\"@ + exe,
                "C:\\ffmpeg\\bin\\"@ + exe,
                "C:\\yt-dlp\\"@ + exe,
            ]
        },
        Platform::Unix => seq![
            "/opt/homebrew/bin/"@ + name,
            "/usr/local/bin/"@ + name,
            "/usr/bin/"@ + name,
            "/home/linuxbrew/.linuxbrew/bin/"@ + name,
        ],
    }
}

/// The command that looks a program up on `platform`.
pub open spec fn find_command_of(platform: Platform) -> Seq<char> {
    match platform {
        Platform::Windows { .. } => "where"@,
        Platform::Unix => "which"@,
    }
}

/// The search for `name` on `platform`: its environment variable, `where` or
/// `which`, the usual locations, then the install commands.
pub open spec fn tool_model(
    platform: Platform,
    name: Seq<char>,
    env_var: Seq<char>,
    primary_install: Seq<Seq<char>>,
    fallback_installs: Seq<Seq<Seq<char>>>,
) -> ConfigModel {
    ConfigModel {
        name,
        env_var,
        find_command: find_command_of(platform),
        candidates: usual_locations(platform, name),
        primary_install,
        fallback_installs,
    }
}

fn join3(a: &str, b: &str, c: &str) -> (r: String)
    ensures
        r@ == a@ + b@ + c@,
{
    let ab = concat_text(a, b);
    concat_text(ab.as_str(), c)
}

fn usual_locations_of(platform: &Platform, name: &str) -> (r: Vec<String>)
    ensures
        views(r@) == usual_locations(*platform, name@),
{
    match platform {
        Platform::Windows { user_name, local_app_data, app_data } => {
            let exe = concat_text(name, ".exe");
            let e = exe.as_str();
            let local = local_app_data.as_str();
            let user_dir = join3("C:\\Users\\", user_name.as_str(), "\\scoop\\shims\\");
            let r = vec![
                concat_text("C:\\ProgramData\\chocolatey\\bin\\", e),
                concat_text(user_dir.as_str(), e),
                join3(local, "\\Programs\\Python\\Python311\\Scripts\\", e),
                join3(local, "\\Programs\\Python\\Python310\\Scripts\\", e),
                join3(local, "\\Python311\\Scripts\\", e),
                join3(local, "\\Python310\\Scripts\\", e),
                join3(local, "\\", e),
                join3(app_data.as_str(), "\\", e),
                concat_text("C:\\ffmpeg\\bin\\", e),
                concat_text("C:\\yt-dlp\\", e),
            ];
            assert(views(r@) =~= usual_locations(*platform, name@));
            r
        },
        Platform::Unix => {
            let r = vec![
                concat_text("/opt/homebrew/bin/", name),
                concat_text("/usr/local/bin/", name),
                concat_text("/usr/bin/", name),
                concat_text("/home/linuxbrew/.linuxbrew/bin/", name),
            ];
            assert(views(r@) =~= usual_locations(*platform, name@));
            r
        },
    }
}

/// What the search for `name` on `platform` looks at and runs.
pub fn tool_config(
    platform: &Platform,
    name: &str,
    env_var: &str,
    primary_install: Vec<String>,
    fallback_installs: Vec<Vec<String>>,
) -> (r: ToolConfig)
    ensures
        r@ == tool_model(
            *platform,
            name@,
            env_var@,
            views(primary_install@),
            fallback_installs@.map_values(|v: Vec<String>| views(v@)),
        ),
{
    let find_command = match platform {
        Platform::Windows { .. } => String::from_str("where"),
        Platform::Unix => String::from_str("which"),
    };
    ToolConfig {
        name: String::from_str(name),
        env_var: String::from_str(env_var),
        find_command,
        candidates: usual_locations_of(platform, name),
        primary_install,
        fallback_installs,
    }
}

/// The search for yt-dlp: `YT_DLP_PATH`, then `where`/`which`, the usual
/// locations, then `pip install yt-dlp`.
pub fn resolve_ytdlp_path(platform: &Platform) -> (r: ToolResolver)
    ensures
        r@.phase == PhaseModel::Start,
        r@.config == tool_model(
            *platform,
            "yt-dlp"@,
            "YT_DLP_PATH"@,
            seq!["pip"@, "install"@, "yt-dlp"@],
            Seq::empty(),
        ),
{
    let primary = vec![
        String::from_str("pip"),
        String::from_str("install"),
        String::from_str("yt-dlp"),
    ];
    let fallbacks: Vec<Vec<String>> = Vec::new();
    let config = tool_config(platform, "yt-dlp", "YT_DLP_PATH", primary, fallbacks);
    assert(config@.primary_install =~= seq!["pip"@, "install"@, "yt-dlp"@]);
    assert(config@.fallback_installs =~= Seq::<Seq<Seq<char>>>::empty());
    ToolResolver::new(config)
}

/// The search for ffmpeg: `FFMPEG_PATH`, then `where`/`which`, the usual
/// locations, then `winget install --id Gyan.FFmpeg ...`, then
/// `choco install ffmpeg -y`.
pub fn resolve_ffmpeg_path(platform: &Platform) -> (r: ToolResolver)
    ensures
        r@.phase == PhaseModel::Start,
        r@.config == tool_model(
            *platform,
            "ffmpeg"@,
            "FFMPEG_PATH"@,
            seq![
                "winget"@,
                "install"@,
                "--id"@,
                "Gyan.FFmpeg"@,
                "-e"@,
                "--silent"@,
                "--accept-source-agreements"@,
                "--accept-package-agreements"@,
            ],
            seq![seq!["choco"@, "install"@, "ffmpeg"@, "-y"@]],
        ),
{
    let primary = vec![
        String::from_str("winget"),
        String::from_str("install"),
        String::from_str("--id"),
        String::from_str("Gyan.FFmpeg"),
        String::from_str("-e"),
        String::from_str("--silent"),
        String::from_str("--accept-source-agreements"),
        String::from_str("--accept-package-agreements"),
    ];
    let choco = vec![
        String::from_str("choco"),
        String::from_str("install"),
        String::from_str("ffmpeg"),
        String::from_str("-y"),
    ];
    let ghost choco_view = views(choco@);
    let fallbacks = vec![choco];
    let config = tool_config(platform, "ffmpeg", "FFMPEG_PATH", primary, fallbacks);
    assert(choco_view =~= seq!["choco"@, "install"@, "ffmpeg"@, "-y"@]);
    assert(config@.primary_install =~= seq![
        "winget"@,
        "install"@,
        "--id"@,
        "Gyan.FFmpeg"@,
        "-e"@,
        "--silent"@,
        "--accept-source-agreements"@,
        "--accept-package-agreements"@,
    ]);
    assert(config@.fallback_installs =~= seq![seq!["choco"@, "install"@, "ffmpeg"@, "-y"@]]);
    ToolResolver::new(config)
}


/// How many steps the search can still take from `ph`, at most.
pub open spec fn steps_left(c: ConfigModel, ph: PhaseModel) -> nat {
    let n = c.candidates.len();
    let f = c.fallback_installs.len();
    match ph {
        PhaseModel::Done(_) => 0,
        PhaseModel::CheckCandidate(true, i) => (n - i) as nat,
        PhaseModel::CheckFoundPath(true, _) => n + 1,
        PhaseModel::AwaitFind(true) => n + 2,
        PhaseModel::Sleeping => n + 3,
        PhaseModel::AwaitFallback(k) => (n + 3 + f - k) as nat,
        PhaseModel::AwaitPrimary => n + 4 + f,
        PhaseModel::CheckCandidate(false, i) => (2 * n + 4 + f - i) as nat,
        PhaseModel::CheckFoundPath(false, _) => 2 * n + 5 + f,
        PhaseModel::AwaitFind(false) => 2 * n + 6 + f,
        PhaseModel::CheckEnvPath(_) => 2 * n + 7 + f,
        PhaseModel::AwaitEnv => 2 * n + 8 + f,
        PhaseModel::Start => 2 * n + 9 + f,
    }
}

/// The stage of the search: the environment variable (5), `where`/`which`
/// (4), the usual locations (3), installing (2), the second look after an
/// install (1), over (0).
pub open spec fn stage(ph: PhaseModel) -> nat {
    match ph {
        PhaseModel::Start | PhaseModel::AwaitEnv | PhaseModel::CheckEnvPath(_) => 5,
        PhaseModel::AwaitFind(false) | PhaseModel::CheckFoundPath(false, _) => 4,
        PhaseModel::CheckCandidate(false, _) => 3,
        PhaseModel::AwaitPrimary | PhaseModel::AwaitFallback(_) => 2,
        PhaseModel::Sleeping | PhaseModel::AwaitFind(true) | PhaseModel::CheckFoundPath(true, _)
        | PhaseModel::CheckCandidate(true, _) => 1,
        PhaseModel::Done(_) => 0,
    }
}

/// The path whose existence the search is waiting to hear about at `ph`.
pub open spec fn path_under_check(c: ConfigModel, ph: PhaseModel) -> Option<Seq<char>> {
    match ph {
        PhaseModel::CheckEnvPath(p) => Some(p),
        PhaseModel::CheckFoundPath(_, p) => Some(p),
        PhaseModel::CheckCandidate(_, i) => Some(c.candidates[i as int]),
        _ => None,
    }
}

/// Every search ends: a step from a place that is not the end leaves fewer
/// steps to take, so a search of `c` makes at most `steps_left(c, Start)`
/// requests before it is over.
pub proof fn law_search_ends(c: ConfigModel, ph: PhaseModel, e: EventModel)
    requires
        phase_ok(c, ph),
        !(ph is Done),
    ensures
        steps_left(c, next_step(c, ph, e).0) < steps_left(c, ph),
{
    lemma_first_runnable_fallback(c, 0);
    if let PhaseModel::AwaitFallback(k) = ph {
        lemma_first_runnable_fallback(c, k + 1int);
    }
}

/// The search keeps the documented order: environment variable, then
/// `where`/`which`, then the usual locations, then installing, then a second
/// look; it never goes back to an earlier stage.
pub proof fn law_search_order(c: ConfigModel, ph: PhaseModel, e: EventModel)
    requires
        phase_ok(c, ph),
    ensures
        stage(next_step(c, ph, e).0) <= stage(ph),
{
}

/// The search reports a path as found only when the system has just said
/// that this very path exists.
pub proof fn law_found_only_when_confirmed(c: ConfigModel, ph: PhaseModel, e: EventModel)
    requires
        !(ph is Done),
        next_step(c, ph, e).1 is Found,
    ensures
        e == EventModel::Exists(true),
        path_under_check(c, ph) == Some(next_step(c, ph, e).1->Found_0),
{
}

/// Once over, the search stays over and repeats its outcome.
pub proof fn law_done_is_final(c: ConfigModel, outcome: Option<Seq<char>>, e: EventModel)
    ensures
        next_step(c, PhaseModel::Done(outcome), e).0 == PhaseModel::Done(outcome),
        next_step(c, PhaseModel::Done(outcome), e).1 == match outcome {
            Some(p) => ActionModel::Found(p),
            None => ActionModel::Failed(failure_text(c.name)),
        },
{
}

/// The second look happens only after an install command succeeded: the
/// search waits before it only when an install command has just reported
/// success.
pub proof fn law_second_look_after_install(c: ConfigModel, ph: PhaseModel, e: EventModel)
    requires
        next_step(c, ph, e).0 is Sleeping,
    ensures
        ph is AwaitPrimary || ph is AwaitFallback,
        e is Ran && e->Ran_0,
{
    lemma_first_runnable_fallback(c, 0);
}

/// An install command runs only once the environment variable, `where`/`which`
/// and every usual location have failed to give the tool.
pub proof fn law_install_only_when_missing(c: ConfigModel, ph: PhaseModel, e: EventModel)
    requires
        phase_ok(c, ph),
        next_step(c, ph, e).0 is AwaitPrimary || next_step(c, ph, e).0 is AwaitFallback,
    ensures
        stage(ph) >= 2,
        stage(ph) == 3 ==> ph->CheckCandidate_1 + 1 == c.candidates.len() && e != EventModel::Exists(
            true,
        ),
        stage(ph) == 4 ==> c.candidates.len() == 0,
{
    lemma_first_runnable_fallback(c, 0);
    if let PhaseModel::AwaitFallback(k) = ph {
        lemma_first_runnable_fallback(c, k + 1int);
    }
}


/// Where a search of `c` that started at `ph` stands after the answers
/// `es[0]`, ..., `es[k - 1]`.
pub open spec fn phase_after(c: ConfigModel, ph: PhaseModel, es: Seq<EventModel>, k: int) -> PhaseModel
    decreases k,
{
    if k <= 0 {
        ph
    } else {
        next_step(c, phase_after(c, ph, es, k - 1), es[k - 1]).0
    }
}

/// The request that the search makes on the answer `es[k]`.
pub open spec fn request_after(c: ConfigModel, ph: PhaseModel, es: Seq<EventModel>, k: int) -> ActionModel {
    next_step(c, phase_after(c, ph, es, k), es[k]).1
}

/// `p` is one of the usual locations, or the system gave it among the
/// answers `es[0..k]` of a run from the start: as the environment variable's
/// value when asked for it, or as the trimmed output of a successful
/// `where`/`which` run.
pub open spec fn came_from_search(c: ConfigModel, es: Seq<EventModel>, k: int, p: Seq<char>) -> bool {
    ||| c.candidates.contains(p)
    ||| exists|j: int|
        0 <= j < k && ((phase_after(c, PhaseModel::Start, es, j) is AwaitEnv && #[trigger] es[j]
            == EventModel::EnvValue(Some(p))) || (phase_after(c, PhaseModel::Start, es, j) is AwaitFind
            && es[j] is Ran && es[j]->Ran_0 && trim(es[j]->Ran_1) == p))
}

/// The answer `es[j]` confirms that the path the search asked about exists.
pub open spec fn confirmed_at(c: ConfigModel, ph: PhaseModel, es: Seq<EventModel>, j: int) -> bool {
    &&& path_under_check(c, phase_after(c, ph, es, j)) is Some
    &&& es[j] == EventModel::Exists(true)
}

proof fn lemma_came_from_grows(c: ConfigModel, es: Seq<EventModel>, k: int, m: int, p: Seq<char>)
    requires
        k <= m,
        came_from_search(c, es, k, p),
    ensures
        came_from_search(c, es, m, p),
{
    if !c.candidates.contains(p) {
        let j = choose|j: int|
            0 <= j < k && ((phase_after(c, PhaseModel::Start, es, j) is AwaitEnv && #[trigger] es[j]
                == EventModel::EnvValue(Some(p))) || (phase_after(c, PhaseModel::Start, es, j) is AwaitFind
                && es[j] is Ran && es[j]->Ran_0 && trim(es[j]->Ran_1) == p));
        assert(0 <= j < m);
    }
}

/// Along a run from the start: the search stays at places its configuration
/// allows, and every path it holds came from the search.
proof fn lemma_run_invariant(c: ConfigModel, es: Seq<EventModel>, k: int)
    requires
        0 <= k <= es.len(),
    ensures
        phase_ok(c, phase_after(c, PhaseModel::Start, es, k)),
        match phase_after(c, PhaseModel::Start, es, k) {
            PhaseModel::CheckEnvPath(p) => came_from_search(c, es, k, p),
            PhaseModel::CheckFoundPath(_, p) => came_from_search(c, es, k, p),
            PhaseModel::Done(Some(p)) => came_from_search(c, es, k, p),
            _ => true,
        },
    decreases k,
{
    if k > 0 {
        lemma_run_invariant(c, es, k - 1);
        let ph = phase_after(c, PhaseModel::Start, es, k - 1);
        let e = es[k - 1];
        lemma_next_step_ok(c, ph, e);
        match ph {
            PhaseModel::CheckEnvPath(p) => {
                lemma_came_from_grows(c, es, k - 1, k, p);
            },
            PhaseModel::CheckFoundPath(_, p) => {
                lemma_came_from_grows(c, es, k - 1, k, p);
            },
            PhaseModel::Done(Some(p)) => {
                lemma_came_from_grows(c, es, k - 1, k, p);
            },
            PhaseModel::CheckCandidate(_, i) => {
                if e == EventModel::Exists(true) {
                    assert(c.candidates.contains(c.candidates[i as int]));
                }
            },
            PhaseModel::AwaitEnv => {
                if let EventModel::EnvValue(Some(p)) = e {
                    assert(es[k - 1] == EventModel::EnvValue(Some(p)));
                }
            },
            PhaseModel::AwaitFind(_) => {
                if e is Ran && e->Ran_0 {
                    assert(es[k - 1] is Ran && es[k - 1]->Ran_0);
                }
            },
            _ => {},
        }
    }
}

/// Over a whole run from the start, a path reported found is one of the
/// usual locations, or the environment variable's value or the trimmed output
/// of `where`/`which` as the system gave them during the run.
pub proof fn law_found_path_origin(c: ConfigModel, es: Seq<EventModel>, k: int)
    requires
        0 <= k < es.len(),
        request_after(c, PhaseModel::Start, es, k) is Found,
    ensures
        came_from_search(c, es, k, request_after(c, PhaseModel::Start, es, k)->Found_0),
{
    lemma_run_invariant(c, es, k);
    let ph = phase_after(c, PhaseModel::Start, es, k);
    if let PhaseModel::CheckCandidate(_, i) = ph {
        assert(c.candidates.contains(c.candidates[i as int]));
    }
}

/// Once the system confirms a path the search asked about, the search is
/// over and reports that path found at every later step.
pub proof fn law_confirmation_is_final(c: ConfigModel, es: Seq<EventModel>, j: int, m: int)
    requires
        0 <= j <= m < es.len(),
        confirmed_at(c, PhaseModel::Start, es, j),
    ensures
        request_after(c, PhaseModel::Start, es, m) is Found,
        phase_after(c, PhaseModel::Start, es, m + 1) is Done,
    decreases m - j,
{
    if m > j {
        law_confirmation_is_final(c, es, j, m - 1);
    }
}

/// A run from the start fails only if the system never confirmed a path it
/// was asked about, and then with the failure message naming the tool.
pub proof fn law_failure_outcome(c: ConfigModel, es: Seq<EventModel>, k: int)
    requires
        0 <= k < es.len(),
        request_after(c, PhaseModel::Start, es, k) is Failed,
    ensures
        request_after(c, PhaseModel::Start, es, k)->Failed_0 == failure_text(c.name),
        forall|j: int| 0 <= j <= k ==> !confirmed_at(c, PhaseModel::Start, es, j),
{
    lemma_first_runnable_fallback(c, 0);
    let ph = phase_after(c, PhaseModel::Start, es, k);
    if let PhaseModel::AwaitFallback(f) = ph {
        lemma_first_runnable_fallback(c, f + 1int);
    }
    assert forall|j: int| 0 <= j <= k implies !confirmed_at(c, PhaseModel::Start, es, j) by {
        if confirmed_at(c, PhaseModel::Start, es, j) {
            law_confirmation_is_final(c, es, j, k);
        }
    }
}


proof fn lemma_done_found_was_confirmed(c: ConfigModel, es: Seq<EventModel>, k: int)
    requires
        0 <= k <= es.len(),
        phase_after(c, PhaseModel::Start, es, k) matches PhaseModel::Done(Some(_)),
    ensures
        exists|j: int| 0 <= j < k && confirmed_at(c, PhaseModel::Start, es, j),
    decreases k,
{
    if k > 0 {
        let ph = phase_after(c, PhaseModel::Start, es, k - 1);
        if ph matches PhaseModel::Done(Some(_)) {
            lemma_done_found_was_confirmed(c, es, k - 1);
            let j = choose|j: int| 0 <= j < k - 1 && confirmed_at(c, PhaseModel::Start, es, j);
            assert(0 <= j < k && confirmed_at(c, PhaseModel::Start, es, j));
        } else {
            assert(confirmed_at(c, PhaseModel::Start, es, k - 1));
        }
    }
}

/// Over a run from the start, once the search is over its outcome is a
/// failure exactly when the system never confirmed a path it asked about; a
/// failure carries the message naming the tool.
pub proof fn law_search_outcome(c: ConfigModel, es: Seq<EventModel>, k: int)
    requires
        0 <= k < es.len(),
        request_after(c, PhaseModel::Start, es, k) is Found || request_after(
            c,
            PhaseModel::Start,
            es,
            k,
        ) is Failed,
    ensures
        request_after(c, PhaseModel::Start, es, k) is Failed <==> forall|j: int|
            0 <= j <= k ==> !confirmed_at(c, PhaseModel::Start, es, j),
        request_after(c, PhaseModel::Start, es, k) matches ActionModel::Failed(m) ==> m
            == failure_text(c.name),
{
    if request_after(c, PhaseModel::Start, es, k) is Failed {
        law_failure_outcome(c, es, k);
    } else {
        let ph = phase_after(c, PhaseModel::Start, es, k);
        lemma_first_runnable_fallback(c, 0);
        if let PhaseModel::AwaitFallback(f) = ph {
            lemma_first_runnable_fallback(c, f + 1int);
        }
        if ph matches PhaseModel::Done(Some(_)) {
            lemma_done_found_was_confirmed(c, es, k);
        } else {
            assert(confirmed_at(c, PhaseModel::Start, es, k));
        }
    }
}


proof fn lemma_same_frame_distinct(l: Seq<char>, a: Seq<char>, b: Seq<char>, e: Seq<char>, k: int)
    requires
        a.len() != b.len() || (0 <= k < a.len() && a.len() == b.len() && a[k] != b[k]),
    ensures
        l + a + e != l + b + e,
{
    if l + a + e == l + b + e {
        assert((l + a + e).len() == (l + b + e).len());
        assert((l + a + e)[l.len() + k] == a[k]);
        assert((l + b + e)[l.len() + k] == b[k]);
    }
}

/// On Windows the five usual locations under the local application data
/// directory (the Python 3.11 and 3.10 script directories, the Python 3.11
/// and 3.10 installs, and the directory itself) are five different paths,
/// the Python 3.10 scripts directory among them; every usual location is the
/// tool's `.exe`.
pub proof fn law_windows_locations(user_name: String, local_app_data: String, app_data: String, name: Seq<char>)
    ensures
        ({
            let ls = usual_locations(
                Platform::Windows { user_name, local_app_data, app_data },
                name,
            );
            let exe = name + ".exe"@;
            &&& ls.len() == 10
            &&& forall|i: int, j: int| 2 <= i < j <= 6 ==> ls[i] != ls[j]
            &&& ls.contains(local_app_data@ + "\\Programs\\Python\\Python310\\Scripts\\"@ + exe)
            &&& ls.contains(local_app_data@ + "\\Programs\\Python\\Python311\\Scripts\\"@ + exe)
            &&& forall|i: int|
                0 <= i < 10 ==> #[trigger] ls[i].subrange(ls[i].len() - exe.len(), ls[i].len() as int)
                    == exe
        }),
{
    let l = local_app_data@;
    let exe = name + ".exe"@;
    let ls = usual_locations(Platform::Windows { user_name, local_app_data, app_data }, name);
    let p311 = "\\Programs\\Python\\Python311\\Scripts\\"@;
    let p310 = "\\Programs\\Python\\Python310\\Scripts\\"@;
    let s311 = "\\Python311\\Scripts\\"@;
    let s310 = "\\Python310\\Scripts\\"@;
    let bs = "\\"@;
    reveal_strlit("\\Programs\\Python\\Python311\\Scripts\\");
    reveal_strlit("\\Programs\\Python\\Python310\\Scripts\\");
    reveal_strlit("\\Python311\\Scripts\\");
    reveal_strlit("\\Python310\\Scripts\\");
    reveal_strlit("\\");
    assert(p311.len() == 35 && p310.len() == 35 && s311.len() == 19 && s310.len() == 19
        && bs.len() == 1);
    assert(p311[25] == '1' && p310[25] == '0');
    assert(s311[9] == '1' && s310[9] == '0');
    let parts = seq![p311, p310, s311, s310, bs];
    assert forall|i: int, j: int| 2 <= i < j <= 6 implies ls[i] != ls[j] by {
        assert(ls[i] == l + parts[i - 2] + exe);
        assert(ls[j] == l + parts[j - 2] + exe);
        if i == 2 && j == 3 {
            lemma_same_frame_distinct(l, p311, p310, exe, 25);
        } else if i == 4 && j == 5 {
            lemma_same_frame_distinct(l, s311, s310, exe, 9);
        } else {
            lemma_same_frame_distinct(l, parts[i - 2], parts[j - 2], exe, 0);
        }
    }
    assert(ls[3] == l + p310 + exe);
    assert(ls[2] == l + p311 + exe);
    assert forall|i: int|
        0 <= i < 10 implies #[trigger] ls[i].subrange(ls[i].len() - exe.len(), ls[i].len() as int)
        == exe by {
        let pre = ls[i].take(ls[i].len() - exe.len());
        assert(ls[i] =~= pre + exe) by {
            assert(exists|q: Seq<char>| ls[i] == q + exe) by {
                if i == 0 { assert(ls[i] == "C:\\ProgramData\\chocolatey\\bin\\"@ + exe); }
                else if i == 1 { assert(ls[i] == ("C:\\Users\\"@ + user_name@ + "\\scoop\\shims\\"@) + exe); }
                else if i == 2 { assert(ls[i] == (l + p311) + exe); }
                else if i == 3 { assert(ls[i] == (l + p310) + exe); }
                else if i == 4 { assert(ls[i] == (l + s311) + exe); }
                else if i == 5 { assert(ls[i] == (l + s310) + exe); }
                else if i == 6 { assert(ls[i] == (l + bs) + exe); }
                else if i == 7 { assert(ls[i] == (app_data@ + bs) + exe); }
                else if i == 8 { assert(ls[i] == "C:\\ffmpeg\\bin\\"@ + exe); }
                else { assert(ls[i] == "C:\\yt-dlp\\"@ + exe); }
            }
            let q = choose|q: Seq<char>| ls[i] == q + exe;
            assert(pre =~= q);
        }
        assert(ls[i].subrange(ls[i].len() - exe.len(), ls[i].len() as int) =~= exe);
    }
}

/// On Unix the four usual locations are four different paths, each ending in
/// `/` and the tool's name.
pub proof fn law_unix_locations(name: Seq<char>)
    ensures
        ({
            let ls = usual_locations(Platform::Unix, name);
            &&& ls.len() == 4
            &&& forall|i: int, j: int| 0 <= i < j < 4 ==> ls[i] != ls[j]
            &&& forall|i: int|
                0 <= i < 4 ==> #[trigger] ls[i].subrange(ls[i].len() - name.len() - 1, ls[i].len() as int)
                    == seq!['/'] + name
        }),
{
    reveal_strlit("/opt/homebrew/bin/");
    reveal_strlit("/usr/local/bin/");
    reveal_strlit("/usr/bin/");
    reveal_strlit("/home/linuxbrew/.linuxbrew/bin/");
    let ls = usual_locations(Platform::Unix, name);
    let ps = seq!["/opt/homebrew/bin/"@, "/usr/local/bin/"@, "/usr/bin/"@, "/home/linuxbrew/.linuxbrew/bin/"@];
    assert(ps[0].len() == 18 && ps[1].len() == 15 && ps[2].len() == 9 && ps[3].len() == 31);
    assert(ps[0].last() == '/' && ps[1].last() == '/' && ps[2].last() == '/' && ps[3].last() == '/');
    assert forall|i: int| 0 <= i < 4 implies ls[i] == ps[i] + name by {}
    assert forall|i: int, j: int| 0 <= i < j < 4 implies ls[i] != ls[j] by {
        assert(ls[i].len() != ls[j].len());
    }
    assert forall|i: int|
        0 <= i < 4 implies #[trigger] ls[i].subrange(ls[i].len() - name.len() - 1, ls[i].len() as int)
        == seq!['/'] + name by {
        let p = ps[i];
        assert(ls[i] == p + name);
        assert(ls[i].subrange(ls[i].len() - name.len() - 1, ls[i].len() as int) =~= seq![p.last()]
            + name);
    }
}

} // verus!
