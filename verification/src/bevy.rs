//! Bevy game projects: how ready the machine and the chosen project are,
//! the panel's job state machine, and the files a new project and the
//! agent skill are made of. Running cargo and reading the disk is the
//! caller's part; it hands the results in as plain values.
use vstd::prelude::*;

use crate::plugins::{
    host_is_windows, joined3, sep_joined3, plain_base, law_push_log_bounded, path_join3, push_log, spec_push_log, PluginPrefs,
};
use crate::split::{signed_decimal, spec_signed_decimal};
use crate::text::{
    chars_of, contains_str, extend_chars, extend_vec, owned, replace_char, spec_contains,
    spec_replace_char, string_of, str_eq,
};
use crate::timeline::{lemma_strings_view, opt_view, strings_view};

verus! {

broadcast use lemma_strings_view;

/// The engine fork a new project depends on.
pub const ENGINE_GIT_URL: &'static str = "https://github.com/phuhao000/bevy.git";

/// The branch of the fork that is followed (not a pinned revision).
pub const ENGINE_GIT_BRANCH: &'static str = "main";

/// How many log lines the panel keeps.
pub const LOG_TAIL_MAX: usize = 200;

/// The fixed text of the skill file, around the project path and the engine URL.
pub const SKILL_MD_0: &'static str = "---\nname: bevy-game-dev\ndescription: Use when the user asks to create, extend, or debug a Bevy (Rust ECS) game — 2D/3D scenes, gameplay systems, physics, input, or anything driven by the `bevy` crate. Do NOT use for Unity or OpenMontage tasks.\n---\n\n# Bevy Game Engine (via Bony Build)\n\nActive game project: `";
pub const SKILL_MD_1: &'static str = "`\n\nThis project depends on a Bevy engine fork tracked at the `main` branch (not a pinned release): `";
pub const SKILL_MD_2: &'static str = "`. It is not pinned so that engine-level patches can land there later — if the user asks you to modify engine internals rather than game code, that means editing the fork itself (clone it separately, switch this project's dependency to a local `path` override while iterating).\n\nBecause `main` moves fast, published Bevy docs/tutorials can be stale or wrong for this exact checkout. Before writing non-trivial ECS code:\n1. Check the actual fetched source for current API shapes — look under `~/.cargo/git/checkouts/bevy-*/` (Windows: `%USERPROFILE%\\.cargo\\git\\checkouts\\bevy-*\\`), or run `cargo doc -p bevy --open` from the project root.\n2. Prefer `cargo check` after each edit — much faster than `cargo run` and catches API drift immediately.\n\nWorkflow:\n1. Edit ECS code directly (Components, Systems, Resources, Plugins, Schedules) under `";
pub const SKILL_MD_3: &'static str = "/src/`.\n2. Run `cargo check` to validate quickly; run `cargo run` to see the actual game window.\n3. The first build after a fresh clone or dependency bump can take several minutes (Bevy's dependency graph is large) — say so up front and avoid re-running `cargo run` while a build is already in flight.\n4. To stop a running game window, use Bony Build's Bevy panel Stop button (kills the `cargo run` child) rather than leaving orphaned processes.\n";

/// The fixed text of a new project's `Cargo.toml`, around its name and the engine source.
pub const CARGO_TOML_0: &'static str = "[package]\nname = \"";
pub const CARGO_TOML_1: &'static str = "\"\nversion = \"0.1.0\"\nedition = \"2021\"\n\n[dependencies]\nbevy = { git = \"";
pub const CARGO_TOML_2: &'static str = "\", branch = \"";
pub const CARGO_TOML_3: &'static str = "\" }\n\n# Bevy's recommended dev-profile tweak: keep our own crate unoptimized for\n# fast iterative compiles, but optimize dependencies (this matters a lot for\n# a large engine dependency graph).\n[profile.dev]\nopt-level = 1\n\n[profile.dev.package.\"*\"]\nopt-level = 3\n";

/// The `src/main.rs` of a new project: it only opens a window.
pub const MAIN_RS: &'static str = "use bevy::prelude::*;\n\n// Deliberately minimal: this fork tracks Bevy's `main` branch, whose APIs\n// move fast. Confirm current API shapes (see the SKILL.md notes on checking\n// the fetched git checkout / `cargo doc`) before building on top of this.\nfn main() {\n    App::new()\n        .add_plugins(DefaultPlugins)\n        .add_systems(Startup, setup)\n        .run();\n}\n\nfn setup(mut commands: Commands) {\n    commands.spawn(Camera2d);\n}\n";

/// Readiness of the Bevy panel.
#[derive(Debug, Clone, Copy, PartialEq, Eq, Structural)]
pub enum BevyStatus {
    Unknown,
    NoRust,
    NoProject,
    Ready,
    Error,
}

/// The text shown for a status.
pub open spec fn status_label(s: BevyStatus) -> Seq<char> {
    match s {
        BevyStatus::Unknown => "检测中"@,
        BevyStatus::NoRust => "未安装 Rust"@,
        BevyStatus::NoProject => "未选择 Bevy 项目"@,
        BevyStatus::Ready => "已就绪"@,
        BevyStatus::Error => "异常"@,
    }
}

impl BevyStatus {
    pub fn is_ready(self) -> (r: bool)
        ensures
            r == (self == BevyStatus::Ready),
    {
        match self {
            BevyStatus::Ready => true,
            _ => false,
        }
    }

    pub fn label(self) -> (r: &'static str)
        ensures
            r@ == status_label(self),
    {
        match self {
            BevyStatus::Unknown => "检测中",
            BevyStatus::NoRust => "未安装 Rust",
            BevyStatus::NoProject => "未选择 Bevy 项目",
            BevyStatus::Ready => "已就绪",
            BevyStatus::Error => "异常",
        }
    }
}

/// What reading the project's `Cargo.toml` gave.
#[derive(Debug)]
pub enum CargoManifest {
    /// There is no such file.
    Missing,
    /// The file is there but could not be read as text.
    Unreadable,
    Text(String),
}

/// What the machine and the project directory look like: whether
/// `cargo --version` and `rustc --version` succeed, and the manifest.
#[derive(Debug)]
pub struct BevyProbe {
    pub cargo_ok: bool,
    pub rustc_ok: bool,
    pub manifest: CargoManifest,
}

/// The status a probe shows: no toolchain, no project, a project whose
/// manifest names bevy, or a manifest that could not be read.
pub open spec fn spec_check_status(p: BevyProbe) -> BevyStatus {
    if !p.cargo_ok || !p.rustc_ok {
        BevyStatus::NoRust
    } else {
        match p.manifest {
            CargoManifest::Missing => BevyStatus::NoProject,
            CargoManifest::Unreadable => BevyStatus::Error,
            CargoManifest::Text(t) => if spec_contains(t@, "bevy"@) {
                BevyStatus::Ready
            } else {
                BevyStatus::NoProject
            },
        }
    }
}

pub fn check_status(probe: &BevyProbe) -> (r: BevyStatus)
    ensures
        r == spec_check_status(*probe),
{
    if !probe.cargo_ok || !probe.rustc_ok {
        return BevyStatus::NoRust;
    }
    match &probe.manifest {
        CargoManifest::Missing => BevyStatus::NoProject,
        CargoManifest::Unreadable => BevyStatus::Error,
        CargoManifest::Text(t) => {
            if contains_str(&chars_of(t.as_str()), "bevy") {
                BevyStatus::Ready
            } else {
                BevyStatus::NoProject
            }
        },
    }
}

// ───────────────────────── project and skill files ─────────────────────────

/// A path as written into the skill file: backslashes turned into slashes.
pub open spec fn display_path(p: Seq<char>) -> Seq<char> {
    spec_replace_char(p, '\\', '/')
}

pub open spec fn spec_skill_md(project: Seq<char>) -> Seq<char> {
    SKILL_MD_0@ + display_path(project) + SKILL_MD_1@ + ENGINE_GIT_URL@ + SKILL_MD_2@
        + display_path(project) + SKILL_MD_3@
}

/// The agent skill that describes the active game project.
pub fn skill_md(project: &str) -> (r: String)
    ensures
        r@ == spec_skill_md(project@),
{
    let disp = replace_char(&chars_of(project), '\\', '/');
    let mut v: Vec<char> = Vec::new();
    extend_chars(&mut v, SKILL_MD_0);
    extend_vec(&mut v, &disp);
    extend_chars(&mut v, SKILL_MD_1);
    extend_chars(&mut v, ENGINE_GIT_URL);
    extend_chars(&mut v, SKILL_MD_2);
    extend_vec(&mut v, &disp);
    extend_chars(&mut v, SKILL_MD_3);
    string_of(&v)
}

pub open spec fn spec_cargo_toml(name: Seq<char>) -> Seq<char> {
    CARGO_TOML_0@ + name + CARGO_TOML_1@ + ENGINE_GIT_URL@ + CARGO_TOML_2@ + ENGINE_GIT_BRANCH@
        + CARGO_TOML_3@
}

/// The manifest of a new project: the engine fork as a git dependency that
/// follows a branch, and optimised dependencies in dev builds.
pub fn cargo_toml_template(name: &str) -> (r: String)
    ensures
        r@ == spec_cargo_toml(name@),
{
    let mut v: Vec<char> = Vec::new();
    extend_chars(&mut v, CARGO_TOML_0);
    extend_chars(&mut v, name);
    extend_chars(&mut v, CARGO_TOML_1);
    extend_chars(&mut v, ENGINE_GIT_URL);
    extend_chars(&mut v, CARGO_TOML_2);
    extend_chars(&mut v, ENGINE_GIT_BRANCH);
    extend_chars(&mut v, CARGO_TOML_3);
    string_of(&v)
}

/// The `src/main.rs` of a new project.
pub fn main_rs_template() -> (r: &'static str)
    ensures
        r@ == MAIN_RS@,
{
    MAIN_RS
}

/// Where the skill file lives under the per-user data directory:
/// `<dir>/skills/bevy-game-dev/SKILL.md`.
pub fn skill_path(usage_dir: &str) -> (r: String)
    ensures
        joined3(usage_dir@, "skills"@, "bevy-game-dev"@, "SKILL.md"@, r@),
        plain_base(usage_dir@) ==> sep_joined3(usage_dir@, "skills"@, "bevy-game-dev"@, "SKILL.md"@, r@),
{
    proof {
        reveal_strlit("skills");
        reveal_strlit("bevy-game-dev");
        reveal_strlit("SKILL.md");
    }
    path_join3(usage_dir, "skills", "bevy-game-dev", "SKILL.md")
}

/// Turn the skill on once its file is written and the agent config lists
/// it (`written` is how that went): the preferences remember the project.
/// A failure is handed back and the preferences stay as they were.
pub fn enable_skill(prefs: &mut PluginPrefs, project: &str, written: Result<(), String>) -> (r:
    Result<(), String>)
    ensures
        r == written,
        written is Ok ==> final(prefs).bevy_enabled && opt_view(final(prefs).bevy_project_root)
            == Some(project@) && final(prefs).openmontage_enabled == old(prefs).openmontage_enabled
            && final(prefs).openmontage_root == old(prefs).openmontage_root,
        written is Err ==> *final(prefs) == *old(prefs),
{
    if written.is_err() {
        return written;
    }
    prefs.bevy_enabled = true;
    prefs.bevy_project_root = Some(owned(project));
    written
}

/// Remember the project once the panel finds it ready: when the status is
/// `Ready` and the preferences name another project (or none), they take
/// `project`; the answer says whether they changed and are to be saved.
pub fn remember_ready_project(prefs: &mut PluginPrefs, status: BevyStatus, project: &str) -> (r: bool)
    ensures
        r == (status == BevyStatus::Ready && opt_view(old(prefs).bevy_project_root) != Some(project@)),
        r ==> opt_view(final(prefs).bevy_project_root) == Some(project@) && final(prefs).bevy_enabled
            == old(prefs).bevy_enabled && final(prefs).openmontage_enabled == old(prefs).openmontage_enabled
            && final(prefs).openmontage_root == old(prefs).openmontage_root,
        !r ==> *final(prefs) == *old(prefs),
{
    let ready = match status {
        BevyStatus::Ready => true,
        _ => false,
    };
    if !ready {
        return false;
    }
    let same = match &prefs.bevy_project_root {
        Some(p) => str_eq(p.as_str(), project),
        None => false,
    };
    if same {
        return false;
    }
    prefs.bevy_project_root = Some(owned(project));
    true
}

/// Turn the skill off once the agent config no longer lists it (`synced` is
/// how that went). The remembered project stays.
pub fn disable_skill(prefs: &mut PluginPrefs, synced: Result<(), String>) -> (r: Result<(), String>)
    ensures
        r == synced,
        synced is Ok ==> *final(prefs) == (PluginPrefs { bevy_enabled: false, ..*old(prefs) }),
        synced is Err ==> *final(prefs) == *old(prefs),
{
    if synced.is_err() {
        return synced;
    }
    prefs.bevy_enabled = false;
    synced
}

/// The log line that ends a job whose process failed: its exit code (`-1`
/// when it had none) and the last line it wrote to stderr, if any.
pub open spec fn spec_exit_message(code: Option<i32>, err_tail: Seq<char>) -> Seq<char> {
    let n: int = match code {
        Some(c) => c as int,
        None => -1,
    };
    "退出码 "@ + spec_signed_decimal(n) + if err_tail.len() == 0 {
        Seq::<char>::empty()
    } else {
        "："@ + err_tail
    }
}

pub fn exit_message(code: Option<i32>, err_tail: &str) -> (r: String)
    ensures
        r@ == spec_exit_message(code, err_tail@),
{
    let n: i32 = match code {
        Some(c) => c,
        None => -1,
    };
    let mut v: Vec<char> = Vec::new();
    extend_chars(&mut v, "退出码 ");
    let d = signed_decimal(n);
    extend_chars(&mut v, d.as_str());
    let tail = chars_of(err_tail);
    if tail.len() > 0 {
        extend_chars(&mut v, "：");
        extend_vec(&mut v, &tail);
    }
    proof {
        if tail.len() == 0 {
            assert(v@ =~= spec_exit_message(code, err_tail@));
        }
    }
    string_of(&v)
}

// ───────────────────────── the panel's state machine ─────────────────────────

/// A reply from the background job: a log line, or how the job ended.
#[derive(Debug)]
pub enum BevyMsg {
    Line(String),
    ScaffoldDone { path: String },
    ScaffoldFailed(String),
    JobDone { ok: bool, message: String },
    RustInstallDone { ok: bool, message: String },
}

pub enum BevyMsgView {
    Line(Seq<char>),
    ScaffoldDone(Seq<char>),
    ScaffoldFailed(Seq<char>),
    JobDone(bool, Seq<char>),
    RustInstallDone(bool, Seq<char>),
}

impl View for BevyMsg {
    type V = BevyMsgView;

    open spec fn view(&self) -> BevyMsgView {
        match self {
            BevyMsg::Line(l) => BevyMsgView::Line(l@),
            BevyMsg::ScaffoldDone { path } => BevyMsgView::ScaffoldDone(path@),
            BevyMsg::ScaffoldFailed(r) => BevyMsgView::ScaffoldFailed(r@),
            BevyMsg::JobDone { ok, message } => BevyMsgView::JobDone(*ok, message@),
            BevyMsg::RustInstallDone { ok, message } => BevyMsgView::RustInstallDone(*ok, message@),
        }
    }
}

/// The replies of a batch, each with the id of the job that sent it.
pub open spec fn batch_view(b: Seq<(u64, BevyMsg)>) -> Seq<(u64, BevyMsgView)> {
    Seq::new(b.len(), |i: int| (b[i].0, b[i].1@))
}

/// A background job to start: its id, by which its replies are told from
/// those of the jobs it supersedes, and whether the job running before it
/// is to be asked to stop.
#[derive(Debug, Clone, Copy, PartialEq, Eq, Structural)]
pub struct JobStart {
    pub id: u64,
    pub cancel_previous: bool,
}

/// What a poll did: whether any reply of the current job came in, and
/// whether the project's status must now be read again (the caller probes
/// the project and hands the probe to `read_status`).
#[derive(Debug, Clone, Copy, PartialEq, Eq, Structural)]
pub struct BevyPolled {
    pub changed: bool,
    pub read_status: bool,
}

/// The cargo commands the panel runs in the project.
#[derive(Debug, Clone, Copy, PartialEq, Eq, Structural)]
pub enum CargoCommand {
    Check,
    Build,
    Run,
}

pub open spec fn cargo_label(c: CargoCommand) -> Seq<char> {
    match c {
        CargoCommand::Check => "cargo check"@,
        CargoCommand::Build => "cargo build"@,
        CargoCommand::Run => "cargo run"@,
    }
}

impl CargoCommand {
    /// The cargo subcommand.
    pub fn arg(self) -> (r: &'static str)
        ensures
            r@ == (match self {
                CargoCommand::Check => "check"@,
                CargoCommand::Build => "build"@,
                CargoCommand::Run => "run"@,
            }),
    {
        match self {
            CargoCommand::Check => "check",
            CargoCommand::Build => "build",
            CargoCommand::Run => "run",
        }
    }

    /// How the command is named in messages.
    pub fn label(self) -> (r: &'static str)
        ensures
            r@ == cargo_label(self),
    {
        match self {
            CargoCommand::Check => "cargo check",
            CargoCommand::Build => "cargo build",
            CargoCommand::Run => "cargo run",
        }
    }
}

/// The log line of a cargo command that succeeded.
pub fn cargo_done_message(c: CargoCommand) -> (r: String)
    ensures
        r@ == cargo_label(c) + " 完成"@,
{
    let mut v = chars_of(c.label());
    extend_chars(&mut v, " 完成");
    string_of(&v)
}

/// The Bevy panel.
pub struct BevyState {
    pub status: BevyStatus,
    pub project_path: String,
    pub busy: bool,
    /// True while a `cargo run` child (the game window) is alive.
    pub running: bool,
    pub log_tail: Vec<String>,
    pub last_error: Option<String>,
    pub toast: Option<String>,
    checked: bool,
    job_seq: u64,
    /// The current job has a cancel flag the caller can raise.
    cancel_armed: bool,
    /// Replies of the current job are still expected.
    pending: bool,
}

pub struct BevyView {
    pub status: BevyStatus,
    pub project_path: Seq<char>,
    pub busy: bool,
    pub running: bool,
    pub log_tail: Seq<Seq<char>>,
    pub last_error: Option<Seq<char>>,
    pub toast: Option<Seq<char>>,
    pub checked: bool,
    pub job_seq: u64,
    pub cancel_armed: bool,
    pub pending: bool,
}

impl View for BevyState {
    type V = BevyView;

    closed spec fn view(&self) -> BevyView {
        BevyView {
            status: self.status,
            project_path: self.project_path@,
            busy: self.busy,
            running: self.running,
            log_tail: strings_view(self.log_tail@),
            last_error: opt_view(self.last_error),
            toast: opt_view(self.toast),
            checked: self.checked,
            job_seq: self.job_seq,
            cancel_armed: self.cancel_armed,
            pending: self.pending,
        }
    }
}

/// How a reply leaves the status: untouched, to be read again from the
/// project, or set outright.
pub enum StatusWrite {
    Untouched,
    Read,
    Assigned,
}

/// What one reply of the current job does to the panel.
pub open spec fn spec_reply(v: BevyView, m: BevyMsgView) -> (BevyView, StatusWrite) {
    let max = LOG_TAIL_MAX as nat;
    match m {
        BevyMsgView::Line(l) => (BevyView { log_tail: spec_push_log(v.log_tail, l, max), ..v }, StatusWrite::Untouched),
        BevyMsgView::ScaffoldDone(p) => (
            BevyView { busy: false, project_path: p, toast: Some("Bevy 项目已创建"@), ..v },
            StatusWrite::Read,
        ),
        BevyMsgView::ScaffoldFailed(reason) => (
            BevyView {
                busy: false,
                last_error: Some(reason),
                log_tail: spec_push_log(v.log_tail, reason, max),
                toast: Some("创建 Bevy 项目失败"@),
                ..v
            },
            StatusWrite::Untouched,
        ),
        BevyMsgView::JobDone(ok, msg) => (
            BevyView {
                busy: false,
                running: false,
                log_tail: if msg.len() == 0 { v.log_tail } else { spec_push_log(v.log_tail, msg, max) },
                last_error: if ok { None } else { Some(msg) },
                toast: Some(if ok { "完成"@ } else { "执行失败（详见日志）"@ }),
                ..v
            },
            StatusWrite::Read,
        ),
        BevyMsgView::RustInstallDone(ok, msg) => if ok {
            (
                BevyView {
                    busy: false,
                    log_tail: spec_push_log(v.log_tail, msg, max),
                    toast: Some("Rust 安装完成，正在重新检测…"@),
                    status: BevyStatus::Unknown,
                    checked: true,
                    ..v
                },
                StatusWrite::Read,
            )
        } else {
            (
                BevyView {
                    busy: false,
                    log_tail: spec_push_log(v.log_tail, msg, max),
                    status: BevyStatus::NoRust,
                    last_error: Some(msg),
                    toast: Some("Rust 安装失败"@),
                    ..v
                },
                StatusWrite::Assigned,
            )
        },
    }
}

/// The replies of a batch taken in order, those of superseded jobs skipped:
/// the panel after them, whether the status must be read again, and
/// whether any reply was taken.
pub open spec fn spec_replies(v: BevyView, batch: Seq<(u64, BevyMsgView)>) -> (BevyView, bool, bool)
    decreases batch.len(),
{
    if batch.len() == 0 {
        (v, false, false)
    } else {
        let prev = spec_replies(v, batch.drop_last());
        let e = batch.last();
        if e.0 == v.job_seq {
            let (w, write) = spec_reply(prev.0, e.1);
            let read = match write {
                StatusWrite::Untouched => prev.1,
                StatusWrite::Read => true,
                StatusWrite::Assigned => false,
            };
            (w, read, true)
        } else {
            prev
        }
    }
}

/// A poll: nothing happens unless replies are expected and one of the
/// current job came in; the reply channel closes once the panel is idle.
pub open spec fn spec_poll(v: BevyView, batch: Seq<(u64, BevyMsgView)>) -> (BevyView, BevyPolled) {
    let (w, read, any) = spec_replies(v, batch);
    if !v.pending || !any {
        (v, BevyPolled { changed: false, read_status: false })
    } else {
        (
            BevyView { pending: if w.busy { w.pending } else { false }, ..w },
            BevyPolled { changed: true, read_status: read },
        )
    }
}

proof fn lemma_replies_keep_job(v: BevyView, batch: Seq<(u64, BevyMsgView)>)
    ensures
        spec_replies(v, batch).0.job_seq == v.job_seq,
        spec_replies(v, batch).0.pending == v.pending,
        spec_replies(v, batch).0.cancel_armed == v.cancel_armed,
    decreases batch.len(),
{
    if batch.len() > 0 {
        lemma_replies_keep_job(v, batch.drop_last());
    }
}

impl BevyState {
    /// A panel for `project_path` whose status has not been read yet.
    pub fn new(project_path: String) -> (r: Self)
        ensures
            r@ == (BevyView {
                status: BevyStatus::Unknown,
                project_path: project_path@,
                busy: false,
                running: false,
                log_tail: Seq::empty(),
                last_error: None,
                toast: None,
                checked: false,
                job_seq: 0,
                cancel_armed: false,
                pending: false,
            }),
    {
        let r = BevyState {
            status: BevyStatus::Unknown,
            project_path,
            busy: false,
            running: false,
            log_tail: Vec::new(),
            last_error: None,
            toast: None,
            checked: false,
            job_seq: 0,
            cancel_armed: false,
            pending: false,
        };
        assert(strings_view(r.log_tail@) =~= Seq::<Seq<char>>::empty());
        r
    }

    /// The panel for the saved preferences: their project, else
    /// `default_dir`, with the status read from `probe` (a probe of that
    /// directory).
    pub fn from_prefs(prefs: &PluginPrefs, default_dir: String, probe: &BevyProbe) -> (r: Self)
        ensures
            r@ == (BevyView {
                status: spec_check_status(*probe),
                project_path: match prefs.bevy_project_root {
                    Some(p) => p@,
                    None => default_dir@,
                },
                busy: false,
                running: false,
                log_tail: Seq::empty(),
                last_error: None,
                toast: None,
                checked: true,
                job_seq: 0,
                cancel_armed: false,
                pending: false,
            }),
    {
        let path = match &prefs.bevy_project_root {
            Some(p) => p.clone(),
            None => default_dir,
        };
        let mut state = Self::new(path);
        state.refresh_status(probe);
        state
    }

    /// Whether the status is still to be read (and nothing is running).
    pub fn needs_check(&self) -> (r: bool)
        ensures
            r == (!self@.checked && !self@.busy),
    {
        !self.checked && !self.busy
    }

    /// Read the status once, from `probe` (a probe of the project), unless
    /// it was read already or a job is running.
    pub fn ensure_checked(&mut self, probe: &BevyProbe)
        ensures
            final(self)@ == (if !old(self)@.checked && !old(self)@.busy {
                BevyView { status: spec_check_status(*probe), checked: true, ..old(self)@ }
            } else {
                old(self)@
            }),
    {
        if !self.checked && !self.busy {
            self.refresh_status(probe);
        }
    }

    /// Read the status from `probe` (a probe of the project), unless a job
    /// is running.
    pub fn refresh_status(&mut self, probe: &BevyProbe)
        ensures
            final(self)@ == (if old(self)@.busy {
                old(self)@
            } else {
                BevyView { status: spec_check_status(*probe), checked: true, ..old(self)@ }
            }),
    {
        if self.busy {
            return;
        }
        self.status = check_status(probe);
        self.checked = true;
    }

    /// Choose another project; its status is read from `probe` unless a job
    /// is running.
    pub fn set_project_path(&mut self, path: String, probe: &BevyProbe)
        ensures
            final(self)@ == (if old(self)@.busy {
                BevyView { project_path: path@, ..old(self)@ }
            } else {
                BevyView {
                    project_path: path@,
                    status: spec_check_status(*probe),
                    checked: true,
                    ..old(self)@
                }
            }),
    {
        self.project_path = path;
        self.refresh_status(probe);
    }

    /// The status after a poll asked for it to be read again.
    pub fn read_status(&mut self, probe: &BevyProbe)
        ensures
            final(self)@ == (BevyView { status: spec_check_status(*probe), ..old(self)@ }),
    {
        self.status = check_status(probe);
    }

    /// The pending notice, which is taken away.
    pub fn take_toast(&mut self) -> (r: Option<String>)
        ensures
            opt_view(r) == old(self)@.toast,
            final(self)@ == (BevyView { toast: None, ..old(self)@ }),
    {
        self.toast.take()
    }

    /// The id of the newest job.
    pub fn job_seq(&self) -> (r: u64)
        ensures
            r == self@.job_seq,
    {
        self.job_seq
    }

    /// Whether a running job can be asked to stop.
    pub fn can_stop(&self) -> (r: bool)
        ensures
            r == (self@.busy && self@.cancel_armed),
    {
        self.busy && self.cancel_armed
    }

    /// Ask the current job to stop: true when the caller is to raise its
    /// cancel flag.
    pub fn stop(&mut self) -> (r: bool)
        ensures
            r == old(self)@.cancel_armed,
            final(self)@ == (if r {
                BevyView { toast: Some("正在停止…"@), ..old(self)@ }
            } else {
                old(self)@
            }),
    {
        if self.cancel_armed {
            self.toast = Some(owned("正在停止…"));
            true
        } else {
            false
        }
    }

    /// A new job with a fresh id; the one before it, if any, is to be asked
    /// to stop, and its late replies will be ignored.
    fn spawn_job(&mut self) -> (r: JobStart)
        requires
            old(self)@.job_seq < u64::MAX,
        ensures
            r == (JobStart { id: (old(self)@.job_seq + 1) as u64, cancel_previous: old(self)@.cancel_armed }),
            final(self)@ == (BevyView {
                job_seq: r.id,
                cancel_armed: true,
                pending: true,
                ..old(self)@
            }),
    {
        let cancel_previous = self.cancel_armed;
        self.job_seq = self.job_seq + 1;
        self.pending = true;
        self.cancel_armed = true;
        JobStart { id: self.job_seq, cancel_previous }
    }

    /// Start scaffolding a new project, unless a job is running.
    pub fn create_project(&mut self) -> (r: Option<JobStart>)
        requires
            old(self)@.job_seq < u64::MAX,
        ensures
            old(self)@.busy ==> r is None && final(self)@ == old(self)@,
            !old(self)@.busy ==> r == Some(JobStart {
                id: (old(self)@.job_seq + 1) as u64,
                cancel_previous: old(self)@.cancel_armed,
            }) && final(self)@ == (BevyView {
                busy: true,
                log_tail: Seq::empty(),
                last_error: None,
                toast: Some("正在创建 Bevy 项目…"@),
                job_seq: (old(self)@.job_seq + 1) as u64,
                cancel_armed: true,
                pending: true,
                ..old(self)@
            }),
    {
        if self.busy {
            return None;
        }
        self.busy = true;
        self.log_tail.clear();
        self.last_error = None;
        self.toast = Some(owned("正在创建 Bevy 项目…"));
        assert(strings_view(self.log_tail@) =~= Seq::<Seq<char>>::empty());
        Some(self.spawn_job())
    }

    /// Start a cargo command in the project, unless a job is running or the
    /// project is not ready.
    fn run_cargo(&mut self, c: CargoCommand) -> (r: Option<JobStart>)
        requires
            old(self)@.job_seq < u64::MAX,
        ensures
            (old(self)@.busy || old(self)@.status != BevyStatus::Ready) ==> r is None && final(self)@
                == old(self)@,
            !(old(self)@.busy || old(self)@.status != BevyStatus::Ready) ==> r == Some(JobStart {
                id: (old(self)@.job_seq + 1) as u64,
                cancel_previous: old(self)@.cancel_armed,
            }) && final(self)@ == (BevyView {
                busy: true,
                toast: Some("正在执行 "@ + cargo_label(c) + "…"@),
                job_seq: (old(self)@.job_seq + 1) as u64,
                cancel_armed: true,
                pending: true,
                ..old(self)@
            }),
    {
        if self.busy || !self.status.is_ready() {
            return None;
        }
        self.busy = true;
        let mut t = chars_of("正在执行 ");
        extend_chars(&mut t, c.label());
        extend_chars(&mut t, "…");
        self.toast = Some(string_of(&t));
        Some(self.spawn_job())
    }

    /// `cargo check` in the project.
    pub fn check(&mut self) -> (r: Option<JobStart>)
        requires
            old(self)@.job_seq < u64::MAX,
        ensures
            (old(self)@.busy || old(self)@.status != BevyStatus::Ready) ==> r is None && final(self)@
                == old(self)@,
            !(old(self)@.busy || old(self)@.status != BevyStatus::Ready) ==> r == Some(JobStart {
                id: (old(self)@.job_seq + 1) as u64,
                cancel_previous: old(self)@.cancel_armed,
            }) && final(self)@ == (BevyView {
                busy: true,
                toast: Some("正在执行 "@ + cargo_label(CargoCommand::Check) + "…"@),
                job_seq: (old(self)@.job_seq + 1) as u64,
                cancel_armed: true,
                pending: true,
                ..old(self)@
            }),
    {
        self.run_cargo(CargoCommand::Check)
    }

    /// `cargo build` in the project.
    pub fn build(&mut self) -> (r: Option<JobStart>)
        requires
            old(self)@.job_seq < u64::MAX,
        ensures
            (old(self)@.busy || old(self)@.status != BevyStatus::Ready) ==> r is None && final(self)@
                == old(self)@,
            !(old(self)@.busy || old(self)@.status != BevyStatus::Ready) ==> r == Some(JobStart {
                id: (old(self)@.job_seq + 1) as u64,
                cancel_previous: old(self)@.cancel_armed,
            }) && final(self)@ == (BevyView {
                busy: true,
                toast: Some("正在执行 "@ + cargo_label(CargoCommand::Build) + "…"@),
                job_seq: (old(self)@.job_seq + 1) as u64,
                cancel_armed: true,
                pending: true,
                ..old(self)@
            }),
    {
        self.run_cargo(CargoCommand::Build)
    }

    /// `cargo run` in the project: the game window. The panel counts as
    /// running once the job starts (while the game's process is alive).
    pub fn run(&mut self) -> (r: Option<JobStart>)
        requires
            old(self)@.job_seq < u64::MAX,
        ensures
            (old(self)@.busy || old(self)@.status != BevyStatus::Ready) ==> r is None && final(self)@
                == old(self)@,
            !(old(self)@.busy || old(self)@.status != BevyStatus::Ready) ==> r == Some(JobStart {
                id: (old(self)@.job_seq + 1) as u64,
                cancel_previous: old(self)@.cancel_armed,
            }) && final(self)@ == (BevyView {
                running: true,
                busy: true,
                toast: Some("正在执行 "@ + cargo_label(CargoCommand::Run) + "…"@),
                job_seq: (old(self)@.job_seq + 1) as u64,
                cancel_armed: true,
                pending: true,
                ..old(self)@
            }),
    {
        let r = self.run_cargo(CargoCommand::Run);
        if r.is_some() {
            self.running = true;
        }
        r
    }

    /// Whether the one-click toolchain install is offered.
    pub fn can_install_rust(&self) -> (r: bool)
        ensures
            r == (!self@.busy && self@.status == BevyStatus::NoRust),
    {
        !self.busy && self.status == BevyStatus::NoRust
    }

    /// Start installing the Rust toolchain, unless a job is running.
    pub fn install_rust(&mut self) -> (r: Option<JobStart>)
        requires
            old(self)@.job_seq < u64::MAX,
        ensures
            old(self)@.busy ==> r is None && final(self)@ == old(self)@,
            !old(self)@.busy ==> r == Some(JobStart {
                id: (old(self)@.job_seq + 1) as u64,
                cancel_previous: old(self)@.cancel_armed,
            }) && final(self)@ == (BevyView {
                busy: true,
                log_tail: Seq::empty(),
                toast: Some("正在安装 Rust…"@),
                job_seq: (old(self)@.job_seq + 1) as u64,
                cancel_armed: true,
                pending: true,
                ..old(self)@
            }),
    {
        if self.busy {
            return None;
        }
        self.busy = true;
        self.log_tail.clear();
        self.toast = Some(owned("正在安装 Rust…"));
        assert(strings_view(self.log_tail@) =~= Seq::<Seq<char>>::empty());
        Some(self.spawn_job())
    }

    /// The command that installs the toolchain by hand on this platform.
    pub fn rust_install_hint(&self) -> (r: &'static str)
        ensures
            r@ == rust_install_hint_for(true) || r@ == rust_install_hint_for(false),
    {
        rust_hint(host_is_windows())
    }

    /// Take the replies of a batch, in order.
    fn apply_reply(&mut self, m: &BevyMsg) -> (w: StatusWrite)
        ensures
            (final(self)@, w) == spec_reply(old(self)@, m@),
    {
        match m {
            BevyMsg::Line(l) => {
                push_log(&mut self.log_tail, l.clone(), LOG_TAIL_MAX);
                StatusWrite::Untouched
            },
            BevyMsg::ScaffoldDone { path } => {
                self.busy = false;
                self.project_path = path.clone();
                self.toast = Some(owned("Bevy 项目已创建"));
                StatusWrite::Read
            },
            BevyMsg::ScaffoldFailed(reason) => {
                self.busy = false;
                self.last_error = Some(reason.clone());
                push_log(&mut self.log_tail, reason.clone(), LOG_TAIL_MAX);
                self.toast = Some(owned("创建 Bevy 项目失败"));
                StatusWrite::Untouched
            },
            BevyMsg::JobDone { ok, message } => {
                self.busy = false;
                self.running = false;
                if !message.as_str().is_empty() {
                    push_log(&mut self.log_tail, message.clone(), LOG_TAIL_MAX);
                }
                if *ok {
                    self.last_error = None;
                    self.toast = Some(owned("完成"));
                } else {
                    self.last_error = Some(message.clone());
                    self.toast = Some(owned("执行失败（详见日志）"));
                }
                StatusWrite::Read
            },
            BevyMsg::RustInstallDone { ok, message } => {
                self.busy = false;
                push_log(&mut self.log_tail, message.clone(), LOG_TAIL_MAX);
                if *ok {
                    self.toast = Some(owned("Rust 安装完成，正在重新检测…"));
                    self.status = BevyStatus::Unknown;
                    self.checked = true;
                    StatusWrite::Read
                } else {
                    self.status = BevyStatus::NoRust;
                    self.last_error = Some(message.clone());
                    self.toast = Some(owned("Rust 安装失败"));
                    StatusWrite::Assigned
                }
            },
        }
    }

    /// Take the replies that came in since the last poll, each tagged with
    /// the id of the job that sent it. Replies of superseded jobs are
    /// dropped. When the result asks for it, the caller probes the project
    /// and hands the probe to `read_status`.
    pub fn poll(&mut self, batch: &Vec<(u64, BevyMsg)>) -> (r: BevyPolled)
        ensures
            (final(self)@, r) == spec_poll(old(self)@, batch_view(batch@)),
    {
        let ghost bv = batch_view(batch@);
        if !self.pending {
            return BevyPolled { changed: false, read_status: false };
        }
        let ghost start = self@;
        let mut read = false;
        let mut any = false;
        let mut i: usize = 0;
        while i < batch.len()
            invariant
                i <= batch.len(),
                bv == batch_view(batch@),
                start.job_seq == self@.job_seq,
                !any ==> self@ == start,
                (self@, read, any) == spec_replies(start, bv.subrange(0, i as int)),
            decreases batch.len() - i,
        {
            let ghost before = self@;
            proof {
                assert(bv.subrange(0, i + 1).drop_last() =~= bv.subrange(0, i as int));
                lemma_replies_keep_job(start, bv.subrange(0, i as int));
            }
            let e = &batch[i];
            if e.0 == self.job_seq {
                let w = self.apply_reply(&e.1);
                read = match w {
                    StatusWrite::Untouched => read,
                    StatusWrite::Read => true,
                    StatusWrite::Assigned => false,
                };
                any = true;
            }
            i = i + 1;
            proof {
                lemma_replies_keep_job(start, bv.subrange(0, i as int));
            }
        }
        proof {
            assert(bv.subrange(0, batch.len() as int) =~= bv);
        }
        if !any {
            return BevyPolled { changed: false, read_status: false };
        }
        if !self.busy {
            self.pending = false;
        }
        BevyPolled { changed: true, read_status: read }
    }
}

/// The manual toolchain install command for Windows (`windows`) or Unix.
pub open spec fn rust_install_hint_for(windows: bool) -> Seq<char> {
    if windows {
        "winget install --id Rustlang.Rustup -e"@
    } else {
        "curl https://sh.rustup.rs -sSf | sh"@
    }
}

pub fn rust_hint(windows: bool) -> (r: &'static str)
    ensures
        r@ == rust_install_hint_for(windows),
{
    if windows {
        "winget install --id Rustlang.Rustup -e"
    } else {
        "curl https://sh.rustup.rs -sSf | sh"
    }
}

// ───────────────────────── laws ─────────────────────────

proof fn lemma_stale_replies(v: BevyView, batch: Seq<(u64, BevyMsgView)>)
    requires
        forall|i: int| 0 <= i < batch.len() ==> #[trigger] batch[i].0 != v.job_seq,
    ensures
        spec_replies(v, batch) == (v, false, false),
    decreases batch.len(),
{
    if batch.len() > 0 {
        let b = batch.drop_last();
        assert forall|i: int| 0 <= i < b.len() implies #[trigger] b[i].0 != v.job_seq by {
            assert(b[i] == batch[i]);
        }
        lemma_stale_replies(v, b);
        assert(batch.last() == batch[batch.len() - 1]);
    }
}

/// Replies of superseded jobs are ignored: a batch in which no reply
/// carries the id of the newest job changes nothing and reports nothing.
pub proof fn law_stale_replies_ignored(v: BevyView, batch: Seq<(u64, BevyMsgView)>)
    requires
        forall|i: int| 0 <= i < batch.len() ==> #[trigger] batch[i].0 != v.job_seq,
    ensures
        spec_poll(v, batch) == (v, BevyPolled { changed: false, read_status: false }),
{
    lemma_stale_replies(v, batch);
}

/// A batch whose last reply is the current job's end (anything but a log
/// line) leaves the panel idle, with no more replies expected.
pub proof fn law_finished_job_goes_idle(v: BevyView, batch: Seq<(u64, BevyMsgView)>)
    requires
        v.pending,
        batch.len() > 0,
        batch.last().0 == v.job_seq,
        !(batch.last().1 is Line),
    ensures
        !spec_poll(v, batch).0.busy,
        !spec_poll(v, batch).0.pending,
        spec_poll(v, batch).1.changed,
{
}

proof fn lemma_replies_bounded(v: BevyView, batch: Seq<(u64, BevyMsgView)>)
    requires
        v.log_tail.len() <= LOG_TAIL_MAX,
    ensures
        spec_replies(v, batch).0.log_tail.len() <= LOG_TAIL_MAX,
    decreases batch.len(),
{
    if batch.len() > 0 {
        let prev = spec_replies(v, batch.drop_last());
        lemma_replies_bounded(v, batch.drop_last());
        let t = prev.0.log_tail;
        let max = LOG_TAIL_MAX as nat;
        match batch.last().1 {
            BevyMsgView::Line(l) => law_push_log_bounded(t, l, max),
            BevyMsgView::ScaffoldFailed(r) => law_push_log_bounded(t, r, max),
            BevyMsgView::JobDone(_, m) => law_push_log_bounded(t, m, max),
            BevyMsgView::RustInstallDone(_, m) => law_push_log_bounded(t, m, max),
            BevyMsgView::ScaffoldDone(_) => {},
        }
    }
}

/// The panel's log never grows past its bound: a poll keeps it within
/// `LOG_TAIL_MAX` lines.
pub proof fn law_poll_log_bounded(v: BevyView, batch: Seq<(u64, BevyMsgView)>)
    requires
        v.log_tail.len() <= LOG_TAIL_MAX,
    ensures
        spec_poll(v, batch).0.log_tail.len() <= LOG_TAIL_MAX,
{
    lemma_replies_bounded(v, batch);
}

} // verus!
