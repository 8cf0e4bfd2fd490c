//! OpenMontage, the video-production toolkit: whether an install is usable,
//! the install and preflight state machine, and the skill text that tells
//! the agent how to drive it. Cloning, installing and probing the disk is
//! the caller's part; it hands the results in as plain values.
use vstd::prelude::*;

use crate::git::join;
use crate::plugins::{
    host_is_windows, joined3, law_push_log_bounded, path_join, path_join3, push_log, pushed,
    plain_base, sep_joined, sep_joined3, lemma_plain_base_push,
    spec_push_log, PluginPrefs,
};
use crate::split::{signed_decimal, spec_signed_decimal};
use crate::text::{
    chars_of, extend_chars, extend_vec, owned, replace_char, spec_replace_char, string_of, str_eq,
};
use crate::timeline::{lemma_strings_view, opt_view, strings_view};

verus! {

broadcast use lemma_strings_view;

/// Where OpenMontage is cloned from.
pub const GITHUB_URL: &'static str = "https://github.com/calesthio/OpenMontage.git";

/// How many log lines the install panel keeps.
pub const LOG_TAIL_MAX: usize = 40;

/// The fixed text of the skill file, around the root and the commands.
pub const SKILL_MD_0: &'static str = "---\nname: open-montage\ndescription: REQUIRED for any video, short clip, trailer, animation, montage, 短视频, or film request when this skill is enabled. Drive OpenMontage via local shell/Python — never MCP open-montage__*, never image_gen/image_to_video, never python -c with nested quotes on Windows. Do NOT use for unrelated coding tasks.\n---\n\n# OpenMontage (via Bony Build)\n\nOpenMontage engine lives at: `";
pub const SKILL_MD_1: &'static str = "`\n\n## Critical — this is NOT an MCP server\n\nOpenMontage does **not** register MCP tools. There is **no** `open-montage__create_project` or `open-montage__*`.\nIf those names are missing, that is expected. Do **not** tell the user MCP is misconfigured.\n\n## Critical — Windows shell quoting\n\nNever run `python -c \"...\"` / nested PowerShell `-Command` with mixed quotes. That causes:\n`文件名、目录名或卷标语法不正确。(os error 123)`.\n\nIf Bony Build already injected a **PREFLIGHT RESULT**, **skip shell preflight** and continue with pipeline selection.\n\nOtherwise run preflight with **exact argv** (no extra quotes, no `cd &&`):\n\n- program: `";
pub const SKILL_MD_2: &'static str = "`\n- args: `[\"";
pub const SKILL_MD_3: &'static str = "\"]`\n- working_directory: `";
pub const SKILL_MD_4: &'static str = "`\n\n## Hard rules\n\n1. Video / clip / trailer / animation / 短视频 → OpenMontage pipelines only. Never `image_gen` / `image_to_video` / `video_gen`.\n2. Never invent placeholder URLs (e.g. `https://example.com/...`).\n3. Keep the agent session cwd as the user's project. Only set **working_directory** of tool calls to the OpenMontage root.\n4. Create projects with filesystem mkdir: `projects/<kebab-slug>/artifacts`, `assets/...`, `renders`.\n\n## Production workflow (Rule Zero)\n\n1. Read `";
pub const SKILL_MD_5: &'static str = "/AGENT_GUIDE.md` with a file-read tool (not shell-cat).\n2. Use PREFLIGHT RESULT if present; else run the exact argv above.\n3. Pick a pipeline under `";
pub const SKILL_MD_6: &'static str = "/pipeline_defs/` (e.g. `animation.yaml`, `character-animation.yaml`, `cinematic.yaml`).\n4. For EACH stage, read `skills/pipelines/<pipeline>/<stage>-director.md` BEFORE work.\n5. Call tools via Python registry APIs from the OpenMontage root (prefer small `.py` helper scripts over `python -c`).\n6. Tell the user each major stage (plan → assets → assemble → render).\n\nWhen finished, copy `";
pub const SKILL_MD_7: &'static str = "/projects/<slug>/renders/` into the user's project at `./outputs/video/<slug>/`.\n";

/// The fixed text of the prompt directive, around the root and the commands.
pub const DIRECTIVE_0: &'static str = "[Bony Build · OpenMontage ACTIVE]\nRoot: ";
pub const DIRECTIVE_1: &'static str = "\n\nCRITICAL:\n- Local CLI/pipeline repo — NOT MCP. No open-montage__* tools exist.\n- Never python -c with nested quotes on Windows (causes os error 123).\n- Forbidden: image_gen, image_to_video, video_gen, example.com placeholders.\n\nIf PREFLIGHT RESULT is included below, do NOT re-run preflight in the shell.\nOtherwise run EXACTLY:\nprogram = ";
pub const DIRECTIVE_2: &'static str = "\nargs = [";
pub const DIRECTIVE_3: &'static str = "]\nworking_directory = ";
pub const DIRECTIVE_4: &'static str = "\n\nThen: read AGENT_GUIDE.md → pick pipeline_defs/*.yaml → mkdir projects/<slug>/ → stage directors.";

/// The helper script that prints the provider menu without shell quoting.
pub const BONY_PREFLIGHT_PY: &'static str = "# Auto-generated by Bony Build — safe preflight without python -c quoting.\nimport json\nimport os\nimport sys\n\nROOT = os.path.dirname(os.path.dirname(os.path.abspath(__file__)))\nos.chdir(ROOT)\nif ROOT not in sys.path:\n    sys.path.insert(0, ROOT)\n\nfrom tools.tool_registry import registry  # noqa: E402\n\nregistry.discover()\nprint(json.dumps(registry.provider_menu_summary(), indent=2))\n";

/// Readiness of an OpenMontage install.
#[derive(Debug, Clone, PartialEq, Eq)]
pub enum OpenMontageStatus {
    Unknown,
    NotInstalled,
    Installing,
    InstallFailed(String),
    /// Installed, but these parts are missing: `.venv`, `.env`,
    /// `node_modules`, in that order.
    MissingDeps(Vec<&'static str>),
    Ready,
}

pub enum OmStatusView {
    Unknown,
    NotInstalled,
    Installing,
    InstallFailed(Seq<char>),
    MissingDeps(Seq<Seq<char>>),
    Ready,
}

pub open spec fn strs_view(v: Seq<&'static str>) -> Seq<Seq<char>> {
    Seq::new(v.len(), |i: int| v[i]@)
}

impl View for OpenMontageStatus {
    type V = OmStatusView;

    open spec fn view(&self) -> OmStatusView {
        match self {
            OpenMontageStatus::Unknown => OmStatusView::Unknown,
            OpenMontageStatus::NotInstalled => OmStatusView::NotInstalled,
            OpenMontageStatus::Installing => OmStatusView::Installing,
            OpenMontageStatus::InstallFailed(r) => OmStatusView::InstallFailed(r@),
            OpenMontageStatus::MissingDeps(m) => OmStatusView::MissingDeps(strs_view(m@)),
            OpenMontageStatus::Ready => OmStatusView::Ready,
        }
    }
}

impl OpenMontageStatus {
    pub fn is_ready(&self) -> (r: bool)
        ensures
            r == (self@ is Ready),
    {
        match self {
            OpenMontageStatus::Ready => true,
            _ => false,
        }
    }
}

/// What the install directory looks like.
#[derive(Debug, Clone, Copy, PartialEq, Eq, Structural)]
pub struct OpenMontageProbe {
    /// The root is a directory.
    pub root_is_dir: bool,
    /// `AGENT_GUIDE.md` is a file in it.
    pub agent_guide: bool,
    /// The virtual environment's python (see `venv_python`) is a file.
    pub venv_python: bool,
    /// `.env` is a file in it.
    pub env_file: bool,
    /// `remotion-composer/node_modules` is a directory in it.
    pub node_modules: bool,
}

/// The parts of an install that are missing, in the order they are named.
pub open spec fn missing_parts(p: OpenMontageProbe) -> Seq<Seq<char>> {
    (if p.venv_python { Seq::empty() } else { seq![".venv"@] }) + (if p.env_file {
        Seq::empty()
    } else {
        seq![".env"@]
    }) + (if p.node_modules { Seq::empty() } else { seq!["node_modules"@] })
}

/// The status a probe shows: not installed without the directory and its
/// guide, ready when nothing is missing.
pub open spec fn spec_check_status(p: OpenMontageProbe) -> OmStatusView {
    if !p.root_is_dir || !p.agent_guide {
        OmStatusView::NotInstalled
    } else if missing_parts(p).len() == 0 {
        OmStatusView::Ready
    } else {
        OmStatusView::MissingDeps(missing_parts(p))
    }
}

pub fn check_status(probe: &OpenMontageProbe) -> (r: OpenMontageStatus)
    ensures
        r@ == spec_check_status(*probe),
{
    if !probe.root_is_dir || !probe.agent_guide {
        return OpenMontageStatus::NotInstalled;
    }
    let mut missing: Vec<&'static str> = Vec::new();
    if !probe.venv_python {
        missing.push(".venv");
    }
    if !probe.env_file {
        missing.push(".env");
    }
    if !probe.node_modules {
        missing.push("node_modules");
    }
    assert(strs_view(missing@) =~= missing_parts(*probe));
    if missing.len() == 0 {
        OpenMontageStatus::Ready
    } else {
        OpenMontageStatus::MissingDeps(missing)
    }
}

/// Which tools an install needs answered `--version`: git, a Python 3
/// launcher, node and npm.
#[derive(Debug, Clone, Copy, PartialEq, Eq, Structural)]
pub struct ToolProbe {
    pub git: bool,
    pub python: bool,
    pub node: bool,
    pub npm: bool,
}

pub open spec fn missing_tools(t: ToolProbe) -> Seq<Seq<char>> {
    (if t.git { Seq::empty() } else { seq!["Git"@] }) + (if t.python {
        Seq::empty()
    } else {
        seq!["Python 3"@]
    }) + (if t.node { Seq::empty() } else { seq!["Node.js"@] }) + (if t.npm {
        Seq::empty()
    } else {
        seq!["npm"@]
    })
}

pub open spec fn spec_prerequisites(t: ToolProbe) -> Result<(), Seq<char>> {
    if missing_tools(t).len() == 0 {
        Ok(())
    } else {
        Err("缺少："@ + join(missing_tools(t), "、"@) + "。请先安装后再试（Git / Python 3 / Node.js）。"@)
    }
}

pub open spec fn unit_result_view(r: Result<(), String>) -> Result<(), Seq<char>> {
    match r {
        Ok(()) => Ok(()),
        Err(e) => Err(e@),
    }
}

/// Whether the tools an install needs are there, and if not, the message
/// that names the missing ones.
pub fn check_prerequisites(tools: &ToolProbe) -> (r: Result<(), String>)
    ensures
        unit_result_view(r) == spec_prerequisites(*tools),
{
    let mut missing: Vec<&'static str> = Vec::new();
    if !tools.git {
        missing.push("Git");
    }
    if !tools.python {
        missing.push("Python 3");
    }
    if !tools.node {
        missing.push("Node.js");
    }
    if !tools.npm {
        missing.push("npm");
    }
    let ghost names = strs_view(missing@);
    assert(names =~= missing_tools(*tools));
    if missing.len() == 0 {
        return Ok(());
    }
    let mut v = chars_of("缺少：");
    let ghost head = v@;
    let mut i: usize = 0;
    while i < missing.len()
        invariant
            i <= missing.len(),
            names == strs_view(missing@),
            v@ == head + join(names.subrange(0, i as int), "、"@),
        decreases missing.len() - i,
    {
        proof {
            assert(names.subrange(0, i + 1).drop_last() =~= names.subrange(0, i as int));
        }
        if i > 0 {
            extend_chars(&mut v, "、");
        }
        extend_chars(&mut v, missing[i]);
        i = i + 1;
        proof {
            if i == 1 {
                assert(v@ =~= head + join(names.subrange(0, i as int), "、"@));
            } else {
                assert(v@ =~= head + join(names.subrange(0, i as int), "、"@));
            }
        }
    }
    assert(names.subrange(0, missing.len() as int) =~= names);
    extend_chars(&mut v, "。请先安装后再试（Git / Python 3 / Node.js）。");
    Err(string_of(&v))
}

// ───────────────────────── paths and texts ─────────────────────────

/// The virtual environment's python under `root`:
/// `.venv/Scripts/python.exe` on Windows, `.venv/bin/python` elsewhere.
pub fn venv_python(root: &str) -> (r: String)
    ensures
        joined3(root@, ".venv"@, "Scripts"@, "python.exe"@, r@) || joined3(
            root@,
            ".venv"@,
            "bin"@,
            "python"@,
            r@,
        ),
        plain_base(root@) ==> sep_joined3(root@, ".venv"@, "Scripts"@, "python.exe"@, r@)
            || sep_joined3(root@, ".venv"@, "bin"@, "python"@, r@),
{
    proof {
        reveal_strlit(".venv");
        reveal_strlit("Scripts");
        reveal_strlit("python.exe");
        reveal_strlit("bin");
        reveal_strlit("python");
    }
    if host_is_windows() {
        path_join3(root, ".venv", "Scripts", "python.exe")
    } else {
        path_join3(root, ".venv", "bin", "python")
    }
}

/// Where the skill file lives under the per-user data directory:
/// `<dir>/skills/open-montage/SKILL.md`.
pub fn skill_path(usage_dir: &str) -> (r: String)
    ensures
        joined3(usage_dir@, "skills"@, "open-montage"@, "SKILL.md"@, r@),
        plain_base(usage_dir@) ==> sep_joined3(usage_dir@, "skills"@, "open-montage"@, "SKILL.md"@, r@),
{
    proof {
        reveal_strlit("skills");
        reveal_strlit("open-montage");
        reveal_strlit("SKILL.md");
    }
    path_join3(usage_dir, "skills", "open-montage", "SKILL.md")
}

/// `root` followed by `scripts/bony_preflight.py`.
pub open spec fn is_preflight_script(root: Seq<char>, r: Seq<char>) -> bool {
    exists|x: Seq<char>| pushed(root, "scripts"@, x) && pushed(x, "bony_preflight.py"@, r)
}

/// The helper script that prints the provider menu, inside the install.
pub fn bony_preflight_script(root: &str) -> (r: String)
    ensures
        is_preflight_script(root@, r@),
        plain_base(root@) ==> exists|x: Seq<char>|
            sep_joined(root@, "scripts"@, x) && sep_joined(x, "bony_preflight.py"@, r@),
{
    proof {
        reveal_strlit("scripts");
        reveal_strlit("bony_preflight.py");
    }
    let x = path_join(root, "scripts");
    let r = path_join(x.as_str(), "bony_preflight.py");
    assert(pushed(root@, "scripts"@, x@) && pushed(x@, "bony_preflight.py"@, r@));
    proof {
        if plain_base(root@) {
            lemma_plain_base_push(root@, "scripts"@, x@);
            assert(sep_joined(root@, "scripts"@, x@) && sep_joined(x@, "bony_preflight.py"@, r@));
        }
    }
    r
}

/// At most `max` characters of `s`; a longer text is cut and marked.
pub open spec fn spec_truncate_om(s: Seq<char>, max: nat) -> Seq<char> {
    if s.len() <= max {
        s
    } else {
        s.subrange(0, max as int) + "\n…(truncated)"@
    }
}

pub fn truncate_om_chars(s: &str, max: usize) -> (r: String)
    ensures
        r@ == spec_truncate_om(s@, max as nat),
{
    let v = chars_of(s);
    if v.len() <= max {
        return owned(s);
    }
    let mut out: Vec<char> = Vec::new();
    let mut i: usize = 0;
    while i < max
        invariant
            i <= max < v.len(),
            v@ == s@,
            out@ == s@.subrange(0, i as int),
        decreases max - i,
    {
        out.push(v[i]);
        i = i + 1;
        assert(out@ =~= s@.subrange(0, i as int));
    }
    extend_chars(&mut out, "\n…(truncated)");
    string_of(&out)
}

/// The error of a preflight whose process failed: its exit code (`-1` when
/// it had none) and the first 800 characters of what it wrote to stderr.
pub open spec fn spec_preflight_exit(code: Option<i32>, stderr: Seq<char>) -> Seq<char> {
    let n: int = match code {
        Some(c) => c as int,
        None => -1,
    };
    "preflight exit "@ + spec_signed_decimal(n) + ": "@ + if stderr.len() <= 800 {
        stderr
    } else {
        stderr.subrange(0, 800)
    }
}

pub fn preflight_exit_message(code: Option<i32>, stderr: &str) -> (r: String)
    ensures
        r@ == spec_preflight_exit(code, stderr@),
{
    let n: i32 = match code {
        Some(c) => c,
        None => -1,
    };
    let mut v = chars_of("preflight exit ");
    let d = signed_decimal(n);
    extend_chars(&mut v, d.as_str());
    extend_chars(&mut v, ": ");
    let e = chars_of(stderr);
    let lim: usize = if e.len() <= 800 { e.len() } else { 800 };
    let ghost pre = v@;
    let mut i: usize = 0;
    while i < lim
        invariant
            i <= lim <= e.len(),
            lim == (if e.len() <= 800 { e.len() } else { 800 }),
            e@ == stderr@,
            v@ == pre + stderr@.subrange(0, i as int),
        decreases lim - i,
    {
        v.push(e[i]);
        i = i + 1;
        assert(v@ =~= pre + stderr@.subrange(0, i as int));
    }
    assert(stderr@.subrange(0, e.len() as int) =~= stderr@);
    string_of(&v)
}

/// The log line of an install step whose process failed.
pub open spec fn spec_step_failure(label: Seq<char>, code: Option<i32>, err_tail: Seq<char>) -> Seq<char> {
    let n: int = match code {
        Some(c) => c as int,
        None => -1,
    };
    label + " 失败（exit "@ + spec_signed_decimal(n) + "）"@ + if err_tail.len() == 0 {
        Seq::<char>::empty()
    } else {
        "："@ + err_tail
    }
}

pub fn step_failure_message(label: &str, code: Option<i32>, err_tail: &str) -> (r: String)
    ensures
        r@ == spec_step_failure(label@, code, err_tail@),
{
    let n: i32 = match code {
        Some(c) => c,
        None => -1,
    };
    let mut v = chars_of(label);
    extend_chars(&mut v, " 失败（exit ");
    let d = signed_decimal(n);
    extend_chars(&mut v, d.as_str());
    extend_chars(&mut v, "）");
    let t = chars_of(err_tail);
    if t.len() > 0 {
        extend_chars(&mut v, "：");
        extend_vec(&mut v, &t);
    }
    proof {
        if t.len() == 0 {
            assert(v@ =~= spec_step_failure(label@, code, err_tail@));
        }
    }
    string_of(&v)
}

/// The skill text for an install at `root` whose python and preflight
/// script are `py` and `script`.
pub open spec fn spec_skill_md_for(root: Seq<char>, py: Seq<char>, script: Seq<char>) -> Seq<char> {
    let disp = spec_replace_char(root, '\\', '/');
    SKILL_MD_0@ + disp + SKILL_MD_1@ + py + SKILL_MD_2@ + script + SKILL_MD_3@ + root + SKILL_MD_4@
        + disp + SKILL_MD_5@ + disp + SKILL_MD_6@ + disp + SKILL_MD_7@
}

pub fn skill_md_for(root: &str, py: &str, script: &str) -> (r: String)
    ensures
        r@ == spec_skill_md_for(root@, py@, script@),
{
    let disp = replace_char(&chars_of(root), '\\', '/');
    let mut v: Vec<char> = Vec::new();
    extend_chars(&mut v, SKILL_MD_0);
    extend_vec(&mut v, &disp);
    extend_chars(&mut v, SKILL_MD_1);
    extend_chars(&mut v, py);
    extend_chars(&mut v, SKILL_MD_2);
    extend_chars(&mut v, script);
    extend_chars(&mut v, SKILL_MD_3);
    extend_chars(&mut v, root);
    extend_chars(&mut v, SKILL_MD_4);
    extend_vec(&mut v, &disp);
    extend_chars(&mut v, SKILL_MD_5);
    extend_vec(&mut v, &disp);
    extend_chars(&mut v, SKILL_MD_6);
    extend_vec(&mut v, &disp);
    extend_chars(&mut v, SKILL_MD_7);
    string_of(&v)
}

/// The agent skill for the install at `root`, with its python and helper
/// script as this platform writes their paths.
pub fn skill_md(root: &str) -> (r: String)
    ensures
        exists|py: Seq<char>, script: Seq<char>|
            {
                &&& (joined3(root@, ".venv"@, "Scripts"@, "python.exe"@, py) || joined3(
                    root@,
                    ".venv"@,
                    "bin"@,
                    "python"@,
                    py,
                ))
                &&& is_preflight_script(root@, script)
                &&& r@ == spec_skill_md_for(root@, py, script)
            },
{
    let py = venv_python(root);
    let script = bony_preflight_script(root);
    skill_md_for(root, py.as_str(), script.as_str())
}

/// The directive put before the user's prompt while OpenMontage is on.
pub open spec fn spec_directive_for(root: Seq<char>, py: Seq<char>, script: Seq<char>) -> Seq<char> {
    DIRECTIVE_0@ + root + DIRECTIVE_1@ + py + DIRECTIVE_2@ + script + DIRECTIVE_3@ + root
        + DIRECTIVE_4@
}

pub fn active_prompt_directive_for(root: &str, py: &str, script: &str) -> (r: String)
    ensures
        r@ == spec_directive_for(root@, py@, script@),
{
    let mut v: Vec<char> = Vec::new();
    extend_chars(&mut v, DIRECTIVE_0);
    extend_chars(&mut v, root);
    extend_chars(&mut v, DIRECTIVE_1);
    extend_chars(&mut v, py);
    extend_chars(&mut v, DIRECTIVE_2);
    extend_chars(&mut v, script);
    extend_chars(&mut v, DIRECTIVE_3);
    extend_chars(&mut v, root);
    extend_chars(&mut v, DIRECTIVE_4);
    string_of(&v)
}

/// The directive for the install at `root` (not shown in the chat).
pub fn active_prompt_directive(root: &str) -> (r: String)
    ensures
        exists|py: Seq<char>, script: Seq<char>|
            {
                &&& (joined3(root@, ".venv"@, "Scripts"@, "python.exe"@, py) || joined3(
                    root@,
                    ".venv"@,
                    "bin"@,
                    "python"@,
                    py,
                ))
                &&& is_preflight_script(root@, script)
                &&& r@ == spec_directive_for(root@, py, script)
            },
{
    let py = venv_python(root);
    let script = bony_preflight_script(root);
    active_prompt_directive_for(root, py.as_str(), script.as_str())
}

/// Remember the install once the panel finds it usable: when the status is
/// `Ready` or `MissingDeps` and the preferences name another root (or
/// none), they take `root`; the answer says whether they changed and are to
/// be saved.
pub fn remember_usable_root(prefs: &mut PluginPrefs, status: &OpenMontageStatus, root: &str) -> (r: bool)
    ensures
        r == ((*status is Ready || *status is MissingDeps) && opt_view(old(prefs).openmontage_root) != Some(
            root@,
        )),
        r ==> opt_view(final(prefs).openmontage_root) == Some(root@) && final(prefs).openmontage_enabled
            == old(prefs).openmontage_enabled && final(prefs).bevy_enabled == old(prefs).bevy_enabled
            && final(prefs).bevy_project_root == old(prefs).bevy_project_root,
        !r ==> *final(prefs) == *old(prefs),
{
    let usable = match status {
        OpenMontageStatus::Ready => true,
        OpenMontageStatus::MissingDeps(_) => true,
        _ => false,
    };
    if !usable {
        return false;
    }
    let same = match &prefs.openmontage_root {
        Some(p) => str_eq(p.as_str(), root),
        None => false,
    };
    if same {
        return false;
    }
    prefs.openmontage_root = Some(owned(root));
    true
}

/// Turn the skill on once its file is written and the agent config lists
/// it (`written` is how that went): the preferences remember the root. A
/// failure is handed back and the preferences stay as they were.
pub fn enable_skill(prefs: &mut PluginPrefs, root: &str, written: Result<(), String>) -> (r: Result<
    (),
    String,
>)
    ensures
        r == written,
        written is Ok ==> final(prefs).openmontage_enabled && opt_view(final(prefs).openmontage_root)
            == Some(root@) && final(prefs).bevy_enabled == old(prefs).bevy_enabled
            && final(prefs).bevy_project_root == old(prefs).bevy_project_root,
        written is Err ==> *final(prefs) == *old(prefs),
{
    if written.is_err() {
        return written;
    }
    prefs.openmontage_enabled = true;
    prefs.openmontage_root = Some(owned(root));
    written
}

/// Turn the skill off once the agent config no longer lists it (`synced` is
/// how that went). The remembered root stays.
pub fn disable_skill(prefs: &mut PluginPrefs, synced: Result<(), String>) -> (r: Result<(), String>)
    ensures
        r == synced,
        synced is Ok ==> *final(prefs) == (PluginPrefs { openmontage_enabled: false, ..*old(prefs) }),
        synced is Err ==> *final(prefs) == *old(prefs),
{
    if synced.is_err() {
        return synced;
    }
    prefs.openmontage_enabled = false;
    synced
}

// ───────────────────────── the install state machine ─────────────────────────

/// What the caller found about the install directory before an install.
#[derive(Debug, Clone, Copy, PartialEq, Eq, Structural)]
pub struct InstallTarget {
    pub exists: bool,
    /// Listing the directory worked and found nothing.
    pub empty: bool,
    /// `AGENT_GUIDE.md` is a file in it.
    pub agent_guide: bool,
}

/// A reply of the install job. `Done` carries a probe of the installed
/// root, taken when the reply is handed in.
#[derive(Debug)]
pub enum InstallMsg {
    Progress { step: String, line: Option<String> },
    Done { root: String, probe: OpenMontageProbe },
    Failed { reason: String },
}

pub enum InstallMsgView {
    Progress(Seq<char>, Option<Seq<char>>),
    Done(Seq<char>, OpenMontageProbe),
    Failed(Seq<char>),
}

impl View for InstallMsg {
    type V = InstallMsgView;

    open spec fn view(&self) -> InstallMsgView {
        match self {
            InstallMsg::Progress { step, line } => InstallMsgView::Progress(step@, opt_view(*line)),
            InstallMsg::Done { root, probe } => InstallMsgView::Done(root@, *probe),
            InstallMsg::Failed { reason } => InstallMsgView::Failed(reason@),
        }
    }
}

pub open spec fn msgs_view(b: Seq<InstallMsg>) -> Seq<InstallMsgView> {
    Seq::new(b.len(), |i: int| b[i]@)
}

/// What a poll did: whether anything came in, and the root for which a
/// provider-menu preflight is now to be started, if one is.
#[derive(Debug)]
pub struct OmPolled {
    pub changed: bool,
    pub start_preflight: Option<String>,
}

/// The OpenMontage panel.
pub struct OpenMontageState {
    pub status: OpenMontageStatus,
    pub root: String,
    pub busy: bool,
    pub log_tail: Vec<String>,
    pub last_step: String,
    pub toast: Option<String>,
    /// The provider menu summary (or its error) for the prompt.
    pub preflight_summary: Option<String>,
    checked: bool,
    /// Replies of the install job are still expected.
    pending: bool,
    /// A preflight is running and its result still expected.
    preflight_pending: bool,
}

pub struct OmView {
    pub status: OmStatusView,
    pub root: Seq<char>,
    pub busy: bool,
    pub log_tail: Seq<Seq<char>>,
    pub last_step: Seq<char>,
    pub toast: Option<Seq<char>>,
    pub preflight_summary: Option<Seq<char>>,
    pub checked: bool,
    pub pending: bool,
    pub preflight_pending: bool,
}

impl View for OpenMontageState {
    type V = OmView;

    closed spec fn view(&self) -> OmView {
        OmView {
            status: self.status@,
            root: self.root@,
            busy: self.busy,
            log_tail: strings_view(self.log_tail@),
            last_step: self.last_step@,
            toast: opt_view(self.toast),
            preflight_summary: opt_view(self.preflight_summary),
            checked: self.checked,
            pending: self.pending,
            preflight_pending: self.preflight_pending,
        }
    }
}

/// Start a preflight unless the install is not ready or one is running:
/// the panel after, and the root to run it for.
pub open spec fn spec_start_preflight(v: OmView) -> (OmView, Option<Seq<char>>) {
    if !(v.status is Ready) || v.preflight_pending {
        (v, None)
    } else {
        (OmView { preflight_pending: true, ..v }, Some(v.root))
    }
}

/// The status read from `probe`, and a preflight started when that shows
/// the install ready; otherwise the old summary is dropped.
pub open spec fn spec_refresh(v: OmView, probe: OpenMontageProbe) -> (OmView, Option<Seq<char>>) {
    if v.busy {
        (v, None)
    } else {
        let w = OmView { status: spec_check_status(probe), checked: true, ..v };
        if w.status is Ready {
            spec_start_preflight(w)
        } else {
            (OmView { preflight_summary: None, ..w }, None)
        }
    }
}

/// What one install reply does to the panel, and the root of a preflight
/// it starts.
pub open spec fn spec_install_reply(v: OmView, m: InstallMsgView) -> (OmView, Option<Seq<char>>) {
    let max = LOG_TAIL_MAX as nat;
    match m {
        InstallMsgView::Progress(step, line) => (
            OmView {
                last_step: step,
                log_tail: match line {
                    Some(l) => spec_push_log(v.log_tail, l, max),
                    None => v.log_tail,
                },
                ..v
            },
            None,
        ),
        InstallMsgView::Done(root, probe) => {
            let w = OmView {
                busy: false,
                root: root,
                status: spec_check_status(probe),
                pending: false,
                toast: Some("OpenMontage 安装完成"@),
                ..v
            };
            if w.status is Ready {
                spec_start_preflight(w)
            } else {
                (w, None)
            }
        },
        InstallMsgView::Failed(reason) => (
            OmView {
                busy: false,
                status: OmStatusView::InstallFailed(reason),
                log_tail: spec_push_log(v.log_tail, reason, max),
                pending: false,
                toast: Some("OpenMontage 安装失败"@),
                ..v
            },
            None,
        ),
    }
}

/// Install replies taken in order: the panel after them and the root of the
/// preflight they start, if any.
pub open spec fn spec_install_replies(v: OmView, msgs: Seq<InstallMsgView>) -> (OmView, Option<Seq<char>>)
    decreases msgs.len(),
{
    if msgs.len() == 0 {
        (v, None)
    } else {
        let prev = spec_install_replies(v, msgs.drop_last());
        let (w, start) = spec_install_reply(prev.0, msgs.last());
        (w, if start is Some { start } else { prev.1 })
    }
}

/// The summary kept from a finished preflight.
pub open spec fn preflight_text(r: Result<Seq<char>, Seq<char>>) -> Seq<char> {
    match r {
        Ok(s) => s,
        Err(e) => "preflight failed: "@ + e,
    }
}

pub open spec fn result_view(r: Result<String, String>) -> Result<Seq<char>, Seq<char>> {
    match r {
        Ok(s) => Ok(s@),
        Err(e) => Err(e@),
    }
}

/// A poll: first the preflight's result, if one was running and it came;
/// then, while install replies are expected, those that came in.
pub open spec fn spec_om_poll(
    v: OmView,
    preflight: Option<Result<Seq<char>, Seq<char>>>,
    msgs: Seq<InstallMsgView>,
) -> (OmView, bool, Option<Seq<char>>) {
    let (v1, changed) = if v.preflight_pending && preflight is Some {
        (
            OmView {
                preflight_pending: false,
                preflight_summary: Some(preflight_text(preflight->0)),
                ..v
            },
            true,
        )
    } else {
        (v, false)
    };
    if !v1.pending || msgs.len() == 0 {
        (v1, changed, None)
    } else {
        let (w, start) = spec_install_replies(v1, msgs);
        (w, true, start)
    }
}

/// Whether an install may start, and if not, the status that says why.
pub open spec fn install_blocked(
    root: Seq<char>,
    deps_only: bool,
    tools: ToolProbe,
    target: InstallTarget,
) -> Option<Seq<char>> {
    if spec_prerequisites(tools) is Err {
        Some(spec_prerequisites(tools)->Err_0)
    } else if deps_only {
        if !target.agent_guide {
            Some("目录里没有 AGENT_GUIDE.md，无法只装依赖。请先完整安装。"@)
        } else {
            None
        }
    } else if target.exists && !target.empty && !target.agent_guide {
        Some("目标目录非空且不是 OpenMontage："@ + root)
    } else {
        None
    }
}

proof fn lemma_install_replies_keep(v: OmView, msgs: Seq<InstallMsgView>)
    ensures
        spec_install_replies(v, msgs).0.checked == v.checked,
        spec_install_replies(v, msgs).1 is Some ==> spec_install_replies(v, msgs).0.preflight_pending,
        v.preflight_pending ==> spec_install_replies(v, msgs).0.preflight_pending,
        v.preflight_pending ==> spec_install_replies(v, msgs).1 is None,
    decreases msgs.len(),
{
    if msgs.len() > 0 {
        lemma_install_replies_keep(v, msgs.drop_last());
    }
}

impl OpenMontageState {
    /// A panel for the install at `root` whose status has not been read yet.
    pub fn new(root: String) -> (r: Self)
        ensures
            r@ == (OmView {
                status: OmStatusView::Unknown,
                root: root@,
                busy: false,
                log_tail: Seq::empty(),
                last_step: Seq::empty(),
                toast: None,
                preflight_summary: None,
                checked: false,
                pending: false,
                preflight_pending: false,
            }),
    {
        let r = OpenMontageState {
            status: OpenMontageStatus::Unknown,
            root,
            busy: false,
            log_tail: Vec::new(),
            last_step: String::new(),
            toast: None,
            preflight_summary: None,
            checked: false,
            pending: false,
            preflight_pending: false,
        };
        assert(strings_view(r.log_tail@) =~= Seq::<Seq<char>>::empty());
        r
    }

    /// The panel for the saved preferences: their root, else
    /// `default_dir`, with the status read from `probe` (a probe of that
    /// root). The second value is true when a preflight is to be started
    /// for that root.
    pub fn from_prefs(prefs: &PluginPrefs, default_dir: String, probe: &OpenMontageProbe) -> (r: (
        Self,
        bool,
    ))
        ensures
            ({
                let v0 = OmView {
                    status: OmStatusView::Unknown,
                    root: match prefs.openmontage_root {
                        Some(p) => p@,
                        None => default_dir@,
                    },
                    busy: false,
                    log_tail: Seq::empty(),
                    last_step: Seq::empty(),
                    toast: None,
                    preflight_summary: None,
                    checked: false,
                    pending: false,
                    preflight_pending: false,
                };
                &&& r.0@ == spec_refresh(v0, *probe).0
                &&& r.1 == spec_refresh(v0, *probe).1 is Some
            }),
    {
        let root = match &prefs.openmontage_root {
            Some(p) => p.clone(),
            None => default_dir,
        };
        let mut state = Self::new(root);
        let start = state.refresh_status(probe);
        (state, start)
    }

    /// The root a preflight is to run for, or none.
    fn start_preflight_refresh(&mut self) -> (r: Option<String>)
        ensures
            (final(self)@, opt_view(r)) == spec_start_preflight(old(self)@),
    {
        if !self.status.is_ready() || self.preflight_pending {
            return None;
        }
        self.preflight_pending = true;
        Some(self.root.clone())
    }

    /// Read the status from `probe` (a probe of the root), unless an install
    /// is running. True when a preflight is to be started for the root.
    pub fn refresh_status(&mut self, probe: &OpenMontageProbe) -> (r: bool)
        ensures
            final(self)@ == spec_refresh(old(self)@, *probe).0,
            r == spec_refresh(old(self)@, *probe).1 is Some,
    {
        if self.busy {
            return false;
        }
        self.status = check_status(probe);
        self.checked = true;
        if self.status.is_ready() {
            let s = self.start_preflight_refresh();
            s.is_some()
        } else {
            self.preflight_summary = None;
            false
        }
    }

    /// Whether the status is still to be read (and nothing is running).
    pub fn needs_check(&self) -> (r: bool)
        ensures
            r == (!self@.checked && !self@.busy),
    {
        !self.checked && !self.busy
    }

    /// Read the status once, from `probe`, unless it was read already or an
    /// install is running.
    pub fn ensure_checked(&mut self, probe: &OpenMontageProbe) -> (r: bool)
        ensures
            !old(self)@.checked && !old(self)@.busy ==> final(self)@ == spec_refresh(old(self)@, *probe).0
                && r == spec_refresh(old(self)@, *probe).1 is Some,
            !(!old(self)@.checked && !old(self)@.busy) ==> final(self)@ == old(self)@ && !r,
    {
        if !self.checked && !self.busy {
            self.refresh_status(probe)
        } else {
            false
        }
    }

    /// The pending notice, which is taken away.
    pub fn take_toast(&mut self) -> (r: Option<String>)
        ensures
            opt_view(r) == old(self)@.toast,
            final(self)@ == (OmView { toast: None, ..old(self)@ }),
    {
        self.toast.take()
    }

    /// Whether a preflight result is still expected.
    pub fn preflight_pending(&self) -> (r: bool)
        ensures
            r == self@.preflight_pending,
    {
        self.preflight_pending
    }

    fn apply_install_reply(&mut self, m: &InstallMsg) -> (r: Option<String>)
        ensures
            (final(self)@, opt_view(r)) == spec_install_reply(old(self)@, m@),
    {
        match m {
            InstallMsg::Progress { step, line } => {
                self.last_step = step.clone();
                if let Some(l) = line {
                    push_log(&mut self.log_tail, l.clone(), LOG_TAIL_MAX);
                }
                None
            },
            InstallMsg::Done { root, probe } => {
                self.busy = false;
                self.root = root.clone();
                self.status = check_status(probe);
                self.pending = false;
                self.toast = Some(owned("OpenMontage 安装完成"));
                if self.status.is_ready() {
                    self.start_preflight_refresh()
                } else {
                    None
                }
            },
            InstallMsg::Failed { reason } => {
                self.busy = false;
                self.status = OpenMontageStatus::InstallFailed(reason.clone());
                push_log(&mut self.log_tail, reason.clone(), LOG_TAIL_MAX);
                self.pending = false;
                self.toast = Some(owned("OpenMontage 安装失败"));
                None
            },
        }
    }

    /// Take what came in since the last poll: the preflight's result (the
    /// caller hands it in only once it is there) and the install replies.
    pub fn poll(&mut self, preflight: Option<Result<String, String>>, msgs: &Vec<InstallMsg>) -> (r:
        OmPolled)
        ensures
            ({
                let p = match preflight {
                    Some(x) => Some(result_view(x)),
                    None => None,
                };
                let (w, changed, start) = spec_om_poll(old(self)@, p, msgs_view(msgs@));
                &&& final(self)@ == w
                &&& r.changed == changed
                &&& opt_view(r.start_preflight) == start
            }),
    {
        let mut changed = false;
        if self.preflight_pending {
            match preflight {
                Some(Ok(summary)) => {
                    self.preflight_pending = false;
                    self.preflight_summary = Some(summary);
                    changed = true;
                },
                Some(Err(err)) => {
                    self.preflight_pending = false;
                    let mut t = chars_of("preflight failed: ");
                    extend_chars(&mut t, err.as_str());
                    self.preflight_summary = Some(string_of(&t));
                    changed = true;
                },
                None => {},
            }
        }
        if !self.pending || msgs.len() == 0 {
            return OmPolled { changed, start_preflight: None };
        }
        let ghost start_v = self@;
        let ghost mv = msgs_view(msgs@);
        let mut start: Option<String> = None;
        let mut i: usize = 0;
        while i < msgs.len()
            invariant
                i <= msgs.len(),
                mv == msgs_view(msgs@),
                (self@, opt_view(start)) == spec_install_replies(start_v, mv.subrange(0, i as int)),
            decreases msgs.len() - i,
        {
            proof {
                assert(mv.subrange(0, i + 1).drop_last() =~= mv.subrange(0, i as int));
            }
            let s = self.apply_install_reply(&msgs[i]);
            if s.is_some() {
                start = s;
            }
            i = i + 1;
        }
        proof {
            assert(mv.subrange(0, msgs.len() as int) =~= mv);
        }
        OmPolled { changed: true, start_preflight: start }
    }

    /// Start an install (`deps_only`: the clone is there, only install its
    /// dependencies) unless one is running. `tools` and `target` are what
    /// the caller found on the machine and at the root. True when the
    /// install job is to be started; when it may not start, the status says
    /// why.
    pub fn start_install(&mut self, deps_only: bool, tools: &ToolProbe, target: &InstallTarget) -> (r:
        bool)
        ensures
            old(self)@.busy ==> !r && final(self)@ == old(self)@,
            !old(self)@.busy && install_blocked(old(self)@.root, deps_only, *tools, *target) is Some
                ==> !r && final(self)@ == (OmView {
                status: OmStatusView::InstallFailed(
                    install_blocked(old(self)@.root, deps_only, *tools, *target)->0,
                ),
                ..old(self)@
            }),
            !old(self)@.busy && install_blocked(old(self)@.root, deps_only, *tools, *target) is None
                ==> r && final(self)@ == (OmView {
                busy: true,
                status: OmStatusView::Installing,
                log_tail: Seq::empty(),
                last_step: if deps_only { "准备安装依赖…"@ } else { "准备安装…"@ },
                pending: true,
                ..old(self)@
            }),
    {
        if self.busy {
            return false;
        }
        match check_prerequisites(tools) {
            Err(missing) => {
                self.status = OpenMontageStatus::InstallFailed(missing);
                return false;
            },
            Ok(()) => {},
        }
        if deps_only {
            if !target.agent_guide {
                self.status = OpenMontageStatus::InstallFailed(
                    owned("目录里没有 AGENT_GUIDE.md，无法只装依赖。请先完整安装。"),
                );
                return false;
            }
        } else if target.exists && !target.empty && !target.agent_guide {
            let mut t = chars_of("目标目录非空且不是 OpenMontage：");
            extend_chars(&mut t, self.root.as_str());
            self.status = OpenMontageStatus::InstallFailed(string_of(&t));
            return false;
        }
        self.busy = true;
        self.status = OpenMontageStatus::Installing;
        self.log_tail.clear();
        self.last_step = if deps_only {
            owned("准备安装依赖…")
        } else {
            owned("准备安装…")
        };
        self.pending = true;
        assert(strings_view(self.log_tail@) =~= Seq::<Seq<char>>::empty());
        true
    }

    /// Open the Backlot viewer: true when the caller is to launch it (the
    /// install is ready); otherwise the notice says it is not.
    pub fn open_backlot(&mut self) -> (r: bool)
        ensures
            r == (old(self)@.status is Ready),
            final(self)@ == (OmView {
                toast: Some(if r { "正在打开 Backlot…"@ } else { "OpenMontage 尚未就绪"@ }),
                ..old(self)@
            }),
    {
        if !self.status.is_ready() {
            self.toast = Some(owned("OpenMontage 尚未就绪"));
            return false;
        }
        self.toast = Some(owned("正在打开 Backlot…"));
        true
    }
}

// ───────────────────────── laws ─────────────────────────

/// An install is ready exactly when its directory, its guide, its virtual
/// environment, its `.env` and its node modules are all there; otherwise a
/// missing virtual environment is named among the missing parts.
pub proof fn law_ready_iff_complete(p: OpenMontageProbe)
    ensures
        (spec_check_status(p) is Ready) <==> (p.root_is_dir && p.agent_guide && p.venv_python
            && p.env_file && p.node_modules),
        p.root_is_dir && p.agent_guide && !p.venv_python ==> spec_check_status(p) is MissingDeps
            && spec_check_status(p)->MissingDeps_0.contains(".venv"@),
{
    if p.root_is_dir && p.agent_guide && !p.venv_python {
        assert(missing_parts(p)[0] == ".venv"@);
    }
}

/// At most one preflight runs at a time: while one is running and its
/// result has not come, a poll starts no other.
pub proof fn law_one_preflight_at_a_time(v: OmView, msgs: Seq<InstallMsgView>)
    requires
        v.preflight_pending,
    ensures
        spec_om_poll(v, None, msgs).2 is None,
        spec_om_poll(v, None, msgs).0.preflight_pending,
{
    lemma_install_replies_keep(v, msgs);
}

/// A failed install ends the job: when the last reply of a poll is a
/// failure, the panel is idle, expects no more replies, and its status
/// carries the reason.
pub proof fn law_install_failure_reported(
    v: OmView,
    preflight: Option<Result<Seq<char>, Seq<char>>>,
    msgs: Seq<InstallMsgView>,
)
    requires
        v.pending,
        msgs.len() > 0,
        msgs.last() is Failed,
    ensures
        !spec_om_poll(v, preflight, msgs).0.busy,
        !spec_om_poll(v, preflight, msgs).0.pending,
        spec_om_poll(v, preflight, msgs).0.status == OmStatusView::InstallFailed(msgs.last()->Failed_0),
{
}

proof fn lemma_install_replies_bounded(v: OmView, msgs: Seq<InstallMsgView>)
    requires
        v.log_tail.len() <= LOG_TAIL_MAX,
    ensures
        spec_install_replies(v, msgs).0.log_tail.len() <= LOG_TAIL_MAX,
    decreases msgs.len(),
{
    if msgs.len() > 0 {
        lemma_install_replies_bounded(v, msgs.drop_last());
        let t = spec_install_replies(v, msgs.drop_last()).0.log_tail;
        let max = LOG_TAIL_MAX as nat;
        match msgs.last() {
            InstallMsgView::Progress(_, line) => {
                if line is Some {
                    law_push_log_bounded(t, line->0, max);
                }
            },
            InstallMsgView::Failed(r) => law_push_log_bounded(t, r, max),
            InstallMsgView::Done(_, _) => {},
        }
    }
}

/// The install log never grows past its bound.
pub proof fn law_om_poll_log_bounded(
    v: OmView,
    preflight: Option<Result<Seq<char>, Seq<char>>>,
    msgs: Seq<InstallMsgView>,
)
    requires
        v.log_tail.len() <= LOG_TAIL_MAX,
    ensures
        spec_om_poll(v, preflight, msgs).0.log_tail.len() <= LOG_TAIL_MAX,
{
    let v1 = if v.preflight_pending && preflight is Some {
        OmView { preflight_pending: false, preflight_summary: Some(preflight_text(preflight->0)), ..v }
    } else {
        v
    };
    lemma_install_replies_bounded(v1, msgs);
}

} // verus!
