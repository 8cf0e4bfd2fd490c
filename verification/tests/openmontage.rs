use bony_build::openmontage::{
    active_prompt_directive, bony_preflight_script, check_prerequisites, check_status,
    preflight_exit_message, skill_md, step_failure_message, truncate_om_chars, venv_python,
    InstallMsg, InstallTarget, OpenMontageProbe, OpenMontageState, OpenMontageStatus, ToolProbe,
};
use std::path::Path;

fn probe(root_is_dir: bool, agent_guide: bool, venv: bool, env: bool, node: bool) -> OpenMontageProbe {
    OpenMontageProbe { root_is_dir, agent_guide, venv_python: venv, env_file: env, node_modules: node }
}

#[test]
fn check_status_not_installed() {
    assert_eq!(check_status(&probe(true, false, false, false, false)), OpenMontageStatus::NotInstalled);
}

#[test]
fn check_status_missing_deps() {
    match check_status(&probe(true, true, false, false, false)) {
        OpenMontageStatus::MissingDeps(m) => {
            assert!(m.contains(&".venv"));
        }
        other => panic!("unexpected {other:?}"),
    }
}

#[test]
fn skill_md_contains_root() {
    let md = skill_md("C:/Users/x/OpenMontage");
    assert!(md.contains("open-montage"));
    assert!(md.contains("C:/Users/x/OpenMontage"));
    assert!(md.contains("AGENT_GUIDE.md"));
    assert!(md.contains("image_to_video"));
    assert!(md.contains("NOT an MCP"));
    assert!(md.contains("open-montage__create_project"));
    assert!(md.contains("bony_preflight.py"));
    assert!(md.contains("os error 123"));
}

#[test]
fn active_prompt_directive_forbids_builtin_media() {
    let d = active_prompt_directive("C:/om");
    assert!(d.contains("OpenMontage ACTIVE"));
    assert!(d.contains("image_to_video"));
    assert!(d.contains("example.com") || d.contains("NOT MCP"));
    assert!(d.contains("open-montage__"));
    assert!(d.contains("bony_preflight.py"));
}

#[test]
fn bony_preflight_script_path() {
    let p = bony_preflight_script("C:/om");
    assert_eq!(
        Path::new(&p).file_name().and_then(|s| s.to_str()),
        Some("bony_preflight.py")
    );
}

#[test]
fn status_ready_and_missing_order() {
    assert_eq!(check_status(&probe(true, true, true, true, true)), OpenMontageStatus::Ready);
    assert_eq!(
        check_status(&probe(true, true, true, false, false)),
        OpenMontageStatus::MissingDeps(vec![".env", "node_modules"])
    );
    assert_eq!(check_status(&probe(false, true, true, true, true)), OpenMontageStatus::NotInstalled);
}

#[test]
fn prerequisites_name_missing_tools() {
    let all = ToolProbe { git: true, python: true, node: true, npm: true };
    assert!(check_prerequisites(&all).is_ok());
    let some = ToolProbe { git: false, python: true, node: false, npm: true };
    assert_eq!(
        check_prerequisites(&some).unwrap_err(),
        "缺少：Git、Node.js。请先安装后再试（Git / Python 3 / Node.js）。"
    );
}

#[test]
fn truncation_and_messages() {
    assert_eq!(truncate_om_chars("abc", 3), "abc");
    assert_eq!(truncate_om_chars("abcdef", 3), "abc\n…(truncated)");
    assert_eq!(preflight_exit_message(Some(2), "bad"), "preflight exit 2: bad");
    let long = "x".repeat(900);
    assert_eq!(preflight_exit_message(None, &long).len(), "preflight exit -1: ".len() + 800);
    assert_eq!(step_failure_message("pip install", Some(1), ""), "pip install 失败（exit 1）");
    assert_eq!(step_failure_message("npm install", None, "E"), "npm install 失败（exit -1）：E");
}

#[test]
fn venv_python_is_under_root() {
    let p = venv_python("/om");
    assert!(p.starts_with("/om"));
    assert!(p.contains(".venv"));
    assert!(p.ends_with("python") || p.ends_with("python.exe"));
}

fn tools() -> ToolProbe {
    ToolProbe { git: true, python: true, node: true, npm: true }
}

#[test]
fn install_guards() {
    let mut s = OpenMontageState::new("/om".into());
    let deps_only_without_guide = InstallTarget { exists: true, empty: false, agent_guide: false };
    assert!(!s.start_install(true, &tools(), &deps_only_without_guide));
    assert!(matches!(s.status, OpenMontageStatus::InstallFailed(_)));
    assert!(!s.start_install(false, &tools(), &deps_only_without_guide));
    assert_eq!(
        s.status,
        OpenMontageStatus::InstallFailed("目标目录非空且不是 OpenMontage：/om".into())
    );
    let fresh = InstallTarget { exists: false, empty: false, agent_guide: false };
    assert!(s.start_install(false, &tools(), &fresh));
    assert!(s.busy);
    assert_eq!(s.status, OpenMontageStatus::Installing);
    assert_eq!(s.last_step, "准备安装…");
    assert!(!s.start_install(false, &tools(), &fresh));
}

#[test]
fn install_done_starts_one_preflight() {
    let mut s = OpenMontageState::new("/om".into());
    let fresh = InstallTarget { exists: false, empty: false, agent_guide: false };
    assert!(s.start_install(false, &tools(), &fresh));
    let msgs = vec![
        InstallMsg::Progress { step: "git clone OpenMontage…".into(), line: Some("Cloning  ".into()) },
        InstallMsg::Done { root: "/om2".into(), probe: probe(true, true, true, true, true) },
    ];
    let r = s.poll(None, &msgs);
    assert!(r.changed);
    assert_eq!(r.start_preflight.as_deref(), Some("/om2"));
    assert_eq!(s.root, "/om2");
    assert!(s.status.is_ready());
    assert_eq!(s.log_tail, vec!["Cloning".to_string()]);
    assert!(s.preflight_pending());
    let refresh = s.refresh_status(&probe(true, true, true, true, true));
    assert!(!refresh);
    let r = s.poll(Some(Err("boom".into())), &Vec::new());
    assert!(r.changed);
    assert_eq!(s.preflight_summary.as_deref(), Some("preflight failed: boom"));
}

#[test]
fn install_failure_is_reported() {
    let mut s = OpenMontageState::new("/om".into());
    let fresh = InstallTarget { exists: false, empty: false, agent_guide: false };
    s.start_install(true, &tools(), &InstallTarget { agent_guide: true, ..fresh });
    let r = s.poll(None, &vec![InstallMsg::Failed { reason: "pip install 失败（exit 1）".into() }]);
    assert!(r.changed && r.start_preflight.is_none());
    assert!(!s.busy);
    assert_eq!(s.status, OpenMontageStatus::InstallFailed("pip install 失败（exit 1）".into()));
    assert_eq!(s.take_toast().as_deref(), Some("OpenMontage 安装失败"));
}

#[test]
fn backlot_needs_ready_install() {
    let mut s = OpenMontageState::new("/om".into());
    assert!(!s.open_backlot());
    assert_eq!(s.take_toast().as_deref(), Some("OpenMontage 尚未就绪"));
}

#[test]
fn preflight_script_is_joined_under_root() {
    let p = bony_preflight_script("C:/om");
    let expected = Path::new("C:/om").join("scripts").join("bony_preflight.py");
    assert_eq!(p, expected.display().to_string());
    assert_ne!(p, "C:/omscriptsbony_preflight.py");
}

#[test]
fn sync_config_roundtrip() {
    let skill = Path::new("/tmp/bony").join("skills").join("open-montage").join("SKILL.md");
    let mut doc = toml_edit::DocumentMut::new();
    doc["models"] = toml_edit::Item::Table(toml_edit::Table::new());
    doc["models"]["default"] = toml_edit::value("qwen-max");
    let text = doc.to_string();
    let after = bony_build::agent_config::sync_skill_paths_text(
        &text,
        true,
        &skill.display().to_string(),
        "open-montage",
    )
    .unwrap();
    assert!(after.contains("skills"));
    assert!(after.contains("open-montage"));
    assert!(after.contains("qwen-max"));
}

use bony_build::openmontage::remember_usable_root;
use bony_build::plugins::PluginPrefs;

#[test]
fn a_usable_install_is_remembered_once() {
    let mut prefs = PluginPrefs { bevy_enabled: false, bevy_project_root: None, openmontage_enabled: true, openmontage_root: Some("/old".into()) };
    assert!(!remember_usable_root(&mut prefs, &OpenMontageStatus::NotInstalled, "/om"));
    assert_eq!(prefs.openmontage_root.as_deref(), Some("/old"));
    assert!(remember_usable_root(&mut prefs, &OpenMontageStatus::MissingDeps(vec![".env"]), "/om"));
    assert_eq!(prefs.openmontage_root.as_deref(), Some("/om"));
    assert!(!remember_usable_root(&mut prefs, &OpenMontageStatus::Ready, "/om"));
    assert!(prefs.openmontage_enabled);
}
