use bony_build::bevy::{
    cargo_done_message, cargo_toml_template, check_status, exit_message, main_rs_template,
    skill_md, skill_path, BevyMsg, BevyProbe, BevyState, BevyStatus, CargoManifest, ENGINE_GIT_URL,
};
use bony_build::plugins::PluginPrefs;

fn probe(manifest: CargoManifest) -> BevyProbe {
    BevyProbe { cargo_ok: true, rustc_ok: true, manifest }
}

#[test]
fn check_status_no_project() {
    assert_eq!(check_status(&probe(CargoManifest::Missing)), BevyStatus::NoProject);
}

#[test]
fn check_status_ready_when_bevy_dep_present() {
    let text = "[package]\nname = \"x\"\n[dependencies]\nbevy = \"0.14\"\n".to_string();
    assert_eq!(check_status(&probe(CargoManifest::Text(text))), BevyStatus::Ready);
}

#[test]
fn skill_md_contains_project_and_engine_url() {
    let md = skill_md("C:/games/my-game");
    assert!(md.contains("bevy-game-dev"));
    assert!(md.contains("C:/games/my-game"));
    assert!(md.contains(ENGINE_GIT_URL));
    assert!(md.contains("main"));
}

#[test]
fn cargo_toml_template_pins_git_branch_not_rev() {
    let toml = cargo_toml_template("my-game");
    assert!(toml.contains(ENGINE_GIT_URL));
    assert!(toml.contains("branch = \"main\""));
    assert!(!toml.contains("rev ="));
}

#[test]
fn check_status_other_outcomes() {
    let no_rust = BevyProbe { cargo_ok: true, rustc_ok: false, manifest: CargoManifest::Missing };
    assert_eq!(check_status(&no_rust), BevyStatus::NoRust);
    assert_eq!(check_status(&probe(CargoManifest::Unreadable)), BevyStatus::Error);
    let plain = "[package]\nname = \"x\"\n".to_string();
    assert_eq!(check_status(&probe(CargoManifest::Text(plain))), BevyStatus::NoProject);
}

#[test]
fn status_labels() {
    assert_eq!(BevyStatus::Ready.label(), "已就绪");
    assert_eq!(BevyStatus::NoRust.label(), "未安装 Rust");
    assert!(BevyStatus::Ready.is_ready());
    assert!(!BevyStatus::Error.is_ready());
}

#[test]
fn skill_md_uses_forward_slashes() {
    let md = skill_md("C:\\games\\g");
    assert!(md.contains("Active game project: `C:/games/g`"));
    assert!(!md.contains("C:\\games"));
}

#[test]
fn templates_hold_name_and_window() {
    assert!(cargo_toml_template("pong").contains("name = \"pong\""));
    assert!(main_rs_template().contains("DefaultPlugins"));
    let p = skill_path("/home/u/.bony");
    assert!(p.starts_with("/home/u/.bony"));
    assert!(p.ends_with("SKILL.md"));
    assert!(p.contains("bevy-game-dev"));
}

#[test]
fn job_messages() {
    assert_eq!(exit_message(Some(101), ""), "退出码 101");
    assert_eq!(exit_message(None, "boom"), "退出码 -1：boom");
    assert_eq!(cargo_done_message(bony_build::bevy::CargoCommand::Build), "cargo build 完成");
}

fn ready_state() -> BevyState {
    let prefs = PluginPrefs {
        bevy_enabled: true,
        bevy_project_root: Some("/p/game".into()),
        openmontage_enabled: false,
        openmontage_root: None,
    };
    let text = "bevy = \"0.14\"".to_string();
    let s = BevyState::from_prefs(&prefs, "/default".into(), &probe(CargoManifest::Text(text)));
    assert_eq!(s.project_path, "/p/game");
    assert_eq!(s.status, BevyStatus::Ready);
    s
}

#[test]
fn jobs_are_refused_while_busy() {
    let mut s = ready_state();
    let first = s.check().unwrap();
    assert_eq!(first.id, 1);
    assert!(!first.cancel_previous);
    assert!(s.busy);
    assert_eq!(s.take_toast().as_deref(), Some("正在执行 cargo check…"));
    assert!(s.take_toast().is_none());
    assert!(s.build().is_none());
    assert!(s.create_project().is_none());
    assert!(s.install_rust().is_none());
    assert!(s.can_stop());
    assert!(s.stop());
}

#[test]
fn stale_replies_are_ignored() {
    let mut s = ready_state();
    let job = s.check().unwrap();
    let stale = vec![(job.id - 1, BevyMsg::JobDone { ok: true, message: "old".into() })];
    let r = s.poll(&stale);
    assert!(!r.changed);
    assert!(s.busy);
    let current = vec![
        (job.id, BevyMsg::Line("Compiling x  ".into())),
        (job.id, BevyMsg::JobDone { ok: false, message: "退出码 1".into() }),
    ];
    let r = s.poll(&current);
    assert!(r.changed);
    assert!(r.read_status);
    assert!(!s.busy);
    assert_eq!(s.log_tail, vec!["Compiling x".to_string(), "退出码 1".to_string()]);
    assert_eq!(s.last_error.as_deref(), Some("退出码 1"));
    assert_eq!(s.take_toast().as_deref(), Some("执行失败（详见日志）"));
    let again = s.poll(&current);
    assert!(!again.changed);
}

#[test]
fn a_new_job_supersedes_the_old_one() {
    let mut s = ready_state();
    let a = s.run().unwrap();
    assert!(s.running);
    let done = vec![(a.id, BevyMsg::JobDone { ok: true, message: String::new() })];
    s.poll(&done);
    assert!(!s.running);
    let b = s.build().unwrap();
    assert_eq!(b.id, a.id + 1);
    assert!(b.cancel_previous);
}

#[test]
fn failed_rust_install_sets_no_rust() {
    let mut s = BevyState::new("/x".into());
    let job = s.install_rust().unwrap();
    let r = s.poll(&vec![(job.id, BevyMsg::RustInstallDone { ok: false, message: "no".into() })]);
    assert!(!r.read_status);
    assert_eq!(s.status, BevyStatus::NoRust);
    assert!(s.can_install_rust());
}

#[test]
fn log_tail_keeps_newest_lines() {
    let mut s = ready_state();
    let job = s.check().unwrap();
    let lines: Vec<(u64, BevyMsg)> = (0..250).map(|i| (job.id, BevyMsg::Line(format!("line {i}")))).collect();
    s.poll(&lines);
    assert_eq!(s.log_tail.len(), 200);
    assert_eq!(s.log_tail[0], "line 50");
    assert_eq!(s.log_tail[199], "line 249");
}

#[test]
fn rust_install_hint_is_one_of_two() {
    let s = BevyState::new("/x".into());
    let h = s.rust_install_hint();
    assert!(h.starts_with("winget") || h.starts_with("curl"));
}

#[test]
fn run_without_a_ready_project_starts_nothing() {
    let mut s = ready_state();
    s.status = BevyStatus::NoProject;
    assert!(s.run().is_none());
    assert!(!s.running);
    assert!(!s.busy);
    let mut s = ready_state();
    s.build().unwrap();
    assert!(s.busy);
    assert!(s.run().is_none());
    assert!(!s.running);
}

#[test]
fn skill_path_adds_one_separator_per_component() {
    let expected = std::path::Path::new("/home/u/.bony").join("skills").join("bevy-game-dev").join("SKILL.md");
    assert_eq!(skill_path("/home/u/.bony"), expected.display().to_string());
}

#[test]
fn a_ready_project_is_remembered_once() {
    let mut prefs = PluginPrefs { bevy_enabled: false, bevy_project_root: None, openmontage_enabled: false, openmontage_root: None };
    assert!(!bony_build::bevy::remember_ready_project(&mut prefs, BevyStatus::NoProject, "/g"));
    assert_eq!(prefs.bevy_project_root, None);
    assert!(bony_build::bevy::remember_ready_project(&mut prefs, BevyStatus::Ready, "/g"));
    assert_eq!(prefs.bevy_project_root.as_deref(), Some("/g"));
    assert!(!bony_build::bevy::remember_ready_project(&mut prefs, BevyStatus::Ready, "/g"));
}
