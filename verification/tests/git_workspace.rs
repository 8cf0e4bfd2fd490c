use bony_build::git::{git_write, parse_porcelain_z, slug, ChangeKind, GitOutput, GitWorkspaceService};
use std::path::Path;

#[test]
fn parses_changes() {
    let rows = parse_porcelain_z(" M src/a.rs\0?? new.txt\0R  next.rs\0old.rs\0").unwrap();
    assert_eq!(rows.len(), 3);
    assert_eq!(rows[1].kind, ChangeKind::Untracked);
    assert_eq!(rows[2].old_path.as_deref().map(Path::new), Some(Path::new("old.rs")));
}

#[test]
fn safe_slug() {
    assert_eq!(slug("Fix: login flow!"), "fix-login-flow");
    assert_eq!(slug("中文"), "task");
}

#[test]
fn short_record_is_refused() {
    assert!(parse_porcelain_z("M\0").is_err());
}

#[test]
fn working_copy_rows_are_merged_per_path() {
    let out = GitOutput {
        success: true,
        stdout: "M  a.rs\0 M a.rs\0?? b.txt\0".into(),
        stderr: String::new(),
    };
    let rows = GitWorkspaceService::changes(&out).unwrap();
    assert_eq!(rows.len(), 2);
    assert_eq!(rows[0].path, "a.rs");
    assert!(rows[0].staged);
    assert_eq!(rows[1].kind, ChangeKind::Untracked);
}

#[test]
fn write_outcome() {
    let ok = GitOutput { success: true, stdout: String::new(), stderr: String::new() };
    assert!(git_write(&ok).is_ok());
    let bad = GitOutput { success: false, stdout: String::new(), stderr: "fatal".into() };
    assert_eq!(git_write(&bad).unwrap_err(), "fatal");
}

#[test]
fn stage_arguments() {
    assert_eq!(GitWorkspaceService::stage("a b.rs"), vec!["add", "--", "a b.rs"]);
    assert_eq!(GitWorkspaceService::unstage("x"), vec!["restore", "--staged", "--", "x"]);
}

#[test]
fn repository_roots_from_git_output() {
    let common = GitOutput { success: true, stdout: "/repo/.git\n".into(), stderr: String::new() };
    assert_eq!(GitWorkspaceService::primary_repo_root(&common).as_deref(), Some("/repo"));
    let top = GitOutput { success: true, stdout: " /repo/wt \n".into(), stderr: String::new() };
    assert_eq!(GitWorkspaceService::repo_root(&top).as_deref(), Some("/repo/wt"));
    let outside = GitOutput { success: false, stdout: String::new(), stderr: "fatal".into() };
    assert!(GitWorkspaceService::primary_repo_root(&outside).is_none());
}

#[test]
fn slugs_are_branch_safe() {
    assert_eq!(slug("--Hello, World!! 2024--"), "hello-world-2024");
    assert_eq!(slug("!!!"), "task");
    assert_eq!(slug("a b c d e f g"), "a-b-c-d-e");
}

#[test]
fn parsable_listings() {
    assert!(bony_build::git::porcelain_parsable(" M src/a.rs\0?? new.txt\0"));
    assert!(bony_build::git::porcelain_parsable("R  n.rs\0a中.rs\0"));
    assert!(!bony_build::git::porcelain_parsable("a中.rs\0"));
}

use bony_build::git::worktree_parent_candidates;

#[test]
fn worktree_parents_beside_the_repository() {
    let expected = Path::new("/tmp/x").join(".bwt").display().to_string();
    assert_eq!(worktree_parent_candidates("/tmp/x/repo", false), vec![expected.clone()]);
    let both = worktree_parent_candidates("/tmp/x/repo", true);
    assert_eq!(both.len(), 2);
    assert!(both[0].ends_with("\\tmp\\bwt"));
    assert_eq!(both[1], expected);
    assert_eq!(worktree_parent_candidates("", true)[0], "C:\\tmp\\bwt");
}

#[test]
fn untracked_files_are_diffed_whole() {
    assert_eq!(
        GitWorkspaceService::untracked_args("a.txt"),
        vec!["ls-files", "--others", "--exclude-standard", "--", "a.txt"]
    );
    let listed = |ok: bool, out: &str| GitOutput { success: ok, stdout: out.into(), stderr: "bad".into() };
    assert!(GitWorkspaceService::is_untracked(&listed(true, "a.txt\n")));
    assert!(!GitWorkspaceService::is_untracked(&listed(true, "\n")));
    assert!(!GitWorkspaceService::is_untracked(&listed(false, "a.txt")));
    assert_eq!(
        GitWorkspaceService::untracked_diff_args("a.txt"),
        vec!["diff", "--no-ext-diff", "--no-color", "--no-index", "--", "/dev/null", "a.txt"]
    );
    assert_eq!(GitWorkspaceService::untracked_diff(&listed(false, "+hello\n")), Ok("+hello\n".to_string()));
    assert_eq!(GitWorkspaceService::untracked_diff(&listed(false, "")), Err("bad".to_string()));
    assert_eq!(GitWorkspaceService::untracked_diff(&listed(true, "")), Ok(String::new()));
}

use bony_build::git::{RestoreStep, WorkingDiffStage, WorkingDiffStep};

fn output(ok: bool, out: &str, err: &str) -> GitOutput {
    GitOutput { success: ok, stdout: out.into(), stderr: err.into() }
}

fn run_args(step: &WorkingDiffStep) -> (WorkingDiffStage, Vec<String>) {
    match step {
        WorkingDiffStep::Run { stage, args } => (*stage, args.clone()),
        WorkingDiffStep::Done(_) => panic!("expected a command"),
    }
}

#[test]
fn working_diff_steps_through_its_fallbacks() {
    let svc = GitWorkspaceService::working_diff_step;
    let begin = GitWorkspaceService::working_diff_begin("a.txt");
    assert_eq!(run_args(&begin), (WorkingDiffStage::Worktree, GitWorkspaceService::diff_args(Some("a.txt"), false)));
    match svc("a.txt", WorkingDiffStage::Worktree, &output(true, "+x\n", "")) {
        WorkingDiffStep::Done(r) => assert_eq!(r, Ok("+x\n".to_string())),
        _ => panic!("a worktree diff decides"),
    }
    match svc("a.txt", WorkingDiffStage::Worktree, &output(false, "", "fatal")) {
        WorkingDiffStep::Done(r) => assert_eq!(r, Err("fatal".to_string())),
        _ => panic!("an error decides"),
    }
    let listing = svc("a.txt", WorkingDiffStage::Worktree, &output(true, " \n", ""));
    assert_eq!(run_args(&listing), (WorkingDiffStage::Listing, GitWorkspaceService::untracked_args("a.txt")));
    let whole = svc("a.txt", WorkingDiffStage::Listing, &output(true, "a.txt\n", ""));
    assert_eq!(run_args(&whole), (WorkingDiffStage::WholeFile, GitWorkspaceService::untracked_diff_args("a.txt")));
    let staged = svc("a.txt", WorkingDiffStage::Listing, &output(true, "", ""));
    assert_eq!(run_args(&staged), (WorkingDiffStage::Staged, GitWorkspaceService::diff_args(Some("a.txt"), true)));
    match svc("a.txt", WorkingDiffStage::WholeFile, &output(false, "+new\n", "")) {
        WorkingDiffStep::Done(r) => assert_eq!(r, Ok("+new\n".to_string())),
        _ => panic!("the whole-file diff ends it"),
    }
    match svc("a.txt", WorkingDiffStage::Staged, &output(true, "", "")) {
        WorkingDiffStep::Done(r) => assert_eq!(r, Ok(String::new())),
        _ => panic!("the staged diff ends it"),
    }
}

#[test]
fn restore_falls_back_to_clean() {
    assert!(matches!(
        GitWorkspaceService::restore_step("f", &Ok(output(true, "", ""))),
        RestoreStep::Restored
    ));
    match GitWorkspaceService::restore_step("f", &Ok(output(false, "", "no such path"))) {
        RestoreStep::Clean(args) => assert_eq!(args, vec!["clean", "-f", "--", "f"]),
        RestoreStep::Restored => panic!("a failed restore cleans"),
    }
    assert!(matches!(GitWorkspaceService::restore_step("f", &Err("spawn".into())), RestoreStep::Clean(_)));
    assert_eq!(GitWorkspaceService::restore_finish(Ok(output(true, "", ""))), Ok(()));
    assert_eq!(GitWorkspaceService::restore_finish(Ok(output(false, "", "bad"))), Err("bad".to_string()));
    assert_eq!(GitWorkspaceService::restore_finish(Err("spawn".into())), Err("spawn".to_string()));
}

#[test]
fn worktree_directory_and_commands() {
    let parents = worktree_parent_candidates("/tmp/x/repo", false);
    let w = GitWorkspaceService::worktree_at(&parents[0], "0123abcd", "codex/test-task-0123abcd".into());
    let expected = Path::new("/tmp/x/repo").parent().unwrap().join(".bwt").join("0123abcd");
    assert_eq!(w.path, expected.display().to_string());
    assert_eq!(w.branch, "codex/test-task-0123abcd");
    assert_eq!(
        GitWorkspaceService::branch_exists_args("codex/a-1"),
        vec!["show-ref", "--verify", "--quiet", "refs/heads/codex/a-1"]
    );
    assert_eq!(
        GitWorkspaceService::worktree_add_args("codex/a-1", "/p/.bwt/1"),
        vec!["-c", "core.longpaths=true", "worktree", "add", "-b", "codex/a-1", "/p/.bwt/1", "HEAD"]
    );
}

#[test]
fn a_conflict_once_seen_stays_and_staging_accumulates() {
    let out = output(true, "UU c.rs\0 M c.rs\0 M d.rs\0A  d.rs\0", "");
    let rows = GitWorkspaceService::changes(&out).unwrap();
    assert_eq!(rows.len(), 2);
    assert_eq!(rows[0].kind, ChangeKind::Conflicted);
    assert!(rows[0].staged);
    assert_eq!(rows[1].path, "d.rs");
    assert!(rows[1].staged);
}

#[test]
fn one_row_per_record_without_renames() {
    let rows = parse_porcelain_z(" M a\0 D b\0?? c\0").unwrap();
    assert_eq!(rows.len(), 3);
    let rows = parse_porcelain_z("R  new\0old\0 M a\0").unwrap();
    assert_eq!(rows.len(), 2);
    assert!(parse_porcelain_z(" M a\0ab\0").is_err());
}
