use bony_build::task_list::{
    canonical_project_root, display_task_title, is_placeholder_task_title, looks_like_short_id,
    normalize_path_key, project_group_key, short_status, truncate_chip_label, TaskListFilter,
    TaskStatus,
};

#[test]
fn filters_select_statuses() {
    assert!(TaskListFilter::All.matches(TaskStatus::Running));
    assert!(!TaskListFilter::All.matches(TaskStatus::Archived));
    assert!(TaskListFilter::Active.matches(TaskStatus::Draft));
    assert!(!TaskListFilter::Active.matches(TaskStatus::Completed));
    assert!(TaskListFilter::Archived.matches(TaskStatus::Archived));
    assert_eq!(TaskListFilter::WaitingApproval.label(), "待审批");
}

#[test]
fn path_keys_ignore_slash_style_and_case() {
    assert_eq!(normalize_path_key("C:\\Users\\Me\\Proj\\"), "c:/users/me/proj");
    assert_eq!(project_group_key("/a/B//"), "/a/b");
    assert_eq!(normalize_path_key("/a/b/"), normalize_path_key("/a/b"));
}

#[test]
fn project_root_fallbacks() {
    assert_eq!(canonical_project_root(Some("/main".into()), Some("/wt".into()), "/wt/sub"), "/main");
    assert_eq!(canonical_project_root(None, Some("/wt".into()), "/wt/sub"), "/wt");
    assert_eq!(canonical_project_root(None, None, "/x"), "/x");
}

#[test]
fn titles() {
    assert!(is_placeholder_task_title("  新对话 "));
    assert!(!is_placeholder_task_title("修复登录"));
    assert!(looks_like_short_id(" a1b2c3d4 "));
    assert!(!looks_like_short_id("a1b2c3"));
    assert!(!looks_like_short_id("a1b2c3d4z"));
    assert_eq!(display_task_title("deadbeef01"), "未命名对话");
    assert_eq!(display_task_title(""), "未命名对话");
    assert_eq!(display_task_title("  修复登录  "), "修复登录");
    let long = "x".repeat(40);
    assert_eq!(display_task_title(&long).chars().count(), 36);
}

#[test]
fn chip_labels_and_statuses() {
    assert_eq!(truncate_chip_label("abcdef", 3), "abc…");
    assert_eq!(truncate_chip_label("abc", 3), "abc");
    assert_eq!(short_status("ToolCallStatus::Completed"), "完成");
    assert_eq!(short_status("started"), "运行中");
    assert_eq!(short_status("Error: x"), "失败");
    assert_eq!(short_status("pending"), "pending");
}

use bony_build::task_list::{conversation_groups, TaskRow};

fn row(id: &str, title: &str, root: &str, status: TaskStatus, from_new_chat: bool) -> TaskRow {
    TaskRow { id: id.into(), title: title.into(), root: root.into(), status, from_new_chat }
}

#[test]
fn groups_follow_first_appearance_and_statuses() {
    let recent = vec!["/p/B".to_string(), "/p/a".to_string()];
    let tasks = vec![
        row("1", "Fix login", "/p/a/", TaskStatus::Running, false),
        row("2", "Old work", "/p/A", TaskStatus::Archived, false),
        row("3", "Chat", "/p/a", TaskStatus::Draft, true),
        row("4", "Build C", "/p/c", TaskStatus::Completed, false),
    ];
    let gs = conversation_groups(&recent, &tasks, TaskListFilter::All, "", false, Some("4"), None);
    assert_eq!(gs.len(), 3);
    assert_eq!(gs[0].project_path, "/p/B");
    assert!(gs[0].tasks.is_empty());
    assert_eq!(gs[1].project_path, "/p/a");
    assert_eq!(gs[1].tasks, vec![0]);
    assert_eq!(gs[1].archived, vec![1]);
    assert_eq!(gs[2].project_path, "/p/c");
    assert_eq!(gs[2].tasks, vec![3]);
    assert!(gs[2].is_current);
    assert!(!gs[1].is_current);
}

#[test]
fn search_keeps_only_groups_with_matches() {
    let recent = vec!["/p/a".to_string(), "/p/b".to_string()];
    let tasks = vec![
        row("1", "Fix LOGIN", "/p/a", TaskStatus::Running, false),
        row("2", "Other", "/p/b", TaskStatus::Running, false),
    ];
    let gs = conversation_groups(&recent, &tasks, TaskListFilter::All, "login", false, None, Some("/p/b"));
    assert_eq!(gs.len(), 1);
    assert_eq!(gs[0].project_path, "/p/a");
    assert!(!gs[0].is_current);
    let archived = conversation_groups(&recent, &tasks, TaskListFilter::Archived, "", true, None, None);
    assert!(archived.is_empty());
}
