use bony_build::agent_config::{plan_skill_paths, sync_skill_paths_text, PathsLookup};

fn paths_of(text: &str) -> Vec<String> {
    let doc = text.parse::<toml_edit::DocumentMut>().unwrap();
    doc["skills"]["paths"]
        .as_array()
        .unwrap()
        .iter()
        .map(|v| match v.as_str() {
            Some(s) => s.to_string(),
            None => v.as_integer().map(|i| i.to_string()).unwrap_or_default(),
        })
        .collect()
}

#[test]
fn enabling_lists_the_skill_once_at_the_end() {
    let text = "[skills]\npaths = [\"/a/open-montage/SKILL.md\", \"/b/other/SKILL.md\", 3]\n";
    let out = sync_skill_paths_text(text, true, "/c/open-montage/SKILL.md", "open-montage").unwrap();
    assert_eq!(
        paths_of(&out),
        vec!["/b/other/SKILL.md".to_string(), "3".to_string(), "/c/open-montage/SKILL.md".to_string()]
    );
}

#[test]
fn disabling_takes_out_every_entry_of_the_skill() {
    let text = "[skills]\npaths = [\"C:\\\\x\\\\open-montage\", \"keep\", \"/y/open-montage/SKILL.md\"]\n";
    let out = sync_skill_paths_text(text, false, "/z/open-montage/SKILL.md", "open-montage").unwrap();
    assert_eq!(paths_of(&out), vec!["keep".to_string()]);
}

#[test]
fn other_keys_are_kept_and_a_missing_table_is_made() {
    let out = sync_skill_paths_text("[models]\ndefault = \"qwen-max\"\n", false, "/s/SKILL.md", "bevy-game-dev").unwrap();
    assert!(out.contains("qwen-max"));
    assert!(paths_of(&out).is_empty());
    let out = sync_skill_paths_text("", true, "/s/bevy-game-dev/SKILL.md", "bevy-game-dev").unwrap();
    assert_eq!(paths_of(&out), vec!["/s/bevy-game-dev/SKILL.md".to_string()]);
}

#[test]
fn malformed_configs_are_refused() {
    let e = sync_skill_paths_text("not = [toml", true, "/s/SKILL.md", "x").unwrap_err();
    assert!(e.starts_with("解析 config.toml 失败："));
    assert!(e.len() > "解析 config.toml 失败：".len());
    assert_eq!(sync_skill_paths_text("skills = 3\n", true, "/s", "x").unwrap_err(), "[skills] 不是表");
    assert_eq!(
        sync_skill_paths_text("[skills]\npaths = \"one\"\n", true, "/s", "x").unwrap_err(),
        "[skills].paths 不是数组"
    );
}

fn texts(a: &toml_edit::Array) -> Vec<Option<String>> {
    a.iter().map(|v| v.as_str().map(|s| s.to_string())).collect()
}

#[test]
fn plans_keep_other_entries_in_order() {
    let mut a = toml_edit::Array::new();
    a.push("/a/open-montage");
    a.push(7);
    a.push("notes");
    a.push("/x/open-montage/SKILL.md");
    a.push("/home/u/.bony/skills/other/SKILL.md");
    let planned = plan_skill_paths(PathsLookup::Listed(a), true, "/s/open-montage/SKILL.md", "open-montage").unwrap();
    assert_eq!(
        texts(&planned),
        vec![
            None,
            Some("notes".to_string()),
            Some("/home/u/.bony/skills/other/SKILL.md".to_string()),
            Some("/s/open-montage/SKILL.md".to_string()),
        ]
    );
    assert_eq!(planned.get(0).and_then(|v| v.as_integer()), Some(7));
    let err = |l: PathsLookup| plan_skill_paths(l, true, "/s", "x").unwrap_err();
    assert_eq!(err(PathsLookup::Unparsable("bad key".into())), "解析 config.toml 失败：bad key");
    assert_eq!(err(PathsLookup::SkillsNotTable), "[skills] 不是表");
    assert_eq!(err(PathsLookup::PathsNotArray), "[skills].paths 不是数组");
    let empty = plan_skill_paths(PathsLookup::Listed(toml_edit::Array::new()), false, "/s", "x").unwrap();
    assert!(empty.is_empty());
}

#[test]
fn the_same_path_written_differently_is_taken_out() {
    let text = "[skills]\npaths = [\"/s/./skills//mine/SKILL.md\", \"/s/skills/mine/other.md\"]\n";
    let out = sync_skill_paths_text(text, false, "/s/skills/mine/SKILL.md", "unrelated").unwrap();
    assert_eq!(paths_of(&out), vec!["/s/skills/mine/other.md".to_string()]);
}

#[test]
fn enabling_twice_lists_the_skill_once() {
    let once = sync_skill_paths_text("", true, "/s/bevy-game-dev/SKILL.md", "bevy-game-dev").unwrap();
    let twice = sync_skill_paths_text(&once, true, "/s/bevy-game-dev/SKILL.md", "bevy-game-dev").unwrap();
    assert_eq!(paths_of(&twice), vec!["/s/bevy-game-dev/SKILL.md".to_string()]);
}
