use bony_build::plugins::{is_skill_entry, path_join3, push_log, retained_skill_entries};

#[test]
fn push_log_trims_skips_blank_and_bounds() {
    let mut tail = Vec::new();
    push_log(&mut tail, "a  ".into(), 2);
    push_log(&mut tail, "   ".into(), 2);
    push_log(&mut tail, "b".into(), 2);
    push_log(&mut tail, "c\n".into(), 2);
    assert_eq!(tail, vec!["b".to_string(), "c".to_string()]);
}

#[test]
fn skill_entries_in_any_slash_style() {
    let skill = "C:\\Users\\me\\.grok\\skills\\open-montage\\SKILL.md";
    assert!(is_skill_entry("C:/Users/me/.grok/skills/open-montage/SKILL.md", skill, "open-montage"));
    assert!(is_skill_entry("/old/place/open-montage", skill, "open-montage"));
    assert!(!is_skill_entry("/x/bevy-game-dev/SKILL.md", skill, "open-montage"));
    let entries = vec![Some("/a/open-montage/SKILL.md".to_string()), None, Some("/keep".to_string())];
    assert_eq!(retained_skill_entries(&entries, skill, "open-montage"), vec![false, true, true]);
}

#[test]
fn joined_paths() {
    let p = path_join3("/a", "b", "c", "d.md");
    assert!(p == "/a/b/c/d.md" || p == "/a\\b\\c\\d.md");
    assert_eq!(path_join3("", "b", "c", "d"), format!("b{0}c{0}d", std::path::MAIN_SEPARATOR));
}

#[test]
fn plain_entries_are_judged_by_text() {
    assert!(!is_skill_entry("notes", "SKILL.md", "open-montage"));
    assert!(is_skill_entry("SKILL.md", "SKILL.md", "open-montage"));
    assert!(is_skill_entry("open-montage", "x", "open-montage") == false);
}

#[test]
fn plain_text_entries_of_other_skills_stay() {
    let entries = vec![Some("notes".to_string()), None, Some("SKILL.md".to_string())];
    assert_eq!(retained_skill_entries(&entries, "SKILL.md", "open-montage"), vec![true, true, false]);
}
