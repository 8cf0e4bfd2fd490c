use bony_build::i18n::{langid_language, Language, LocaleEnv};

fn env() -> LocaleEnv {
    LocaleEnv { bony_lang: None, lang: None, lc_all: None, lc_messages: None, ui_langid: None }
}

#[test]
fn tags_name_languages() {
    assert_eq!(Language::from_tag(" zh_CN.UTF-8"), Some(Language::Zh));
    assert_eq!(Language::from_tag("English"), Some(Language::En));
    assert_eq!(Language::from_tag("fr_FR"), None);
    assert_eq!(Language::from_tag("  "), None);
}

#[test]
fn detect_order() {
    assert_eq!(Language::detect(&env()), Language::Zh);
    let lang_en = LocaleEnv { lang: Some("en_US.UTF-8".into()), ..env() };
    assert_eq!(Language::detect(&lang_en), Language::En);
    let override_bad = LocaleEnv { bony_lang: Some("fr".into()), lang: Some("en_US".into()), ..env() };
    assert_eq!(Language::detect(&override_bad), Language::Zh);
    let later = LocaleEnv { lang: Some("C".into()), lc_messages: Some("en".into()), ..env() };
    assert_eq!(Language::detect(&later), Language::En);
    let windows = LocaleEnv { ui_langid: Some(0x0409), ..env() };
    assert_eq!(Language::detect(&windows), Language::En);
}

#[test]
fn windows_language_ids() {
    assert_eq!(langid_language(0x0804), Some(Language::Zh));
    assert_eq!(langid_language(0x0409), Some(Language::En));
    assert_eq!(langid_language(0x0407), None);
}

#[test]
fn messages_by_language() {
    assert_eq!(bony_build::i18n::t(Language::En, "menu.file"), "File");
    assert_eq!(bony_build::i18n::t(Language::Zh, "menu.file"), "文件");
}
