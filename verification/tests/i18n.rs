use cms_video_recorder::i18n::{is_shallow, is_tame, resolve_text, Language, Localizer, MAX_OPEN_MARKS};

fn sources() -> Vec<String> {
    vec![
        "btn-record = 录制\nstatus-saved = 已保存 { $name }\nonly-zh = 仅中文\nblank = { \"\" }\n".to_string(),
        "btn-record = 錄製\n".to_string(),
        "btn-record = Record\nstatus-saved = Saved { $name }\nonly-en = English only\n".to_string(),
    ]
}

#[test]
fn language_codes_round_trip() {
    for language in Language::all() {
        assert_eq!(Language::from_code(language.code()), Some(language));
        assert_eq!(Language::from_index(language.index()), language);
    }
    assert_eq!(Language::SimplifiedChinese.code(), "zh-CN");
    assert_eq!(Language::TraditionalChinese.code(), "zh-TW");
    assert_eq!(Language::English.code(), "en");
    assert_eq!(Language::English.label(), "English");
    assert_eq!(Language::TraditionalChinese.label(), "繁體中文");
}

#[test]
fn locales_map_to_languages() {
    assert_eq!(Language::from_code("en-US"), Some(Language::English));
    assert_eq!(Language::from_code("EN_gb"), Some(Language::English));
    assert_eq!(Language::from_code("zh-Hant-HK"), Some(Language::TraditionalChinese));
    assert_eq!(Language::from_code("zh_TW.UTF-8"), Some(Language::TraditionalChinese));
    assert_eq!(Language::from_code("zh-MO"), Some(Language::TraditionalChinese));
    assert_eq!(Language::from_code("zh-CN"), Some(Language::SimplifiedChinese));
    assert_eq!(Language::from_code("zh-Hans-SG"), Some(Language::SimplifiedChinese));
    assert_eq!(Language::from_code("fr-FR"), None);
    assert_eq!(Language::from_os(Some("de-DE")), Language::SimplifiedChinese);
    assert_eq!(Language::from_os(Some("en-AU")), Language::English);
    assert_eq!(Language::from_os(None), Language::SimplifiedChinese);
}

#[test]
fn resolution_prefers_selected_then_english_then_id() {
    assert_eq!(resolve_text(Some("a".to_string()), Some("b".to_string()), "id"), "a");
    assert_eq!(resolve_text(Some(String::new()), Some("b".to_string()), "id"), "b");
    assert_eq!(resolve_text(None, None, "id"), "id");
    assert_eq!(resolve_text(None, Some(String::new()), "id"), "id");
}

#[test]
fn lookups_fall_back_to_english_and_then_the_id() {
    let mut l10n = Localizer::init(Language::TraditionalChinese, sources()).unwrap();
    assert_eq!(l10n.current(), Language::TraditionalChinese);
    assert_eq!(l10n.tr("btn-record"), "錄製");
    assert_eq!(l10n.tr("only-en"), "English only");
    assert_eq!(l10n.tr("missing-id"), "missing-id");
    l10n.set(Language::SimplifiedChinese);
    assert_eq!(l10n.current(), Language::SimplifiedChinese);
    assert_eq!(l10n.tr("btn-record"), "录制");
    assert_eq!(l10n.tr("only-zh"), "仅中文");
    // A message that formats to nothing falls back too.
    assert_eq!(l10n.tr("blank"), "blank");
}

#[test]
fn arguments_are_filled_in() {
    let l10n = Localizer::init(Language::English, sources()).unwrap();
    assert_eq!(l10n.tr_arg("status-saved", "name", "clip.mp4"), "Saved \u{2068}clip.mp4\u{2069}");
    let zh = Localizer::init(Language::SimplifiedChinese, sources()).unwrap();
    assert_eq!(zh.tr_arg("status-saved", "name", "x"), "已保存 \u{2068}x\u{2069}");
}

#[test]
fn a_broken_catalog_is_reported() {
    let mut broken = sources();
    broken[1] = "this is not fluent\n".to_string();
    match Localizer::init(Language::English, broken) {
        Err(language) => assert_eq!(language, Language::TraditionalChinese),
        Ok(_) => panic!("a broken catalog must not load"),
    }
    let mut twice = sources();
    twice[2] = "a = 1\na = 2\n".to_string();
    assert!(matches!(Localizer::init(Language::English, twice), Err(Language::English)));
}

#[test]
fn counts_open_marks_against_the_bound() {
    assert!(is_shallow(""));
    assert!(is_shallow("greeting = Hello { $name }\n"));
    assert!(is_shallow(&"{".repeat(MAX_OPEN_MARKS)));
    assert!(!is_shallow(&"(".repeat(MAX_OPEN_MARKS + 1)));
    assert!(!is_shallow(&"{(".repeat(MAX_OPEN_MARKS / 2 + 1)));
    assert!(is_shallow(&"}".repeat(MAX_OPEN_MARKS * 4)));
}

#[test]
fn a_deeply_nested_catalog_is_refused() {
    let mut deep = sources();
    deep[0] = format!("a = {}\n", "{ ".repeat(300));
    match Localizer::init(Language::English, deep) {
        Err(language) => assert_eq!(language, Language::SimplifiedChinese),
        Ok(_) => panic!("a catalog nested beyond the bound must not load"),
    }
}

#[test]
fn plain_catalogs_are_tame() {
    for source in sources() {
        assert!(is_tame(&source));
    }
    assert!(is_tame("a = { \"\\u00e9\" } and { \"\\U01F60A\" }\n"));
    assert!(is_tame("n = { $count ->\n    [one] one\n   *[other] { $count } more\n}\n"));
    assert!(is_tame("l0 = x\nl1 = { l0 }{ l0 }\nm = { -brand } { 5 } { \"-\" }\n"));
}

#[test]
fn incomplete_unicode_escapes_are_refused() {
    assert!(!is_tame("a = { \"\\u00\u{e9}\" }\n"));
    assert!(!is_tame("a = { \"\\U01F6\" }\n"));
    assert!(!is_tame("a = \\u12"));
}

#[test]
fn nested_placeables_and_literal_selectors_are_refused() {
    assert!(!is_tame("m = { { l7 } }\n"));
    assert!(!is_tame("m = {\n  {$x} }\n"));
    assert!(!is_tame("m = { \"a\" ->\n   *[a] x\n}\n"));
    assert!(!is_tame("m = { 1\n ->\n   *[other] x\n}\n"));
    assert!(!is_tame("m = { -1.5->\n   *[other] x\n}\n"));
}

#[test]
fn an_untame_catalog_is_refused() {
    let mut chain = String::from("l0 = x\n");
    for level in 1..8 {
        chain.push_str(&format!("l{level} = {{ l{} }}{{ l{} }}\n", level - 1, level - 1));
    }
    chain.push_str("m = { { l7 } }\n");
    let mut doubled = sources();
    doubled[1] = chain;
    assert!(matches!(Localizer::init(Language::English, doubled), Err(Language::TraditionalChinese)));

    let mut escape = sources();
    escape[2] = "a = { \"\\u00\u{e9}\" }\n".to_string();
    assert!(matches!(Localizer::init(Language::English, escape), Err(Language::English)));
}

#[test]
fn escapes_in_a_tame_catalog_are_formatted() {
    let mut catalogs = sources();
    catalogs[2].push_str("accent = caf{ \"\\u00e9\" }\n");
    let l10n = Localizer::init(Language::English, catalogs).unwrap();
    assert_eq!(l10n.tr("accent"), "café");
}
