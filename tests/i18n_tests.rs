use toeditor::config::Settings;
use toeditor::i18n::{ui_tr, Language, TranslationManager};

#[test]
fn app_test_language_switching_callback_setup() {
    let lang = Language::from_code("ru");
    assert_eq!(lang, Language::Russian);
    let lang_en = Language::from_code("en");
    assert_eq!(lang_en, Language::English);
    let lang_default = Language::from_code("unknown");
    assert_eq!(lang_default, Language::English);
}

#[test]
fn app_test_language_codes() {
    assert_eq!(Language::English.code(), "en");
    assert_eq!(Language::Russian.code(), "ru");
}

#[test]
fn app_test_language_names() {
    assert_eq!(Language::English.name(), "English");
    assert_eq!(Language::Russian.name(), "Русский");
}

#[test]
fn translations_test_language_switching_callback_setup() {
    let lang = Language::from_code("ru");
    assert_eq!(lang, Language::Russian);
    let lang_en = Language::from_code("en");
    assert_eq!(lang_en, Language::English);
    let lang_default = Language::from_code("unknown");
    assert_eq!(lang_default, Language::English);
}

#[test]
fn translations_test_language_codes() {
    assert_eq!(Language::English.code(), "en");
    assert_eq!(Language::Russian.code(), "ru");
}

#[test]
fn translations_test_language_names() {
    assert_eq!(Language::English.name(), "English");
    assert_eq!(Language::Russian.name(), "Русский");
}

#[test]
fn test_ui_tr_english_returns_key() {
    assert_eq!(ui_tr("en", "New Library"), "New Library");
    assert_eq!(ui_tr("en", "File"), "File");
    assert_eq!(ui_tr("en", "Close"), "Close");
    assert_eq!(ui_tr("en", "Unknown Key"), "Unknown Key");
}

#[test]
fn test_ui_tr_russian_known_keys() {
    assert_eq!(ui_tr("ru", "New Library"), "Новая библиотека");
    assert_eq!(ui_tr("ru", "File"), "Файл");
    assert_eq!(ui_tr("ru", "Close"), "Закрыть");
    assert_eq!(ui_tr("ru", "Delete"), "Удалить");
    assert_eq!(ui_tr("ru", "Library"), "Библиотека");
    assert_eq!(ui_tr("ru", "Formation levels"), "Уровни формирований");
    assert_eq!(ui_tr("ru", "Branches…"), "Роды войск…");
    assert_eq!(ui_tr("ru", "Branch categories…"), "Категории родов войск…");
    assert_eq!(ui_tr("ru", "Category"), "Категория");
    assert_eq!(ui_tr("ru", "Add"), "Добавить");
}

#[test]
fn test_ui_tr_russian_unknown_key_returns_key() {
    assert_eq!(ui_tr("ru", "This key does not exist"), "This key does not exist");
}

#[test]
fn test_ui_tr_other_language_returns_key() {
    assert_eq!(ui_tr("fr", "New Library"), "New Library");
    assert_eq!(ui_tr("de", "File"), "File");
}

#[test]
fn test_ui_tr_menu_items() {
    assert_eq!(ui_tr("ru", "Export…"), "Экспорт…");
    assert_eq!(ui_tr("ru", "Import…"), "Импорт…");
    assert_eq!(ui_tr("ru", "Copy from library"), "Копировать из библиотеки");
    assert_eq!(ui_tr("ru", "Name (Russian)"), "Название (рус.)");
    assert_eq!(ui_tr("ru", "Name (English)"), "Название (англ.)");
}

#[test]
fn config_test_default_settings() {
    let settings = Settings::default();
    assert_eq!(settings.symbol_style, "NATO");
    assert_eq!(settings.language, "en");
}

#[test]
fn config_tests_test_default_settings() {
    let settings = Settings::default();
    assert_eq!(settings.symbol_style, "NATO");
    assert_eq!(settings.color_scheme, "light");
    assert_eq!(settings.language, "en");
    assert!(settings.database_path.is_none());
}

#[test]
fn test_settings_default() {
    let settings = Settings::default();
    assert_eq!(settings.symbol_style, "NATO");
    assert_eq!(settings.color_scheme, "light");
    assert_eq!(settings.language, "en");
    assert_eq!(settings.database_path, None);
}

#[test]
fn test_translation_manager_new() {
    let tm = TranslationManager::new();
    assert_eq!(tm.current_language(), Language::English);
}

#[test]
fn test_translation_manager_default() {
    let tm = TranslationManager::default();
    assert_eq!(tm.current_language(), Language::English);
}

#[test]
fn test_translation_manager_set_language() {
    let mut tm = TranslationManager::new();
    assert_eq!(tm.current_language(), Language::English);
    tm.set_language(Language::Russian);
    assert_eq!(tm.current_language(), Language::Russian);
    tm.set_language(Language::English);
    assert_eq!(tm.current_language(), Language::English);
}

#[test]
fn test_translation_manager_load_from_settings() {
    let mut tm = TranslationManager::new();
    let result = tm.load_from_settings(None);
    assert!(result.is_ok());
}

#[test]
fn translation_manager_takes_language_from_settings() {
    let mut tm = TranslationManager::new();
    let mut settings = Settings::default();
    settings.language = "ru".to_string();
    assert!(tm.load_from_settings(Some(&settings)).is_ok());
    assert_eq!(tm.current_language(), Language::Russian);
    assert!(tm.load_from_settings(None).is_ok());
    assert_eq!(tm.current_language(), Language::Russian);
}

#[test]
fn test_language_code() {
    assert_eq!(Language::English.code(), "en");
    assert_eq!(Language::Russian.code(), "ru");
}

#[test]
fn test_language_name() {
    assert_eq!(Language::English.name(), "English");
    assert_eq!(Language::Russian.name(), "Русский");
}

#[test]
fn i18n_comprehensive_tests_test_language_from_code() {
    assert_eq!(Language::from_code("en"), Language::English);
    assert_eq!(Language::from_code("ru"), Language::Russian);
    assert_eq!(Language::from_code("unknown"), Language::English);
    assert_eq!(Language::from_code(""), Language::English);
    assert_eq!(Language::from_code("FR"), Language::English);
}

#[test]
fn test_language_equality() {
    assert_eq!(Language::English, Language::English);
    assert_eq!(Language::Russian, Language::Russian);
    assert_ne!(Language::English, Language::Russian);
}

#[test]
fn test_language_enum() {
    let en = Language::English;
    let ru = Language::Russian;
    assert_eq!(en.code(), "en");
    assert_eq!(ru.code(), "ru");
    assert_eq!(en.name(), "English");
    assert_eq!(ru.name(), "Русский");
}

#[test]
fn menu_tests_test_language_from_code() {
    assert_eq!(Language::from_code("en"), Language::English);
    assert_eq!(Language::from_code("ru"), Language::Russian);
    assert_eq!(Language::from_code("unknown"), Language::English);
    assert_eq!(Language::from_code(""), Language::English);
}

#[test]
fn test_language_switching_logic() {
    let test_cases = vec![
        ("en", Language::English),
        ("ru", Language::Russian),
        ("EN", Language::English),
        ("RU", Language::English),
    ];
    for (code, expected) in test_cases {
        let result = Language::from_code(code);
        assert_eq!(result, expected, "Failed for code: {}", code);
    }
}
