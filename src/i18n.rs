//! Interface languages and translation of interface strings.

use vstd::prelude::*;
use vstd::string::*;
use crate::config::Settings;
use crate::text::str_equal;

verus! {

/// Supported interface languages.
#[derive(Debug, Clone, Copy, PartialEq, Eq, Structural)]
pub enum Language {
    English,
    Russian,
}

/// The language of a code: Russian for exactly `ru`, English otherwise.
pub open spec fn language_of(code: Seq<char>) -> Language {
    if code == "ru"@ {
        Language::Russian
    } else {
        Language::English
    }
}

impl Language {
    /// The language's code.
    pub fn code(&self) -> (r: &'static str)
        ensures
            r@ == match *self {
                Language::English => "en"@,
                Language::Russian => "ru"@,
            },
    {
        match self {
            Language::English => "en",
            Language::Russian => "ru",
        }
    }

    /// The language's own name for itself.
    pub fn name(&self) -> (r: &'static str)
        ensures
            r@ == match *self {
                Language::English => "English"@,
                Language::Russian => "Русский"@,
            },
    {
        match self {
            Language::English => "English",
            Language::Russian => "Русский",
        }
    }

    /// The language of a code; unknown codes give English.
    pub fn from_code(code: &str) -> (r: Language)
        ensures
            r == language_of(code@),
    {
        if str_equal(code, "ru") {
            Language::Russian
        } else {
            Language::English
        }
    }
}

/// Holds the current interface language.
pub struct TranslationManager {
    current_language: Language,
}

impl TranslationManager {
    pub closed spec fn language(&self) -> Language {
        self.current_language
    }

    /// A manager set to English.
    pub fn new() -> (r: TranslationManager)
        ensures
            r.language() == Language::English,
    {
        TranslationManager { current_language: Language::English }
    }

    /// Takes the language from loaded settings; keeps the current one when
    /// no settings could be loaded.
    pub fn load_from_settings(&mut self, settings: Option<&Settings>) -> (r: Result<(), String>)
        ensures
            r is Ok,
            final(self).language() == match settings {
                Some(s) => language_of(s.language@),
                None => old(self).language(),
            },
    {
        if let Some(s) = settings {
            self.current_language = Language::from_code(s.language.as_str());
        }
        Ok(())
    }

    /// Sets the current language.
    pub fn set_language(&mut self, lang: Language)
        ensures
            final(self).language() == lang,
    {
        self.current_language = lang;
    }

    /// The current language.
    pub fn current_language(&self) -> (r: Language)
        ensures
            r == self.language(),
    {
        self.current_language
    }
}

impl Default for TranslationManager {
    fn default() -> (r: TranslationManager)
        ensures
            r.language() == Language::English,
    {
        TranslationManager::new()
    }
}

/// Russian translations of interface strings, keyed by the English text.
pub open spec fn russian_entry(i: int) -> (Seq<char>, Seq<char>) {
    if i == 0 {
        ("New Library"@, "Новая библиотека"@)
    } else if i == 1 {
        ("File"@, "Файл"@)
    } else if i == 2 {
        ("Close"@, "Закрыть"@)
    } else if i == 3 {
        ("Delete"@, "Удалить"@)
    } else if i == 4 {
        ("Library"@, "Библиотека"@)
    } else if i == 5 {
        ("Formation levels"@, "Уровни формирований"@)
    } else if i == 6 {
        ("Branches…"@, "Роды войск…"@)
    } else if i == 7 {
        ("Branch categories…"@, "Категории родов войск…"@)
    } else if i == 8 {
        ("Category"@, "Категория"@)
    } else if i == 9 {
        ("Add"@, "Добавить"@)
    } else if i == 10 {
        ("Export…"@, "Экспорт…"@)
    } else if i == 11 {
        ("Import…"@, "Импорт…"@)
    } else if i == 12 {
        ("Copy from library"@, "Копировать из библиотеки"@)
    } else if i == 13 {
        ("Name (Russian)"@, "Название (рус.)"@)
    } else {
        ("Name (English)"@, "Название (англ.)"@)
    }
}

/// Number of Russian translations.
pub const RUSSIAN_ENTRY_COUNT: usize = 15;

fn russian_pair(i: usize) -> (r: (&'static str, &'static str))
    ensures
        (r.0@, r.1@) == russian_entry(i as int),
{
    if i == 0 {
        ("New Library", "Новая библиотека")
    } else if i == 1 {
        ("File", "Файл")
    } else if i == 2 {
        ("Close", "Закрыть")
    } else if i == 3 {
        ("Delete", "Удалить")
    } else if i == 4 {
        ("Library", "Библиотека")
    } else if i == 5 {
        ("Formation levels", "Уровни формирований")
    } else if i == 6 {
        ("Branches…", "Роды войск…")
    } else if i == 7 {
        ("Branch categories…", "Категории родов войск…")
    } else if i == 8 {
        ("Category", "Категория")
    } else if i == 9 {
        ("Add", "Добавить")
    } else if i == 10 {
        ("Export…", "Экспорт…")
    } else if i == 11 {
        ("Import…", "Импорт…")
    } else if i == 12 {
        ("Copy from library", "Копировать из библиотеки")
    } else if i == 13 {
        ("Name (Russian)", "Название (рус.)")
    } else {
        ("Name (English)", "Название (англ.)")
    }
}

/// The Russian translation of `key` from the entries at or after `i`, if any.
pub open spec fn russian_from(key: Seq<char>, i: int) -> Option<Seq<char>>
    decreases RUSSIAN_ENTRY_COUNT - i,
{
    if i < 0 || i >= RUSSIAN_ENTRY_COUNT {
        None
    } else if russian_entry(i).0 == key {
        Some(russian_entry(i).1)
    } else {
        russian_from(key, i + 1)
    }
}

/// An interface string in a language: its Russian translation for `ru` when
/// there is one, the English key itself otherwise.
pub open spec fn translated(lang: Seq<char>, key: Seq<char>) -> Seq<char> {
    if lang != "ru"@ {
        key
    } else {
        match russian_from(key, 0) {
            Some(t) => t,
            None => key,
        }
    }
}

/// Translates an interface string, keyed by its English text.
pub fn ui_tr(lang: &str, key: &str) -> (r: String)
    ensures
        r@ == translated(lang@, key@),
{
    if !str_equal(lang, "ru") {
        return String::from_str(key);
    }
    let mut i: usize = 0;
    while i < RUSSIAN_ENTRY_COUNT
        invariant
            i <= RUSSIAN_ENTRY_COUNT,
            lang@ == "ru"@,
            russian_from(key@, 0) == russian_from(key@, i as int),
        decreases RUSSIAN_ENTRY_COUNT - i,
    {
        let (en, ru) = russian_pair(i);
        if str_equal(en, key) {
            return String::from_str(ru);
        }
        i = i + 1;
    }
    String::from_str(key)
}

} // verus!
