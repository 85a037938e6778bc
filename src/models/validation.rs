//! Input validation for domain models.

use vstd::prelude::*;
use vstd::string::*;
use crate::text::{is_blank, trim_bounds, trimmed, utf8_len, utf8_len_capped};

verus! {

/// Longest name accepted, in UTF-8 bytes.
pub const MAX_NAME_BYTES: usize = 200;

/// A rejected field and the reason.
pub struct ValidationError {
    pub field: String,
    pub message: String,
}

impl ValidationError {
    /// The error as one line: `field: message`.
    pub fn to_string(&self) -> (r: String)
        ensures
            r@ == self.field@ + ": "@ + self.message@,
    {
        let mut r = self.field.clone();
        r.append(": ");
        r.append(self.message.as_str());
        r
    }
}

pub open spec fn errors_view(es: Seq<ValidationError>) -> Seq<(Seq<char>, Seq<char>)> {
    es.map_values(|e: ValidationError| (e.field@, e.message@))
}

/// The errors of a library's name, country and era: a name that is blank or
/// over the byte limit once trimmed; a blank country; a blank era.
pub open spec fn library_errors(name: Seq<char>, country: Seq<char>, era: Seq<char>) -> Seq<
    (Seq<char>, Seq<char>),
> {
    (if trimmed(name).len() == 0 {
        seq![("name"@, "Library name cannot be empty"@)]
    } else if utf8_len(trimmed(name)) > MAX_NAME_BYTES {
        seq![("name"@, "Library name cannot exceed 200 characters"@)]
    } else {
        Seq::empty()
    }) + (if trimmed(country).len() == 0 {
        seq![("country"@, "Country cannot be empty"@)]
    } else {
        Seq::empty()
    }) + (if trimmed(era).len() == 0 {
        seq![("era"@, "Era cannot be empty"@)]
    } else {
        Seq::empty()
    })
}

/// The errors of a pair of names: both blank; either over the byte limit.
pub open spec fn branch_errors(name_ru: Seq<char>, name_en: Seq<char>) -> Seq<(Seq<char>, Seq<char>)> {
    (if trimmed(name_ru).len() == 0 && trimmed(name_en).len() == 0 {
        seq![("name"@, "At least one name (Russian or English) must be provided"@)]
    } else {
        Seq::empty()
    }) + (if utf8_len(name_ru) > MAX_NAME_BYTES {
        seq![("name_ru"@, "Russian name cannot exceed 200 characters"@)]
    } else {
        Seq::empty()
    }) + (if utf8_len(name_en) > MAX_NAME_BYTES {
        seq![("name_en"@, "English name cannot exceed 200 characters"@)]
    } else {
        Seq::empty()
    })
}

/// The errors of a formation level: those of its names, then a negative ordinal.
pub open spec fn formation_level_errors(name_ru: Seq<char>, name_en: Seq<char>, ordinal: i32) -> Seq<
    (Seq<char>, Seq<char>),
> {
    branch_errors(name_ru, name_en) + if ordinal < 0 {
        seq![("standard_level_ordinal"@, "Standard level ordinal cannot be negative"@)]
    } else {
        Seq::empty()
    }
}

fn push_error(errors: &mut Vec<ValidationError>, field: &str, message: &str)
    ensures
        errors_view(final(errors)@) == errors_view(old(errors)@).push((field@, message@)),
{
    errors.push(ValidationError { field: String::from_str(field), message: String::from_str(message) });
    assert(errors_view(final(errors)@) =~= errors_view(old(errors)@).push((field@, message@)));
}

/// Validates a library before creation or update.
pub fn validate_library(name: &str, country: &str, era: &str) -> (r: Vec<ValidationError>)
    ensures
        errors_view(r@) == library_errors(name@, country@, era@),
{
    let mut errors: Vec<ValidationError> = Vec::new();
    let ghost e0 = errors_view(errors@);
    let (a, b) = trim_bounds(name);
    if a == b {
        push_error(&mut errors, "name", "Library name cannot be empty");
    } else if utf8_len_capped(name, a, b, MAX_NAME_BYTES) > MAX_NAME_BYTES {
        push_error(&mut errors, "name", "Library name cannot exceed 200 characters");
    }
    let ghost e1 = errors_view(errors@);
    if is_blank(country) {
        push_error(&mut errors, "country", "Country cannot be empty");
    }
    let ghost e2 = errors_view(errors@);
    if is_blank(era) {
        push_error(&mut errors, "era", "Era cannot be empty");
    }
    assert(e0 =~= Seq::empty());
    assert(errors_view(errors@) =~= library_errors(name@, country@, era@));
    errors
}

/// Validates a pair of branch names.
pub fn validate_branch(name_ru: &str, name_en: &str) -> (r: Vec<ValidationError>)
    ensures
        errors_view(r@) == branch_errors(name_ru@, name_en@),
{
    let mut errors: Vec<ValidationError> = Vec::new();
    let ghost e0 = errors_view(errors@);
    if is_blank(name_ru) && is_blank(name_en) {
        push_error(&mut errors, "name", "At least one name (Russian or English) must be provided");
    }
    assert(name_ru@.subrange(0, name_ru@.len() as int) =~= name_ru@);
    assert(name_en@.subrange(0, name_en@.len() as int) =~= name_en@);
    if utf8_len_capped(name_ru, 0, name_ru.unicode_len(), MAX_NAME_BYTES) > MAX_NAME_BYTES {
        push_error(&mut errors, "name_ru", "Russian name cannot exceed 200 characters");
    }
    if utf8_len_capped(name_en, 0, name_en.unicode_len(), MAX_NAME_BYTES) > MAX_NAME_BYTES {
        push_error(&mut errors, "name_en", "English name cannot exceed 200 characters");
    }
    assert(e0 =~= Seq::empty());
    assert(errors_view(errors@) =~= branch_errors(name_ru@, name_en@));
    errors
}

/// Validates a formation level: its names, then its ordinal.
pub fn validate_formation_level(name_ru: &str, name_en: &str, ordinal: i32) -> (r: Vec<
    ValidationError,
>)
    ensures
        errors_view(r@) == formation_level_errors(name_ru@, name_en@, ordinal),
{
    let mut errors = validate_branch(name_ru, name_en);
    if ordinal < 0 {
        push_error(&mut errors, "standard_level_ordinal", "Standard level ordinal cannot be negative");
    }
    assert(errors_view(errors@) =~= formation_level_errors(name_ru@, name_en@, ordinal));
    errors
}

} // verus!
