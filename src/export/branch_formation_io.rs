//! Per-library branches, categories and formation levels, as exchanged
//! between libraries and files.

use vstd::prelude::*;
use crate::models::branch::{Branch, BranchCategory};
use crate::models::formation_level::CustomFormationLevel;

verus! {

/// A branch as written to a file: its names only.
pub struct BranchExport {
    pub name_ru: String,
    pub name_en: String,
}

/// A formation level as written to a file.
pub struct FormationLevelExport {
    pub name_ru: String,
    pub name_en: String,
    pub standard_level_ordinal: i32,
}

/// A branch category as written to a file: its names only.
pub struct BranchCategoryExport {
    pub name_ru: String,
    pub name_en: String,
}

/// The file records of a list of branches, in order.
pub fn branch_exports(branches: &Vec<Branch>) -> (r: Vec<BranchExport>)
    ensures
        r@.len() == branches@.len(),
        forall|i: int|
            0 <= i < branches@.len() ==> (#[trigger] r@[i]).name_ru@ == branches@[i].name_ru@
                && r@[i].name_en@ == branches@[i].name_en@,
{
    let mut r: Vec<BranchExport> = Vec::new();
    let mut i: usize = 0;
    while i < branches.len()
        invariant
            i <= branches@.len(),
            r@.len() == i,
            forall|j: int|
                0 <= j < i ==> (#[trigger] r@[j]).name_ru@ == branches@[j].name_ru@ && r@[j].name_en@
                    == branches@[j].name_en@,
        decreases branches@.len() - i,
    {
        let b = &branches[i];
        r.push(BranchExport { name_ru: b.name_ru.clone(), name_en: b.name_en.clone() });
        i = i + 1;
    }
    r
}

/// The file records of a list of branch categories, in order.
pub fn category_exports(categories: &Vec<BranchCategory>) -> (r: Vec<BranchCategoryExport>)
    ensures
        r@.len() == categories@.len(),
        forall|i: int|
            0 <= i < categories@.len() ==> (#[trigger] r@[i]).name_ru@ == categories@[i].name_ru@
                && r@[i].name_en@ == categories@[i].name_en@,
{
    let mut r: Vec<BranchCategoryExport> = Vec::new();
    let mut i: usize = 0;
    while i < categories.len()
        invariant
            i <= categories@.len(),
            r@.len() == i,
            forall|j: int|
                0 <= j < i ==> (#[trigger] r@[j]).name_ru@ == categories@[j].name_ru@ && r@[j].name_en@
                    == categories@[j].name_en@,
        decreases categories@.len() - i,
    {
        let c = &categories[i];
        r.push(BranchCategoryExport { name_ru: c.name_ru.clone(), name_en: c.name_en.clone() });
        i = i + 1;
    }
    r
}

/// The file records of a list of formation levels, in order.
pub fn formation_level_exports(levels: &Vec<CustomFormationLevel>) -> (r: Vec<FormationLevelExport>)
    ensures
        r@.len() == levels@.len(),
        forall|i: int|
            0 <= i < levels@.len() ==> (#[trigger] r@[i]).name_ru@ == levels@[i].name_ru@ && r@[i].name_en@
                == levels@[i].name_en@ && r@[i].standard_level_ordinal == levels@[i].standard_level_ordinal,
{
    let mut r: Vec<FormationLevelExport> = Vec::new();
    let mut i: usize = 0;
    while i < levels.len()
        invariant
            i <= levels@.len(),
            r@.len() == i,
            forall|j: int|
                0 <= j < i ==> (#[trigger] r@[j]).name_ru@ == levels@[j].name_ru@ && r@[j].name_en@
                    == levels@[j].name_en@ && r@[j].standard_level_ordinal == levels@[j].standard_level_ordinal,
        decreases levels@.len() - i,
    {
        let l = &levels[i];
        r.push(
            FormationLevelExport {
                name_ru: l.name_ru.clone(),
                name_en: l.name_en.clone(),
                standard_level_ordinal: l.standard_level_ordinal,
            },
        );
        i = i + 1;
    }
    r
}

/// Copies of a library's branches for another library: not yet stored, and
/// without category, since the target library has categories of its own.
pub fn branches_for_library(source: &Vec<Branch>, target_library_id: i64) -> (r: Vec<Branch>)
    ensures
        r@.len() == source@.len(),
        forall|i: int|
            0 <= i < source@.len() ==> {
                let b = #[trigger] r@[i];
                &&& b.id is None
                &&& b.library_id == target_library_id
                &&& b.category_id is None
                &&& b.name_ru@ == source@[i].name_ru@
                &&& b.name_en@ == source@[i].name_en@
            },
{
    let mut r: Vec<Branch> = Vec::new();
    let mut i: usize = 0;
    while i < source.len()
        invariant
            i <= source@.len(),
            r@.len() == i,
            forall|j: int|
                0 <= j < i ==> {
                    let b = #[trigger] r@[j];
                    &&& b.id is None
                    &&& b.library_id == target_library_id
                    &&& b.category_id is None
                    &&& b.name_ru@ == source@[j].name_ru@
                    &&& b.name_en@ == source@[j].name_en@
                },
        decreases source@.len() - i,
    {
        let b = &source[i];
        r.push(Branch::new(target_library_id, b.name_ru.clone(), b.name_en.clone()));
        i = i + 1;
    }
    r
}

/// Copies of a library's branch categories for another library, not yet stored.
pub fn categories_for_library(source: &Vec<BranchCategory>, target_library_id: i64) -> (r: Vec<
    BranchCategory,
>)
    ensures
        r@.len() == source@.len(),
        forall|i: int|
            0 <= i < source@.len() ==> {
                let c = #[trigger] r@[i];
                &&& c.id is None
                &&& c.library_id == target_library_id
                &&& c.name_ru@ == source@[i].name_ru@
                &&& c.name_en@ == source@[i].name_en@
            },
{
    let mut r: Vec<BranchCategory> = Vec::new();
    let mut i: usize = 0;
    while i < source.len()
        invariant
            i <= source@.len(),
            r@.len() == i,
            forall|j: int|
                0 <= j < i ==> {
                    let c = #[trigger] r@[j];
                    &&& c.id is None
                    &&& c.library_id == target_library_id
                    &&& c.name_ru@ == source@[j].name_ru@
                    &&& c.name_en@ == source@[j].name_en@
                },
        decreases source@.len() - i,
    {
        let c = &source[i];
        r.push(BranchCategory::new(target_library_id, c.name_ru.clone(), c.name_en.clone()));
        i = i + 1;
    }
    r
}

/// Copies of a library's formation levels for another library, not yet stored.
pub fn formation_levels_for_library(source: &Vec<CustomFormationLevel>, target_library_id: i64) -> (r:
    Vec<CustomFormationLevel>)
    ensures
        r@.len() == source@.len(),
        forall|i: int|
            0 <= i < source@.len() ==> {
                let l = #[trigger] r@[i];
                &&& l.id is None
                &&& l.library_id == target_library_id
                &&& l.name_ru@ == source@[i].name_ru@
                &&& l.name_en@ == source@[i].name_en@
                &&& l.standard_level_ordinal == source@[i].standard_level_ordinal
            },
{
    let mut r: Vec<CustomFormationLevel> = Vec::new();
    let mut i: usize = 0;
    while i < source.len()
        invariant
            i <= source@.len(),
            r@.len() == i,
            forall|j: int|
                0 <= j < i ==> {
                    let l = #[trigger] r@[j];
                    &&& l.id is None
                    &&& l.library_id == target_library_id
                    &&& l.name_ru@ == source@[j].name_ru@
                    &&& l.name_en@ == source@[j].name_en@
                    &&& l.standard_level_ordinal == source@[j].standard_level_ordinal
                },
        decreases source@.len() - i,
    {
        let l = &source[i];
        r.push(
            CustomFormationLevel::new(
                target_library_id,
                l.name_ru.clone(),
                l.name_en.clone(),
                l.standard_level_ordinal,
            ),
        );
        i = i + 1;
    }
    r
}

} // verus!
