//! Branches of service and their categories, per library.

use vstd::prelude::*;
use vstd::string::*;

verus! {

/// A branch of service of a library (infantry, armor, ...).
pub struct Branch {
    pub id: Option<i64>,
    pub library_id: i64,
    pub category_id: Option<i64>,
    pub name_ru: String,
    pub name_en: String,
}

/// A category of branches of a library (combat, air defense, ...).
pub struct BranchCategory {
    pub id: Option<i64>,
    pub library_id: i64,
    pub name_ru: String,
    pub name_en: String,
}

impl Branch {
    /// A branch without category, not yet stored.
    pub fn new(library_id: i64, name_ru: String, name_en: String) -> (r: Branch)
        ensures
            r.id is None,
            r.library_id == library_id,
            r.category_id is None,
            r.name_ru@ == name_ru@,
            r.name_en@ == name_en@,
    {
        Branch { id: None, library_id, category_id: None, name_ru, name_en }
    }

    /// A branch with an optional category, not yet stored.
    pub fn with_category(library_id: i64, category_id: Option<i64>, name_ru: String, name_en: String) -> (r:
        Branch)
        ensures
            r.id is None,
            r.library_id == library_id,
            r.category_id == category_id,
            r.name_ru@ == name_ru@,
            r.name_en@ == name_en@,
    {
        Branch { id: None, library_id, category_id, name_ru, name_en }
    }
}

impl BranchCategory {
    /// A category not yet stored.
    pub fn new(library_id: i64, name_ru: String, name_en: String) -> (r: BranchCategory)
        ensures
            r.id is None,
            r.library_id == library_id,
            r.name_ru@ == name_ru@,
            r.name_en@ == name_en@,
    {
        BranchCategory { id: None, library_id, name_ru, name_en }
    }
}

/// Number of default branch categories.
pub const DEFAULT_CATEGORY_COUNT: usize = 6;

/// Number of default branches.
pub const DEFAULT_BRANCH_COUNT: usize = 13;

/// Russian and English names of default category `i`.
pub open spec fn default_category(i: int) -> (Seq<char>, Seq<char>) {
    if i == 0 {
        ("Боевые"@, "Combat"@)
    } else if i == 1 {
        ("Артиллерия"@, "Artillery"@)
    } else if i == 2 {
        ("ПВО"@, "Air defense"@)
    } else if i == 3 {
        ("Армейская авиация"@, "Army aviation"@)
    } else if i == 4 {
        ("Боевое обеспечение"@, "Combat support"@)
    } else {
        ("Тыловое обеспечение"@, "Logistics support"@)
    }
}

/// Russian and English names of default branch `i`, and the index of its
/// default category.
pub open spec fn default_branch(i: int) -> (Seq<char>, Seq<char>, int) {
    if i == 0 {
        ("Пехота"@, "Infantry"@, 0)
    } else if i == 1 {
        ("Бронетанковые войска"@, "Armor"@, 0)
    } else if i == 2 {
        ("Артиллерия"@, "Artillery"@, 1)
    } else if i == 3 {
        ("Ракетные войска"@, "Rocket forces"@, 0)
    } else if i == 4 {
        ("Авиация"@, "Aviation"@, 3)
    } else if i == 5 {
        ("ВМФ"@, "Navy"@, 0)
    } else if i == 6 {
        ("Войска ПВО"@, "Air defense"@, 2)
    } else if i == 7 {
        ("Инженерные войска"@, "Engineers"@, 4)
    } else if i == 8 {
        ("Войска связи"@, "Signals"@, 4)
    } else if i == 9 {
        ("Тыл"@, "Logistics"@, 5)
    } else if i == 10 {
        ("Кавалерия"@, "Cavalry"@, 0)
    } else if i == 11 {
        ("Разведка"@, "Reconnaissance"@, 0)
    } else {
        ("РХБЗ"@, "Chemical defense"@, 4)
    }
}

fn category_names(i: usize) -> (r: (&'static str, &'static str))
    ensures
        (r.0@, r.1@) == default_category(i as int),
{
    if i == 0 {
        ("Боевые", "Combat")
    } else if i == 1 {
        ("Артиллерия", "Artillery")
    } else if i == 2 {
        ("ПВО", "Air defense")
    } else if i == 3 {
        ("Армейская авиация", "Army aviation")
    } else if i == 4 {
        ("Боевое обеспечение", "Combat support")
    } else {
        ("Тыловое обеспечение", "Logistics support")
    }
}

fn branch_names(i: usize) -> (r: (&'static str, &'static str, usize))
    ensures
        (r.0@, r.1@, r.2 as int) == default_branch(i as int),
{
    if i == 0 {
        ("Пехота", "Infantry", 0)
    } else if i == 1 {
        ("Бронетанковые войска", "Armor", 0)
    } else if i == 2 {
        ("Артиллерия", "Artillery", 1)
    } else if i == 3 {
        ("Ракетные войска", "Rocket forces", 0)
    } else if i == 4 {
        ("Авиация", "Aviation", 3)
    } else if i == 5 {
        ("ВМФ", "Navy", 0)
    } else if i == 6 {
        ("Войска ПВО", "Air defense", 2)
    } else if i == 7 {
        ("Инженерные войска", "Engineers", 4)
    } else if i == 8 {
        ("Войска связи", "Signals", 4)
    } else if i == 9 {
        ("Тыл", "Logistics", 5)
    } else if i == 10 {
        ("Кавалерия", "Cavalry", 0)
    } else if i == 11 {
        ("Разведка", "Reconnaissance", 0)
    } else {
        ("РХБЗ", "Chemical defense", 4)
    }
}

/// The categories that every new library starts with.
pub fn default_branch_categories(library_id: i64) -> (r: Vec<BranchCategory>)
    ensures
        r@.len() == DEFAULT_CATEGORY_COUNT,
        forall|i: int|
            0 <= i < DEFAULT_CATEGORY_COUNT ==> {
                let c = #[trigger] r@[i];
                &&& c.id is None
                &&& c.library_id == library_id
                &&& (c.name_ru@, c.name_en@) == default_category(i)
            },
{
    let mut r: Vec<BranchCategory> = Vec::new();
    let mut i: usize = 0;
    while i < DEFAULT_CATEGORY_COUNT
        invariant
            i <= DEFAULT_CATEGORY_COUNT,
            r@.len() == i,
            forall|j: int|
                0 <= j < i ==> {
                    let c = #[trigger] r@[j];
                    &&& c.id is None
                    &&& c.library_id == library_id
                    &&& (c.name_ru@, c.name_en@) == default_category(j)
                },
        decreases DEFAULT_CATEGORY_COUNT - i,
    {
        let (ru, en) = category_names(i);
        r.push(BranchCategory::new(library_id, String::from_str(ru), String::from_str(en)));
        i = i + 1;
    }
    r
}

/// The branches that every new library starts with, each with the index of
/// its category among `default_branch_categories`.
pub fn default_branches(library_id: i64) -> (r: Vec<(Branch, usize)>)
    ensures
        r@.len() == DEFAULT_BRANCH_COUNT,
        forall|i: int|
            0 <= i < DEFAULT_BRANCH_COUNT ==> {
                let (b, k) = #[trigger] r@[i];
                &&& b.id is None
                &&& b.library_id == library_id
                &&& b.category_id is None
                &&& (b.name_ru@, b.name_en@, k as int) == default_branch(i)
                &&& k < DEFAULT_CATEGORY_COUNT
            },
{
    let mut r: Vec<(Branch, usize)> = Vec::new();
    let mut i: usize = 0;
    while i < DEFAULT_BRANCH_COUNT
        invariant
            i <= DEFAULT_BRANCH_COUNT,
            r@.len() == i,
            forall|j: int|
                0 <= j < i ==> {
                    let (b, k) = #[trigger] r@[j];
                    &&& b.id is None
                    &&& b.library_id == library_id
                    &&& b.category_id is None
                    &&& (b.name_ru@, b.name_en@, k as int) == default_branch(j)
                    &&& k < DEFAULT_CATEGORY_COUNT
                },
        decreases DEFAULT_BRANCH_COUNT - i,
    {
        let (ru, en, k) = branch_names(i);
        r.push((Branch::new(library_id, String::from_str(ru), String::from_str(en)), k));
        i = i + 1;
    }
    r
}

} // verus!
