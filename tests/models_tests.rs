use toeditor::models::validation::{validate_branch, validate_formation_level, validate_library, ValidationError};
use toeditor::models::{
    default_branch_categories, default_branches, Branch, BranchCategory, CustomFormationLevel, Equipment,
    Library, Personnel, Snapshot, StandardFormationLevel, Unit, STANDARD_LEVEL_COUNT,
};

#[test]
fn test_library_creation() {
    let lib = Library::new("Test".to_string(), "US".to_string(), "2003".to_string(), "Author".to_string());
    assert_eq!(lib.name, "Test");
    assert_eq!(lib.country, "US");
    assert_eq!(lib.era, "2003");
    assert_eq!(lib.author, "Author");
    assert_eq!(lib.version, 1);
    assert_eq!(lib.units.len(), 0);
}

#[test]
fn test_library_version() {
    let mut lib = Library::new("Test".to_string(), "US".to_string(), "2003".to_string(), "Author".to_string());
    assert_eq!(lib.version, 1);
    lib.increment_version();
    assert_eq!(lib.version, 2);
    lib.set_version(5);
    assert_eq!(lib.version, 5);
}

#[test]
fn test_unit_creation() {
    let unit = Unit::new("Alpha Squad".to_string(), "Squad".to_string());
    assert_eq!(unit.name, "Alpha Squad");
    assert_eq!(unit.unit_type, "Squad");
    assert_eq!(unit.total_personnel(), 0);
}

#[test]
fn test_unit_personnel_count() {
    let mut unit = Unit::new("Squad".to_string(), "Squad".to_string());
    unit.add_personnel(Personnel::new("Rifleman".to_string()));
    unit.add_personnel(Personnel::new("Squad Leader".to_string()));
    assert_eq!(unit.total_personnel(), 2);
}

#[test]
fn test_unit_with_children() {
    let mut platoon = Unit::new("Platoon".to_string(), "Platoon".to_string());
    let mut squad1 = Unit::new("Squad 1".to_string(), "Squad".to_string());
    squad1.add_personnel(Personnel::new("Rifleman".to_string()));
    let mut squad2 = Unit::new("Squad 2".to_string(), "Squad".to_string());
    squad2.add_personnel(Personnel::new("Rifleman".to_string()));
    platoon.add_child(squad1);
    platoon.add_child(squad2);
    assert_eq!(platoon.total_personnel(), 2);
}

#[test]
fn test_equipment_new() {
    let eq = Equipment::new("M4 Carbine".to_string(), 10);
    assert_eq!(eq.name, "M4 Carbine");
    assert_eq!(eq.quantity, 10);
}

#[test]
fn test_personnel_new() {
    let p = Personnel::new("Rifleman".to_string());
    assert_eq!(p.position, "Rifleman");
    assert_eq!(p.rank, None);
}

#[test]
fn test_personnel_with_rank() {
    let p = Personnel::with_rank("Squad Leader".to_string(), "SGT".to_string());
    assert_eq!(p.position, "Squad Leader");
    assert_eq!(p.rank, Some("SGT".to_string()));
}

#[test]
fn test_unit_total_equipment() {
    let mut unit = Unit::new("Squad".to_string(), "Squad".to_string());
    unit.add_equipment(Equipment::new("M4 Carbine".to_string(), 9));
    unit.add_equipment(Equipment::new("M249 SAW".to_string(), 1));
    let totals = unit.total_equipment();
    assert_eq!(totals.get("M4 Carbine"), Some(&9));
    assert_eq!(totals.get("M249 SAW"), Some(&1));
}

#[test]
fn test_unit_total_equipment_with_children() {
    let mut platoon = Unit::new("Platoon".to_string(), "Platoon".to_string());
    platoon.add_equipment(Equipment::new("Radio".to_string(), 1));
    let mut squad1 = Unit::new("Squad 1".to_string(), "Squad".to_string());
    squad1.add_equipment(Equipment::new("M4 Carbine".to_string(), 9));
    squad1.add_equipment(Equipment::new("M249 SAW".to_string(), 1));
    let mut squad2 = Unit::new("Squad 2".to_string(), "Squad".to_string());
    squad2.add_equipment(Equipment::new("M4 Carbine".to_string(), 9));
    squad2.add_equipment(Equipment::new("M249 SAW".to_string(), 1));
    platoon.add_child(squad1);
    platoon.add_child(squad2);
    let totals = platoon.total_equipment();
    assert_eq!(totals.get("Radio"), Some(&1));
    assert_eq!(totals.get("M4 Carbine"), Some(&18));
    assert_eq!(totals.get("M249 SAW"), Some(&2));
}

#[test]
fn test_unit_total_equipment_nested_children() {
    let mut company = Unit::new("Company".to_string(), "Company".to_string());
    let mut platoon = Unit::new("Platoon".to_string(), "Platoon".to_string());
    platoon.add_equipment(Equipment::new("Radio".to_string(), 1));
    let mut squad = Unit::new("Squad".to_string(), "Squad".to_string());
    squad.add_equipment(Equipment::new("M4 Carbine".to_string(), 9));
    platoon.add_child(squad);
    company.add_child(platoon);
    let totals = company.total_equipment();
    assert_eq!(totals.get("Radio"), Some(&1));
    assert_eq!(totals.get("M4 Carbine"), Some(&9));
}

#[test]
fn unit_total_equipment_counts_names_once_and_misses_unknown() {
    let mut unit = Unit::new("Squad".to_string(), "Squad".to_string());
    unit.add_equipment(Equipment::new("Radio".to_string(), 2));
    unit.add_equipment(Equipment::new("Radio".to_string(), 3));
    unit.add_equipment(Equipment::new("Map".to_string(), 0));
    let totals = unit.total_equipment();
    assert_eq!(totals.len(), 2);
    assert_eq!(totals.get("Radio"), Some(&5));
    assert_eq!(totals.get("Map"), Some(&0));
    assert_eq!(totals.get("Rifle"), None);
}

#[test]
fn test_library_total_personnel() {
    let mut library = Library::new("Test".to_string(), "US".to_string(), "2003".to_string(), "Author".to_string());
    let mut unit1 = Unit::new("Unit 1".to_string(), "Company".to_string());
    unit1.add_personnel(Personnel::new("Commander".to_string()));
    unit1.add_personnel(Personnel::new("XO".to_string()));
    let mut unit2 = Unit::new("Unit 2".to_string(), "Battalion".to_string());
    unit2.add_personnel(Personnel::new("Commander".to_string()));
    library.add_unit(unit1);
    library.add_unit(unit2);
    assert_eq!(library.total_personnel(), 3);
}

#[test]
fn test_library_total_personnel_with_children() {
    let mut library = Library::new("Test".to_string(), "US".to_string(), "2003".to_string(), "Author".to_string());
    let mut platoon = Unit::new("Platoon".to_string(), "Platoon".to_string());
    platoon.add_personnel(Personnel::new("Platoon Leader".to_string()));
    let mut squad1 = Unit::new("Squad 1".to_string(), "Squad".to_string());
    squad1.add_personnel(Personnel::new("Rifleman".to_string()));
    squad1.add_personnel(Personnel::new("Rifleman".to_string()));
    let mut squad2 = Unit::new("Squad 2".to_string(), "Squad".to_string());
    squad2.add_personnel(Personnel::new("Rifleman".to_string()));
    platoon.add_child(squad1);
    platoon.add_child(squad2);
    library.add_unit(platoon);
    assert_eq!(library.total_personnel(), 4);
}

#[test]
fn test_library_add_unit() {
    let mut library = Library::new("Test".to_string(), "US".to_string(), "2003".to_string(), "Author".to_string());
    assert_eq!(library.units.len(), 0);
    let unit = Unit::new("Unit 1".to_string(), "Company".to_string());
    library.add_unit(unit);
    assert_eq!(library.units.len(), 1);
    assert_eq!(library.units[0].name, "Unit 1");
}

#[test]
fn test_unit_add_child() {
    let mut parent = Unit::new("Parent".to_string(), "Company".to_string());
    let child = Unit::new("Child".to_string(), "Platoon".to_string());
    assert_eq!(parent.children.len(), 0);
    parent.add_child(child);
    assert_eq!(parent.children.len(), 1);
    assert_eq!(parent.children[0].name, "Child");
}

#[test]
fn test_unit_add_personnel() {
    let mut unit = Unit::new("Squad".to_string(), "Squad".to_string());
    assert_eq!(unit.personnel.len(), 0);
    unit.add_personnel(Personnel::new("Rifleman".to_string()));
    assert_eq!(unit.personnel.len(), 1);
    assert_eq!(unit.personnel[0].position, "Rifleman");
}

#[test]
fn test_unit_add_equipment() {
    let mut unit = Unit::new("Squad".to_string(), "Squad".to_string());
    assert_eq!(unit.equipment.len(), 0);
    unit.add_equipment(Equipment::new("M4 Carbine".to_string(), 10));
    assert_eq!(unit.equipment.len(), 1);
    assert_eq!(unit.equipment[0].name, "M4 Carbine");
    assert_eq!(unit.equipment[0].quantity, 10);
}

#[test]
fn test_branch_new() {
    let b = Branch::new(1, "Пехота".to_string(), "Infantry".to_string());
    assert_eq!(b.id, None);
    assert_eq!(b.library_id, 1);
    assert_eq!(b.category_id, None);
    assert_eq!(b.name_ru, "Пехота");
    assert_eq!(b.name_en, "Infantry");
}

#[test]
fn test_branch_with_category() {
    let b = Branch::with_category(1, Some(5), "Пехота".to_string(), "Infantry".to_string());
    assert_eq!(b.id, None);
    assert_eq!(b.library_id, 1);
    assert_eq!(b.category_id, Some(5));
    assert_eq!(b.name_ru, "Пехота");
    assert_eq!(b.name_en, "Infantry");
}

#[test]
fn test_branch_with_category_none() {
    let b = Branch::with_category(1, None, "Пехота".to_string(), "Infantry".to_string());
    assert_eq!(b.category_id, None);
}

#[test]
fn test_branch_category_new() {
    let c = BranchCategory::new(1, "Боевые".to_string(), "Combat".to_string());
    assert_eq!(c.id, None);
    assert_eq!(c.library_id, 1);
    assert_eq!(c.name_ru, "Боевые");
    assert_eq!(c.name_en, "Combat");
}

#[test]
fn test_default_branch_categories() {
    let cats = default_branch_categories(1);
    assert_eq!(cats.len(), 6);
    assert!(cats.iter().all(|c| c.library_id == 1));
    assert!(cats.iter().all(|c| c.id.is_none()));
    assert!(cats.iter().any(|c| c.name_en == "Combat"));
    assert!(cats.iter().any(|c| c.name_en == "Artillery"));
    assert!(cats.iter().any(|c| c.name_en == "Air defense"));
    assert!(cats.iter().any(|c| c.name_en == "Army aviation"));
    assert!(cats.iter().any(|c| c.name_en == "Combat support"));
    assert!(cats.iter().any(|c| c.name_en == "Logistics support"));
}

#[test]
fn test_default_branches() {
    let branches = default_branches(1);
    assert!(branches.len() >= 10);
    assert!(branches.iter().all(|(b, _)| b.library_id == 1));
    assert!(branches.iter().all(|(b, _)| b.id.is_none()));
    assert!(branches.iter().all(|(b, _)| b.category_id.is_none()));
    assert!(branches.iter().any(|(b, _)| b.name_en == "Infantry"));
    assert!(branches.iter().any(|(b, _)| b.name_en == "Armor"));
    assert!(branches.iter().any(|(b, _)| b.name_en == "Cavalry"));
}

#[test]
fn test_default_branches_category_indices_valid() {
    let categories = default_branch_categories(1);
    let branches = default_branches(1);
    for (_, cat_idx) in &branches {
        assert!(*cat_idx < categories.len(), "Category index {} out of range (max {})", cat_idx, categories.len() - 1);
    }
}

#[test]
fn default_branches_exact_entries() {
    let branches = default_branches(7);
    assert_eq!(branches.len(), 13);
    assert_eq!(branches[0].0.name_ru, "Пехота");
    assert_eq!(branches[4].0.name_en, "Aviation");
    assert_eq!(branches[4].1, 3);
    assert_eq!(branches[12].0.name_en, "Chemical defense");
    assert_eq!(branches[12].1, 4);
}

#[test]
fn test_standard_level_count() {
    assert_eq!(STANDARD_LEVEL_COUNT, 12);
    assert_eq!(StandardFormationLevel::all().len(), STANDARD_LEVEL_COUNT);
}

#[test]
fn test_standard_level_names_en() {
    assert_eq!(StandardFormationLevel::FireTeam.name_en(), "fire team");
    assert_eq!(StandardFormationLevel::Squad.name_en(), "squad");
    assert_eq!(StandardFormationLevel::Section.name_en(), "section");
    assert_eq!(StandardFormationLevel::Platoon.name_en(), "platoon");
    assert_eq!(StandardFormationLevel::Company.name_en(), "company");
    assert_eq!(StandardFormationLevel::Battalion.name_en(), "battalion");
    assert_eq!(StandardFormationLevel::Regiment.name_en(), "regiment");
    assert_eq!(StandardFormationLevel::Brigade.name_en(), "brigade");
    assert_eq!(StandardFormationLevel::Division.name_en(), "division");
    assert_eq!(StandardFormationLevel::Corps.name_en(), "corps");
    assert_eq!(StandardFormationLevel::Army.name_en(), "army");
    assert_eq!(StandardFormationLevel::Front.name_en(), "front");
}

#[test]
fn test_standard_level_names_ru() {
    assert_eq!(StandardFormationLevel::FireTeam.name_ru(), "огневая группа");
    assert_eq!(StandardFormationLevel::Squad.name_ru(), "отделение");
    assert_eq!(StandardFormationLevel::Platoon.name_ru(), "взвод");
    assert_eq!(StandardFormationLevel::Company.name_ru(), "рота");
    assert_eq!(StandardFormationLevel::Battalion.name_ru(), "батальон");
    assert_eq!(StandardFormationLevel::Front.name_ru(), "фронт");
}

#[test]
fn test_standard_level_ordinal() {
    assert_eq!(StandardFormationLevel::FireTeam.ordinal(), 0);
    assert_eq!(StandardFormationLevel::Squad.ordinal(), 1);
    assert_eq!(StandardFormationLevel::Front.ordinal(), 11);
}

#[test]
fn test_standard_level_from_ordinal_valid() {
    for level in StandardFormationLevel::all() {
        let recovered = StandardFormationLevel::from_ordinal(level.ordinal());
        assert_eq!(recovered, Some(level));
    }
}

#[test]
fn test_standard_level_from_ordinal_invalid() {
    assert_eq!(StandardFormationLevel::from_ordinal(-1), None);
    assert_eq!(StandardFormationLevel::from_ordinal(12), None);
    assert_eq!(StandardFormationLevel::from_ordinal(100), None);
}

#[test]
fn test_standard_level_all_ordered() {
    let all = StandardFormationLevel::all();
    for i in 0..all.len() {
        assert_eq!(all[i].ordinal(), i as i32);
    }
}

#[test]
fn test_custom_formation_level_new() {
    let level = CustomFormationLevel::new(1, "взвод".to_string(), "platoon".to_string(), 3);
    assert_eq!(level.id, None);
    assert_eq!(level.library_id, 1);
    assert_eq!(level.name_ru, "взвод");
    assert_eq!(level.name_en, "platoon");
    assert_eq!(level.standard_level_ordinal, 3);
}

#[test]
fn test_validate_library_valid() {
    let errors = validate_library("US Army 2003", "US", "2003");
    assert!(errors.is_empty());
}

#[test]
fn test_validate_library_empty_name() {
    let errors = validate_library("", "US", "2003");
    assert_eq!(errors.len(), 1);
    assert_eq!(errors[0].field, "name");
}

#[test]
fn test_validate_library_whitespace_name() {
    let errors = validate_library("   ", "US", "2003");
    assert_eq!(errors.len(), 1);
    assert_eq!(errors[0].field, "name");
}

#[test]
fn test_validate_library_empty_country() {
    let errors = validate_library("Test", "", "2003");
    assert_eq!(errors.len(), 1);
    assert_eq!(errors[0].field, "country");
}

#[test]
fn test_validate_library_empty_era() {
    let errors = validate_library("Test", "US", "");
    assert_eq!(errors.len(), 1);
    assert_eq!(errors[0].field, "era");
}

#[test]
fn test_validate_library_multiple_errors() {
    let errors = validate_library("", "", "");
    assert_eq!(errors.len(), 3);
}

#[test]
fn test_validate_library_long_name() {
    let long_name = "a".repeat(201);
    let errors = validate_library(&long_name, "US", "2003");
    assert_eq!(errors.len(), 1);
    assert_eq!(errors[0].field, "name");
}

#[test]
fn validate_library_limit_counts_trimmed_bytes() {
    let exactly = format!("  {}  ", "a".repeat(200));
    assert!(validate_library(&exactly, "US", "2003").is_empty());
    let cyrillic = "я".repeat(101);
    let errors = validate_library(&cyrillic, "RU", "2020");
    assert_eq!(errors.len(), 1);
    assert_eq!(errors[0].message, "Library name cannot exceed 200 characters");
    assert_eq!(validate_library("x", "\t\n", " ")[0].field, "country");
}

#[test]
fn test_validate_branch_valid() {
    let errors = validate_branch("Пехота", "Infantry");
    assert!(errors.is_empty());
}

#[test]
fn test_validate_branch_one_name_ok() {
    assert!(validate_branch("Пехота", "").is_empty());
    assert!(validate_branch("", "Infantry").is_empty());
}

#[test]
fn test_validate_branch_both_empty() {
    let errors = validate_branch("", "");
    assert_eq!(errors.len(), 1);
    assert_eq!(errors[0].field, "name");
}

#[test]
fn test_validate_branch_long_names() {
    let long = "a".repeat(201);
    let errors = validate_branch(&long, &long);
    assert_eq!(errors.len(), 2);
}

#[test]
fn test_validate_formation_level_valid() {
    let errors = validate_formation_level("Рота", "Company", 3);
    assert!(errors.is_empty());
}

#[test]
fn test_validate_formation_level_negative_ordinal() {
    let errors = validate_formation_level("Рота", "Company", -1);
    assert_eq!(errors.len(), 1);
    assert_eq!(errors[0].field, "standard_level_ordinal");
}

#[test]
fn test_validation_error_display() {
    let err = ValidationError { field: "name".to_string(), message: "cannot be empty".to_string() };
    assert_eq!(err.to_string(), "name: cannot be empty");
}

#[test]
fn test_snapshot_creation() {
    let snapshot = Snapshot::new(1, 1, "{}".to_string());
    assert_eq!(snapshot.library_id, 1);
    assert_eq!(snapshot.version, 1);
    assert!(snapshot.timestamp > 0);
    assert_eq!(snapshot.id, None);
    assert_eq!(snapshot.description, None);
    assert_eq!(snapshot.data, "{}");
}

#[test]
fn version_test_snapshot_with_description() {
    let snapshot = Snapshot::with_description(1, 2, "data".to_string(), "desc".to_string());
    assert_eq!(snapshot.library_id, 1);
    assert_eq!(snapshot.version, 2);
    assert_eq!(snapshot.data, "data");
    assert_eq!(snapshot.description, Some("desc".to_string()));
    assert!(snapshot.timestamp > 0);
    assert_eq!(snapshot.id, None);
}
