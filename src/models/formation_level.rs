//! Formation hierarchy levels: standard (fixed) and custom (per library).

use vstd::prelude::*;

verus! {

/// Number of standard formation levels.
pub const STANDARD_LEVEL_COUNT: usize = 12;

/// Standard military formation levels, smallest first.
#[derive(Debug, Clone, Copy, PartialEq, Eq, Structural, Hash)]
pub enum StandardFormationLevel {
    FireTeam,
    Squad,
    Section,
    Platoon,
    Company,
    Battalion,
    Regiment,
    Brigade,
    Division,
    Corps,
    Army,
    Front,
}

/// The level at a position of the hierarchy (`0` is the fire team), if any.
pub open spec fn level_at(n: int) -> Option<StandardFormationLevel> {
    if n == 0 {
        Some(StandardFormationLevel::FireTeam)
    } else if n == 1 {
        Some(StandardFormationLevel::Squad)
    } else if n == 2 {
        Some(StandardFormationLevel::Section)
    } else if n == 3 {
        Some(StandardFormationLevel::Platoon)
    } else if n == 4 {
        Some(StandardFormationLevel::Company)
    } else if n == 5 {
        Some(StandardFormationLevel::Battalion)
    } else if n == 6 {
        Some(StandardFormationLevel::Regiment)
    } else if n == 7 {
        Some(StandardFormationLevel::Brigade)
    } else if n == 8 {
        Some(StandardFormationLevel::Division)
    } else if n == 9 {
        Some(StandardFormationLevel::Corps)
    } else if n == 10 {
        Some(StandardFormationLevel::Army)
    } else if n == 11 {
        Some(StandardFormationLevel::Front)
    } else {
        None
    }
}

/// Position of a level in the hierarchy.
pub open spec fn ordinal_of(l: StandardFormationLevel) -> int {
    match l {
        StandardFormationLevel::FireTeam => 0,
        StandardFormationLevel::Squad => 1,
        StandardFormationLevel::Section => 2,
        StandardFormationLevel::Platoon => 3,
        StandardFormationLevel::Company => 4,
        StandardFormationLevel::Battalion => 5,
        StandardFormationLevel::Regiment => 6,
        StandardFormationLevel::Brigade => 7,
        StandardFormationLevel::Division => 8,
        StandardFormationLevel::Corps => 9,
        StandardFormationLevel::Army => 10,
        StandardFormationLevel::Front => 11,
    }
}

/// Ordinals and levels are in one-to-one correspondence on `0..12`.
pub proof fn lemma_ordinal_round_trip(l: StandardFormationLevel, n: int)
    ensures
        level_at(ordinal_of(l)) == Some(l),
        0 <= ordinal_of(l) < STANDARD_LEVEL_COUNT,
        level_at(n) is Some <==> 0 <= n < STANDARD_LEVEL_COUNT,
        level_at(n) is Some ==> ordinal_of(level_at(n)->0) == n,
{
}

impl StandardFormationLevel {
    /// English name.
    pub fn name_en(&self) -> (r: &'static str)
        ensures
            r@ == match *self {
                StandardFormationLevel::FireTeam => "fire team"@,
                StandardFormationLevel::Squad => "squad"@,
                StandardFormationLevel::Section => "section"@,
                StandardFormationLevel::Platoon => "platoon"@,
                StandardFormationLevel::Company => "company"@,
                StandardFormationLevel::Battalion => "battalion"@,
                StandardFormationLevel::Regiment => "regiment"@,
                StandardFormationLevel::Brigade => "brigade"@,
                StandardFormationLevel::Division => "division"@,
                StandardFormationLevel::Corps => "corps"@,
                StandardFormationLevel::Army => "army"@,
                StandardFormationLevel::Front => "front"@,
            },
    {
        match self {
            StandardFormationLevel::FireTeam => "fire team",
            StandardFormationLevel::Squad => "squad",
            StandardFormationLevel::Section => "section",
            StandardFormationLevel::Platoon => "platoon",
            StandardFormationLevel::Company => "company",
            StandardFormationLevel::Battalion => "battalion",
            StandardFormationLevel::Regiment => "regiment",
            StandardFormationLevel::Brigade => "brigade",
            StandardFormationLevel::Division => "division",
            StandardFormationLevel::Corps => "corps",
            StandardFormationLevel::Army => "army",
            StandardFormationLevel::Front => "front",
        }
    }

    /// Russian name.
    pub fn name_ru(&self) -> (r: &'static str)
        ensures
            r@ == match *self {
                StandardFormationLevel::FireTeam => "огневая группа"@,
                StandardFormationLevel::Squad => "отделение"@,
                StandardFormationLevel::Section => "секция"@,
                StandardFormationLevel::Platoon => "взвод"@,
                StandardFormationLevel::Company => "рота"@,
                StandardFormationLevel::Battalion => "батальон"@,
                StandardFormationLevel::Regiment => "полк"@,
                StandardFormationLevel::Brigade => "бригада"@,
                StandardFormationLevel::Division => "дивизия"@,
                StandardFormationLevel::Corps => "корпус"@,
                StandardFormationLevel::Army => "армия"@,
                StandardFormationLevel::Front => "фронт"@,
            },
    {
        match self {
            StandardFormationLevel::FireTeam => "огневая группа",
            StandardFormationLevel::Squad => "отделение",
            StandardFormationLevel::Section => "секция",
            StandardFormationLevel::Platoon => "взвод",
            StandardFormationLevel::Company => "рота",
            StandardFormationLevel::Battalion => "батальон",
            StandardFormationLevel::Regiment => "полк",
            StandardFormationLevel::Brigade => "бригада",
            StandardFormationLevel::Division => "дивизия",
            StandardFormationLevel::Corps => "корпус",
            StandardFormationLevel::Army => "армия",
            StandardFormationLevel::Front => "фронт",
        }
    }

    /// Position in the hierarchy, from 0 (fire team) to 11 (front).
    pub fn ordinal(&self) -> (r: i32)
        ensures
            r == ordinal_of(*self),
    {
        match self {
            StandardFormationLevel::FireTeam => 0,
            StandardFormationLevel::Squad => 1,
            StandardFormationLevel::Section => 2,
            StandardFormationLevel::Platoon => 3,
            StandardFormationLevel::Company => 4,
            StandardFormationLevel::Battalion => 5,
            StandardFormationLevel::Regiment => 6,
            StandardFormationLevel::Brigade => 7,
            StandardFormationLevel::Division => 8,
            StandardFormationLevel::Corps => 9,
            StandardFormationLevel::Army => 10,
            StandardFormationLevel::Front => 11,
        }
    }

    /// All standard levels, smallest first.
    pub fn all() -> (r: [StandardFormationLevel; STANDARD_LEVEL_COUNT])
        ensures
            forall|i: int| 0 <= i < STANDARD_LEVEL_COUNT ==> Some(#[trigger] r@[i]) == level_at(i),
    {
        [
            StandardFormationLevel::FireTeam,
            StandardFormationLevel::Squad,
            StandardFormationLevel::Section,
            StandardFormationLevel::Platoon,
            StandardFormationLevel::Company,
            StandardFormationLevel::Battalion,
            StandardFormationLevel::Regiment,
            StandardFormationLevel::Brigade,
            StandardFormationLevel::Division,
            StandardFormationLevel::Corps,
            StandardFormationLevel::Army,
            StandardFormationLevel::Front,
        ]
    }

    /// The level at an ordinal; `None` outside `0..12`.
    pub fn from_ordinal(n: i32) -> (r: Option<StandardFormationLevel>)
        ensures
            r == level_at(n as int),
    {
        if n == 0 {
            Some(StandardFormationLevel::FireTeam)
        } else if n == 1 {
            Some(StandardFormationLevel::Squad)
        } else if n == 2 {
            Some(StandardFormationLevel::Section)
        } else if n == 3 {
            Some(StandardFormationLevel::Platoon)
        } else if n == 4 {
            Some(StandardFormationLevel::Company)
        } else if n == 5 {
            Some(StandardFormationLevel::Battalion)
        } else if n == 6 {
            Some(StandardFormationLevel::Regiment)
        } else if n == 7 {
            Some(StandardFormationLevel::Brigade)
        } else if n == 8 {
            Some(StandardFormationLevel::Division)
        } else if n == 9 {
            Some(StandardFormationLevel::Corps)
        } else if n == 10 {
            Some(StandardFormationLevel::Army)
        } else if n == 11 {
            Some(StandardFormationLevel::Front)
        } else {
            None
        }
    }
}

/// A library's own name for a formation level, mapped to a standard level.
pub struct CustomFormationLevel {
    pub id: Option<i64>,
    pub library_id: i64,
    pub name_ru: String,
    pub name_en: String,
    /// Ordinal of the standard level this level corresponds to.
    pub standard_level_ordinal: i32,
}

impl CustomFormationLevel {
    /// A custom level not yet stored.
    pub fn new(library_id: i64, name_ru: String, name_en: String, standard_level_ordinal: i32) -> (r:
        CustomFormationLevel)
        ensures
            r.id is None,
            r.library_id == library_id,
            r.name_ru@ == name_ru@,
            r.name_en@ == name_en@,
            r.standard_level_ordinal == standard_level_ordinal,
    {
        CustomFormationLevel { id: None, library_id, name_ru, name_en, standard_level_ordinal }
    }
}

} // verus!
