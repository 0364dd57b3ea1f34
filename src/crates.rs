use vstd::prelude::*;

verus! {

pub const DIFF_WEAPONS: usize = 11;

pub const DIFF_BULLETS: usize = 9;

/// Number of entries of a random crate table: weapons, then bullets, then energy.
pub const RANDOM_CRATE_ENTRIES: usize = 21;

/// Item class of a crate.
#[derive(Clone, Copy, Debug, PartialEq, Eq, Structural)]
pub enum CrateClass {
    Weapon,
    Bullet,
    Energy,
}

pub open spec fn class_tag(c: CrateClass) -> u32 {
    match c {
        CrateClass::Weapon => 0,
        CrateClass::Bullet => 1,
        CrateClass::Energy => 2,
    }
}

impl CrateClass {
    pub fn from_u32(value: u32) -> (r: CrateClass)
        requires
            value <= 2,
        ensures
            class_tag(r) == value,
    {
        match value {
            0 => CrateClass::Weapon,
            1 => CrateClass::Bullet,
            _ => CrateClass::Energy,
        }
    }

    pub fn to_u32(&self) -> (r: u32)
        ensures
            r == class_tag(*self),
    {
        match self {
            CrateClass::Weapon => 0,
            CrateClass::Bullet => 1,
            CrateClass::Energy => 2,
        }
    }
}

/// The game mode a placed crate belongs to.
#[derive(Clone, Copy, Debug, PartialEq, Eq, Structural)]
pub enum StaticCrate {
    Normal,
    Deathmatch,
}

/// A crate placed at a fixed position: its game mode, its class and the index
/// of its item within the class's name table.
#[derive(Clone, Copy, Debug, PartialEq, Eq, Structural)]
pub struct StaticCrateType {
    pub crate_variant: StaticCrate,
    pub crate_class: CrateClass,
    pub crate_type: u8,
}

/// How many crates of each kind appear at random places in one game mode.
#[derive(Clone, Copy, Debug)]
pub struct RandomCrates {
    pub weapons: [u32; 11],
    pub bullets: [u32; 9],
    pub energy: u32,
}

/// The count at a flat index: `[0, 11)` weapons, `[11, 20)` bullets, then energy.
pub open spec fn random_count(c: RandomCrates, index: int) -> u32 {
    if index < DIFF_WEAPONS {
        c.weapons@[index]
    } else if index < DIFF_WEAPONS + DIFF_BULLETS {
        c.bullets@[index - DIFF_WEAPONS]
    } else {
        c.energy
    }
}

/// The table with the count at a flat index replaced.
pub open spec fn random_count_set(c: RandomCrates, index: int, value: u32) -> RandomCrates {
    if index < DIFF_WEAPONS {
        RandomCrates { weapons: vstd::array::spec_array_update(c.weapons, index, value), ..c }
    } else if index < DIFF_WEAPONS + DIFF_BULLETS {
        RandomCrates {
            bullets: vstd::array::spec_array_update(c.bullets, index - DIFF_WEAPONS, value),
            ..c
        }
    } else {
        RandomCrates { energy: value, ..c }
    }
}

impl RandomCrates {
    /// One pistol, one box of 9mm bullets and one energy crate.
    pub fn new() -> (r: RandomCrates)
        ensures
            forall|i: int|
                0 <= i < RANDOM_CRATE_ENTRIES ==> random_count(r, i) == if i == 0 || i
                    == DIFF_WEAPONS || i == DIFF_WEAPONS + DIFF_BULLETS {
                    1u32
                } else {
                    0u32
                },
    {
        RandomCrates {
            weapons: [1, 0, 0, 0, 0, 0, 0, 0, 0, 0, 0],
            bullets: [1, 0, 0, 0, 0, 0, 0, 0, 0],
            energy: 1,
        }
    }

    pub fn get(&self, index: usize) -> (r: u32)
        ensures
            r == random_count(*self, index as int),
    {
        if index < DIFF_WEAPONS {
            self.weapons[index]
        } else if index < DIFF_WEAPONS + DIFF_BULLETS {
            self.bullets[index - DIFF_WEAPONS]
        } else {
            self.energy
        }
    }

    pub fn set(&mut self, index: usize, value: u32)
        ensures
            *final(self) == random_count_set(*old(self), index as int, value),
    {
        if index < DIFF_WEAPONS {
            self.weapons[index] = value;
        } else if index < DIFF_WEAPONS + DIFF_BULLETS {
            self.bullets[index - DIFF_WEAPONS] = value;
        } else {
            self.energy = value;
        }
    }
}

pub open spec fn weapon_names() -> Seq<Seq<char>> {
    seq![
        "pistol"@,
        "shotgun"@,
        "uzi"@,
        "auto rifle"@,
        "grenade launcher"@,
        "auto grenadier"@,
        "heavy launcher"@,
        "auto shotgun"@,
        "c4-activator"@,
        "flame thrower"@,
        "mine dropper"@,
    ]
}

pub open spec fn bullet_names() -> Seq<Seq<char>> {
    seq![
        "9mm bullets (50)"@,
        "12mm bullets (50)"@,
        "shotgun shells (20)"@,
        "light grenades (15)"@,
        "medium grenades (10)"@,
        "heavy grenades (5)"@,
        "c4-explosives (5)"@,
        "gas (50)"@,
        "mines (5)"@,
    ]
}

pub open spec fn energy_names() -> Seq<Seq<char>> {
    seq!["energy"@]
}

pub open spec fn names_of(v: Vec<&'static str>) -> Seq<Seq<char>> {
    v@.map_values(|s: &'static str| s@)
}

/// Number of items in a class's name table.
pub open spec fn class_len(c: CrateClass) -> int {
    match c {
        CrateClass::Weapon => DIFF_WEAPONS as int,
        CrateClass::Bullet => DIFF_BULLETS as int,
        CrateClass::Energy => 1,
    }
}

/// The item names of each crate class: weapons, bullets and energy.
pub fn get_crates() -> (r: [Vec<&'static str>; 3])
    ensures
        names_of(r[0]) == weapon_names(),
        names_of(r[1]) == bullet_names(),
        names_of(r[2]) == energy_names(),
        r[0]@.len() == class_len(CrateClass::Weapon),
        r[1]@.len() == class_len(CrateClass::Bullet),
        r[2]@.len() == class_len(CrateClass::Energy),
{
    let r = [
        vec![
            "pistol",
            "shotgun",
            "uzi",
            "auto rifle",
            "grenade launcher",
            "auto grenadier",
            "heavy launcher",
            "auto shotgun",
            "c4-activator",
            "flame thrower",
            "mine dropper",
        ],
        vec![
            "9mm bullets (50)",
            "12mm bullets (50)",
            "shotgun shells (20)",
            "light grenades (15)",
            "medium grenades (10)",
            "heavy grenades (5)",
            "c4-explosives (5)",
            "gas (50)",
            "mines (5)",
        ],
        vec!["energy"],
    ];
    assert(names_of(r[0]) =~= weapon_names());
    assert(names_of(r[1]) =~= bullet_names());
    assert(names_of(r[2]) =~= energy_names());
    r
}

} // verus!
