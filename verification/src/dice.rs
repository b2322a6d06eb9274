//! The die faces of the game: ally faces rolled into the party and
//! monster/loot faces rolled into the dungeon.

use vstd::prelude::*;

verus! {

/// A die: a closed set of faces, each reachable from its index.
pub trait Dice: Sized {
    /// Number of faces, as seen by specifications.
    spec fn spec_faces() -> u64;

    /// The face with the given index, as seen by specifications.
    spec fn spec_nth(n: u64) -> Self;

    /// Number of faces on this die.
    fn faces() -> (n: u64)
        ensures
            n == Self::spec_faces(),
            n > 0,
    ;

    /// The face with the given index.
    fn nth(n: u64) -> (face: Self)
        requires
            n < Self::spec_faces(),
        ensures
            face == Self::spec_nth(n),
    ;
}

/// A face of a party die.
#[derive(Debug, PartialEq, Eq, Structural, Clone, Copy)]
pub enum Ally {
    Fighter,
    Cleric,
    Mage,
    Champion,
    Thief,
    Scroll,
}

/// A face of a dungeon die.
#[derive(Debug, PartialEq, Eq, Structural, Clone, Copy)]
pub enum Monster {
    Goblin,
    Skeleton,
    Ooze,
    Dragon,
    Chest,
    Potion,
}

impl Dice for Ally {
    open spec fn spec_faces() -> u64 {
        6
    }

    open spec fn spec_nth(n: u64) -> Ally {
        if n == 0 {
            Ally::Fighter
        } else if n == 1 {
            Ally::Cleric
        } else if n == 2 {
            Ally::Mage
        } else if n == 3 {
            Ally::Champion
        } else if n == 4 {
            Ally::Thief
        } else {
            Ally::Scroll
        }
    }

    fn faces() -> u64 {
        6
    }

    fn nth(n: u64) -> Ally {
        if n == 0 {
            Ally::Fighter
        } else if n == 1 {
            Ally::Cleric
        } else if n == 2 {
            Ally::Mage
        } else if n == 3 {
            Ally::Champion
        } else if n == 4 {
            Ally::Thief
        } else {
            Ally::Scroll
        }
    }
}

impl Dice for Monster {
    open spec fn spec_faces() -> u64 {
        6
    }

    open spec fn spec_nth(n: u64) -> Monster {
        if n == 0 {
            Monster::Goblin
        } else if n == 1 {
            Monster::Skeleton
        } else if n == 2 {
            Monster::Ooze
        } else if n == 3 {
            Monster::Dragon
        } else if n == 4 {
            Monster::Chest
        } else {
            Monster::Potion
        }
    }

    fn faces() -> u64 {
        6
    }

    fn nth(n: u64) -> Monster {
        if n == 0 {
            Monster::Goblin
        } else if n == 1 {
            Monster::Skeleton
        } else if n == 2 {
            Monster::Ooze
        } else if n == 3 {
            Monster::Dragon
        } else if n == 4 {
            Monster::Chest
        } else {
            Monster::Potion
        }
    }
}

impl Ally {
    /// An ally that can fight and be sent to the graveyard; scrolls are not
    /// companions.
    pub open spec fn spec_companion(self) -> bool {
        self != Ally::Scroll
    }

    /// Whether this ally face is a companion (anything but a scroll).
    pub fn is_companion(&self) -> (r: bool)
        ensures
            r == self.spec_companion(),
    {
        !matches!(self, Ally::Scroll)
    }
}

impl Monster {
    /// A hostile face: one that must be fought.
    pub open spec fn spec_hostile(self) -> bool {
        self == Monster::Goblin || self == Monster::Skeleton || self == Monster::Ooze
    }

    /// A loot face: a chest to open or a potion to quaff.
    pub open spec fn spec_loot(self) -> bool {
        self == Monster::Chest || self == Monster::Potion
    }

    /// Whether this dungeon face is a hostile monster.
    pub fn is_monster(&self) -> (r: bool)
        ensures
            r == self.spec_hostile(),
    {
        matches!(self, Monster::Goblin | Monster::Skeleton | Monster::Ooze)
    }

    /// Whether this dungeon face is loot.
    pub fn is_loot(&self) -> (r: bool)
        ensures
            r == self.spec_loot(),
    {
        matches!(self, Monster::Chest | Monster::Potion)
    }
}

} // verus!
