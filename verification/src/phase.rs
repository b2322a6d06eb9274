//! The nested phase state machine's node types.

use vstd::prelude::*;

verus! {

/// Top-level node of the game-flow state machine.
#[derive(Debug, PartialEq, Eq, Structural, Clone, Copy)]
pub enum Phase {
    Setup,
    Monster(Monster),
    Loot(Loot),
    Dragon(Dragon),
    EmptyDungeon,
    Regroup(Regroup),
    Victory,
}

/// Sub-states of a monster encounter.
#[derive(Debug, PartialEq, Eq, Structural, Clone, Copy)]
pub enum Monster {
    SelectAlly,
    SelectReroll(Reroll),
    ConfirmReroll,
    SelectMonster,
    ConfirmCombat,
    Defeat,
}

/// Which row the reroll selection is working on.
#[derive(Debug, PartialEq, Eq, Structural, Clone, Copy)]
pub enum Reroll {
    Ally,
    Monster,
}

/// Sub-states of loot resolution.
#[derive(Debug, PartialEq, Eq, Structural, Clone, Copy)]
pub enum Loot {
    SelectAlly,
    SelectLoot,
    ConfirmLoot,
    SelectGraveyard,
    ConfirmGraveyard,
}

/// Sub-states of the dragon showdown.
#[derive(Debug, PartialEq, Eq, Structural, Clone, Copy)]
pub enum Dragon {
    SelectAlly,
    Confirm,
    Defeat,
}

/// Sub-states of the regroup decision between delves.
#[derive(Debug, PartialEq, Eq, Structural, Clone, Copy)]
pub enum Regroup {
    Continue,
    ContinueSetup,
    End,
    EndSetup,
}

} // verus!
