//! The game engine: owned collections, phase machine and resolution actions.

pub mod controls;
pub mod gameplay;
pub mod utils;

pub use utils::{Cursor, Row, Rule, Selectable, indexes_of, roll, roll_n};

use crate::dice::{Ally, Monster};
use crate::hero::Hero;
use crate::phase::Phase;
use crate::treasure::Treasure;
use vstd::prelude::*;

verus! {

/// The rules of the party cursors during monster encounters: a free actor
/// cursor and a reroll cursor barred from the actor's position.
pub open spec fn mon_ally_rule_set() -> Seq<Rule> {
    seq![Rule::Any, Rule::OffPrimary]
}

/// The rules of the dungeon cursors during monster encounters: the target
/// cursor sits on hostile faces, the reroll cursor avoids the dragon.
pub open spec fn mon_dungeon_rule_set() -> Seq<Rule> {
    seq![Rule::Hostile, Rule::NotDragon]
}

/// The rules of the party cursors during loot resolution.
pub open spec fn loot_ally_rule_set() -> Seq<Rule> {
    seq![Rule::Any, Rule::OffPrimary]
}

/// The rules of the dungeon cursors during loot resolution.
pub open spec fn loot_dungeon_rule_set() -> Seq<Rule> {
    seq![Rule::NotDragon, Rule::Any]
}

/// The dungeon rules when a scroll acts: scrolls cannot open chests.
pub open spec fn loot_scroll_dungeon_rule_set() -> Seq<Rule> {
    seq![Rule::NotDragonNorChest, Rule::Any]
}

/// The party rules during the dragon showdown: only companions can be
/// sacrificed.
pub open spec fn dragon_ally_rule_set() -> Seq<Rule> {
    seq![Rule::Companion, Rule::Any]
}

/// The single free cursor of the graveyard.
pub open spec fn graveyard_rule_set() -> Seq<Rule> {
    seq![Rule::Any]
}

/// Whether the dungeon still holds a hostile face.
pub open spec fn has_monsters_in(d: Seq<Monster>) -> bool {
    exists|i: int| 0 <= i < d.len() && (#[trigger] d[i]).spec_hostile()
}

/// Whether the dungeon still holds a loot face.
pub open spec fn has_loot_in(d: Seq<Monster>) -> bool {
    exists|i: int| 0 <= i < d.len() && (#[trigger] d[i]).spec_loot()
}

/// Whether the dungeon still holds a chest.
pub open spec fn has_chest_in(d: Seq<Monster>) -> bool {
    exists|i: int| 0 <= i < d.len() && d[i] == Monster::Chest
}

/// Whether loot can still be resolved: some loot remains, and either the
/// graveyard holds someone to revive or a chest can be opened.
pub open spec fn loot_actionable(d: Seq<Monster>, g: Seq<Ally>) -> bool {
    has_loot_in(d) && (g.len() > 0 || has_chest_in(d))
}

/// The affects-all pairing rule: these ally/monster pairs resolve against
/// every matching die, not just the targeted one.
pub open spec fn affects_all_rule(a: Ally, m: Monster) -> bool {
    ||| (a == Ally::Fighter && m == Monster::Goblin)
    ||| (a == Ally::Cleric && m == Monster::Skeleton)
    ||| (a == Ally::Mage && m == Monster::Ooze)
    ||| a == Ally::Champion
    ||| (a == Ally::Thief && m == Monster::Chest)
    ||| m == Monster::Potion
}

/// The running game: the current phase, the dice collections, the treasure
/// pool and the counters of the delve.
pub struct Game {
    rng: rand_pcg::Pcg64Mcg,
    blink: bool,
    delve: u64,
    level: u64,
    run_xp: u64,
    party_size: u64,
    no_monsters: bool,
    phase: Phase,
    hero: Hero,
    party: Cursor<Ally>,
    dungeon: Cursor<Monster>,
    graveyard: Cursor<Ally>,
    treasure: Vec<Treasure>,
    inventory: Vec<Treasure>,
}

impl Game {
    /// The current phase, as seen by specifications.
    pub closed spec fn spec_phase(self) -> Phase {
        self.phase
    }

    /// The party container, as seen by specifications.
    pub closed spec fn spec_party(self) -> Cursor<Ally> {
        self.party
    }

    /// The dungeon container, as seen by specifications.
    pub closed spec fn spec_dungeon(self) -> Cursor<Monster> {
        self.dungeon
    }

    /// The graveyard container, as seen by specifications.
    pub closed spec fn spec_graveyard(self) -> Cursor<Ally> {
        self.graveyard
    }

    /// The remaining treasure pool, as seen by specifications.
    pub closed spec fn spec_treasure(self) -> Seq<Treasure> {
        self.treasure@
    }

    /// The collected treasure, as seen by specifications.
    pub closed spec fn spec_inventory(self) -> Seq<Treasure> {
        self.inventory@
    }

    /// The delve counter, as seen by specifications.
    pub closed spec fn spec_delve(self) -> u64 {
        self.delve
    }

    /// The level counter, as seen by specifications.
    pub closed spec fn spec_level(self) -> u64 {
        self.level
    }

    /// The experience earned in the running delve, as seen by specifications.
    pub closed spec fn spec_run_xp(self) -> u64 {
        self.run_xp
    }

    /// The size the party was rolled with, as seen by specifications.
    pub closed spec fn spec_party_size(self) -> u64 {
        self.party_size
    }

    /// Whether the running level started without hostile faces.
    pub closed spec fn spec_no_monsters(self) -> bool {
        self.no_monsters
    }

    /// The hero, as seen by specifications.
    pub closed spec fn spec_hero(self) -> Hero {
        self.hero
    }

    /// The cosmetic blink flag, as seen by specifications.
    pub closed spec fn spec_blink(self) -> bool {
        self.blink
    }

    /// The random stream, as seen by specifications (opaque).
    pub closed spec fn spec_rng(self) -> rand_pcg::Pcg64Mcg {
        self.rng
    }

    /// Well-formedness: the three containers are well-formed, the party and
    /// the dungeon carry their two cursor roles, the graveyard its one.
    pub open spec fn wf(self) -> bool {
        &&& self.spec_party().wf()
        &&& self.spec_dungeon().wf()
        &&& self.spec_graveyard().wf()
        &&& self.spec_party().positions().len() == 2
        &&& self.spec_dungeon().positions().len() == 2
        &&& self.spec_graveyard().positions().len() == 1
    }

    /// The current phase.
    pub fn phase(&self) -> (p: Phase)
        ensures
            p == self.spec_phase(),
    {
        self.phase
    }

    /// Read-only view of the party container.
    pub fn party(&self) -> (r: &Cursor<Ally>)
        ensures
            *r == self.spec_party(),
    {
        &self.party
    }

    /// Read-only view of the dungeon container.
    pub fn dungeon(&self) -> (r: &Cursor<Monster>)
        ensures
            *r == self.spec_dungeon(),
    {
        &self.dungeon
    }

    /// Read-only view of the graveyard container.
    pub fn graveyard(&self) -> (r: &Cursor<Ally>)
        ensures
            *r == self.spec_graveyard(),
    {
        &self.graveyard
    }

    /// Read-only view of the remaining treasure pool.
    pub fn treasure(&self) -> (r: &Vec<Treasure>)
        ensures
            r@ == self.spec_treasure(),
    {
        &self.treasure
    }

    /// Read-only view of the collected treasure.
    pub fn inventory(&self) -> (r: &Vec<Treasure>)
        ensures
            r@ == self.spec_inventory(),
    {
        &self.inventory
    }

    /// The delve counter.
    pub fn delve(&self) -> (r: u64)
        ensures
            r == self.spec_delve(),
    {
        self.delve
    }

    /// The level counter.
    pub fn level(&self) -> (r: u64)
        ensures
            r == self.spec_level(),
    {
        self.level
    }

    /// The experience earned in the running delve.
    pub fn run_xp(&self) -> (r: u64)
        ensures
            r == self.spec_run_xp(),
    {
        self.run_xp
    }

    /// The hero.
    pub fn hero(&self) -> (r: &Hero)
        ensures
            *r == self.spec_hero(),
    {
        &self.hero
    }

    /// The cosmetic blink flag.
    pub fn blink(&self) -> (r: bool)
        ensures
            r == self.spec_blink(),
    {
        self.blink
    }

    /// Flip the cosmetic blink flag.
    pub fn toggle_blink(&mut self)
        ensures
            final(self).spec_blink() == !old(self).spec_blink(),
            final(self).spec_phase() == old(self).spec_phase(),
            final(self).spec_party() == old(self).spec_party(),
            final(self).spec_dungeon() == old(self).spec_dungeon(),
            final(self).spec_graveyard() == old(self).spec_graveyard(),
            old(self).wf() ==> final(self).wf(),
    {
        self.blink = !self.blink;
    }
}

} // verus!
