//! The hero that carries experience between delves.

use vstd::prelude::*;

verus! {

/// Experience rank of the hero.
#[derive(Debug, Clone, Copy)]
pub enum Level {
    Novice,
    Expert,
}

/// The selectable hero classes.
#[derive(Debug, Clone, Copy)]
pub enum Type {
    Bard,
    Battlemage,
    Beguiler,
    Chieftain,
    Commander,
    DragonSlayer,
    Necromancer,
    Paladin,
}

/// A hero: class, rank and accumulated experience.
#[derive(Debug)]
pub struct Hero {
    hero: Type,
    level: Level,
    xp: u64,
    ult_used: bool,
}

impl Hero {
    /// Accumulated experience, as seen by specifications.
    pub closed spec fn spec_xp(self) -> u64 {
        self.xp
    }

    /// A fresh hero of the given class with no experience.
    pub fn new(hero: Type) -> (h: Hero)
        ensures
            h.spec_xp() == 0,
    {
        Hero { hero, level: Level::Novice, xp: 0, ult_used: false }
    }

    /// Accumulated experience.
    pub fn xp(&self) -> (r: u64)
        ensures
            r == self.spec_xp(),
    {
        self.xp
    }

    /// Add experience earned by a finished delve; saturates at the numeric
    /// bound.
    pub fn add_xp(&mut self, amount: u64)
        ensures
            final(self).spec_xp() == if old(self).spec_xp() + amount <= u64::MAX {
                old(self).spec_xp() + amount
            } else {
                u64::MAX as int
            },
    {
        if amount > u64::MAX - self.xp {
            self.xp = u64::MAX;
        } else {
            self.xp = self.xp + amount;
        }
    }
}

} // verus!
