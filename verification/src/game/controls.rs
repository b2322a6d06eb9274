//! The commands the presentation layer hands to the engine.

use vstd::prelude::*;

verus! {

/// An abstract input command, already decoded from whatever device produced
/// it.
#[derive(Debug, PartialEq, Eq, Structural, Clone, Copy)]
pub enum Command {
    /// Move the active selection cursor forward.
    MoveNext,
    /// Move the active selection cursor backward.
    MovePrev,
    /// Confirm: advance the phase machine.
    Confirm,
    /// Cancel: retreat the phase machine.
    Cancel,
    /// Flip the selection mark under the active cursor.
    ToggleSelect,
    /// Switch to the upper row (reroll selection) or the continue choice.
    SwitchUp,
    /// Switch to the lower row (reroll selection) or the end choice.
    SwitchDown,
    /// Leave the game.
    Quit,
}

} // verus!

verus! {

use crate::dice::{Ally, Monster};
use crate::game::Game;
use crate::game::gameplay::{same_counters, same_loot};
use crate::game::utils::{Cursor, Selectable, first_legal_from, last_legal_before, rule_holds};
use crate::phase::{Dragon as DragonPhase, Loot as LootPhase, Monster as MonsterPhase, Phase,
    Regroup as RegroupPhase, Reroll};

/// Cursor `c` of `b` moved forward from its place in `a` to the nearest later
/// legal index, or stayed at the boundary; nothing else of the container
/// changed.
pub open spec fn stepped_next<T: Selectable>(a: Cursor<T>, b: Cursor<T>, c: int) -> bool {
    &&& b.items() == a.items()
    &&& b.marks() == a.marks()
    &&& b.rules() == a.rules()
    &&& b.limit() == a.limit()
    &&& match first_legal_from(
        a.rules()[c],
        a.positions()[0] as int,
        a.items(),
        a.positions()[c] as int + 1,
    ) {
        Some(j) => b.positions() == a.positions().update(c, j as usize) && rule_holds(
            a.rules()[c],
            a.positions()[0] as int,
            j,
            a.items()[j],
        ),
        None => b.positions() == a.positions(),
    }
}

/// Cursor `c` of `b` moved backward from its place in `a` to the nearest
/// earlier legal index, or stayed at the boundary; nothing else changed.
pub open spec fn stepped_prev<T: Selectable>(a: Cursor<T>, b: Cursor<T>, c: int) -> bool {
    &&& b.items() == a.items()
    &&& b.marks() == a.marks()
    &&& b.rules() == a.rules()
    &&& b.limit() == a.limit()
    &&& match last_legal_before(
        a.rules()[c],
        a.positions()[0] as int,
        a.items(),
        a.positions()[c] as int,
    ) {
        Some(j) => b.positions() == a.positions().update(c, j as usize) && rule_holds(
            a.rules()[c],
            a.positions()[0] as int,
            j,
            a.items()[j],
        ),
        None => b.positions() == a.positions(),
    }
}

/// The index under cursor `c` of `a` flipped in or out of the selection,
/// insertion refused at a reached cap; nothing else changed.
pub open spec fn toggled<T: Selectable>(a: Cursor<T>, b: Cursor<T>, c: int) -> bool {
    &&& b.items() == a.items()
    &&& b.positions() == a.positions()
    &&& b.rules() == a.rules()
    &&& b.limit() == a.limit()
    &&& ({
        let idx = a.positions()[c];
        if a.marks().contains(idx) {
            b.marks() == crate::game::utils::without_mark(a.marks(), idx) && !b.marks().contains(
                idx,
            )
        } else if a.limit() == 0 || a.marks().len() < a.limit() {
            b.marks() == a.marks().push(idx)
        } else {
            b.marks() == a.marks()
        }
    })
}

impl Game {
    /// Move the cursor the current phase selects with to the next legal
    /// index.  On an empty collection nothing moves.
    pub fn select_next(&mut self)
        requires
            old(self).wf(),
        ensures
            final(self).wf(),
            final(self).spec_phase() == old(self).spec_phase(),
            same_loot(*old(self), *final(self)),
            same_counters(*old(self), *final(self)),
            ({
                let g = *old(self);
                let h = *final(self);
                match g.spec_phase() {
                    Phase::Monster(MonsterPhase::SelectAlly)
                    | Phase::Loot(LootPhase::SelectAlly)
                    | Phase::Dragon(DragonPhase::SelectAlly) => if g.spec_party().items().len()
                        > 0 {
                        stepped_next(g.spec_party(), h.spec_party(), 0)
                            && h.spec_dungeon() == g.spec_dungeon() && h.spec_graveyard()
                            == g.spec_graveyard()
                    } else {
                        h == g
                    },
                    Phase::Monster(MonsterPhase::SelectReroll(Reroll::Ally)) => if g.spec_party(
                    ).items().len() > 0 {
                        stepped_next(g.spec_party(), h.spec_party(), 1)
                            && h.spec_dungeon() == g.spec_dungeon() && h.spec_graveyard()
                            == g.spec_graveyard()
                    } else {
                        h == g
                    },
                    Phase::Loot(LootPhase::SelectGraveyard) => if g.spec_graveyard().items().len()
                        > 0 {
                        stepped_next(g.spec_graveyard(), h.spec_graveyard(), 0)
                            && h.spec_party() == g.spec_party() && h.spec_dungeon()
                            == g.spec_dungeon()
                    } else {
                        h == g
                    },
                    Phase::Monster(MonsterPhase::SelectMonster)
                    | Phase::Loot(LootPhase::SelectLoot) => if g.spec_dungeon().items().len() > 0 {
                        stepped_next(g.spec_dungeon(), h.spec_dungeon(), 0)
                            && h.spec_party() == g.spec_party() && h.spec_graveyard()
                            == g.spec_graveyard()
                    } else {
                        h == g
                    },
                    Phase::Monster(MonsterPhase::SelectReroll(Reroll::Monster)) => if g.spec_dungeon(
                    ).items().len() > 0 {
                        stepped_next(g.spec_dungeon(), h.spec_dungeon(), 1)
                            && h.spec_party() == g.spec_party() && h.spec_graveyard()
                            == g.spec_graveyard()
                    } else {
                        h == g
                    },
                    _ => h == g,
                }
            }),
    {
        match self.phase {
            Phase::Monster(MonsterPhase::SelectAlly)
            | Phase::Loot(LootPhase::SelectAlly)
            | Phase::Dragon(DragonPhase::SelectAlly) => {
                if self.party.data().len() > 0 {
                    self.party.next(0);
                }
            },
            Phase::Monster(MonsterPhase::SelectReroll(Reroll::Ally)) => {
                if self.party.data().len() > 0 {
                    self.party.next(1);
                }
            },
            Phase::Loot(LootPhase::SelectGraveyard) => {
                if self.graveyard.data().len() > 0 {
                    self.graveyard.next(0);
                }
            },
            Phase::Monster(MonsterPhase::SelectMonster) | Phase::Loot(LootPhase::SelectLoot) => {
                if self.dungeon.data().len() > 0 {
                    self.dungeon.next(0);
                }
            },
            Phase::Monster(MonsterPhase::SelectReroll(Reroll::Monster)) => {
                if self.dungeon.data().len() > 0 {
                    self.dungeon.next(1);
                }
            },
            _ => {},
        }
    }

    /// Move the cursor the current phase selects with to the previous legal
    /// index.  On an empty collection nothing moves.
    pub fn select_prev(&mut self)
        requires
            old(self).wf(),
        ensures
            final(self).wf(),
            final(self).spec_phase() == old(self).spec_phase(),
            same_loot(*old(self), *final(self)),
            same_counters(*old(self), *final(self)),
            ({
                let g = *old(self);
                let h = *final(self);
                match g.spec_phase() {
                    Phase::Monster(MonsterPhase::SelectAlly)
                    | Phase::Loot(LootPhase::SelectAlly)
                    | Phase::Dragon(DragonPhase::SelectAlly) => if g.spec_party().items().len()
                        > 0 {
                        stepped_prev(g.spec_party(), h.spec_party(), 0)
                            && h.spec_dungeon() == g.spec_dungeon() && h.spec_graveyard()
                            == g.spec_graveyard()
                    } else {
                        h == g
                    },
                    Phase::Monster(MonsterPhase::SelectReroll(Reroll::Ally)) => if g.spec_party(
                    ).items().len() > 0 {
                        stepped_prev(g.spec_party(), h.spec_party(), 1)
                            && h.spec_dungeon() == g.spec_dungeon() && h.spec_graveyard()
                            == g.spec_graveyard()
                    } else {
                        h == g
                    },
                    Phase::Loot(LootPhase::SelectGraveyard) => if g.spec_graveyard().items().len()
                        > 0 {
                        stepped_prev(g.spec_graveyard(), h.spec_graveyard(), 0)
                            && h.spec_party() == g.spec_party() && h.spec_dungeon()
                            == g.spec_dungeon()
                    } else {
                        h == g
                    },
                    Phase::Monster(MonsterPhase::SelectMonster)
                    | Phase::Loot(LootPhase::SelectLoot) => if g.spec_dungeon().items().len() > 0 {
                        stepped_prev(g.spec_dungeon(), h.spec_dungeon(), 0)
                            && h.spec_party() == g.spec_party() && h.spec_graveyard()
                            == g.spec_graveyard()
                    } else {
                        h == g
                    },
                    Phase::Monster(MonsterPhase::SelectReroll(Reroll::Monster)) => if g.spec_dungeon(
                    ).items().len() > 0 {
                        stepped_prev(g.spec_dungeon(), h.spec_dungeon(), 1)
                            && h.spec_party() == g.spec_party() && h.spec_graveyard()
                            == g.spec_graveyard()
                    } else {
                        h == g
                    },
                    _ => h == g,
                }
            }),
    {
        match self.phase {
            Phase::Monster(MonsterPhase::SelectAlly)
            | Phase::Loot(LootPhase::SelectAlly)
            | Phase::Dragon(DragonPhase::SelectAlly) => {
                if self.party.data().len() > 0 {
                    self.party.prev(0);
                }
            },
            Phase::Monster(MonsterPhase::SelectReroll(Reroll::Ally)) => {
                if self.party.data().len() > 0 {
                    self.party.prev(1);
                }
            },
            Phase::Loot(LootPhase::SelectGraveyard) => {
                if self.graveyard.data().len() > 0 {
                    self.graveyard.prev(0);
                }
            },
            Phase::Monster(MonsterPhase::SelectMonster) | Phase::Loot(LootPhase::SelectLoot) => {
                if self.dungeon.data().len() > 0 {
                    self.dungeon.prev(0);
                }
            },
            Phase::Monster(MonsterPhase::SelectReroll(Reroll::Monster)) => {
                if self.dungeon.data().len() > 0 {
                    self.dungeon.prev(1);
                }
            },
            _ => {},
        }
    }

    /// Flip the selection mark under the cursor the current phase selects
    /// with.  On an empty collection nothing changes.
    pub fn toggle_select(&mut self)
        requires
            old(self).wf(),
        ensures
            final(self).wf(),
            final(self).spec_phase() == old(self).spec_phase(),
            same_loot(*old(self), *final(self)),
            same_counters(*old(self), *final(self)),
            ({
                let g = *old(self);
                let h = *final(self);
                match g.spec_phase() {
                    Phase::Monster(MonsterPhase::SelectReroll(Reroll::Monster)) => if g.spec_dungeon(
                    ).items().len() > 0 {
                        toggled(g.spec_dungeon(), h.spec_dungeon(), 1) && h.spec_party()
                            == g.spec_party() && h.spec_graveyard() == g.spec_graveyard()
                    } else {
                        h == g
                    },
                    Phase::Monster(MonsterPhase::SelectReroll(Reroll::Ally)) => if g.spec_party(
                    ).items().len() > 0 {
                        toggled(g.spec_party(), h.spec_party(), 1) && h.spec_dungeon()
                            == g.spec_dungeon() && h.spec_graveyard() == g.spec_graveyard()
                    } else {
                        h == g
                    },
                    Phase::Loot(LootPhase::SelectGraveyard) => if g.spec_graveyard().items().len()
                        > 0 {
                        toggled(g.spec_graveyard(), h.spec_graveyard(), 0) && h.spec_party()
                            == g.spec_party() && h.spec_dungeon() == g.spec_dungeon()
                    } else {
                        h == g
                    },
                    Phase::Dragon(DragonPhase::SelectAlly) => if g.spec_party().items().len() > 0 {
                        toggled(g.spec_party(), h.spec_party(), 0) && h.spec_dungeon()
                            == g.spec_dungeon() && h.spec_graveyard() == g.spec_graveyard()
                    } else {
                        h == g
                    },
                    _ => h == g,
                }
            }),
    {
        match self.phase {
            Phase::Monster(MonsterPhase::SelectReroll(Reroll::Monster)) => {
                if self.dungeon.data().len() > 0 {
                    self.dungeon.toggle_select(1);
                }
            },
            Phase::Monster(MonsterPhase::SelectReroll(Reroll::Ally)) => {
                if self.party.data().len() > 0 {
                    self.party.toggle_select(1);
                }
            },
            Phase::Loot(LootPhase::SelectGraveyard) => {
                if self.graveyard.data().len() > 0 {
                    self.graveyard.toggle_select(0);
                }
            },
            Phase::Dragon(DragonPhase::SelectAlly) => {
                if self.party.data().len() > 0 {
                    self.party.toggle_select(0);
                }
            },
            _ => {},
        }
    }
}

} // verus!

verus! {

use crate::game::gameplay::same_dice;

impl Game {
    /// Switch the reroll selection to the dungeon row.
    pub fn select_top(&mut self)
        ensures
            final(self).spec_phase() == Phase::Monster(
                MonsterPhase::SelectReroll(Reroll::Monster),
            ),
            same_dice(*old(self), *final(self)),
            same_loot(*old(self), *final(self)),
            same_counters(*old(self), *final(self)),
            old(self).wf() ==> final(self).wf(),
    {
        self.phase = Phase::Monster(MonsterPhase::SelectReroll(Reroll::Monster));
    }

    /// Switch the reroll selection to the party row.
    pub fn select_bottom(&mut self)
        ensures
            final(self).spec_phase() == Phase::Monster(MonsterPhase::SelectReroll(Reroll::Ally)),
            same_dice(*old(self), *final(self)),
            same_loot(*old(self), *final(self)),
            same_counters(*old(self), *final(self)),
            old(self).wf() ==> final(self).wf(),
    {
        self.phase = Phase::Monster(MonsterPhase::SelectReroll(Reroll::Ally));
    }

    /// Pick the continue choice of the regroup decision.
    pub fn select_continue(&mut self)
        ensures
            final(self).spec_phase() == Phase::Regroup(RegroupPhase::Continue),
            same_dice(*old(self), *final(self)),
            same_loot(*old(self), *final(self)),
            same_counters(*old(self), *final(self)),
            old(self).wf() ==> final(self).wf(),
    {
        self.phase = Phase::Regroup(RegroupPhase::Continue);
    }

    /// Pick the end choice of the regroup decision.
    pub fn select_end(&mut self)
        ensures
            final(self).spec_phase() == Phase::Regroup(RegroupPhase::End),
            same_dice(*old(self), *final(self)),
            same_loot(*old(self), *final(self)),
            same_counters(*old(self), *final(self)),
            old(self).wf() ==> final(self).wf(),
    {
        self.phase = Phase::Regroup(RegroupPhase::End);
    }

    /// Dispatch one decoded command.  Returns true when the player wants to
    /// leave the game; every handled command restores the cosmetic highlight.
    pub fn handle_command(&mut self, cmd: Command) -> (quit: bool)
        requires
            old(self).wf(),
            cmd == Command::Confirm ==> old(self).can_advance(),
            cmd == Command::Cancel ==> old(self).can_retreat(),
        ensures
            final(self).wf(),
            quit == (cmd == Command::Quit),
            cmd == Command::Quit ==> *final(self) == *old(self),
            cmd == Command::Confirm ==> final(self).settled() && final(self).spec_blink(),
            cmd == Command::Cancel ==> final(self).spec_blink(),
            cmd == Command::MoveNext || cmd == Command::MovePrev ==> {
                &&& final(self).spec_phase() == old(self).spec_phase()
                &&& final(self).spec_party().items() == old(self).spec_party().items()
                &&& final(self).spec_party().marks() == old(self).spec_party().marks()
                &&& final(self).spec_dungeon().items() == old(self).spec_dungeon().items()
                &&& final(self).spec_dungeon().marks() == old(self).spec_dungeon().marks()
                &&& final(self).spec_graveyard().items() == old(self).spec_graveyard().items()
                &&& final(self).spec_graveyard().marks() == old(self).spec_graveyard().marks()
                &&& same_loot(*old(self), *final(self))
                &&& final(self).spec_blink()
            },
            cmd == Command::ToggleSelect ==> {
                &&& final(self).spec_phase() == old(self).spec_phase()
                &&& final(self).spec_party().items() == old(self).spec_party().items()
                &&& final(self).spec_dungeon().items() == old(self).spec_dungeon().items()
                &&& final(self).spec_graveyard().items() == old(self).spec_graveyard().items()
                &&& same_loot(*old(self), *final(self))
                &&& final(self).spec_blink()
            },
            cmd == Command::SwitchUp ==> {
                &&& final(self).spec_phase() == (match old(self).spec_phase() {
                    Phase::Monster(MonsterPhase::SelectReroll(Reroll::Ally)) => Phase::Monster(
                        MonsterPhase::SelectReroll(Reroll::Monster),
                    ),
                    Phase::Regroup(RegroupPhase::End) => Phase::Regroup(RegroupPhase::Continue),
                    p => p,
                })
                &&& same_dice(*old(self), *final(self))
                &&& same_loot(*old(self), *final(self))
            },
            cmd == Command::SwitchDown ==> {
                &&& final(self).spec_phase() == (match old(self).spec_phase() {
                    Phase::Monster(MonsterPhase::SelectReroll(Reroll::Monster)) => Phase::Monster(
                        MonsterPhase::SelectReroll(Reroll::Ally),
                    ),
                    Phase::Regroup(RegroupPhase::Continue) => Phase::Regroup(RegroupPhase::End),
                    p => p,
                })
                &&& same_dice(*old(self), *final(self))
                &&& same_loot(*old(self), *final(self))
            },
    {
        match cmd {
            Command::MoveNext => self.select_next(),
            Command::MovePrev => self.select_prev(),
            Command::Confirm => self.next_phase(),
            Command::Cancel => self.prev_phase(),
            Command::ToggleSelect => self.toggle_select(),
            Command::Quit => {
                return true;
            },
            Command::SwitchUp => {
                match self.phase {
                    Phase::Monster(MonsterPhase::SelectReroll(Reroll::Ally)) => self.select_top(),
                    Phase::Regroup(RegroupPhase::End) => self.select_continue(),
                    _ => {
                        return false;
                    },
                }
            },
            Command::SwitchDown => {
                match self.phase {
                    Phase::Monster(MonsterPhase::SelectReroll(Reroll::Monster)) => self
                        .select_bottom(),
                    Phase::Regroup(RegroupPhase::Continue) => self.select_end(),
                    _ => {
                        return false;
                    },
                }
            },
        }
        self.blink = true;
        false
    }
}

} // verus!
