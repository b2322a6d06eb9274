//! Resolution actions and delve/level bookkeeping.

use vstd::prelude::*;

verus! {

use crate::dice::{Ally, Monster};
use crate::game::Game;
use crate::game::utils::{Cursor, Selectable, count_in, filter_eq, is_rolled, lemma_prune_marks, lemma_prune_marks_id, prune_marks};

/// Pruning twice is pruning at the smaller bound.
pub proof fn lemma_prune_compose(s: Seq<usize>, a: int, b: int)
    requires
        b <= a,
    ensures
        prune_marks(prune_marks(s, a), b) == prune_marks(s, b),
    decreases s.len(),
{
    if s.len() > 0 {
        lemma_prune_compose(s.drop_last(), a, b);
        let t = prune_marks(s.drop_last(), a);
        if (s.last() as int) < a {
            assert(t.push(s.last()).drop_last() =~= t);
        }
    }
}

/// The items of `s` at or after index `from` whose indices are unmarked, in
/// order.
pub open spec fn keep_unmarked<T>(s: Seq<T>, marks: Seq<usize>, from: int) -> Seq<T>
    decreases s.len() - from,
{
    if from < 0 || from >= s.len() {
        Seq::empty()
    } else {
        let rest = keep_unmarked(s, marks, from + 1);
        if marks.contains(from as usize) {
            rest
        } else {
            seq![s[from]] + rest
        }
    }
}

/// The marked items of `s` at or after index `from`, highest index first.
pub open spec fn take_marked_desc<T>(s: Seq<T>, marks: Seq<usize>, from: int) -> Seq<T>
    decreases s.len() - from,
{
    if from < 0 || from >= s.len() {
        Seq::empty()
    } else {
        let rest = take_marked_desc(s, marks, from + 1);
        if marks.contains(from as usize) {
            rest.push(s[from])
        } else {
            rest
        }
    }
}

/// The first index at or after `from` whose item equals `v`, if any.
pub open spec fn first_index_of<T>(s: Seq<T>, v: T, from: int) -> Option<int>
    decreases s.len() - from,
{
    if from < 0 || from >= s.len() {
        None
    } else if s[from] == v {
        Some(from)
    } else {
        first_index_of(s, v, from + 1)
    }
}

/// The dungeon with its first `n` potions removed (fewer if fewer remain).
pub open spec fn drop_potions(d: Seq<Monster>, n: nat) -> Seq<Monster>
    decreases n,
{
    if n == 0 {
        d
    } else {
        match first_index_of(d, Monster::Potion, 0) {
            Some(i) => drop_potions(d.remove(i), (n - 1) as nat),
            None => d,
        }
    }
}

/// `a + b`, saturating at the numeric bound.
pub open spec fn sat_add_spec(a: u64, b: u64) -> u64 {
    if a + b <= u64::MAX {
        (a + b) as u64
    } else {
        u64::MAX
    }
}

/// Executable saturating addition.
pub fn sat_add(a: u64, b: u64) -> (r: u64)
    ensures
        r == sat_add_spec(a, b),
{
    if b > u64::MAX - a {
        u64::MAX
    } else {
        a + b
    }
}

/// The party size a delve starts with, grown with the hero's experience: the
/// largest `p` with `4 (p - 1)^2 <= 9 (xp + 4)`.
pub fn party_size_for(xp: u64) -> (p: u64)
    ensures
        p >= 1,
        4 * (p - 1) * (p - 1) <= 9 * (xp + 4),
        9 * (xp + 4) < 4 * (p as int) * (p as int),
{
    let m: u128 = 9u128 * (xp as u128 + 4);
    proof {
        assert(m <= 9 * (0xffff_ffff_ffff_ffffu128 + 4));
        assert(0x4_0000_0000int * 0x4_0000_0000int == 0x10_0000_0000_0000_0000int)
            by (nonlinear_arith);
        assert(m < 0x4_0000_0000int * 0x4_0000_0000int);
    }
    let mut lo: u128 = 0;
    let mut hi: u128 = 0x4_0000_0000;
    while lo + 1 < hi
        invariant
            lo < hi <= 0x4_0000_0000u128,
            lo * lo <= m,
            (hi as int) * (hi as int) > m,
            m == 9 * (xp + 4),
        decreases hi - lo,
    {
        let mid = lo + (hi - lo) / 2;
        proof {
            assert(lo < mid < hi);
            assert((mid as int) * (mid as int) < 0x4_0000_0000int * 0x4_0000_0000int)
                by (nonlinear_arith)
                requires
                    0 <= mid < 0x4_0000_0000u128,
            ;
            assert(0x4_0000_0000int * 0x4_0000_0000int == 0x10_0000_0000_0000_0000int)
                by (nonlinear_arith);
        }
        if mid * mid <= m {
            lo = mid;
        } else {
            hi = mid;
        }
    }
    proof {
        assert(hi == lo + 1);
    }
    let p = (lo / 2) as u64 + 1;
    proof {
        let q = lo as int / 2;
        assert(2 * q <= lo as int && lo as int <= 2 * q + 1);
        assert(p - 1 == q);
        assert(4 * q * q <= (lo as int) * (lo as int)) by (nonlinear_arith)
            requires
                0 <= 2 * q <= lo as int,
        ;
        assert(4 * (p as int) * (p as int) == (2 * q + 2) * (2 * q + 2)) by (nonlinear_arith)
            requires
                p as int == q + 1,
        ;
        assert((lo as int + 1) * (lo as int + 1) <= (2 * q + 2) * (2 * q + 2)) by (nonlinear_arith)
            requires
                0 <= lo as int <= 2 * q + 1,
        ;
    }
    p
}

} // verus!

verus! {

use crate::game::Rule;

/// Neither the treasure pool nor the collected treasure changed.
pub open spec fn same_loot(a: Game, b: Game) -> bool {
    a.spec_treasure() == b.spec_treasure() && a.spec_inventory() == b.spec_inventory()
}

/// No counter of the delve changed.
pub open spec fn same_counters(a: Game, b: Game) -> bool {
    &&& a.spec_delve() == b.spec_delve()
    &&& a.spec_level() == b.spec_level()
    &&& a.spec_run_xp() == b.spec_run_xp()
    &&& a.spec_party_size() == b.spec_party_size()
    &&& a.spec_no_monsters() == b.spec_no_monsters()
    &&& a.spec_hero() == b.spec_hero()
    &&& a.spec_blink() == b.spec_blink()
}

/// None of the dice collections changed.
pub open spec fn same_dice(a: Game, b: Game) -> bool {
    &&& a.spec_party() == b.spec_party()
    &&& a.spec_dungeon() == b.spec_dungeon()
    &&& a.spec_graveyard() == b.spec_graveyard()
}

/// Build the monster-phase party rules.
pub fn mon_ally_rules() -> (v: Vec<Rule>)
    ensures
        v@ == crate::game::mon_ally_rule_set(),
{
    let mut v: Vec<Rule> = Vec::new();
    v.push(Rule::Any);
    v.push(Rule::OffPrimary);
    proof {
        assert(v@ =~= crate::game::mon_ally_rule_set());
    }
    v
}

/// Build the monster-phase dungeon rules.
pub fn mon_dungeon_rules() -> (v: Vec<Rule>)
    ensures
        v@ == crate::game::mon_dungeon_rule_set(),
{
    let mut v: Vec<Rule> = Vec::new();
    v.push(Rule::Hostile);
    v.push(Rule::NotDragon);
    proof {
        assert(v@ =~= crate::game::mon_dungeon_rule_set());
    }
    v
}

/// Build the loot-phase party rules.
pub fn loot_ally_rules() -> (v: Vec<Rule>)
    ensures
        v@ == crate::game::loot_ally_rule_set(),
{
    let mut v: Vec<Rule> = Vec::new();
    v.push(Rule::Any);
    v.push(Rule::OffPrimary);
    proof {
        assert(v@ =~= crate::game::loot_ally_rule_set());
    }
    v
}

/// Build the loot-phase dungeon rules.
pub fn loot_dungeon_rules() -> (v: Vec<Rule>)
    ensures
        v@ == crate::game::loot_dungeon_rule_set(),
{
    let mut v: Vec<Rule> = Vec::new();
    v.push(Rule::NotDragon);
    v.push(Rule::Any);
    proof {
        assert(v@ =~= crate::game::loot_dungeon_rule_set());
    }
    v
}

/// Build the loot-phase dungeon rules for an acting scroll.
pub fn loot_scroll_dungeon_rules() -> (v: Vec<Rule>)
    ensures
        v@ == crate::game::loot_scroll_dungeon_rule_set(),
{
    let mut v: Vec<Rule> = Vec::new();
    v.push(Rule::NotDragonNorChest);
    v.push(Rule::Any);
    proof {
        assert(v@ =~= crate::game::loot_scroll_dungeon_rule_set());
    }
    v
}

/// Build the dragon-phase party rules.
pub fn dragon_ally_rules() -> (v: Vec<Rule>)
    ensures
        v@ == crate::game::dragon_ally_rule_set(),
{
    let mut v: Vec<Rule> = Vec::new();
    v.push(Rule::Companion);
    v.push(Rule::Any);
    proof {
        assert(v@ =~= crate::game::dragon_ally_rule_set());
    }
    v
}

/// Build the graveyard rules.
pub fn graveyard_rules() -> (v: Vec<Rule>)
    ensures
        v@ == crate::game::graveyard_rule_set(),
{
    let mut v: Vec<Rule> = Vec::new();
    v.push(Rule::Any);
    proof {
        assert(v@ =~= crate::game::graveyard_rule_set());
    }
    v
}

impl Game {
    /// Remove the targeted monster from the dungeon.
    pub(crate) fn kill_monster(&mut self)
        requires
            old(self).wf(),
            old(self).spec_dungeon().items().len() > 0,
        ensures
            final(self).wf(),
            final(self).spec_dungeon().items() == old(self).spec_dungeon().items().remove(
                old(self).spec_dungeon().positions()[0] as int,
            ),
            final(self).spec_dungeon().rules() == old(self).spec_dungeon().rules(),
            final(self).spec_dungeon().limit() == old(self).spec_dungeon().limit(),
            final(self).spec_dungeon().marks() == prune_marks(
                old(self).spec_dungeon().marks(),
                old(self).spec_dungeon().items().len() - 1,
            ),
            final(self).spec_party() == old(self).spec_party(),
            final(self).spec_graveyard() == old(self).spec_graveyard(),
            same_loot(*old(self), *final(self)),
            same_counters(*old(self), *final(self)),
            final(self).spec_phase() == old(self).spec_phase(),
            final(self).spec_rng() == old(self).spec_rng(),
    {
        let idx = self.dungeon.cursor(0);
        let _ = self.dungeon.remove(idx);
    }

    /// Move the acting ally from the party to the graveyard.
    pub(crate) fn kill_ally(&mut self)
        requires
            old(self).wf(),
            old(self).spec_party().items().len() > 0,
        ensures
            final(self).wf(),
            final(self).spec_party().items() == old(self).spec_party().items().remove(
                old(self).spec_party().positions()[0] as int,
            ),
            final(self).spec_party().rules() == old(self).spec_party().rules(),
            final(self).spec_party().limit() == old(self).spec_party().limit(),
            final(self).spec_party().marks() == prune_marks(
                old(self).spec_party().marks(),
                old(self).spec_party().items().len() - 1,
            ),
            final(self).spec_graveyard().items() == old(self).spec_graveyard().items().push(
                old(self).spec_party().items()[old(self).spec_party().positions()[0] as int],
            ),
            final(self).spec_graveyard().rules() == old(self).spec_graveyard().rules(),
            final(self).spec_graveyard().limit() == old(self).spec_graveyard().limit(),
            final(self).spec_graveyard().marks() == old(self).spec_graveyard().marks(),
            final(self).spec_dungeon() == old(self).spec_dungeon(),
            same_loot(*old(self), *final(self)),
            same_counters(*old(self), *final(self)),
            final(self).spec_phase() == old(self).spec_phase(),
            final(self).spec_rng() == old(self).spec_rng(),
    {
        let idx = self.party.cursor(0);
        let ally = self.party.remove(idx);
        self.graveyard.push(ally);
    }

    /// Resolve combat: under the affects-all rule every die equal to the
    /// target leaves the dungeon, otherwise only the targeted die; the acting
    /// ally always moves to the graveyard.
    pub(crate) fn execute_combat(&mut self)
        requires
            old(self).wf(),
            old(self).spec_party().items().len() > 0,
            old(self).spec_dungeon().items().len() > 0,
        ensures
            final(self).wf(),
            ({
                let am = old(self).spec_party().items()[old(self).spec_party().positions()[0] as int];
                let tm = old(self).spec_dungeon().items()[old(self).spec_dungeon().positions()[0] as int];
                &&& final(self).spec_dungeon().items() == if crate::game::affects_all_rule(am, tm) {
                    filter_eq(old(self).spec_dungeon().items(), tm, false)
                } else {
                    old(self).spec_dungeon().items().remove(
                        old(self).spec_dungeon().positions()[0] as int,
                    )
                }
                &&& final(self).spec_graveyard().items() == old(
                    self,
                ).spec_graveyard().items().push(am)
            }),
            final(self).spec_party().items() == old(self).spec_party().items().remove(
                old(self).spec_party().positions()[0] as int,
            ),
            final(self).spec_party().rules() == old(self).spec_party().rules(),
            final(self).spec_party().limit() == old(self).spec_party().limit(),
            final(self).spec_dungeon().rules() == old(self).spec_dungeon().rules(),
            final(self).spec_dungeon().limit() == old(self).spec_dungeon().limit(),
            final(self).spec_graveyard().rules() == old(self).spec_graveyard().rules(),
            final(self).spec_graveyard().limit() == old(self).spec_graveyard().limit(),
            final(self).spec_graveyard().marks() == old(self).spec_graveyard().marks(),
            same_loot(*old(self), *final(self)),
            same_counters(*old(self), *final(self)),
            final(self).spec_phase() == old(self).spec_phase(),
            final(self).spec_rng() == old(self).spec_rng(),
    {
        if self.affects_all() {
            let target = *self.current_monster();
            self.dungeon.retain(&target, false);
        } else {
            self.kill_monster();
        }
        self.kill_ally();
    }

    /// Resolve loot: draw one treasure token uniformly from the pool into the
    /// inventory, remove the opened chest, move the acting ally to the
    /// graveyard and count the score.
    pub(crate) fn execute_loot(&mut self)
        requires
            old(self).wf(),
            old(self).spec_party().items().len() > 0,
            old(self).spec_dungeon().items().len() > 0,
            old(self).spec_treasure().len() > 0,
        ensures
            final(self).wf(),
            exists|k: int|
                0 <= k < old(self).spec_treasure().len() && final(self).spec_treasure() == old(
                    self,
                ).spec_treasure().remove(k) && final(self).spec_inventory() == old(
                    self,
                ).spec_inventory().push(old(self).spec_treasure()[k]),
            final(self).spec_dungeon().items() == old(self).spec_dungeon().items().remove(
                old(self).spec_dungeon().positions()[0] as int,
            ),
            final(self).spec_party().items() == old(self).spec_party().items().remove(
                old(self).spec_party().positions()[0] as int,
            ),
            final(self).spec_graveyard().items() == old(self).spec_graveyard().items().push(
                old(self).spec_party().items()[old(self).spec_party().positions()[0] as int],
            ),
            final(self).spec_party().rules() == old(self).spec_party().rules(),
            final(self).spec_party().limit() == old(self).spec_party().limit(),
            final(self).spec_dungeon().rules() == old(self).spec_dungeon().rules(),
            final(self).spec_dungeon().limit() == old(self).spec_dungeon().limit(),
            final(self).spec_graveyard().rules() == old(self).spec_graveyard().rules(),
            final(self).spec_graveyard().limit() == old(self).spec_graveyard().limit(),
            final(self).spec_graveyard().marks() == old(self).spec_graveyard().marks(),
            final(self).spec_run_xp() == sat_add_spec(old(self).spec_run_xp(), 1),
            final(self).spec_delve() == old(self).spec_delve(),
            final(self).spec_level() == old(self).spec_level(),
            final(self).spec_party_size() == old(self).spec_party_size(),
            final(self).spec_no_monsters() == old(self).spec_no_monsters(),
            final(self).spec_hero() == old(self).spec_hero(),
            final(self).spec_blink() == old(self).spec_blink(),
            final(self).spec_phase() == old(self).spec_phase(),
    {
        let n = self.treasure.len();
        let k64 = crate::rng::rng_below(&mut self.rng, n as u64);
        let k = k64 as usize;
        let t = self.treasure.remove(k);
        self.inventory.push(t);
        self.kill_monster();
        self.kill_ally();
        self.run_xp = sat_add(self.run_xp, 1);
    }
}

} // verus!

verus! {

impl Game {
    /// Resolve a reroll: every selected party and dungeon die is re-sampled
    /// with a fresh face, both selections are cleared, and the acting ally
    /// moves to the graveyard.
    pub(crate) fn execute_reroll(&mut self)
        requires
            old(self).wf(),
            old(self).spec_party().items().len() > 0,
        ensures
            final(self).wf(),
            exists|p1: Seq<Ally>|
                {
                    &&& p1.len() == old(self).spec_party().items().len()
                    &&& (forall|k: int|
                        0 <= k < p1.len() && !old(self).spec_party().marks().contains(k as usize)
                            ==> #[trigger] p1[k] == old(self).spec_party().items()[k])
                    &&& (forall|k: int|
                        0 <= k < p1.len() && old(self).spec_party().marks().contains(k as usize)
                            ==> is_rolled(#[trigger] p1[k]))
                    &&& final(self).spec_party().items() == p1.remove(
                        old(self).spec_party().positions()[0] as int,
                    )
                    &&& final(self).spec_graveyard().items() == old(
                        self,
                    ).spec_graveyard().items().push(
                        p1[old(self).spec_party().positions()[0] as int],
                    )
                },
            final(self).spec_dungeon().items().len() == old(self).spec_dungeon().items().len(),
            forall|k: int|
                0 <= k < old(self).spec_dungeon().items().len() && !old(
                    self,
                ).spec_dungeon().marks().contains(k as usize)
                    ==> #[trigger] final(self).spec_dungeon().items()[k]
                    == old(self).spec_dungeon().items()[k],
            forall|k: int|
                0 <= k < old(self).spec_dungeon().items().len() && old(
                    self,
                ).spec_dungeon().marks().contains(k as usize) ==> is_rolled(
                    #[trigger] final(self).spec_dungeon().items()[k],
                ),
            final(self).spec_party().marks() == Seq::<usize>::empty(),
            final(self).spec_dungeon().marks() == Seq::<usize>::empty(),
            final(self).spec_party().rules() == old(self).spec_party().rules(),
            final(self).spec_party().limit() == old(self).spec_party().limit(),
            final(self).spec_dungeon().rules() == old(self).spec_dungeon().rules(),
            final(self).spec_dungeon().limit() == old(self).spec_dungeon().limit(),
            final(self).spec_dungeon().positions() == old(self).spec_dungeon().positions(),
            final(self).spec_graveyard().rules() == old(self).spec_graveyard().rules(),
            final(self).spec_graveyard().limit() == old(self).spec_graveyard().limit(),
            final(self).spec_graveyard().marks() == old(self).spec_graveyard().marks(),
            same_loot(*old(self), *final(self)),
            same_counters(*old(self), *final(self)),
            final(self).spec_phase() == old(self).spec_phase(),
    {
        let ghost orig_party = old(self).spec_party();
        let n_party = self.party.data().len();
        let n_dungeon = self.dungeon.data().len();
        proof {
            assert(orig_party.items().len() <= usize::MAX);
            assert(old(self).spec_dungeon().items().len() <= usize::MAX);
        }
        let sel = self.party.selection();
        let mut i: usize = 0;
        while i < sel.len()
            invariant
                self.wf(),
                sel@ == orig_party.marks(),
                i <= sel@.len(),
                self.spec_party().items().len() == orig_party.items().len(),
                self.spec_party().marks() == orig_party.marks(),
                self.spec_party().positions() == orig_party.positions(),
                self.spec_party().rules() == orig_party.rules(),
                self.spec_party().limit() == orig_party.limit(),
                forall|k: int|
                    0 <= k < orig_party.items().len() && !orig_party.marks().contains(k as usize)
                        ==> #[trigger] self.spec_party().items()[k] == orig_party.items()[k],
                forall|j: int|
                    0 <= j < i ==> is_rolled(
                        #[trigger] self.spec_party().items()[sel@[j] as int],
                    ),
                self.spec_dungeon() == old(self).spec_dungeon(),
                self.spec_graveyard() == old(self).spec_graveyard(),
                same_loot(*old(self), *self),
                same_counters(*old(self), *self),
                self.spec_phase() == old(self).spec_phase(),
            decreases sel@.len() - i,
        {
            let idx = sel[i];
            proof {
                assert(orig_party.marks().contains(sel@[i as int])) by {
                    assert(orig_party.marks()[i as int] == sel@[i as int]);
                }
            }
            let face: Ally = crate::game::roll(&mut self.rng);
            self.party.set_value(idx, face);
            proof {
                assert forall|j: int| 0 <= j < i + 1 implies is_rolled(
                    #[trigger] self.spec_party().items()[sel@[j] as int],
                ) by {
                    if j < i {
                        assert(sel@[j] != sel@[i as int]);
                    }
                }
            }
            i += 1;
        }
        self.party.clear_selection();
        proof {
            assert forall|k: int|
                0 <= k < orig_party.items().len() && orig_party.marks().contains(k as usize)
                    implies is_rolled(#[trigger] self.spec_party().items()[k]) by {
                let j = choose|j: int|
                    0 <= j < orig_party.marks().len() && orig_party.marks()[j] == k as usize;
                assert(is_rolled(self.spec_party().items()[sel@[j] as int]));
            }
        }
        let ghost orig_dungeon = old(self).spec_dungeon();
        let dsel = self.dungeon.selection();
        let mut i: usize = 0;
        while i < dsel.len()
            invariant
                self.wf(),
                dsel@ == orig_dungeon.marks(),
                i <= dsel@.len(),
                self.spec_dungeon().items().len() == orig_dungeon.items().len(),
                orig_dungeon.items().len() <= usize::MAX,
                orig_party.items().len() <= usize::MAX,
                self.spec_dungeon().marks() == orig_dungeon.marks(),
                self.spec_dungeon().positions() == orig_dungeon.positions(),
                self.spec_dungeon().rules() == orig_dungeon.rules(),
                self.spec_dungeon().limit() == orig_dungeon.limit(),
                forall|k: int|
                    0 <= k < orig_dungeon.items().len() && !orig_dungeon.marks().contains(
                        k as usize,
                    ) ==> #[trigger] self.spec_dungeon().items()[k] == orig_dungeon.items()[k],
                forall|j: int|
                    0 <= j < i ==> is_rolled(
                        #[trigger] self.spec_dungeon().items()[dsel@[j] as int],
                    ),
                self.spec_party().items().len() == orig_party.items().len(),
                self.spec_party().marks() == Seq::<usize>::empty(),
                self.spec_party().positions() == orig_party.positions(),
                self.spec_party().rules() == orig_party.rules(),
                self.spec_party().limit() == orig_party.limit(),
                forall|k: int|
                    0 <= k < orig_party.items().len() && !orig_party.marks().contains(k as usize)
                        ==> #[trigger] self.spec_party().items()[k] == orig_party.items()[k],
                forall|k: int|
                    0 <= k < orig_party.items().len() && orig_party.marks().contains(k as usize)
                        ==> is_rolled(#[trigger] self.spec_party().items()[k]),
                self.spec_graveyard() == old(self).spec_graveyard(),
                same_loot(*old(self), *self),
                same_counters(*old(self), *self),
                self.spec_phase() == old(self).spec_phase(),
            decreases dsel@.len() - i,
        {
            let idx = dsel[i];
            proof {
                assert(orig_dungeon.marks().contains(dsel@[i as int])) by {
                    assert(orig_dungeon.marks()[i as int] == dsel@[i as int]);
                }
            }
            let face: Monster = crate::game::roll(&mut self.rng);
            self.dungeon.set_value(idx, face);
            proof {
                assert forall|j: int| 0 <= j < i + 1 implies is_rolled(
                    #[trigger] self.spec_dungeon().items()[dsel@[j] as int],
                ) by {
                    if j < i {
                        assert(dsel@[j] != dsel@[i as int]);
                    }
                }
            }
            i += 1;
        }
        self.dungeon.clear_selection();
        let ghost p1 = self.spec_party().items();
        proof {
            assert forall|k: int|
                0 <= k < orig_dungeon.items().len() && orig_dungeon.marks().contains(k as usize)
                    implies is_rolled(#[trigger] self.spec_dungeon().items()[k]) by {
                let j = choose|j: int|
                    0 <= j < orig_dungeon.marks().len() && orig_dungeon.marks()[j] == k as usize;
                assert(is_rolled(self.spec_dungeon().items()[dsel@[j] as int]));
            }
            assert forall|k: int|
                0 <= k < orig_party.items().len() && orig_party.marks().contains(k as usize)
                    implies is_rolled(#[trigger] p1[k]) by {}
        }
        self.kill_ally();
    }
}

} // verus!

verus! {

/// What the forward value scan finds: the first index holding `v`, with no
/// earlier occurrence; or no occurrence at all.
pub proof fn lemma_first_index_of<T>(s: Seq<T>, v: T, from: int)
    requires
        0 <= from,
    ensures
        match first_index_of(s, v, from) {
            Some(j) => from <= j < s.len() && s[j] == v && (forall|k: int|
                from <= k < j ==> s[k] != v),
            None => forall|k: int| from <= k < s.len() ==> s[k] != v,
        },
    decreases s.len() - from,
{
    if from < s.len() && s[from] != v {
        lemma_first_index_of(s, v, from + 1);
    }
}

/// A sequence without potions loses nothing.
proof fn lemma_drop_potions_none(d: Seq<Monster>, m: nat)
    requires
        first_index_of(d, Monster::Potion, 0) is None,
    ensures
        drop_potions(d, m) == d,
    decreases m,
{
    if m > 0 {
        lemma_drop_potions_none(d, (m - 1) as nat);
    }
}

/// Removing `a + b` potions is removing `a`, then `b`.
proof fn lemma_drop_potions_compose(d: Seq<Monster>, a: nat, b: nat)
    ensures
        drop_potions(d, a + b) == drop_potions(drop_potions(d, a), b),
    decreases a,
{
    if a > 0 {
        match first_index_of(d, Monster::Potion, 0) {
            Some(i) => {
                lemma_drop_potions_compose(d.remove(i), (a - 1) as nat, b);
                assert(drop_potions(d, a + b) == drop_potions(d.remove(i), (a - 1) as nat + b));
            },
            None => {
                lemma_drop_potions_none(d, a + b);
                lemma_drop_potions_none(d, a);
                lemma_drop_potions_none(d, b);
            },
        }
    }
}

/// The first index holding `key`, scanning forward.
fn index_of_first(v: &Vec<Monster>, key: &Monster) -> (r: Option<usize>)
    ensures
        match r {
            Some(u) => first_index_of(v@, *key, 0) == Some(u as int),
            None => first_index_of(v@, *key, 0) is None,
        },
{
    let mut i: usize = 0;
    while i < v.len()
        invariant
            i <= v@.len(),
            first_index_of(v@, *key, 0) == first_index_of(v@, *key, i as int),
        decreases v@.len() - i,
    {
        if v[i].same(key) {
            proof {
                assert(first_index_of(v@, *key, i as int) == Some(i as int));
            }
            return Some(i);
        }
        i += 1;
    }
    None
}

impl Game {
    /// Resolve the dragon showdown: the marked allies leave the party for
    /// good (they are sacrificed, not moved to the graveyard) and the
    /// selection is cleared.
    pub(crate) fn execute_dragon(&mut self)
        requires
            old(self).wf(),
        ensures
            final(self).wf(),
            final(self).spec_party().items() == keep_unmarked(
                old(self).spec_party().items(),
                old(self).spec_party().marks(),
                0,
            ),
            final(self).spec_party().marks() == Seq::<usize>::empty(),
            final(self).spec_party().rules() == old(self).spec_party().rules(),
            final(self).spec_party().limit() == old(self).spec_party().limit(),
            final(self).spec_dungeon() == old(self).spec_dungeon(),
            final(self).spec_graveyard() == old(self).spec_graveyard(),
            same_loot(*old(self), *final(self)),
            same_counters(*old(self), *final(self)),
            final(self).spec_phase() == old(self).spec_phase(),
            final(self).spec_rng() == old(self).spec_rng(),
    {
        let ghost orig = old(self).spec_party();
        let n0 = self.party.data().len();
        proof {
            lemma_prune_marks_id(orig.marks(), orig.items().len() as int);
            assert(orig.items().take(n0 as int) + keep_unmarked(orig.items(), orig.marks(), n0 as int)
                =~= orig.items());
        }
        let mut i: usize = n0;
        while i > 0
            invariant
                self.wf(),
                i <= self.spec_party().items().len(),
                i <= orig.items().len(),
                orig.items().len() <= usize::MAX,
                orig.marks().no_duplicates(),
                self.spec_party().items() == orig.items().take(i as int) + keep_unmarked(
                    orig.items(),
                    orig.marks(),
                    i as int,
                ),
                self.spec_party().marks() == prune_marks(
                    orig.marks(),
                    self.spec_party().items().len() as int,
                ),
                self.spec_party().rules() == orig.rules(),
                self.spec_party().limit() == orig.limit(),
                self.spec_dungeon() == old(self).spec_dungeon(),
                self.spec_graveyard() == old(self).spec_graveyard(),
                same_loot(*old(self), *self),
                same_counters(*old(self), *self),
                self.spec_phase() == old(self).spec_phase(),
                self.spec_rng() == old(self).spec_rng(),
            decreases i,
        {
            i -= 1;
            let ghost cur = self.spec_party().items();
            let ghost cur_len = cur.len() as int;
            proof {
                lemma_prune_marks(orig.marks(), cur_len);
            }
            if self.party.is_selected(i) {
                proof {
                    assert(orig.marks().contains(i as usize));
                    assert(keep_unmarked(orig.items(), orig.marks(), i as int) == keep_unmarked(
                        orig.items(),
                        orig.marks(),
                        i + 1,
                    ));
                }
                let _ = self.party.remove(i);
                proof {
                    lemma_prune_compose(orig.marks(), cur_len, cur_len - 1);
                    assert(cur.remove(i as int) =~= orig.items().take(i as int) + keep_unmarked(
                        orig.items(),
                        orig.marks(),
                        i as int,
                    ));
                }
            } else {
                proof {
                    assert(!orig.marks().contains(i as usize));
                    assert(keep_unmarked(orig.items(), orig.marks(), i as int) == seq![
                        orig.items()[i as int],
                    ] + keep_unmarked(orig.items(), orig.marks(), i + 1));
                    assert(cur =~= orig.items().take(i as int) + keep_unmarked(
                        orig.items(),
                        orig.marks(),
                        i as int,
                    ));
                }
            }
        }
        proof {
            assert(self.spec_party().items() =~= keep_unmarked(orig.items(), orig.marks(), 0));
        }
        self.party.clear_selection();
    }

    /// Resolve the graveyard: every marked member returns to the party, that
    /// many potions leave the dungeon, and the acting ally moves to the
    /// graveyard.
    pub(crate) fn execute_graveyard(&mut self)
        requires
            old(self).wf(),
            old(self).spec_party().items().len() > 0,
        ensures
            final(self).wf(),
            ({
                let g = old(self).spec_graveyard().items();
                let gm = old(self).spec_graveyard().marks();
                let p1 = old(self).spec_party().items() + take_marked_desc(g, gm, 0);
                let ppos = old(self).spec_party().positions()[0] as int;
                &&& final(self).spec_party().items() == p1.remove(ppos)
                &&& final(self).spec_graveyard().items() == keep_unmarked(g, gm, 0).push(p1[ppos])
                &&& final(self).spec_dungeon().items() == drop_potions(
                    old(self).spec_dungeon().items(),
                    gm.len() as nat,
                )
            }),
            final(self).spec_graveyard().marks() == Seq::<usize>::empty(),
            final(self).spec_party().rules() == old(self).spec_party().rules(),
            final(self).spec_party().limit() == old(self).spec_party().limit(),
            final(self).spec_dungeon().rules() == old(self).spec_dungeon().rules(),
            final(self).spec_dungeon().limit() == old(self).spec_dungeon().limit(),
            final(self).spec_graveyard().rules() == old(self).spec_graveyard().rules(),
            final(self).spec_graveyard().limit() == old(self).spec_graveyard().limit(),
            same_loot(*old(self), *final(self)),
            same_counters(*old(self), *final(self)),
            final(self).spec_phase() == old(self).spec_phase(),
    {
        let ghost g = old(self).spec_graveyard().items();
        let ghost gm = old(self).spec_graveyard().marks();
        let ghost orig_party = old(self).spec_party();
        let ghost orig_dungeon = old(self).spec_dungeon();
        let revives = self.graveyard.selection().len();
        let n0 = self.graveyard.data().len();
        proof {
            lemma_prune_marks_id(gm, g.len() as int);
            assert(g.take(n0 as int) + keep_unmarked(g, gm, n0 as int) =~= g);
            assert(orig_party.items() + take_marked_desc(g, gm, n0 as int) =~= orig_party.items());
        }
        let mut i: usize = n0;
        while i > 0
            invariant
                self.wf(),
                i <= self.spec_graveyard().items().len(),
                i <= g.len(),
                g.len() <= usize::MAX,
                gm.no_duplicates(),
                self.spec_graveyard().items() == g.take(i as int) + keep_unmarked(
                    g,
                    gm,
                    i as int,
                ),
                self.spec_graveyard().marks() == prune_marks(
                    gm,
                    self.spec_graveyard().items().len() as int,
                ),
                self.spec_graveyard().rules() == old(self).spec_graveyard().rules(),
                self.spec_graveyard().limit() == old(self).spec_graveyard().limit(),
                self.spec_party().items() == orig_party.items() + take_marked_desc(
                    g,
                    gm,
                    i as int,
                ),
                self.spec_party().items().len() > 0,
                self.spec_party().positions() == orig_party.positions(),
                self.spec_party().marks() == orig_party.marks(),
                self.spec_party().rules() == orig_party.rules(),
                self.spec_party().limit() == orig_party.limit(),
                self.spec_dungeon() == old(self).spec_dungeon(),
                same_loot(*old(self), *self),
                same_counters(*old(self), *self),
                self.spec_phase() == old(self).spec_phase(),
            decreases i,
        {
            i -= 1;
            let ghost cur = self.spec_graveyard().items();
            let ghost cur_len = cur.len() as int;
            proof {
                lemma_prune_marks(gm, cur_len);
            }
            if self.graveyard.is_selected(i) {
                proof {
                    assert(gm.contains(i as usize));
                    assert(keep_unmarked(g, gm, i as int) == keep_unmarked(g, gm, i + 1));
                    assert(take_marked_desc(g, gm, i as int) == take_marked_desc(g, gm, i + 1).push(
                        g[i as int],
                    ));
                    assert(cur[i as int] == g[i as int]);
                }
                let a = self.graveyard.remove(i);
                self.party.push(a);
                proof {
                    lemma_prune_compose(gm, cur_len, cur_len - 1);
                    assert(cur.remove(i as int) =~= g.take(i as int) + keep_unmarked(
                        g,
                        gm,
                        i as int,
                    ));
                    assert((orig_party.items() + take_marked_desc(g, gm, i + 1)).push(g[i as int])
                        =~= orig_party.items() + take_marked_desc(g, gm, i as int));
                }
            } else {
                proof {
                    assert(!gm.contains(i as usize));
                    assert(keep_unmarked(g, gm, i as int) == seq![g[i as int]] + keep_unmarked(
                        g,
                        gm,
                        i + 1,
                    ));
                    assert(take_marked_desc(g, gm, i as int) == take_marked_desc(g, gm, i + 1));
                    assert(cur =~= g.take(i as int) + keep_unmarked(g, gm, i as int));
                    assert(orig_party.items() + take_marked_desc(g, gm, i + 1) =~= orig_party.items()
                        + take_marked_desc(g, gm, i as int));
                }
            }
        }
        self.graveyard.clear_selection();
        proof {
            assert(self.spec_graveyard().items() =~= keep_unmarked(g, gm, 0));
            assert(self.spec_party().items() =~= orig_party.items() + take_marked_desc(g, gm, 0));
            assert(revives == gm.len());
        }
        let ghost g1 = self.spec_graveyard().items();
        let mut removed: usize = 0;
        loop
            invariant
                self.wf(),
                removed <= revives,
                revives == gm.len(),
                self.spec_dungeon().items() == drop_potions(orig_dungeon.items(), removed as nat),
                self.spec_dungeon().rules() == orig_dungeon.rules(),
                self.spec_dungeon().limit() == orig_dungeon.limit(),
                self.spec_graveyard().items() == g1,
                self.spec_graveyard().marks() == Seq::<usize>::empty(),
                self.spec_graveyard().rules() == old(self).spec_graveyard().rules(),
                self.spec_graveyard().limit() == old(self).spec_graveyard().limit(),
                self.spec_party().items() == orig_party.items() + take_marked_desc(g, gm, 0),
                self.spec_party().items().len() > 0,
                self.spec_party().positions() == orig_party.positions(),
                self.spec_party().marks() == orig_party.marks(),
                self.spec_party().rules() == orig_party.rules(),
                self.spec_party().limit() == orig_party.limit(),
                same_loot(*old(self), *self),
                same_counters(*old(self), *self),
                self.spec_phase() == old(self).spec_phase(),
            ensures
                self.spec_dungeon().items() == drop_potions(
                    orig_dungeon.items(),
                    gm.len() as nat,
                ),
                self.wf(),
                self.spec_dungeon().rules() == orig_dungeon.rules(),
                self.spec_dungeon().limit() == orig_dungeon.limit(),
                self.spec_graveyard().items() == g1,
                self.spec_graveyard().marks() == Seq::<usize>::empty(),
                self.spec_graveyard().rules() == old(self).spec_graveyard().rules(),
                self.spec_graveyard().limit() == old(self).spec_graveyard().limit(),
                self.spec_party().items() == orig_party.items() + take_marked_desc(g, gm, 0),
                self.spec_party().items().len() > 0,
                self.spec_party().positions() == orig_party.positions(),
                self.spec_party().marks() == orig_party.marks(),
                self.spec_party().rules() == orig_party.rules(),
                self.spec_party().limit() == orig_party.limit(),
                same_loot(*old(self), *self),
                same_counters(*old(self), *self),
                self.spec_phase() == old(self).spec_phase(),
            decreases revives - removed,
        {
            if removed >= revives {
                break;
            }
            let ghost cur_d = self.spec_dungeon().items();
            let found = index_of_first(self.dungeon.data(), &Monster::Potion);
            match found {
                Some(j) => {
                    proof {
                        lemma_first_index_of(cur_d, Monster::Potion, 0);
                        assert(0 <= j < cur_d.len());
                    }
                    let _ = self.dungeon.remove(j);
                    proof {
                        assert(first_index_of(cur_d, Monster::Potion, 0) == Some(j as int));
                        assert(drop_potions(cur_d, 1) == drop_potions(cur_d.remove(j as int), 0));
                        assert(drop_potions(cur_d.remove(j as int), 0) == cur_d.remove(j as int));
                        lemma_drop_potions_compose(orig_dungeon.items(), removed as nat, 1);
                    }
                    removed += 1;
                },
                None => {
                    proof {
                        lemma_drop_potions_none(cur_d, (revives - removed) as nat);
                        lemma_drop_potions_compose(
                            orig_dungeon.items(),
                            removed as nat,
                            (revives - removed) as nat,
                        );
                    }
                    break;
                },
            }
        }
        self.kill_ally();
    }
}

} // verus!

verus! {

use crate::phase::{Dragon as DragonPhase, Loot as LootPhase, Monster as MonsterPhase, Phase,
    Regroup as RegroupPhase, Reroll};

/// The ally under the party's actor cursor.
pub open spec fn ally0(g: Game) -> Ally {
    g.spec_party().items()[g.spec_party().positions()[0] as int]
}

/// The monster under the dungeon's target cursor.
pub open spec fn monster0(g: Game) -> Monster {
    g.spec_dungeon().items()[g.spec_dungeon().positions()[0] as int]
}

/// How much unresolved content a phase's entry can still skip past.  Every
/// entry redirect lands on a phase of strictly smaller rank, which bounds the
/// redirect chain.
pub open spec fn phase_rank(p: Phase) -> nat {
    match p {
        Phase::Regroup(RegroupPhase::ContinueSetup) => 5,
        Phase::Regroup(RegroupPhase::EndSetup) => 5,
        Phase::Setup => 4,
        Phase::Monster(MonsterPhase::SelectAlly) => 3,
        Phase::Loot(LootPhase::SelectAlly) => 2,
        Phase::Dragon(DragonPhase::SelectAlly) => 1,
        _ => 0,
    }
}

/// Where entering the dragon showdown lands: it is skipped entirely when
/// fewer than three dragon faces are present.
pub open spec fn dragon_entry(d: Seq<Monster>) -> Phase {
    if count_in(d, Monster::Dragon) >= 3 {
        Phase::Dragon(DragonPhase::SelectAlly)
    } else {
        Phase::Regroup(RegroupPhase::Continue)
    }
}

/// Where entering loot resolution lands: it is skipped when no loot can be
/// acted on, towards the empty-dungeon rest stop or the dragon.
pub open spec fn loot_entry(d: Seq<Monster>, g: Seq<Ally>, no_monsters: bool) -> Phase {
    if crate::game::loot_actionable(d, g) {
        Phase::Loot(LootPhase::SelectAlly)
    } else if no_monsters {
        Phase::EmptyDungeon
    } else {
        dragon_entry(d)
    }
}

/// Where entering a monster encounter lands: it is skipped when no hostile
/// faces remain.
pub open spec fn monster_entry(d: Seq<Monster>, g: Seq<Ally>, no_monsters: bool) -> Phase {
    if crate::game::has_monsters_in(d) {
        Phase::Monster(MonsterPhase::SelectAlly)
    } else {
        loot_entry(d, g, no_monsters)
    }
}

impl Game {
    /// A phase whose entry triggers are done: no redirect is pending.
    pub open spec fn settled(self) -> bool {
        match self.spec_phase() {
            Phase::Setup => false,
            Phase::Monster(MonsterPhase::SelectAlly) => crate::game::has_monsters_in(
                self.spec_dungeon().items(),
            ),
            Phase::Loot(LootPhase::SelectAlly) => crate::game::loot_actionable(
                self.spec_dungeon().items(),
                self.spec_graveyard().items(),
            ),
            Phase::Dragon(DragonPhase::SelectAlly) => count_in(
                self.spec_dungeon().items(),
                Monster::Dragon,
            ) >= 3,
            Phase::Regroup(RegroupPhase::ContinueSetup) => false,
            Phase::Regroup(RegroupPhase::EndSetup) => false,
            _ => true,
        }
    }

    /// What advancing from the current phase needs: the collections the
    /// transition and its exit action read must be non-empty, and the
    /// unreachable defeat sub-states are ruled out.
    pub open spec fn can_advance(self) -> bool {
        match self.spec_phase() {
            Phase::Setup => true,
            Phase::Monster(mp) => match mp {
                MonsterPhase::SelectAlly => self.spec_party().items().len() > 0,
                MonsterPhase::SelectReroll(_) => true,
                MonsterPhase::ConfirmReroll => self.spec_party().items().len() > 0,
                MonsterPhase::SelectMonster => true,
                MonsterPhase::ConfirmCombat => self.spec_party().items().len() > 0
                    && self.spec_dungeon().items().len() > 0,
                MonsterPhase::Defeat => false,
            },
            Phase::Loot(lp) => match lp {
                LootPhase::SelectAlly => self.spec_party().items().len() > 0,
                LootPhase::SelectLoot => self.spec_dungeon().items().len() > 0
                    && self.spec_party().items().len() > 0,
                LootPhase::ConfirmLoot => self.spec_party().items().len() > 0
                    && self.spec_dungeon().items().len() > 0 && self.spec_treasure().len() > 0,
                LootPhase::SelectGraveyard => true,
                LootPhase::ConfirmGraveyard => self.spec_party().items().len() > 0,
            },
            Phase::Dragon(dp) => match dp {
                DragonPhase::SelectAlly => true,
                DragonPhase::Confirm => true,
                DragonPhase::Defeat => false,
            },
            Phase::EmptyDungeon => true,
            Phase::Regroup(_) => true,
            Phase::Victory => true,
        }
    }

    /// What retreating from the current phase needs: retreat targets whose
    /// entry reads the acting ally need a non-empty party.
    pub open spec fn can_retreat(self) -> bool {
        match self.spec_phase() {
            Phase::Loot(LootPhase::ConfirmLoot) => self.spec_party().items().len() > 0,
            Phase::Loot(LootPhase::SelectGraveyard) => self.spec_party().items().len() > 0,
            _ => true,
        }
    }

    /// Start the next level: the level counter and the score advance, the
    /// dungeon keeps only its dragon dice and gains one fresh die per level,
    /// and the no-hostiles flag is refreshed.
    fn next_level(&mut self)
        requires
            old(self).wf(),
        ensures
            final(self).wf(),
            final(self).spec_level() == sat_add_spec(old(self).spec_level(), 1),
            final(self).spec_run_xp() == sat_add_spec(
                old(self).spec_run_xp(),
                final(self).spec_level(),
            ),
            ({
                let kept = filter_eq(old(self).spec_dungeon().items(), Monster::Dragon, true);
                let d = final(self).spec_dungeon().items();
                &&& d.len() == kept.len() + final(self).spec_level()
                &&& d.take(kept.len() as int) == kept
                &&& (forall|k: int| kept.len() <= k < d.len() ==> is_rolled(#[trigger] d[k]))
            }),
            final(self).spec_no_monsters() == !crate::game::has_monsters_in(
                final(self).spec_dungeon().items(),
            ),
            final(self).spec_dungeon().rules() == old(self).spec_dungeon().rules(),
            final(self).spec_dungeon().limit() == old(self).spec_dungeon().limit(),
            final(self).spec_party() == old(self).spec_party(),
            final(self).spec_graveyard() == old(self).spec_graveyard(),
            same_loot(*old(self), *final(self)),
            final(self).spec_delve() == old(self).spec_delve(),
            final(self).spec_party_size() == old(self).spec_party_size(),
            final(self).spec_hero() == old(self).spec_hero(),
            final(self).spec_blink() == old(self).spec_blink(),
            final(self).spec_phase() == old(self).spec_phase(),
    {
        self.level = sat_add(self.level, 1);
        self.run_xp = sat_add(self.run_xp, self.level);
        self.dungeon.retain(&Monster::Dragon, true);
        let ghost kept = self.spec_dungeon().items();
        let rolled: Vec<Monster> = crate::game::roll_n(&mut self.rng, self.level);
        let mut k: usize = 0;
        while k < rolled.len()
            invariant
                self.wf(),
                k <= rolled@.len(),
                rolled@.len() == final(self).spec_level() || rolled@.len() == self.spec_level(),
                self.spec_level() == sat_add_spec(old(self).spec_level(), 1),
                self.spec_run_xp() == sat_add_spec(old(self).spec_run_xp(), self.spec_level()),
                forall|j: int| 0 <= j < rolled@.len() ==> is_rolled(#[trigger] rolled@[j]),
                self.spec_dungeon().items() == kept + rolled@.take(k as int),
                kept == filter_eq(old(self).spec_dungeon().items(), Monster::Dragon, true),
                self.spec_dungeon().rules() == old(self).spec_dungeon().rules(),
                self.spec_dungeon().limit() == old(self).spec_dungeon().limit(),
                self.spec_party() == old(self).spec_party(),
                self.spec_graveyard() == old(self).spec_graveyard(),
                same_loot(*old(self), *self),
                self.spec_delve() == old(self).spec_delve(),
                self.spec_party_size() == old(self).spec_party_size(),
                self.spec_hero() == old(self).spec_hero(),
                self.spec_blink() == old(self).spec_blink(),
                self.spec_phase() == old(self).spec_phase(),
                self.spec_no_monsters() == old(self).spec_no_monsters(),
            decreases rolled@.len() - k,
        {
            proof {
                assert(kept + rolled@.take(k + 1) =~= (kept + rolled@.take(k as int)).push(
                    rolled@[k as int],
                ));
            }
            self.dungeon.push(rolled[k]);
            k += 1;
        }
        proof {
            assert(kept + rolled@.take(rolled@.len() as int) =~= kept + rolled@);
        }
        let nm = !self.has_monsters();
        self.no_monsters = nm;
    }

    /// Reset for a fresh delve: counters restart, a new party is rolled from
    /// the hero's experience, the graveyard empties, and the treasure pool
    /// and inventory start over.  The dungeon is left for the first level to
    /// rebuild around any lingering dragon dice.
    fn reset_delve(&mut self)
        requires
            old(self).wf(),
        ensures
            final(self).wf(),
            final(self).spec_delve() == sat_add_spec(old(self).spec_delve(), 1),
            final(self).spec_level() == 0,
            final(self).spec_run_xp() == 0,
            final(self).spec_no_monsters() == false,
            final(self).spec_hero() == old(self).spec_hero(),
            final(self).spec_party_size() >= 1,
            4 * (final(self).spec_party_size() - 1) * (final(self).spec_party_size() - 1) <= 9 * (
            old(self).spec_hero().spec_xp() + 4),
            9 * (old(self).spec_hero().spec_xp() + 4) < 4 * (final(self).spec_party_size() as int)
                * (final(self).spec_party_size() as int),
            final(self).spec_party().items().len() == final(self).spec_party_size(),
            forall|k: int|
                0 <= k < final(self).spec_party().items().len() ==> is_rolled(
                    #[trigger] final(self).spec_party().items()[k],
                ),
            final(self).spec_party().rules() == old(self).spec_party().rules(),
            final(self).spec_party().limit() == old(self).spec_party().limit(),
            final(self).spec_graveyard().items() == Seq::<Ally>::empty(),
            final(self).spec_graveyard().marks() == Seq::<usize>::empty(),
            final(self).spec_graveyard().rules() == old(self).spec_graveyard().rules(),
            final(self).spec_graveyard().limit() == old(self).spec_graveyard().limit(),
            final(self).spec_dungeon() == old(self).spec_dungeon(),
            final(self).spec_treasure() == crate::treasure::full_pool(),
            final(self).spec_inventory() == Seq::<crate::treasure::Treasure>::empty(),
            final(self).spec_blink() == old(self).spec_blink(),
            final(self).spec_phase() == Phase::Setup,
    {
        self.delve = sat_add(self.delve, 1);
        self.level = 0;
        self.run_xp = 0;
        self.no_monsters = false;
        self.party_size = party_size_for(self.hero.xp());
        let fresh: Vec<Ally> = crate::game::roll_n(&mut self.rng, self.party_size);
        self.party.set_data(fresh);
        self.graveyard.set_data(Vec::new());
        self.treasure = crate::treasure::treasure_pool();
        self.inventory = Vec::new();
        self.phase = Phase::Setup;
        proof {
            assert(self.spec_graveyard().items() =~= Seq::<Ally>::empty());
            lemma_prune_marks(old(self).spec_graveyard().marks(), 0);
            assert(self.spec_graveyard().marks() =~= Seq::<usize>::empty()) by {
                if self.spec_graveyard().marks().len() > 0 {
                    assert((self.spec_graveyard().marks()[0] as int) < 0);
                }
            }
            assert(self.spec_inventory() =~= Seq::<crate::treasure::Treasure>::empty());
        }
    }
}

} // verus!

verus! {

use crate::treasure::full_pool;

impl Game {
    /// Run the entry action of the current phase.  Returns true when the
    /// phase was found not enterable and redirected; every redirect lands on
    /// a phase of strictly smaller rank, so a chain of redirects is bounded.
    pub(crate) fn enter_phase_trigger(&mut self) -> (redirected: bool)
        requires
            old(self).wf(),
            old(self).spec_phase() == Phase::Loot(LootPhase::SelectLoot) ==> old(
                self,
            ).spec_party().items().len() > 0,
        ensures
            final(self).wf(),
            redirected ==> phase_rank(final(self).spec_phase()) < phase_rank(
                old(self).spec_phase(),
            ),
            !redirected ==> final(self).settled(),
            ({
                let g = *old(self);
                let h = *final(self);
                match g.spec_phase() {
                    Phase::Setup => redirected && h.spec_phase() == Phase::Monster(
                        MonsterPhase::SelectAlly,
                    ) && h.spec_level() == sat_add_spec(g.spec_level(), 1) && h.spec_run_xp()
                        == sat_add_spec(g.spec_run_xp(), h.spec_level()) && ({
                        let kept = filter_eq(g.spec_dungeon().items(), Monster::Dragon, true);
                        let d = h.spec_dungeon().items();
                        &&& d.len() == kept.len() + h.spec_level()
                        &&& d.take(kept.len() as int) == kept
                        &&& (forall|k: int| kept.len() <= k < d.len() ==> is_rolled(#[trigger] d[k]))
                    }) && h.spec_no_monsters() == !crate::game::has_monsters_in(
                        h.spec_dungeon().items(),
                    ) && h.spec_party() == g.spec_party() && h.spec_graveyard()
                        == g.spec_graveyard() && same_loot(g, h) && h.spec_delve()
                        == g.spec_delve() && h.spec_party_size() == g.spec_party_size()
                        && h.spec_hero() == g.spec_hero() && h.spec_blink() == g.spec_blink(),
                    Phase::Monster(MonsterPhase::SelectAlly) => if crate::game::has_monsters_in(
                        g.spec_dungeon().items(),
                    ) {
                        &&& !redirected
                        &&& h.spec_phase() == g.spec_phase()
                        &&& h.spec_party().items() == g.spec_party().items()
                        &&& h.spec_party().marks() == g.spec_party().marks()
                        &&& h.spec_party().limit() == g.spec_party().limit()
                        &&& h.spec_party().rules() == crate::game::mon_ally_rule_set()
                        &&& h.spec_dungeon().items() == g.spec_dungeon().items()
                        &&& h.spec_dungeon().marks() == g.spec_dungeon().marks()
                        &&& h.spec_dungeon().limit() == g.spec_dungeon().limit()
                        &&& h.spec_dungeon().rules() == crate::game::mon_dungeon_rule_set()
                        &&& h.spec_graveyard() == g.spec_graveyard()
                        &&& same_loot(g, h)
                        &&& same_counters(g, h)
                    } else {
                        &&& redirected
                        &&& h.spec_phase() == Phase::Loot(LootPhase::SelectAlly)
                        &&& same_dice(g, h)
                        &&& same_loot(g, h)
                        &&& same_counters(g, h)
                    },
                    Phase::Loot(LootPhase::SelectAlly) => if crate::game::loot_actionable(
                        g.spec_dungeon().items(),
                        g.spec_graveyard().items(),
                    ) {
                        &&& !redirected
                        &&& h.spec_phase() == g.spec_phase()
                        &&& h.spec_party().items() == g.spec_party().items()
                        &&& h.spec_party().marks() == g.spec_party().marks()
                        &&& h.spec_party().limit() == g.spec_party().limit()
                        &&& h.spec_party().rules() == crate::game::loot_ally_rule_set()
                        &&& h.spec_dungeon() == g.spec_dungeon()
                        &&& h.spec_graveyard() == g.spec_graveyard()
                        &&& same_loot(g, h)
                        &&& same_counters(g, h)
                    } else if g.spec_no_monsters() {
                        &&& !redirected
                        &&& h.spec_phase() == Phase::EmptyDungeon
                        &&& h.spec_party().items() == g.spec_party().items()
                        &&& h.spec_party().marks() == g.spec_party().marks()
                        &&& h.spec_party().limit() == g.spec_party().limit()
                        &&& h.spec_party().rules() == crate::game::loot_ally_rule_set()
                        &&& h.spec_dungeon() == g.spec_dungeon()
                        &&& h.spec_graveyard() == g.spec_graveyard()
                        &&& same_loot(g, h)
                        &&& same_counters(g, h)
                    } else {
                        &&& redirected
                        &&& h.spec_phase() == Phase::Dragon(DragonPhase::SelectAlly)
                        &&& same_dice(g, h)
                        &&& same_loot(g, h)
                        &&& same_counters(g, h)
                    },
                    Phase::Loot(LootPhase::SelectLoot) => {
                        &&& !redirected
                        &&& h.spec_phase() == g.spec_phase()
                        &&& h.spec_party().items() == g.spec_party().items()
                        &&& h.spec_party().marks() == Seq::<usize>::empty()
                        &&& h.spec_party().rules() == g.spec_party().rules()
                        &&& h.spec_party().limit() == g.spec_party().limit()
                        &&& h.spec_party().positions() == g.spec_party().positions()
                        &&& h.spec_dungeon().items() == g.spec_dungeon().items()
                        &&& h.spec_dungeon().marks() == Seq::<usize>::empty()
                        &&& h.spec_dungeon().limit() == g.spec_dungeon().limit()
                        &&& h.spec_dungeon().rules() == (if ally0(g) == Ally::Scroll {
                            crate::game::loot_scroll_dungeon_rule_set()
                        } else {
                            crate::game::loot_dungeon_rule_set()
                        })
                        &&& h.spec_graveyard() == g.spec_graveyard()
                        &&& same_loot(g, h)
                        &&& same_counters(g, h)
                    },
                    Phase::Loot(LootPhase::SelectGraveyard) => {
                        &&& !redirected
                        &&& h.spec_phase() == g.spec_phase()
                        &&& h.spec_graveyard().items() == g.spec_graveyard().items()
                        &&& h.spec_graveyard().marks() == g.spec_graveyard().marks()
                        &&& h.spec_graveyard().rules() == g.spec_graveyard().rules()
                        &&& h.spec_graveyard().positions() == g.spec_graveyard().positions()
                        &&& h.spec_graveyard().limit() == count_in(
                            g.spec_dungeon().items(),
                            Monster::Potion,
                        )
                        &&& h.spec_party() == g.spec_party()
                        &&& h.spec_dungeon() == g.spec_dungeon()
                        &&& same_loot(g, h)
                        &&& same_counters(g, h)
                    },
                    Phase::Dragon(DragonPhase::SelectAlly) => if count_in(
                        g.spec_dungeon().items(),
                        Monster::Dragon,
                    ) >= 3 {
                        &&& !redirected
                        &&& h.spec_phase() == g.spec_phase()
                        &&& h.spec_party().items() == g.spec_party().items()
                        &&& h.spec_party().marks() == g.spec_party().marks()
                        &&& h.spec_party().rules() == crate::game::dragon_ally_rule_set()
                        &&& h.spec_party().limit() == 3
                        &&& h.spec_dungeon() == g.spec_dungeon()
                        &&& h.spec_graveyard() == g.spec_graveyard()
                        &&& same_loot(g, h)
                        &&& same_counters(g, h)
                    } else {
                        &&& redirected
                        &&& h.spec_phase() == Phase::Regroup(RegroupPhase::Continue)
                        &&& same_dice(g, h)
                        &&& same_loot(g, h)
                        &&& same_counters(g, h)
                    },
                    Phase::Regroup(RegroupPhase::ContinueSetup) => {
                        &&& redirected
                        &&& h.spec_phase() == Phase::Setup
                        &&& same_dice(g, h)
                        &&& same_loot(g, h)
                        &&& same_counters(g, h)
                    },
                    Phase::Regroup(RegroupPhase::EndSetup) => {
                        &&& redirected
                        &&& h.spec_phase() == Phase::Setup
                        &&& h.spec_hero().spec_xp() == sat_add_spec(
                            g.spec_hero().spec_xp(),
                            g.spec_run_xp(),
                        )
                        &&& h.spec_delve() == sat_add_spec(g.spec_delve(), 1)
                        &&& h.spec_level() == 0
                        &&& h.spec_run_xp() == 0
                        &&& !h.spec_no_monsters()
                        &&& h.spec_party_size() >= 1
                        &&& 4 * (h.spec_party_size() - 1) * (h.spec_party_size() - 1) <= 9 * (
                        h.spec_hero().spec_xp() + 4)
                        &&& 9 * (h.spec_hero().spec_xp() + 4) < 4 * (h.spec_party_size() as int) * (
                        h.spec_party_size() as int)
                        &&& h.spec_party().items().len() == h.spec_party_size()
                        &&& (forall|k: int|
                            0 <= k < h.spec_party().items().len() ==> is_rolled(
                                #[trigger] h.spec_party().items()[k],
                            ))
                        &&& h.spec_party().rules() == g.spec_party().rules()
                        &&& h.spec_party().limit() == g.spec_party().limit()
                        &&& h.spec_graveyard().items() == Seq::<Ally>::empty()
                        &&& h.spec_graveyard().marks() == Seq::<usize>::empty()
                        &&& h.spec_dungeon() == g.spec_dungeon()
                        &&& h.spec_treasure() == full_pool()
                        &&& h.spec_inventory() == Seq::<crate::treasure::Treasure>::empty()
                        &&& h.spec_blink() == g.spec_blink()
                    },
                    _ => !redirected && h == g,
                }
            }),
    {
        match self.phase {
            Phase::Setup => {
                self.next_level();
                self.phase = Phase::Monster(MonsterPhase::SelectAlly);
                true
            },
            Phase::Monster(MonsterPhase::SelectAlly) => {
                if !self.has_monsters() {
                    self.phase = Phase::Loot(LootPhase::SelectAlly);
                    return true;
                }
                self.party.set_invariants(mon_ally_rules());
                self.dungeon.set_invariants(mon_dungeon_rules());
                false
            },
            Phase::Loot(LootPhase::SelectAlly) => {
                let gy_empty = self.graveyard.data().len() == 0;
                if !self.has_loot() || (gy_empty && !self.has_chest()) {
                    if self.no_monsters {
                        self.phase = Phase::EmptyDungeon;
                    } else {
                        self.phase = Phase::Dragon(DragonPhase::SelectAlly);
                        return true;
                    }
                }
                self.party.set_invariants(loot_ally_rules());
                false
            },
            Phase::Loot(LootPhase::SelectLoot) => {
                self.dungeon.clear_selection();
                self.party.clear_selection();
                let scroll = matches!(*self.current_ally(), Ally::Scroll);
                if scroll {
                    self.dungeon.set_invariants(loot_scroll_dungeon_rules());
                } else {
                    self.dungeon.set_invariants(loot_dungeon_rules());
                }
                false
            },
            Phase::Loot(LootPhase::SelectGraveyard) => {
                let n = self.potion_count();
                self.graveyard.set_selection_limit(n);
                false
            },
            Phase::Dragon(DragonPhase::SelectAlly) => {
                if self.dragon_dice() >= 3 {
                    self.party.set_invariants(dragon_ally_rules());
                    self.party.set_selection_limit(3);
                    false
                } else {
                    self.phase = Phase::Regroup(RegroupPhase::Continue);
                    true
                }
            },
            Phase::Regroup(RegroupPhase::ContinueSetup) => {
                self.phase = Phase::Setup;
                true
            },
            Phase::Regroup(RegroupPhase::EndSetup) => {
                let earned = self.run_xp;
                self.hero.add_xp(earned);
                self.reset_delve();
                true
            },
            _ => false,
        }
    }
}

} // verus!

verus! {

use vstd::pervasive::unreached;

/// A phase of rank zero has no entry redirect pending.
pub proof fn lemma_rank_zero_settled(g: Game)
    requires
        phase_rank(g.spec_phase()) == 0,
    ensures
        g.settled(),
{
}

/// What one pass of the level bookkeeping guarantees, shared by advancing out
/// of `Setup` and out of the continue decision: the level and score advance,
/// the dungeon is rebuilt around its dragon dice, and the machine settles at
/// the monster encounter or wherever its entry skips to.
pub open spec fn next_level_row(g: Game, h: Game) -> bool {
    &&& h.spec_level() == sat_add_spec(g.spec_level(), 1)
    &&& h.spec_run_xp() == sat_add_spec(g.spec_run_xp(), h.spec_level())
    &&& h.spec_delve() == g.spec_delve()
    &&& h.spec_hero() == g.spec_hero()
    &&& h.spec_party_size() == g.spec_party_size()
    &&& h.spec_blink() == g.spec_blink()
    &&& h.spec_party().items() == g.spec_party().items()
    &&& h.spec_graveyard().items() == g.spec_graveyard().items()
    &&& same_loot(g, h)
    &&& ({
        let kept = filter_eq(g.spec_dungeon().items(), Monster::Dragon, true);
        let d = h.spec_dungeon().items();
        &&& d.len() == kept.len() + h.spec_level()
        &&& d.take(kept.len() as int) == kept
        &&& (forall|k: int| kept.len() <= k < d.len() ==> is_rolled(#[trigger] d[k]))
    })
    &&& h.spec_no_monsters() == !crate::game::has_monsters_in(h.spec_dungeon().items())
    &&& h.spec_phase() == monster_entry(
        h.spec_dungeon().items(),
        h.spec_graveyard().items(),
        h.spec_no_monsters(),
    )
}

/// Skipping law: entering a monster encounter with no hostile faces left
/// lands, after one redirect, on loot resolution whenever loot can still be
/// acted on.
pub proof fn lemma_no_hostiles_skips_to_loot(d: Seq<Monster>, g: Seq<Ally>, no_monsters: bool)
    requires
        !crate::game::has_monsters_in(d),
        crate::game::loot_actionable(d, g),
    ensures
        monster_entry(d, g, no_monsters) == Phase::Loot(LootPhase::SelectAlly),
{
}

/// Skipping law: with fewer than three dragon faces present at entry, the
/// dragon phase is skipped entirely, straight to the regroup decision.
pub proof fn lemma_few_dragons_skip_the_showdown(d: Seq<Monster>)
    requires
        count_in(d, Monster::Dragon) < 3,
    ensures
        dragon_entry(d) == Phase::Regroup(RegroupPhase::Continue),
{
}

impl Game {
    /// Advance the phase machine: run the exit action of the phase being
    /// left, compute the next phase from the transition table, then run entry
    /// actions until a stable phase is reached.  Each entry redirect strictly
    /// reduces the remaining unresolved content (hostiles, then loot, then
    /// dragon threat, then the delve), so at most five redirects can fire.
    #[verifier::rlimit(100)]
    pub fn next_phase(&mut self)
        requires
            old(self).wf(),
            old(self).can_advance(),
        ensures
            final(self).wf(),
            final(self).settled(),
            ({
                let g = *old(self);
                let h = *final(self);
                match g.spec_phase() {
                    Phase::Setup => next_level_row(g, h),
                    Phase::Monster(MonsterPhase::SelectAlly) => {
                        &&& h.spec_phase() == (if ally0(g) == Ally::Scroll {
                            Phase::Monster(MonsterPhase::SelectReroll(Reroll::Ally))
                        } else {
                            Phase::Monster(MonsterPhase::SelectMonster)
                        })
                        &&& same_dice(g, h)
                        &&& same_loot(g, h)
                        &&& same_counters(g, h)
                    },
                    Phase::Monster(MonsterPhase::SelectReroll(_)) => {
                        &&& h.spec_phase() == Phase::Monster(MonsterPhase::ConfirmReroll)
                        &&& same_dice(g, h)
                        &&& same_loot(g, h)
                        &&& same_counters(g, h)
                    },
                    Phase::Monster(MonsterPhase::SelectMonster) => {
                        &&& h.spec_phase() == Phase::Monster(MonsterPhase::ConfirmCombat)
                        &&& same_dice(g, h)
                        &&& same_loot(g, h)
                        &&& same_counters(g, h)
                    },
                    Phase::Monster(MonsterPhase::ConfirmReroll) => {
                        &&& exists|p1: Seq<Ally>|
                            {
                                &&& p1.len() == g.spec_party().items().len()
                                &&& (forall|k: int|
                                    0 <= k < p1.len() && !g.spec_party().marks().contains(
                                        k as usize,
                                    ) ==> #[trigger] p1[k] == g.spec_party().items()[k])
                                &&& (forall|k: int|
                                    0 <= k < p1.len() && g.spec_party().marks().contains(k as usize)
                                        ==> is_rolled(#[trigger] p1[k]))
                                &&& h.spec_party().items() == p1.remove(
                                    g.spec_party().positions()[0] as int,
                                )
                                &&& h.spec_graveyard().items() == g.spec_graveyard().items().push(
                                    p1[g.spec_party().positions()[0] as int],
                                )
                            }
                        &&& h.spec_dungeon().items().len() == g.spec_dungeon().items().len()
                        &&& (forall|k: int|
                            0 <= k < g.spec_dungeon().items().len() && !g.spec_dungeon(
                            ).marks().contains(k as usize)
                                ==> #[trigger] h.spec_dungeon().items()[k]
                                == g.spec_dungeon().items()[k])
                        &&& (forall|k: int|
                            0 <= k < g.spec_dungeon().items().len() && g.spec_dungeon(
                            ).marks().contains(k as usize) ==> is_rolled(
                                #[trigger] h.spec_dungeon().items()[k],
                            ))
                        &&& h.spec_party().marks() == Seq::<usize>::empty()
                        &&& h.spec_dungeon().marks() == Seq::<usize>::empty()
                        &&& same_loot(g, h)
                        &&& same_counters(g, h)
                        &&& h.spec_phase() == monster_entry(
                            h.spec_dungeon().items(),
                            h.spec_graveyard().items(),
                            h.spec_no_monsters(),
                        )
                    },
                    Phase::Monster(MonsterPhase::ConfirmCombat) => {
                        let am = ally0(g);
                        let tm = monster0(g);
                        &&& h.spec_dungeon().items() == (if crate::game::affects_all_rule(am, tm) {
                            filter_eq(g.spec_dungeon().items(), tm, false)
                        } else {
                            g.spec_dungeon().items().remove(
                                g.spec_dungeon().positions()[0] as int,
                            )
                        })
                        &&& h.spec_party().items() == g.spec_party().items().remove(
                            g.spec_party().positions()[0] as int,
                        )
                        &&& h.spec_graveyard().items() == g.spec_graveyard().items().push(am)
                        &&& same_loot(g, h)
                        &&& same_counters(g, h)
                        &&& h.spec_phase() == monster_entry(
                            h.spec_dungeon().items(),
                            h.spec_graveyard().items(),
                            h.spec_no_monsters(),
                        )
                    },
                    Phase::Loot(LootPhase::SelectAlly) => if ally0(g) == Ally::Scroll && count_in(
                        g.spec_dungeon().items(),
                        Monster::Potion,
                    ) == 0 {
                        &&& h.spec_phase() == loot_entry(
                            g.spec_dungeon().items(),
                            g.spec_graveyard().items(),
                            g.spec_no_monsters(),
                        )
                        &&& h.spec_party().items() == g.spec_party().items()
                        &&& h.spec_dungeon().items() == g.spec_dungeon().items()
                        &&& h.spec_graveyard() == g.spec_graveyard()
                        &&& same_loot(g, h)
                        &&& same_counters(g, h)
                    } else {
                        &&& h.spec_phase() == Phase::Loot(LootPhase::SelectLoot)
                        &&& h.spec_party().items() == g.spec_party().items()
                        &&& h.spec_party().marks() == Seq::<usize>::empty()
                        &&& h.spec_dungeon().items() == g.spec_dungeon().items()
                        &&& h.spec_dungeon().marks() == Seq::<usize>::empty()
                        &&& h.spec_dungeon().rules() == (if ally0(g) == Ally::Scroll {
                            crate::game::loot_scroll_dungeon_rule_set()
                        } else {
                            crate::game::loot_dungeon_rule_set()
                        })
                        &&& h.spec_graveyard() == g.spec_graveyard()
                        &&& same_loot(g, h)
                        &&& same_counters(g, h)
                    },
                    Phase::Loot(LootPhase::SelectLoot) => match monster0(g) {
                        Monster::Chest => {
                            &&& h.spec_phase() == Phase::Loot(LootPhase::ConfirmLoot)
                            &&& same_dice(g, h)
                            &&& same_loot(g, h)
                            &&& same_counters(g, h)
                        },
                        Monster::Potion => {
                            &&& h.spec_phase() == Phase::Loot(LootPhase::SelectGraveyard)
                            &&& h.spec_graveyard().items() == g.spec_graveyard().items()
                            &&& h.spec_graveyard().marks() == g.spec_graveyard().marks()
                            &&& h.spec_graveyard().limit() == count_in(
                                g.spec_dungeon().items(),
                                Monster::Potion,
                            )
                            &&& h.spec_party() == g.spec_party()
                            &&& h.spec_dungeon() == g.spec_dungeon()
                            &&& same_loot(g, h)
                            &&& same_counters(g, h)
                        },
                        _ => {
                            &&& h.spec_phase() == Phase::Loot(LootPhase::SelectLoot)
                            &&& h.spec_party().items() == g.spec_party().items()
                            &&& h.spec_party().marks() == Seq::<usize>::empty()
                            &&& h.spec_dungeon().items() == g.spec_dungeon().items()
                            &&& h.spec_dungeon().marks() == Seq::<usize>::empty()
                            &&& h.spec_graveyard() == g.spec_graveyard()
                            &&& same_loot(g, h)
                            &&& same_counters(g, h)
                        },
                    },
                    Phase::Loot(LootPhase::ConfirmLoot) => {
                        &&& exists|k: int|
                            0 <= k < g.spec_treasure().len() && h.spec_treasure() == g.spec_treasure(
                            ).remove(k) && h.spec_inventory() == g.spec_inventory().push(
                                g.spec_treasure()[k],
                            )
                        &&& h.spec_dungeon().items() == g.spec_dungeon().items().remove(
                            g.spec_dungeon().positions()[0] as int,
                        )
                        &&& h.spec_party().items() == g.spec_party().items().remove(
                            g.spec_party().positions()[0] as int,
                        )
                        &&& h.spec_graveyard().items() == g.spec_graveyard().items().push(ally0(g))
                        &&& h.spec_run_xp() == sat_add_spec(g.spec_run_xp(), 1)
                        &&& h.spec_delve() == g.spec_delve()
                        &&& h.spec_level() == g.spec_level()
                        &&& h.spec_no_monsters() == g.spec_no_monsters()
                        &&& h.spec_hero() == g.spec_hero()
                        &&& h.spec_phase() == loot_entry(
                            h.spec_dungeon().items(),
                            h.spec_graveyard().items(),
                            h.spec_no_monsters(),
                        )
                    },
                    Phase::Loot(LootPhase::SelectGraveyard) => {
                        &&& h.spec_phase() == Phase::Loot(LootPhase::ConfirmGraveyard)
                        &&& same_dice(g, h)
                        &&& same_loot(g, h)
                        &&& same_counters(g, h)
                    },
                    Phase::Loot(LootPhase::ConfirmGraveyard) => {
                        let gy = g.spec_graveyard().items();
                        let gm = g.spec_graveyard().marks();
                        let p1 = g.spec_party().items() + take_marked_desc(gy, gm, 0);
                        let ppos = g.spec_party().positions()[0] as int;
                        &&& h.spec_party().items() == p1.remove(ppos)
                        &&& h.spec_graveyard().items() == keep_unmarked(gy, gm, 0).push(p1[ppos])
                        &&& h.spec_dungeon().items() == drop_potions(
                            g.spec_dungeon().items(),
                            gm.len() as nat,
                        )
                        &&& (h.spec_phase() != Phase::Dragon(DragonPhase::SelectAlly)
                            ==> h.spec_party().limit() == 0)
                        &&& h.spec_graveyard().marks() == Seq::<usize>::empty()
                        &&& same_loot(g, h)
                        &&& same_counters(g, h)
                        &&& h.spec_phase() == loot_entry(
                            h.spec_dungeon().items(),
                            h.spec_graveyard().items(),
                            h.spec_no_monsters(),
                        )
                    },
                    Phase::Dragon(DragonPhase::SelectAlly) => if g.spec_party().marks().len()
                        == 3 {
                        &&& h.spec_phase() == Phase::Dragon(DragonPhase::Confirm)
                        &&& same_dice(g, h)
                        &&& same_loot(g, h)
                        &&& same_counters(g, h)
                    } else {
                        &&& h.spec_phase() == dragon_entry(g.spec_dungeon().items())
                        &&& h.spec_party().items() == g.spec_party().items()
                        &&& h.spec_party().marks() == g.spec_party().marks()
                        &&& h.spec_dungeon() == g.spec_dungeon()
                        &&& h.spec_graveyard() == g.spec_graveyard()
                        &&& same_loot(g, h)
                        &&& same_counters(g, h)
                    },
                    Phase::Dragon(DragonPhase::Confirm) => {
                        &&& h.spec_party().items() == keep_unmarked(
                            g.spec_party().items(),
                            g.spec_party().marks(),
                            0,
                        )
                        &&& h.spec_party().marks() == Seq::<usize>::empty()
                        &&& h.spec_party().limit() == 0
                        &&& h.spec_dungeon() == g.spec_dungeon()
                        &&& h.spec_graveyard() == g.spec_graveyard()
                        &&& same_loot(g, h)
                        &&& same_counters(g, h)
                        &&& h.spec_phase() == Phase::Regroup(RegroupPhase::Continue)
                    },
                    Phase::EmptyDungeon => {
                        &&& h.spec_phase() == Phase::Regroup(RegroupPhase::Continue)
                        &&& same_dice(g, h)
                        &&& same_loot(g, h)
                        &&& same_counters(g, h)
                    },
                    Phase::Regroup(RegroupPhase::Continue) => next_level_row(g, h),
                    Phase::Regroup(RegroupPhase::ContinueSetup) => next_level_row(g, h),
                    Phase::Regroup(RegroupPhase::End) => end_delve_row(g, h),
                    Phase::Regroup(RegroupPhase::EndSetup) => end_delve_row(g, h),
                    Phase::Victory => {
                        &&& h.spec_phase() == Phase::Victory
                        &&& same_dice(g, h)
                        &&& same_loot(g, h)
                        &&& same_counters(g, h)
                    },
                    _ => true,
                }
            }),
    {
        // exit action of the phase being left
        match self.phase {
            Phase::Monster(MonsterPhase::ConfirmReroll) => self.execute_reroll(),
            Phase::Monster(MonsterPhase::ConfirmCombat) => self.execute_combat(),
            Phase::Loot(LootPhase::ConfirmLoot) => self.execute_loot(),
            Phase::Loot(LootPhase::ConfirmGraveyard) => {
                self.execute_graveyard();
                self.party.set_selection_limit(0);
            },
            Phase::Dragon(DragonPhase::Confirm) => {
                self.execute_dragon();
                self.party.set_selection_limit(0);
            },
            _ => {},
        }
        // the transition table
        let next = match self.phase {
            Phase::Setup => Phase::Setup,
            Phase::Monster(MonsterPhase::SelectAlly) => {
                if matches!(*self.current_ally(), Ally::Scroll) {
                    Phase::Monster(MonsterPhase::SelectReroll(Reroll::Ally))
                } else {
                    Phase::Monster(MonsterPhase::SelectMonster)
                }
            },
            Phase::Monster(MonsterPhase::SelectReroll(_)) => Phase::Monster(
                MonsterPhase::ConfirmReroll,
            ),
            Phase::Monster(MonsterPhase::ConfirmReroll) => Phase::Monster(
                MonsterPhase::SelectAlly,
            ),
            Phase::Monster(MonsterPhase::ConfirmCombat) => Phase::Monster(
                MonsterPhase::SelectAlly,
            ),
            Phase::Monster(MonsterPhase::SelectMonster) => Phase::Monster(
                MonsterPhase::ConfirmCombat,
            ),
            Phase::Monster(MonsterPhase::Defeat) => unreached(),
            Phase::Loot(LootPhase::SelectAlly) => {
                if matches!(*self.current_ally(), Ally::Scroll) && self.potion_count() == 0 {
                    Phase::Loot(LootPhase::SelectAlly)
                } else {
                    Phase::Loot(LootPhase::SelectLoot)
                }
            },
            Phase::Loot(LootPhase::SelectLoot) => match *self.current_monster() {
                Monster::Chest => Phase::Loot(LootPhase::ConfirmLoot),
                Monster::Potion => Phase::Loot(LootPhase::SelectGraveyard),
                _ => Phase::Loot(LootPhase::SelectLoot),
            },
            Phase::Loot(LootPhase::ConfirmLoot) => Phase::Loot(LootPhase::SelectAlly),
            Phase::Loot(LootPhase::ConfirmGraveyard) => Phase::Loot(LootPhase::SelectAlly),
            Phase::Loot(LootPhase::SelectGraveyard) => Phase::Loot(LootPhase::ConfirmGraveyard),
            Phase::Dragon(DragonPhase::SelectAlly) => {
                if self.party.selection().len() == 3 {
                    Phase::Dragon(DragonPhase::Confirm)
                } else {
                    Phase::Dragon(DragonPhase::SelectAlly)
                }
            },
            Phase::Dragon(DragonPhase::Confirm) => Phase::Regroup(RegroupPhase::Continue),
            Phase::Dragon(DragonPhase::Defeat) => unreached(),
            Phase::EmptyDungeon => Phase::Regroup(RegroupPhase::Continue),
            Phase::Regroup(RegroupPhase::Continue) => Phase::Regroup(RegroupPhase::ContinueSetup),
            Phase::Regroup(RegroupPhase::ContinueSetup) => Phase::Regroup(
                RegroupPhase::ContinueSetup,
            ),
            Phase::Regroup(RegroupPhase::End) => Phase::Regroup(RegroupPhase::EndSetup),
            Phase::Regroup(RegroupPhase::EndSetup) => Phase::Regroup(RegroupPhase::EndSetup),
            Phase::Victory => Phase::Victory,
        };
        self.phase = next;
        // entry actions until stable; each redirect lowers the rank, which
        // starts at five or less
        if self.enter_phase_trigger() {
            if self.enter_phase_trigger() {
                if self.enter_phase_trigger() {
                    if self.enter_phase_trigger() {
                        if self.enter_phase_trigger() {
                            proof {
                                lemma_rank_zero_settled(*self);
                            }
                        }
                    }
                }
            }
        }
    }
}

/// What ending the delve guarantees: experience banks, the delve counter
/// advances, a fresh party is rolled, the pools reset, and the first level of
/// the new delve begins.
pub open spec fn end_delve_row(g: Game, h: Game) -> bool {
    &&& h.spec_delve() == sat_add_spec(g.spec_delve(), 1)
    &&& h.spec_hero().spec_xp() == sat_add_spec(g.spec_hero().spec_xp(), g.spec_run_xp())
    &&& h.spec_level() == 1
    &&& h.spec_run_xp() == 1
    &&& h.spec_graveyard().items() == Seq::<Ally>::empty()
    &&& h.spec_party().items().len() == h.spec_party_size()
    &&& h.spec_party_size() >= 1
    &&& 4 * (h.spec_party_size() - 1) * (h.spec_party_size() - 1) <= 9 * (
    h.spec_hero().spec_xp() + 4)
    &&& 9 * (h.spec_hero().spec_xp() + 4) < 4 * (h.spec_party_size() as int) * (
    h.spec_party_size() as int)
    &&& (forall|k: int|
        0 <= k < h.spec_party().items().len() ==> is_rolled(
            #[trigger] h.spec_party().items()[k],
        ))
    &&& h.spec_treasure() == full_pool()
    &&& h.spec_inventory() == Seq::<crate::treasure::Treasure>::empty()
    &&& ({
        let kept = filter_eq(g.spec_dungeon().items(), Monster::Dragon, true);
        let d = h.spec_dungeon().items();
        &&& d.len() == kept.len() + 1
        &&& d.take(kept.len() as int) == kept
        &&& (forall|k: int| kept.len() <= k < d.len() ==> is_rolled(#[trigger] d[k]))
    })
    &&& h.spec_no_monsters() == !crate::game::has_monsters_in(h.spec_dungeon().items())
    &&& h.spec_blink() == g.spec_blink()
    &&& h.spec_phase() == monster_entry(
        h.spec_dungeon().items(),
        h.spec_graveyard().items(),
        h.spec_no_monsters(),
    )
}

} // verus!

verus! {

use crate::game::utils::Cursor as SelCursor;

impl Game {
    /// Retreat the phase machine: abandon the current sub-step without
    /// resolving anything.  An initial sub-state retreats to the previous
    /// phase's terminal step; where no retreat is defined nothing happens.
    /// No resolution action ever runs.
    #[verifier::rlimit(100)]
    pub fn prev_phase(&mut self)
        requires
            old(self).wf(),
            old(self).can_retreat(),
        ensures
            final(self).wf(),
            ({
                let g = *old(self);
                let h = *final(self);
                match g.spec_phase() {
                    Phase::Monster(MonsterPhase::SelectReroll(_)) => {
                        &&& h.spec_phase() == monster_entry(
                            g.spec_dungeon().items(),
                            g.spec_graveyard().items(),
                            g.spec_no_monsters(),
                        )
                        &&& h.spec_party().items() == g.spec_party().items()
                        &&& h.spec_dungeon().items() == g.spec_dungeon().items()
                        &&& h.spec_graveyard() == g.spec_graveyard()
                        &&& same_loot(g, h)
                        &&& same_counters(g, h)
                    },
                    Phase::Monster(MonsterPhase::SelectMonster) => {
                        &&& h.spec_phase() == monster_entry(
                            g.spec_dungeon().items(),
                            g.spec_graveyard().items(),
                            g.spec_no_monsters(),
                        )
                        &&& h.spec_party().items() == g.spec_party().items()
                        &&& h.spec_dungeon().items() == g.spec_dungeon().items()
                        &&& h.spec_graveyard() == g.spec_graveyard()
                        &&& same_loot(g, h)
                        &&& same_counters(g, h)
                    },
                    Phase::Monster(MonsterPhase::ConfirmReroll) => {
                        &&& h.spec_phase() == Phase::Monster(
                            MonsterPhase::SelectReroll(Reroll::Ally),
                        )
                        &&& same_dice(g, h)
                        &&& same_loot(g, h)
                        &&& same_counters(g, h)
                    },
                    Phase::Monster(MonsterPhase::ConfirmCombat) => {
                        &&& h.spec_phase() == Phase::Monster(MonsterPhase::SelectMonster)
                        &&& same_dice(g, h)
                        &&& same_loot(g, h)
                        &&& same_counters(g, h)
                    },
                    Phase::Loot(LootPhase::SelectAlly) => {
                        &&& h.spec_phase() == dragon_entry(g.spec_dungeon().items())
                        &&& h.spec_party().items() == g.spec_party().items()
                        &&& h.spec_party().marks() == g.spec_party().marks()
                        &&& h.spec_dungeon() == g.spec_dungeon()
                        &&& h.spec_graveyard() == g.spec_graveyard()
                        &&& same_loot(g, h)
                        &&& same_counters(g, h)
                    },
                    Phase::Loot(LootPhase::SelectLoot) => {
                        &&& h.spec_phase() == loot_entry(
                            g.spec_dungeon().items(),
                            g.spec_graveyard().items(),
                            g.spec_no_monsters(),
                        )
                        &&& h.spec_party().items() == g.spec_party().items()
                        &&& h.spec_dungeon().items() == g.spec_dungeon().items()
                        &&& h.spec_graveyard() == g.spec_graveyard()
                        &&& same_loot(g, h)
                        &&& same_counters(g, h)
                    },
                    Phase::Loot(LootPhase::ConfirmLoot) => {
                        &&& h.spec_phase() == Phase::Loot(LootPhase::SelectLoot)
                        &&& h.spec_party().items() == g.spec_party().items()
                        &&& h.spec_party().marks() == Seq::<usize>::empty()
                        &&& h.spec_dungeon().items() == g.spec_dungeon().items()
                        &&& h.spec_dungeon().marks() == Seq::<usize>::empty()
                        &&& h.spec_graveyard() == g.spec_graveyard()
                        &&& same_loot(g, h)
                        &&& same_counters(g, h)
                    },
                    Phase::Loot(LootPhase::SelectGraveyard) => {
                        &&& h.spec_phase() == Phase::Loot(LootPhase::SelectLoot)
                        &&& h.spec_party().items() == g.spec_party().items()
                        &&& h.spec_party().marks() == Seq::<usize>::empty()
                        &&& h.spec_dungeon().items() == g.spec_dungeon().items()
                        &&& h.spec_dungeon().marks() == Seq::<usize>::empty()
                        &&& h.spec_graveyard() == g.spec_graveyard()
                        &&& same_loot(g, h)
                        &&& same_counters(g, h)
                    },
                    Phase::Loot(LootPhase::ConfirmGraveyard) => {
                        &&& h.spec_phase() == Phase::Loot(LootPhase::SelectGraveyard)
                        &&& h.spec_graveyard().items() == g.spec_graveyard().items()
                        &&& h.spec_graveyard().marks() == g.spec_graveyard().marks()
                        &&& h.spec_graveyard().limit() == count_in(
                            g.spec_dungeon().items(),
                            Monster::Potion,
                        )
                        &&& h.spec_party() == g.spec_party()
                        &&& h.spec_dungeon() == g.spec_dungeon()
                        &&& same_loot(g, h)
                        &&& same_counters(g, h)
                    },
                    Phase::Dragon(_) => {
                        &&& h.spec_phase() == dragon_entry(g.spec_dungeon().items())
                        &&& h.spec_party().items() == g.spec_party().items()
                        &&& h.spec_party().marks() == g.spec_party().marks()
                        &&& h.spec_dungeon() == g.spec_dungeon()
                        &&& h.spec_graveyard() == g.spec_graveyard()
                        &&& same_loot(g, h)
                        &&& same_counters(g, h)
                    },
                    _ => h == g,
                }
            }),
    {
        let target: Option<Phase> = match self.phase {
            Phase::Monster(MonsterPhase::SelectAlly) => None,
            Phase::Monster(MonsterPhase::SelectReroll(_)) => Some(
                Phase::Monster(MonsterPhase::SelectAlly),
            ),
            Phase::Monster(MonsterPhase::SelectMonster) => Some(
                Phase::Monster(MonsterPhase::SelectAlly),
            ),
            Phase::Monster(MonsterPhase::ConfirmReroll) => Some(
                Phase::Monster(MonsterPhase::SelectReroll(Reroll::Ally)),
            ),
            Phase::Monster(MonsterPhase::ConfirmCombat) => Some(
                Phase::Monster(MonsterPhase::SelectMonster),
            ),
            Phase::Loot(LootPhase::SelectAlly) => Some(Phase::Dragon(DragonPhase::SelectAlly)),
            Phase::Loot(LootPhase::SelectLoot) => Some(Phase::Loot(LootPhase::SelectAlly)),
            Phase::Loot(LootPhase::ConfirmLoot) => Some(Phase::Loot(LootPhase::SelectLoot)),
            Phase::Loot(LootPhase::SelectGraveyard) => Some(Phase::Loot(LootPhase::SelectLoot)),
            Phase::Loot(LootPhase::ConfirmGraveyard) => Some(
                Phase::Loot(LootPhase::SelectGraveyard),
            ),
            Phase::Dragon(_) => Some(Phase::Dragon(DragonPhase::SelectAlly)),
            _ => None,
        };
        match target {
            Some(p) => {
                self.phase = p;
                if self.enter_phase_trigger() {
                    if self.enter_phase_trigger() {
                        if self.enter_phase_trigger() {
                            proof {
                                lemma_rank_zero_settled(*self);
                            }
                        }
                    }
                }
            },
            None => {},
        }
    }

    /// Start a fresh delve without banking experience: reset, then settle the
    /// first level.
    pub(crate) fn next_delve(&mut self)
        requires
            old(self).wf(),
        ensures
            final(self).wf(),
            final(self).settled(),
            final(self).spec_hero() == old(self).spec_hero(),
            final(self).spec_blink() == old(self).spec_blink(),
            final(self).spec_delve() == sat_add_spec(old(self).spec_delve(), 1),
            final(self).spec_level() == 1,
            final(self).spec_run_xp() == 1,
            final(self).spec_graveyard().items() == Seq::<Ally>::empty(),
            final(self).spec_party().items().len() == final(self).spec_party_size(),
            final(self).spec_party_size() >= 1,
            4 * (final(self).spec_party_size() - 1) * (final(self).spec_party_size() - 1) <= 9 * (
            old(self).spec_hero().spec_xp() + 4),
            9 * (old(self).spec_hero().spec_xp() + 4) < 4 * (final(self).spec_party_size() as int)
                * (final(self).spec_party_size() as int),
            forall|k: int|
                0 <= k < final(self).spec_party().items().len() ==> is_rolled(
                    #[trigger] final(self).spec_party().items()[k],
                ),
            final(self).spec_treasure() == full_pool(),
            final(self).spec_inventory() == Seq::<crate::treasure::Treasure>::empty(),
            ({
                let kept = filter_eq(old(self).spec_dungeon().items(), Monster::Dragon, true);
                let d = final(self).spec_dungeon().items();
                &&& d.len() == kept.len() + 1
                &&& d.take(kept.len() as int) == kept
                &&& (forall|k: int| kept.len() <= k < d.len() ==> is_rolled(#[trigger] d[k]))
            }),
            final(self).spec_no_monsters() == !crate::game::has_monsters_in(
                final(self).spec_dungeon().items(),
            ),
            final(self).spec_phase() == monster_entry(
                final(self).spec_dungeon().items(),
                final(self).spec_graveyard().items(),
                final(self).spec_no_monsters(),
            ),
    {
        self.reset_delve();
        if self.enter_phase_trigger() {
            if self.enter_phase_trigger() {
                if self.enter_phase_trigger() {
                    if self.enter_phase_trigger() {
                        proof {
                            lemma_rank_zero_settled(*self);
                        }
                    }
                }
            }
        }
    }

    /// A fresh game for the given hero: the first delve starts at once.
    pub fn new(rng: rand_pcg::Pcg64Mcg, hero: crate::hero::Type) -> (g: Game)
        ensures
            g.wf(),
            g.settled(),
            g.spec_hero().spec_xp() == 0,
            g.spec_delve() == 1,
            g.spec_level() == 1,
            g.spec_run_xp() == 1,
            g.spec_party_size() == 4,
            g.spec_party().items().len() == 4,
            g.spec_graveyard().items() == Seq::<Ally>::empty(),
            g.spec_dungeon().items().len() == 1,
            g.spec_treasure() == full_pool(),
            g.spec_inventory() == Seq::<crate::treasure::Treasure>::empty(),
            g.spec_blink(),
    {
        let party: SelCursor<Ally> = SelCursor::new(Vec::new(), mon_ally_rules());
        let graveyard: SelCursor<Ally> = SelCursor::new(Vec::new(), graveyard_rules());
        let dungeon: SelCursor<Monster> = SelCursor::new(Vec::new(), mon_dungeon_rules());
        let mut game = Game {
            rng,
            blink: true,
            delve: 0,
            level: 0,
            run_xp: 0,
            no_monsters: false,
            party_size: 0,
            phase: Phase::Setup,
            hero: crate::hero::Hero::new(hero),
            party,
            dungeon,
            graveyard,
            treasure: crate::treasure::treasure_pool(),
            inventory: Vec::new(),
        };
        proof {
            assert(game.wf());
        }
        game.next_delve();
        proof {
            let ps = game.spec_party_size() as int;
            assert(4 * (ps - 1) * (ps - 1) <= 36 && 36 < 4 * ps * ps ==> ps == 4)
                by (nonlinear_arith);
            assert(filter_eq(Seq::<Monster>::empty(), Monster::Dragon, true) =~= Seq::<
                Monster,
            >::empty());
        }
        game
    }

    /// A game assembled from explicit collections in a chosen phase, with the
    /// cursor rules and selection caps that phase works under.  The treasure
    /// pool is full and no experience has been earned.
    pub fn from_parts(
        rng: rand_pcg::Pcg64Mcg,
        hero: crate::hero::Type,
        party: Vec<Ally>,
        dungeon: Vec<Monster>,
        graveyard: Vec<Ally>,
        phase: Phase,
    ) -> (g: Game)
        ensures
            g.wf(),
            g.spec_phase() == phase,
            g.spec_party().items() == party@,
            g.spec_dungeon().items() == dungeon@,
            g.spec_graveyard().items() == graveyard@,
            g.spec_party().marks() == Seq::<usize>::empty(),
            g.spec_dungeon().marks() == Seq::<usize>::empty(),
            g.spec_graveyard().marks() == Seq::<usize>::empty(),
            g.spec_treasure() == full_pool(),
            g.spec_inventory() == Seq::<crate::treasure::Treasure>::empty(),
            g.spec_hero().spec_xp() == 0,
            g.spec_run_xp() == 0,
            !g.spec_no_monsters(),
            g.spec_party().limit() == (if phase == Phase::Dragon(DragonPhase::SelectAlly) {
                3usize
            } else {
                0usize
            }),
            g.spec_graveyard().limit() == (if phase == Phase::Loot(LootPhase::SelectGraveyard) {
                count_in(dungeon@, Monster::Potion)
            } else {
                0
            }),
            g.spec_party().rules() == (match phase {
                Phase::Dragon(_) => crate::game::dragon_ally_rule_set(),
                Phase::Loot(_) => crate::game::loot_ally_rule_set(),
                _ => crate::game::mon_ally_rule_set(),
            }),
            g.spec_dungeon().rules() == (match phase {
                Phase::Loot(_) => crate::game::loot_dungeon_rule_set(),
                _ => crate::game::mon_dungeon_rule_set(),
            }),
    {
        let party_rules = match phase {
            Phase::Dragon(_) => dragon_ally_rules(),
            Phase::Loot(_) => loot_ally_rules(),
            _ => mon_ally_rules(),
        };
        let dungeon_rules = match phase {
            Phase::Loot(_) => loot_dungeon_rules(),
            _ => mon_dungeon_rules(),
        };
        let n = party.len() as u64;
        let mut g = Game {
            rng,
            blink: true,
            delve: 1,
            level: 1,
            run_xp: 0,
            no_monsters: false,
            party_size: n,
            phase,
            hero: crate::hero::Hero::new(hero),
            party: SelCursor::new(party, party_rules),
            dungeon: SelCursor::new(dungeon, dungeon_rules),
            graveyard: SelCursor::new(graveyard, graveyard_rules()),
            treasure: crate::treasure::treasure_pool(),
            inventory: Vec::new(),
        };
        if matches!(g.phase, Phase::Dragon(DragonPhase::SelectAlly)) {
            g.party.set_selection_limit(3);
        }
        if matches!(g.phase, Phase::Loot(LootPhase::SelectGraveyard)) {
            let p = g.potion_count();
            g.graveyard.set_selection_limit(p);
        }
        g
    }
}

} // verus!
