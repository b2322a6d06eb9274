//! Treasure tokens and the composition of the full pool.

use vstd::prelude::*;

verus! {

/// A treasure token drawn from the pool when a chest is opened.
#[derive(Debug, PartialEq, Eq, Structural, Hash, Clone, Copy)]
pub enum Treasure {
    VorpalSword,
    Talisman,
    ScepterOfPower,
    ThievesTools,
    Scroll,
    RingOfInvisiblity,
    DragonScales,
    Potion,
    DragonBait,
    TownPortal,
}

/// The full pool a delve starts with: 36 tokens in fixed amounts per kind.
pub open spec fn full_pool() -> Seq<Treasure> {
    seq![
        Treasure::VorpalSword, Treasure::VorpalSword, Treasure::VorpalSword,
        Treasure::Talisman, Treasure::Talisman, Treasure::Talisman,
        Treasure::ScepterOfPower, Treasure::ScepterOfPower, Treasure::ScepterOfPower,
        Treasure::ThievesTools, Treasure::ThievesTools, Treasure::ThievesTools,
        Treasure::Scroll, Treasure::Scroll, Treasure::Scroll,
        Treasure::RingOfInvisiblity, Treasure::RingOfInvisiblity,
        Treasure::RingOfInvisiblity, Treasure::RingOfInvisiblity,
        Treasure::DragonScales, Treasure::DragonScales, Treasure::DragonScales,
        Treasure::DragonScales, Treasure::DragonScales, Treasure::DragonScales,
        Treasure::Potion, Treasure::Potion, Treasure::Potion,
        Treasure::DragonBait, Treasure::DragonBait, Treasure::DragonBait,
        Treasure::DragonBait,
        Treasure::TownPortal, Treasure::TownPortal, Treasure::TownPortal,
        Treasure::TownPortal,
    ]
}

/// Build the full treasure pool.
pub fn treasure_pool() -> (v: Vec<Treasure>)
    ensures
        v@ == full_pool(),
{
    let mut v: Vec<Treasure> = Vec::new();
    let mut i: usize = 0;
    while i < 3
        invariant
            i <= 3,
            v@ =~= full_pool().subrange(0, i as int),
        decreases 3 - i,
    {
        v.push(Treasure::VorpalSword);
        i += 1;
    }
    while i < 6
        invariant
            3 <= i <= 6,
            v@ =~= full_pool().subrange(0, i as int),
        decreases 6 - i,
    {
        v.push(Treasure::Talisman);
        i += 1;
    }
    while i < 9
        invariant
            6 <= i <= 9,
            v@ =~= full_pool().subrange(0, i as int),
        decreases 9 - i,
    {
        v.push(Treasure::ScepterOfPower);
        i += 1;
    }
    while i < 12
        invariant
            9 <= i <= 12,
            v@ =~= full_pool().subrange(0, i as int),
        decreases 12 - i,
    {
        v.push(Treasure::ThievesTools);
        i += 1;
    }
    while i < 15
        invariant
            12 <= i <= 15,
            v@ =~= full_pool().subrange(0, i as int),
        decreases 15 - i,
    {
        v.push(Treasure::Scroll);
        i += 1;
    }
    while i < 19
        invariant
            15 <= i <= 19,
            v@ =~= full_pool().subrange(0, i as int),
        decreases 19 - i,
    {
        v.push(Treasure::RingOfInvisiblity);
        i += 1;
    }
    while i < 25
        invariant
            19 <= i <= 25,
            v@ =~= full_pool().subrange(0, i as int),
        decreases 25 - i,
    {
        v.push(Treasure::DragonScales);
        i += 1;
    }
    while i < 28
        invariant
            25 <= i <= 28,
            v@ =~= full_pool().subrange(0, i as int),
        decreases 28 - i,
    {
        v.push(Treasure::Potion);
        i += 1;
    }
    while i < 32
        invariant
            28 <= i <= 32,
            v@ =~= full_pool().subrange(0, i as int),
        decreases 32 - i,
    {
        v.push(Treasure::DragonBait);
        i += 1;
    }
    while i < 36
        invariant
            32 <= i <= 36,
            v@ =~= full_pool().subrange(0, i as int),
        decreases 36 - i,
    {
        v.push(Treasure::TownPortal);
        i += 1;
    }
    proof {
        assert(v@ =~= full_pool());
    }
    v
}

} // verus!
