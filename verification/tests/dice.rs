//! Face tables, pools, sizing arithmetic and the random source.

use dungeon_dice::dice::{Ally, Dice, Monster};
use dungeon_dice::game::gameplay::{party_size_for, sat_add};
use dungeon_dice::game::{roll, roll_n};
use dungeon_dice::rng::{rng_below, rng_from_seed};
use dungeon_dice::treasure::{Treasure, treasure_pool};

#[test]
fn ally_face_table() {
    assert_eq!(Ally::faces(), 6);
    assert_eq!(Ally::nth(0), Ally::Fighter);
    assert_eq!(Ally::nth(1), Ally::Cleric);
    assert_eq!(Ally::nth(2), Ally::Mage);
    assert_eq!(Ally::nth(3), Ally::Champion);
    assert_eq!(Ally::nth(4), Ally::Thief);
    assert_eq!(Ally::nth(5), Ally::Scroll);
}

#[test]
fn monster_face_table() {
    assert_eq!(Monster::faces(), 6);
    assert_eq!(Monster::nth(0), Monster::Goblin);
    assert_eq!(Monster::nth(1), Monster::Skeleton);
    assert_eq!(Monster::nth(2), Monster::Ooze);
    assert_eq!(Monster::nth(3), Monster::Dragon);
    assert_eq!(Monster::nth(4), Monster::Chest);
    assert_eq!(Monster::nth(5), Monster::Potion);
}

#[test]
fn face_classification() {
    assert!(Ally::Fighter.is_companion());
    assert!(Ally::Champion.is_companion());
    assert!(!Ally::Scroll.is_companion());
    assert!(Monster::Goblin.is_monster());
    assert!(Monster::Skeleton.is_monster());
    assert!(Monster::Ooze.is_monster());
    assert!(!Monster::Dragon.is_monster());
    assert!(!Monster::Chest.is_monster());
    assert!(Monster::Chest.is_loot());
    assert!(Monster::Potion.is_loot());
    assert!(!Monster::Goblin.is_loot());
}

#[test]
fn treasure_pool_composition() {
    let pool = treasure_pool();
    assert_eq!(pool.len(), 36);
    let count = |t: Treasure| pool.iter().filter(|x| **x == t).count();
    assert_eq!(count(Treasure::VorpalSword), 3);
    assert_eq!(count(Treasure::Talisman), 3);
    assert_eq!(count(Treasure::ScepterOfPower), 3);
    assert_eq!(count(Treasure::ThievesTools), 3);
    assert_eq!(count(Treasure::Scroll), 3);
    assert_eq!(count(Treasure::RingOfInvisiblity), 4);
    assert_eq!(count(Treasure::DragonScales), 6);
    assert_eq!(count(Treasure::Potion), 3);
    assert_eq!(count(Treasure::DragonBait), 4);
    assert_eq!(count(Treasure::TownPortal), 4);
}

#[test]
fn party_size_grows_with_experience() {
    assert_eq!(party_size_for(0), 4);
    assert_eq!(party_size_for(4), 5);
    assert_eq!(party_size_for(10), 6);
    // the defining inequalities hold on a larger value
    let xp: u64 = 1000;
    let p = party_size_for(xp);
    let m = 9 * (u128::from(xp) + 4);
    let p128 = u128::from(p);
    assert!(4 * (p128 - 1) * (p128 - 1) <= m);
    assert!(m < 4 * p128 * p128);
}

#[test]
fn saturating_addition() {
    assert_eq!(sat_add(2, 3), 5);
    assert_eq!(sat_add(u64::MAX, 1), u64::MAX);
    assert_eq!(sat_add(u64::MAX - 1, 1), u64::MAX);
    assert_eq!(sat_add(0, 0), 0);
}

#[test]
fn uniform_draws_stay_below_the_bound() {
    let mut rng = rng_from_seed(7);
    for _ in 0..200 {
        let r = rng_below(&mut rng, 6);
        assert!(r < 6);
    }
    for n in 1..20u64 {
        let r = rng_below(&mut rng, n);
        assert!(r < n);
    }
}

#[test]
fn seeded_rolls_are_reproducible() {
    let mut a = rng_from_seed(42);
    let mut b = rng_from_seed(42);
    let va: Vec<Monster> = roll_n(&mut a, 10);
    let vb: Vec<Monster> = roll_n(&mut b, 10);
    assert_eq!(va, vb);
    assert_eq!(va.len(), 10);
    let ra: Ally = roll(&mut a);
    let rb: Ally = roll(&mut b);
    assert_eq!(ra, rb);
}
