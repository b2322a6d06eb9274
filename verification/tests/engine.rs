//! The phase machine driven through complete scenarios.

use dungeon_dice::dice::{Ally, Monster};
use dungeon_dice::game::controls::Command;
use dungeon_dice::game::{Game, Row};
use dungeon_dice::hero::Type;
use dungeon_dice::phase::{
    Dragon as DragonPhase, Loot as LootPhase, Monster as MonsterPhase, Phase,
    Regroup as RegroupPhase, Reroll,
};
use dungeon_dice::rng::rng_from_seed;

fn game_at(party: Vec<Ally>, dungeon: Vec<Monster>, graveyard: Vec<Ally>, phase: Phase) -> Game {
    Game::from_parts(rng_from_seed(11), Type::Bard, party, dungeon, graveyard, phase)
}

#[test]
fn a_fresh_game_starts_its_first_delve() {
    let g = Game::new(rng_from_seed(5), Type::Bard);
    assert_eq!(g.delve(), 1);
    assert_eq!(g.level(), 1);
    assert_eq!(g.run_xp(), 1);
    assert_eq!(g.party().data().len(), 4);
    assert_eq!(g.dungeon().data().len(), 1);
    assert_eq!(g.graveyard().data().len(), 0);
    assert_eq!(g.treasure().len(), 36);
    assert_eq!(g.inventory().len(), 0);
    assert!(g.blink());
    // the machine settled: a monster encounter only with hostiles present
    if g.phase() == Phase::Monster(MonsterPhase::SelectAlly) {
        assert!(g.has_monsters());
    }
}

#[test]
fn fighter_combat_removes_every_goblin() {
    let mut g = game_at(
        vec![Ally::Fighter, Ally::Cleric],
        vec![Monster::Goblin, Monster::Goblin, Monster::Skeleton],
        vec![],
        Phase::Monster(MonsterPhase::SelectAlly),
    );
    assert_eq!(g.current_ally(), &Ally::Fighter);
    g.next_phase();
    assert_eq!(g.phase(), Phase::Monster(MonsterPhase::SelectMonster));
    assert_eq!(g.current_monster(), &Monster::Goblin);
    assert!(g.affects_all());
    g.next_phase();
    assert_eq!(g.phase(), Phase::Monster(MonsterPhase::ConfirmCombat));
    g.next_phase();
    assert_eq!(g.dungeon().data(), &vec![Monster::Skeleton]);
    assert_eq!(g.party().data(), &vec![Ally::Cleric]);
    assert_eq!(g.graveyard().data(), &vec![Ally::Fighter]);
    assert_eq!(g.phase(), Phase::Monster(MonsterPhase::SelectAlly));
}

#[test]
fn fighter_combat_removes_every_goblin_from_the_other_target() {
    let mut g = game_at(
        vec![Ally::Fighter, Ally::Cleric],
        vec![Monster::Goblin, Monster::Goblin, Monster::Skeleton],
        vec![],
        Phase::Monster(MonsterPhase::SelectAlly),
    );
    g.next_phase();
    g.select_next(); // target the second goblin instead
    assert_eq!(g.dungeon().cursor(0), 1);
    g.next_phase();
    g.next_phase();
    assert_eq!(g.dungeon().data(), &vec![Monster::Skeleton]);
    assert_eq!(g.party().data(), &vec![Ally::Cleric]);
    assert_eq!(g.graveyard().data(), &vec![Ally::Fighter]);
}

#[test]
fn cleric_combat_without_pairing_removes_only_the_target() {
    let mut g = game_at(
        vec![Ally::Cleric],
        vec![Monster::Goblin, Monster::Goblin],
        vec![],
        Phase::Monster(MonsterPhase::SelectAlly),
    );
    g.next_phase();
    assert!(!g.affects_all()); // cleric versus goblin fells one die only
    g.next_phase();
    g.next_phase();
    assert_eq!(g.dungeon().data(), &vec![Monster::Goblin]);
    assert_eq!(g.graveyard().data(), &vec![Ally::Cleric]);
}

#[test]
fn reroll_replaces_exactly_the_selected_dice_and_spends_the_scroll() {
    let mut g = game_at(
        vec![Ally::Scroll, Ally::Fighter],
        vec![Monster::Goblin, Monster::Chest],
        vec![],
        Phase::Monster(MonsterPhase::SelectAlly),
    );
    g.next_phase(); // the scroll grants a reroll
    assert_eq!(
        g.phase(),
        Phase::Monster(MonsterPhase::SelectReroll(Reroll::Ally))
    );
    assert_eq!(g.party().cursor(1), 1); // the reroll cursor avoids the actor
    g.toggle_select(); // mark the fighter
    assert_eq!(g.party().selection(), vec![1]);
    g.select_top();
    assert_eq!(
        g.phase(),
        Phase::Monster(MonsterPhase::SelectReroll(Reroll::Monster))
    );
    g.toggle_select(); // mark the goblin
    assert_eq!(g.dungeon().selection(), vec![0]);
    g.next_phase();
    assert_eq!(g.phase(), Phase::Monster(MonsterPhase::ConfirmReroll));
    g.next_phase();
    // exactly the two marked dice were re-sampled; the chest is untouched;
    // the acting scroll went to the graveyard
    assert_eq!(g.party().data().len(), 1);
    assert_eq!(g.dungeon().data().len(), 2);
    assert_eq!(g.dungeon().data()[1], Monster::Chest);
    assert_eq!(g.graveyard().data(), &vec![Ally::Scroll]);
    assert_eq!(g.party().selection(), Vec::<usize>::new());
    assert_eq!(g.dungeon().selection(), Vec::<usize>::new());
}

#[test]
fn clearing_the_last_monster_reaches_loot_in_one_advance() {
    let mut g = game_at(
        vec![Ally::Fighter, Ally::Cleric],
        vec![Monster::Goblin, Monster::Chest],
        vec![],
        Phase::Monster(MonsterPhase::SelectAlly),
    );
    g.next_phase();
    g.next_phase();
    g.next_phase(); // combat fells the only goblin
    assert_eq!(g.dungeon().data(), &vec![Monster::Chest]);
    assert!(!g.has_monsters());
    assert_eq!(g.phase(), Phase::Loot(LootPhase::SelectAlly));
}

#[test]
fn chest_loot_draws_a_token_and_counts_the_score() {
    let mut g = game_at(
        vec![Ally::Thief, Ally::Cleric],
        vec![Monster::Chest],
        vec![],
        Phase::Loot(LootPhase::SelectAlly),
    );
    g.next_phase();
    assert_eq!(g.phase(), Phase::Loot(LootPhase::SelectLoot));
    assert_eq!(g.current_monster(), &Monster::Chest);
    g.next_phase();
    assert_eq!(g.phase(), Phase::Loot(LootPhase::ConfirmLoot));
    g.next_phase();
    assert_eq!(g.inventory().len(), 1);
    assert_eq!(g.treasure().len(), 35);
    assert_eq!(g.dungeon().data().len(), 0);
    assert_eq!(g.graveyard().data(), &vec![Ally::Thief]);
    assert_eq!(g.run_xp(), 1);
    // nothing left to act on, no dragons: the regroup decision comes up
    assert_eq!(g.phase(), Phase::Regroup(RegroupPhase::Continue));
}

#[test]
fn graveyard_revival_returns_the_marked_members_and_spends_potions() {
    let mut g = game_at(
        vec![Ally::Fighter],
        vec![Monster::Potion, Monster::Potion, Monster::Goblin],
        vec![Ally::Cleric, Ally::Mage],
        Phase::Loot(LootPhase::SelectAlly),
    );
    g.next_phase();
    assert_eq!(g.phase(), Phase::Loot(LootPhase::SelectLoot));
    g.next_phase(); // a potion is targeted
    assert_eq!(g.phase(), Phase::Loot(LootPhase::SelectGraveyard));
    g.toggle_select(); // mark the cleric
    g.select_next();
    g.toggle_select(); // mark the mage
    assert_eq!(g.graveyard().selection().len(), 2);
    g.next_phase();
    assert_eq!(g.phase(), Phase::Loot(LootPhase::ConfirmGraveyard));
    g.next_phase();
    // both members returned (highest graveyard index first), two potions
    // left the dungeon, and the acting fighter fell
    assert_eq!(g.party().data(), &vec![Ally::Mage, Ally::Cleric]);
    assert_eq!(g.dungeon().data(), &vec![Monster::Goblin]);
    assert_eq!(g.graveyard().data(), &vec![Ally::Fighter]);
}

#[test]
fn graveyard_selection_is_capped_by_the_potion_count() {
    let mut g = game_at(
        vec![Ally::Fighter],
        vec![Monster::Potion, Monster::Goblin],
        vec![Ally::Cleric, Ally::Mage, Ally::Thief],
        Phase::Loot(LootPhase::SelectAlly),
    );
    g.next_phase();
    g.next_phase();
    assert_eq!(g.phase(), Phase::Loot(LootPhase::SelectGraveyard));
    g.toggle_select();
    g.select_next();
    g.toggle_select(); // only one potion: the second mark is refused
    assert_eq!(g.graveyard().selection().len(), 1);
}

#[test]
fn dragon_confirm_needs_exactly_three_marked_allies() {
    let mut g = game_at(
        vec![Ally::Fighter, Ally::Cleric, Ally::Mage, Ally::Thief],
        vec![Monster::Dragon, Monster::Dragon, Monster::Dragon],
        vec![],
        Phase::Dragon(DragonPhase::SelectAlly),
    );
    g.toggle_select();
    g.next_phase(); // one mark is not enough
    assert_eq!(g.phase(), Phase::Dragon(DragonPhase::SelectAlly));
    g.select_next();
    g.toggle_select();
    g.select_next();
    g.toggle_select();
    g.select_next();
    g.toggle_select(); // a fourth mark is refused by the cap of three
    assert_eq!(g.party().selection().len(), 3);
    g.next_phase();
    assert_eq!(g.phase(), Phase::Dragon(DragonPhase::Confirm));
    g.next_phase();
    // the three marked allies are sacrificed, not buried
    assert_eq!(g.party().data(), &vec![Ally::Thief]);
    assert_eq!(g.graveyard().data().len(), 0);
    assert_eq!(g.phase(), Phase::Regroup(RegroupPhase::Continue));
}

#[test]
fn the_dragon_phase_is_skipped_below_three_dragon_faces() {
    let mut g = game_at(
        vec![Ally::Champion, Ally::Cleric],
        vec![Monster::Goblin, Monster::Dragon, Monster::Dragon],
        vec![],
        Phase::Monster(MonsterPhase::SelectAlly),
    );
    g.next_phase();
    g.next_phase();
    g.next_phase(); // the champion clears the goblin
    assert_eq!(g.dungeon().data(), &vec![Monster::Dragon, Monster::Dragon]);
    // no loot, only two dragon faces: the dragon phase is skipped entirely
    assert_eq!(g.phase(), Phase::Regroup(RegroupPhase::Continue));
}

#[test]
fn retreat_right_after_advance_returns_without_resolving() {
    let mut g = game_at(
        vec![Ally::Fighter],
        vec![Monster::Goblin],
        vec![],
        Phase::Monster(MonsterPhase::SelectAlly),
    );
    g.next_phase();
    assert_eq!(g.phase(), Phase::Monster(MonsterPhase::SelectMonster));
    g.prev_phase();
    assert_eq!(g.phase(), Phase::Monster(MonsterPhase::SelectAlly));
    // no resolution action ran
    assert_eq!(g.party().data(), &vec![Ally::Fighter]);
    assert_eq!(g.dungeon().data(), &vec![Monster::Goblin]);
    assert_eq!(g.graveyard().data().len(), 0);
}

#[test]
fn retreat_from_a_confirm_step_backs_up_one_step() {
    let mut g = game_at(
        vec![Ally::Fighter],
        vec![Monster::Goblin],
        vec![],
        Phase::Monster(MonsterPhase::SelectAlly),
    );
    g.next_phase();
    g.next_phase();
    assert_eq!(g.phase(), Phase::Monster(MonsterPhase::ConfirmCombat));
    g.prev_phase();
    assert_eq!(g.phase(), Phase::Monster(MonsterPhase::SelectMonster));
}

#[test]
fn continuing_the_delve_starts_the_next_level() {
    let mut g = game_at(
        vec![Ally::Fighter],
        vec![Monster::Dragon],
        vec![],
        Phase::Regroup(RegroupPhase::Continue),
    );
    g.next_phase();
    assert_eq!(g.level(), 2);
    // the dragon die lingers and two fresh dice join it
    assert_eq!(g.dungeon().data().len(), 3);
    assert_eq!(g.dungeon().data()[0], Monster::Dragon);
}

#[test]
fn ending_the_delve_banks_experience_and_starts_over() {
    let mut g = game_at(
        vec![Ally::Fighter],
        vec![],
        vec![Ally::Cleric],
        Phase::Regroup(RegroupPhase::End),
    );
    g.next_phase();
    assert_eq!(g.delve(), 2);
    assert_eq!(g.level(), 1);
    assert_eq!(g.hero().xp(), 0); // nothing was earned in this run
    assert_eq!(g.party().data().len(), 4);
    assert_eq!(g.graveyard().data().len(), 0);
    assert_eq!(g.treasure().len(), 36);
    assert_eq!(g.inventory().len(), 0);
}

#[test]
fn scroll_ally_in_loot_without_potions_keeps_waiting() {
    let mut g = game_at(
        vec![Ally::Scroll, Ally::Fighter],
        vec![Monster::Chest],
        vec![Ally::Cleric],
        Phase::Loot(LootPhase::SelectAlly),
    );
    // a scroll cannot open chests and there are no potions to quaff
    g.next_phase();
    assert_eq!(g.phase(), Phase::Loot(LootPhase::SelectAlly));
}

#[test]
fn selected_row_follows_the_phase() {
    let g = game_at(
        vec![Ally::Fighter],
        vec![Monster::Goblin],
        vec![],
        Phase::Monster(MonsterPhase::SelectAlly),
    );
    assert_eq!(g.selected_row(), Some(Row::Party));
    let g = game_at(
        vec![Ally::Fighter],
        vec![Monster::Goblin],
        vec![],
        Phase::Monster(MonsterPhase::SelectMonster),
    );
    assert_eq!(g.selected_row(), Some(Row::Dungeon));
    let g = game_at(
        vec![Ally::Fighter],
        vec![Monster::Goblin],
        vec![],
        Phase::Loot(LootPhase::SelectGraveyard),
    );
    assert_eq!(g.selected_row(), Some(Row::Graveyard));
    let g = game_at(
        vec![Ally::Fighter],
        vec![Monster::Goblin],
        vec![],
        Phase::Victory,
    );
    assert_eq!(g.selected_row(), None);
}

#[test]
fn commands_dispatch_and_quit_reports_back() {
    let mut g = game_at(
        vec![Ally::Fighter, Ally::Cleric],
        vec![Monster::Goblin],
        vec![],
        Phase::Monster(MonsterPhase::SelectAlly),
    );
    assert!(!g.handle_command(Command::MoveNext));
    assert_eq!(g.party().cursor(0), 1);
    assert!(!g.handle_command(Command::MovePrev));
    assert_eq!(g.party().cursor(0), 0);
    assert!(!g.handle_command(Command::Confirm));
    assert_eq!(g.phase(), Phase::Monster(MonsterPhase::SelectMonster));
    assert!(!g.handle_command(Command::Cancel));
    assert_eq!(g.phase(), Phase::Monster(MonsterPhase::SelectAlly));
    assert!(g.handle_command(Command::Quit));
}

#[test]
fn regroup_navigation_switches_between_the_choices() {
    let mut g = game_at(
        vec![Ally::Fighter],
        vec![],
        vec![],
        Phase::Regroup(RegroupPhase::Continue),
    );
    assert!(!g.handle_command(Command::SwitchDown));
    assert_eq!(g.phase(), Phase::Regroup(RegroupPhase::End));
    assert!(!g.handle_command(Command::SwitchUp));
    assert_eq!(g.phase(), Phase::Regroup(RegroupPhase::Continue));
    // in the wrong phase the switches do nothing
    assert!(!g.handle_command(Command::SwitchUp));
    assert_eq!(g.phase(), Phase::Regroup(RegroupPhase::Continue));
}

#[test]
fn blink_toggles() {
    let mut g = Game::new(rng_from_seed(3), Type::Paladin);
    assert!(g.blink());
    g.toggle_blink();
    assert!(!g.blink());
    g.toggle_blink();
    assert!(g.blink());
}

/// Whether the engine may be advanced from its current phase: the collections
/// the transition reads must be non-empty.
fn advance_allowed(g: &Game) -> bool {
    match g.phase() {
        Phase::Monster(MonsterPhase::SelectAlly)
        | Phase::Monster(MonsterPhase::ConfirmReroll)
        | Phase::Loot(LootPhase::SelectAlly)
        | Phase::Loot(LootPhase::ConfirmGraveyard) => !g.party().data().is_empty(),
        Phase::Monster(MonsterPhase::ConfirmCombat) => {
            !g.party().data().is_empty() && !g.dungeon().data().is_empty()
        }
        Phase::Loot(LootPhase::SelectLoot) => {
            !g.dungeon().data().is_empty() && !g.party().data().is_empty()
        }
        Phase::Loot(LootPhase::ConfirmLoot) => {
            !g.party().data().is_empty()
                && !g.dungeon().data().is_empty()
                && !g.treasure().is_empty()
        }
        Phase::Monster(MonsterPhase::Defeat) | Phase::Dragon(DragonPhase::Defeat) => false,
        _ => true,
    }
}

/// After every advance the machine must have settled: a phase is only ever
/// presented when its entry conditions hold.
fn assert_settled(g: &Game) {
    match g.phase() {
        Phase::Setup => panic!("the setup phase never settles"),
        Phase::Monster(MonsterPhase::SelectAlly) => assert!(g.has_monsters()),
        Phase::Loot(LootPhase::SelectAlly) => {
            assert!(g.has_loot() && (!g.graveyard().data().is_empty() || g.has_chest()));
        }
        Phase::Dragon(DragonPhase::SelectAlly) => assert!(g.dragon_dice() >= 3),
        Phase::Regroup(RegroupPhase::ContinueSetup) | Phase::Regroup(RegroupPhase::EndSetup) => {
            panic!("intermediate regroup steps never settle");
        }
        _ => {}
    }
}

#[test]
fn a_seeded_run_never_presents_an_unsettled_phase() {
    for seed in [1u64, 2, 3, 99, 1234] {
        let mut g = Game::new(rng_from_seed(seed), Type::Bard);
        assert_settled(&g);
        for _ in 0..300 {
            if !advance_allowed(&g) {
                break; // an exhausted party strands the run; the front end
                       // would stop dispatching here
            }
            if g.phase() == Phase::Dragon(DragonPhase::SelectAlly)
                && g.party().selection().len() < 3
            {
                g.toggle_select();
                g.select_next();
                continue;
            }
            g.next_phase();
            assert_settled(&g);
            // cursors always address the collections they point into
            if !g.party().data().is_empty() {
                assert!(g.party().cursor(0) < g.party().data().len());
                assert!(g.party().cursor(1) < g.party().data().len());
            }
            if !g.dungeon().data().is_empty() {
                assert!(g.dungeon().cursor(0) < g.dungeon().data().len());
            }
        }
    }
}
