//! The constrained multi-cursor container, exercised over concrete data.

use dungeon_dice::dice::{Ally, Monster};
use dungeon_dice::game::{Cursor, Rule, indexes_of};

#[test]
fn canonicalize_lands_every_cursor_on_a_legal_index() {
    // index 0 fails both rules; the repair pass must move both cursors
    let c: Cursor<Monster> = Cursor::new(
        vec![Monster::Dragon, Monster::Goblin],
        vec![Rule::Hostile, Rule::NotDragon],
    );
    assert_eq!(c.cursor(0), 1);
    assert_eq!(c.cursor(1), 1);
}

#[test]
fn canonicalize_prefers_keeping_a_legal_cursor() {
    let c: Cursor<Monster> = Cursor::new(
        vec![Monster::Goblin, Monster::Skeleton],
        vec![Rule::Hostile],
    );
    assert_eq!(c.cursor(0), 0);
}

#[test]
fn advance_skips_illegal_indices_and_stops_at_the_boundary() {
    let mut c: Cursor<Monster> = Cursor::new(
        vec![Monster::Goblin, Monster::Chest, Monster::Skeleton],
        vec![Rule::Hostile],
    );
    assert_eq!(c.cursor(0), 0);
    c.next(0);
    assert_eq!(c.cursor(0), 2); // the chest is skipped
    c.next(0);
    assert_eq!(c.cursor(0), 2); // no-op at the legal boundary
    c.prev(0);
    assert_eq!(c.cursor(0), 0);
    c.prev(0);
    assert_eq!(c.cursor(0), 0); // no-op at the legal boundary
}

#[test]
fn off_primary_cursor_never_meets_the_primary() {
    let mut c: Cursor<Ally> = Cursor::new(
        vec![Ally::Fighter, Ally::Cleric, Ally::Mage],
        vec![Rule::Any, Rule::OffPrimary],
    );
    // both start at 0; the secondary is repaired away from the primary
    assert_eq!(c.cursor(0), 0);
    assert_eq!(c.cursor(1), 1);
    c.prev(1);
    assert_eq!(c.cursor(1), 1); // index 0 is the primary's position
    c.next(1);
    assert_eq!(c.cursor(1), 2);
}

#[test]
fn toggle_select_respects_the_cap_and_removal_always_succeeds() {
    let mut c: Cursor<Monster> = Cursor::new(
        vec![Monster::Goblin, Monster::Skeleton, Monster::Ooze],
        vec![Rule::Any],
    );
    c.set_selection_limit(2);
    c.toggle_select(0);
    c.next(0);
    c.toggle_select(0);
    c.next(0);
    c.toggle_select(0); // at the cap: refused
    assert_eq!(c.selection().len(), 2);
    assert!(c.is_selected(0));
    assert!(c.is_selected(1));
    assert!(!c.is_selected(2));
    // removal from the selection always succeeds
    c.prev(0);
    c.toggle_select(0);
    assert_eq!(c.selection().len(), 1);
    assert!(!c.is_selected(1));
}

#[test]
fn unlimited_selection_accepts_everything() {
    let mut c: Cursor<Monster> = Cursor::new(
        vec![Monster::Goblin, Monster::Skeleton],
        vec![Rule::Any],
    );
    c.toggle_select(0);
    c.next(0);
    c.toggle_select(0);
    assert_eq!(c.selection(), vec![0, 1]);
}

#[test]
fn set_value_leaves_the_cursor_alone_until_the_next_repair() {
    let mut c: Cursor<Monster> = Cursor::new(
        vec![Monster::Goblin, Monster::Skeleton],
        vec![Rule::Hostile],
    );
    c.set_value(0, Monster::Chest);
    assert_eq!(c.cursor(0), 0); // now on an illegal item, by design
    c.set_invariants(vec![Rule::Hostile]);
    assert_eq!(c.cursor(0), 1); // the rule swap repaired it
}

#[test]
fn remove_repairs_out_of_range_cursors() {
    let mut c: Cursor<Monster> = Cursor::new(
        vec![Monster::Goblin, Monster::Skeleton],
        vec![Rule::Hostile],
    );
    c.next(0);
    assert_eq!(c.cursor(0), 1);
    let gone = c.remove(1);
    assert_eq!(gone, Monster::Skeleton);
    assert_eq!(c.cursor(0), 0);
    assert_eq!(c.data(), &vec![Monster::Goblin]);
}

#[test]
fn push_on_an_empty_container_seats_the_cursors() {
    let mut c: Cursor<Monster> = Cursor::new(Vec::new(), vec![Rule::Any]);
    c.push(Monster::Potion);
    assert_eq!(c.cursor(0), 0);
    assert_eq!(c.value(0), &Monster::Potion);
}

#[test]
fn retain_keeps_or_drops_matching_items() {
    let mut c: Cursor<Monster> = Cursor::new(
        vec![Monster::Goblin, Monster::Dragon, Monster::Goblin, Monster::Chest],
        vec![Rule::Any],
    );
    c.retain(&Monster::Goblin, false);
    assert_eq!(c.data(), &vec![Monster::Dragon, Monster::Chest]);
    c.retain(&Monster::Dragon, true);
    assert_eq!(c.data(), &vec![Monster::Dragon]);
}

#[test]
fn replacing_data_prunes_selection_marks_off_the_end() {
    let mut c: Cursor<Monster> = Cursor::new(
        vec![Monster::Goblin, Monster::Skeleton, Monster::Ooze],
        vec![Rule::Any],
    );
    c.next(0);
    c.next(0);
    c.toggle_select(0); // mark index 2
    c.set_data(vec![Monster::Goblin]);
    assert_eq!(c.selection(), Vec::<usize>::new());
    assert_eq!(c.cursor(0), 0);
}

#[test]
fn indexes_of_finds_every_occurrence() {
    let items = vec![Monster::Goblin, Monster::Chest, Monster::Goblin, Monster::Potion];
    assert_eq!(indexes_of(&items, &Monster::Goblin), vec![0, 2]);
    assert_eq!(indexes_of(&items, &Monster::Dragon), Vec::<usize>::new());
}

#[test]
fn value_returns_the_item_under_each_cursor() {
    let c: Cursor<Monster> = Cursor::new(
        vec![Monster::Chest, Monster::Goblin],
        vec![Rule::Hostile, Rule::Any],
    );
    assert_eq!(c.value(0), &Monster::Goblin);
    assert_eq!(c.value(1), &Monster::Chest);
}

#[test]
fn marks_in_range_survive_removals_and_shift_meaning() {
    let mut c: Cursor<Monster> = Cursor::new(
        vec![Monster::Goblin, Monster::Skeleton, Monster::Ooze],
        vec![Rule::Any],
    );
    c.next(0);
    c.toggle_select(0); // mark index 1
    let _ = c.remove(2);
    assert_eq!(c.selection(), vec![1]); // still in range: kept as an index
    let _ = c.remove(0);
    assert_eq!(c.selection(), Vec::<usize>::new()); // now off the end: dropped
}

#[test]
fn lifting_the_cap_allows_further_marks() {
    let mut c: Cursor<Monster> = Cursor::new(
        vec![Monster::Goblin, Monster::Skeleton],
        vec![Rule::Any],
    );
    c.set_selection_limit(1);
    c.toggle_select(0);
    c.next(0);
    c.toggle_select(0); // refused at the cap
    assert_eq!(c.selection().len(), 1);
    c.set_selection_limit(0); // zero lifts the cap
    c.toggle_select(0);
    assert_eq!(c.selection().len(), 2);
}

#[test]
fn clear_selection_empties_the_marks() {
    let mut c: Cursor<Monster> = Cursor::new(vec![Monster::Goblin], vec![Rule::Any]);
    c.toggle_select(0);
    assert!(c.is_selected(0));
    c.clear_selection();
    assert!(!c.is_selected(0));
    assert_eq!(c.selection().len(), 0);
}
