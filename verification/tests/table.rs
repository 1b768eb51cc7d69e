use lollipop::keys::{KEY_LEFTALT, KEY_LEFTCTRL, KEY_LEFTMETA, KEY_LEFTSHIFT};
use lollipop::{KeyEvent, KeyState, ModifierEntry, ModifierTable};

const MS: u128 = 1_000_000;
const TIMEOUT: u128 = 500 * MS;

fn entries(table: &ModifierTable) -> Vec<ModifierEntry> {
    (0..table.len()).map(|i| table.entry(i)).collect()
}

fn entry(key: u16, state: KeyState) -> ModifierEntry {
    ModifierEntry { key, state }
}

/// LSHIFT locked, LCTRL latched, LALT latched, LMETA released.
fn mixed() -> ModifierTable {
    let mut table = ModifierTable::new(&vec![KEY_LEFTSHIFT, KEY_LEFTCTRL, KEY_LEFTALT, KEY_LEFTMETA]);
    table.transition_on_press(KEY_LEFTSHIFT, 0, TIMEOUT);
    table.transition_on_press(KEY_LEFTSHIFT, 100 * MS, TIMEOUT);
    table.transition_on_press(KEY_LEFTCTRL, 200 * MS, TIMEOUT);
    table.transition_on_press(KEY_LEFTALT, 300 * MS, TIMEOUT);
    table
}

#[test]
fn new_table_holds_every_key_released_in_the_order_given() {
    let table = ModifierTable::new(&vec![KEY_LEFTSHIFT, KEY_LEFTMETA, KEY_LEFTCTRL]);
    assert_eq!(
        entries(&table),
        vec![
            entry(KEY_LEFTSHIFT, KeyState::Released),
            entry(KEY_LEFTMETA, KeyState::Released),
            entry(KEY_LEFTCTRL, KeyState::Released),
        ]
    );
    assert!(!table.any_pressed());
}

#[test]
fn key_named_twice_gets_one_entry_where_it_came_first() {
    let table = ModifierTable::new(&vec![KEY_LEFTCTRL, KEY_LEFTSHIFT, KEY_LEFTCTRL, KEY_LEFTSHIFT]);
    assert_eq!(
        entries(&table),
        vec![entry(KEY_LEFTCTRL, KeyState::Released), entry(KEY_LEFTSHIFT, KeyState::Released)]
    );
}

#[test]
fn table_of_no_keys_is_empty() {
    let mut table = ModifierTable::new(&Vec::new());
    assert_eq!(table.len(), 0);
    assert!(!table.is_modifier(KEY_LEFTSHIFT));
    assert!(!table.any_pressed());
    assert_eq!(table.clear_all(), Vec::<KeyEvent>::new());
}

#[test]
fn is_modifier_tells_the_keys_of_the_table_from_others() {
    let table = ModifierTable::new(&vec![KEY_LEFTSHIFT]);
    assert!(table.is_modifier(KEY_LEFTSHIFT));
    assert!(!table.is_modifier(KEY_LEFTCTRL));
}

#[test]
fn press_changes_the_entry_of_the_key_and_no_other() {
    let mut table = ModifierTable::new(&vec![KEY_LEFTSHIFT, KEY_LEFTCTRL]);
    table.transition_on_press(KEY_LEFTCTRL, 9 * MS, TIMEOUT);
    assert_eq!(
        entries(&table),
        vec![entry(KEY_LEFTSHIFT, KeyState::Released), entry(KEY_LEFTCTRL, KeyState::Latched(9 * MS))]
    );
    assert_eq!(table.state(KEY_LEFTCTRL), KeyState::Latched(9 * MS));
    assert_eq!(table.current_pressed_state(KEY_LEFTCTRL), 1);
    assert_eq!(table.current_pressed_state(KEY_LEFTSHIFT), 0);
}

#[test]
fn press_of_a_key_outside_the_table_changes_nothing() {
    let mut table = mixed();
    let before = entries(&table);
    table.transition_on_press(30, 400 * MS, TIMEOUT);
    assert_eq!(entries(&table), before);
    assert_eq!(table.state(30), KeyState::Released);
    assert_eq!(table.current_pressed_state(30), 0);
}

#[test]
fn release_all_latched_lets_go_of_latched_keys_in_table_order() {
    let mut table = mixed();
    let events = table.release_all_latched();
    assert_eq!(events, vec![KeyEvent::new(KEY_LEFTCTRL, 0), KeyEvent::new(KEY_LEFTALT, 0)]);
    assert_eq!(
        entries(&table),
        vec![
            entry(KEY_LEFTSHIFT, KeyState::Locked),
            entry(KEY_LEFTCTRL, KeyState::Released),
            entry(KEY_LEFTALT, KeyState::Released),
            entry(KEY_LEFTMETA, KeyState::Released),
        ]
    );
    assert!(table.any_pressed());
}

#[test]
fn release_all_latched_without_a_latch_is_a_no_op() {
    let mut table = ModifierTable::new(&vec![KEY_LEFTSHIFT, KEY_LEFTCTRL]);
    table.transition_on_press(KEY_LEFTSHIFT, 0, TIMEOUT);
    table.transition_on_press(KEY_LEFTSHIFT, 1, TIMEOUT);
    let before = entries(&table);
    assert_eq!(table.release_all_latched(), Vec::<KeyEvent>::new());
    assert_eq!(entries(&table), before);
}

#[test]
fn clear_all_lets_go_of_latched_and_locked_keys_in_table_order() {
    let mut table = mixed();
    let events = table.clear_all();
    assert_eq!(
        events,
        vec![
            KeyEvent::new(KEY_LEFTSHIFT, 0),
            KeyEvent::new(KEY_LEFTCTRL, 0),
            KeyEvent::new(KEY_LEFTALT, 0),
        ]
    );
    assert!(entries(&table).iter().all(|e| e.state == KeyState::Released));
    assert!(!table.any_pressed());
}

#[test]
fn clear_all_twice_is_clear_all_once() {
    let mut table = mixed();
    table.clear_all();
    let once = entries(&table);
    assert_eq!(table.clear_all(), Vec::<KeyEvent>::new());
    assert_eq!(entries(&table), once);
}

#[test]
fn any_pressed_sees_latched_and_locked_keys() {
    let mut table = ModifierTable::new(&vec![KEY_LEFTSHIFT, KEY_LEFTCTRL]);
    assert!(!table.any_pressed());
    table.transition_on_press(KEY_LEFTCTRL, 0, TIMEOUT);
    assert!(table.any_pressed());
    table.transition_on_press(KEY_LEFTCTRL, 1, TIMEOUT);
    assert!(table.any_pressed());
    table.transition_on_press(KEY_LEFTCTRL, 2, TIMEOUT);
    assert!(!table.any_pressed());
}

#[test]
fn keys_never_change_whatever_is_done_to_the_table() {
    let mut table = mixed();
    let keys: Vec<u16> = entries(&table).iter().map(|e| e.key).collect();
    table.release_all_latched();
    table.transition_on_press(KEY_LEFTMETA, 600 * MS, TIMEOUT);
    table.clear_all();
    table.transition_on_press(77, 700 * MS, TIMEOUT);
    let after: Vec<u16> = entries(&table).iter().map(|e| e.key).collect();
    assert_eq!(after, keys);
}
