use lollipop::KeyState;

const MS: u128 = 1_000_000;

#[test]
fn first_press_latches_with_the_time_of_the_press() {
    let mut state = KeyState::Released;
    state.transition(7 * MS, 500 * MS);
    assert_eq!(state, KeyState::Latched(7 * MS));
}

#[test]
fn quick_second_press_locks() {
    let mut state = KeyState::Latched(0);
    state.transition(100 * MS, 500 * MS);
    assert_eq!(state, KeyState::Locked);
}

#[test]
fn second_press_one_nanosecond_before_the_timeout_locks() {
    let mut state = KeyState::Latched(40 * MS);
    state.transition(540 * MS - 1, 500 * MS);
    assert_eq!(state, KeyState::Locked);
}

#[test]
fn second_press_exactly_at_the_timeout_clears() {
    let mut state = KeyState::Latched(40 * MS);
    state.transition(540 * MS, 500 * MS);
    assert_eq!(state, KeyState::Released);
}

#[test]
fn slow_second_press_clears_and_does_not_latch_again() {
    let mut state = KeyState::Released;
    state.transition(0, 500 * MS);
    assert_eq!(state, KeyState::Latched(0));
    state.transition(600 * MS, 500 * MS);
    assert_eq!(state, KeyState::Released);
}

#[test]
fn press_stamped_before_the_latch_clears() {
    let mut state = KeyState::Latched(1000 * MS);
    state.transition(999 * MS, 500 * MS);
    assert_eq!(state, KeyState::Released);
}

#[test]
fn press_at_the_same_instant_locks_unless_the_timeout_is_zero() {
    let mut state = KeyState::Latched(5);
    state.transition(5, 1);
    assert_eq!(state, KeyState::Locked);
    let mut state = KeyState::Latched(5);
    state.transition(5, 0);
    assert_eq!(state, KeyState::Released);
}

#[test]
fn press_of_a_locked_key_clears() {
    let mut state = KeyState::Locked;
    state.transition(3, 500 * MS);
    assert_eq!(state, KeyState::Released);
}

#[test]
fn three_taps_latch_lock_clear() {
    let mut state = KeyState::Released;
    state.transition(0, 500 * MS);
    state.transition(100 * MS, 500 * MS);
    assert_eq!(state, KeyState::Locked);
    state.transition(200 * MS, 500 * MS);
    assert_eq!(state, KeyState::Released);
}

#[test]
fn times_at_the_end_of_the_range_do_not_overflow() {
    let mut state = KeyState::Latched(0);
    state.transition(u128::MAX, u128::MAX);
    assert_eq!(state, KeyState::Released);
    let mut state = KeyState::Latched(1);
    state.transition(u128::MAX, u128::MAX);
    assert_eq!(state, KeyState::Locked);
}

#[test]
fn pressed_state_is_one_exactly_while_held() {
    assert_eq!(KeyState::Released.pressed_state(), 0);
    assert_eq!(KeyState::Latched(12).pressed_state(), 1);
    assert_eq!(KeyState::Locked.pressed_state(), 1);
}
