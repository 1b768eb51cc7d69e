//! What holds of the engine whatever it is fed.

use crate::engine::InternalStateView;
use crate::key_state::KeyState;
use crate::keys::{KeyEvent, KEY_ESC, PRESS};
use crate::table::{
    any_held, any_latched, distinct_keys, has_key, keys_of, lemma_nothing_to_release, let_go,
    releases, state_of, with_press, ModifierEntry,
};
use crate::touchpad::{TouchpadView, COORDINATE_EMPTY};
use vstd::prelude::*;

verus! {

/// A modifier is in exactly one of its three states.
pub proof fn lemma_exactly_one_state(state: KeyState)
    ensures
        state is Released || state is Latched || state is Locked,
        !(state is Released && state is Latched),
        !(state is Released && state is Locked),
        !(state is Latched && state is Locked),
        state.is_pressed() <==> !(state is Released),
{
}

/// A second press exactly `timeout` after the one that latched clears: only
/// a strictly earlier one locks.
pub proof fn lemma_press_at_timeout_clears(latched_at: u128, timeout: u128)
    requires
        latched_at + timeout <= u128::MAX,
    ensures
        KeyState::Latched(latched_at).after_press((latched_at + timeout) as u128, timeout)
            == KeyState::Released,
        forall|time: u128|
            latched_at <= time < latched_at + timeout ==> KeyState::Latched(latched_at).after_press(
                time,
                timeout,
            ) == KeyState::Locked,
{
}

/// A second press stamped earlier than the one that latched clears.
pub proof fn lemma_press_from_the_past_clears(latched_at: u128, time: u128, timeout: u128)
    requires
        time < latched_at,
    ensures
        KeyState::Latched(latched_at).after_press(time, timeout) == KeyState::Released,
{
}

/// The press that leaves `Latched` or `Locked` never latches again.
pub proof fn lemma_press_never_relatches(state: KeyState, time: u128, timeout: u128)
    requires
        !(state is Released),
    ensures
        !(state.after_press(time, timeout) is Latched),
{
}

/// No step of the engine adds, drops or reorders a modifier.
pub proof fn lemma_keys_are_fixed(
    state: InternalStateView,
    kind: u16,
    code: u16,
    value: i32,
    time: u128,
)
    ensures
        keys_of(state.after_key(code, value, time).modifiers) == keys_of(state.modifiers),
        keys_of(state.after_keyboard_event(kind, code, value, time).modifiers) == keys_of(
            state.modifiers,
        ),
        keys_of(state.after_touch(value, time).modifiers) == keys_of(state.modifiers),
        keys_of(state.after_touchpad_event(kind, code, value, time).modifiers) == keys_of(
            state.modifiers,
        ),
        keys_of(state.after_release_latched().modifiers) == keys_of(state.modifiers),
        state.after_poll(time).modifiers == state.modifiers,
        forall|axis: int| (#[trigger] state.after_motion(axis, value)).modifiers == state.modifiers,
{
    let entries = state.modifiers;
    assert(keys_of(let_go(entries, true)) =~= keys_of(entries));
    assert(keys_of(let_go(entries, false)) =~= keys_of(entries));
    assert(keys_of(with_press(entries, code, time, state.timeout)) =~= keys_of(entries));
}

/// Every step of the engine leaves a well-formed state well formed.
pub proof fn lemma_steps_keep_well_formed(
    state: InternalStateView,
    kind: u16,
    code: u16,
    value: i32,
    time: u128,
)
    requires
        state.wf(),
    ensures
        state.after_key(code, value, time).wf(),
        state.after_keyboard_event(kind, code, value, time).wf(),
        state.after_touch(value, time).wf(),
        state.after_touchpad_event(kind, code, value, time).wf(),
        state.after_release_latched().wf(),
        state.after_poll(time).wf(),
        forall|axis: int| 0 <= axis < 2 ==> (#[trigger] state.after_motion(axis, value)).wf(),
{
    let entries = state.modifiers;
    assert(distinct_keys(let_go(entries, true))) by {
        assert forall|i: int, j: int| 0 <= i < j < entries.len() implies (#[trigger] let_go(
            entries,
            true,
        )[i]).key != (#[trigger] let_go(entries, true)[j]).key by {
            assert(entries[i].key != entries[j].key);
        }
    }
    assert(distinct_keys(let_go(entries, false))) by {
        assert forall|i: int, j: int| 0 <= i < j < entries.len() implies (#[trigger] let_go(
            entries,
            false,
        )[i]).key != (#[trigger] let_go(entries, false)[j]).key by {
            assert(entries[i].key != entries[j].key);
        }
    }
    let pressed = with_press(entries, code, time, state.timeout);
    assert(distinct_keys(pressed)) by {
        assert forall|i: int, j: int| 0 <= i < j < entries.len() implies (#[trigger] pressed[i]).key
            != (#[trigger] pressed[j]).key by {
            assert(entries[i].key != entries[j].key);
        }
    }
}

/// An event of a modifier is answered with one event for that key, whose
/// value is 1 if the modifier is latched or locked afterwards and 0 if it is
/// released.
pub proof fn lemma_modifier_event_reports_state(
    state: InternalStateView,
    key: u16,
    pressed: i32,
    time: u128,
)
    requires
        has_key(state.modifiers, key),
        !state.clears(key, pressed),
    ensures
        state.key_output(key, pressed, time).len() == 1,
        state.key_output(key, pressed, time)[0].code == key,
        state.key_output(key, pressed, time)[0].value == 1 <==> state_of(
            state.after_key(key, pressed, time).modifiers,
            key,
        ).is_pressed(),
        state.key_output(key, pressed, time)[0].value == 0 <==> state_of(
            state.after_key(key, pressed, time).modifiers,
            key,
        ) is Released,
        pressed != PRESS ==> state.after_key(key, pressed, time) == state,
{
}

/// After an event of a key that is no modifier, no modifier is latched.
pub proof fn lemma_ordinary_key_ends_latches(
    state: InternalStateView,
    key: u16,
    pressed: i32,
    time: u128,
)
    requires
        !has_key(state.modifiers, key),
    ensures
        !any_latched(state.after_key(key, pressed, time).modifiers),
{
    let after = state.after_key(key, pressed, time).modifiers;
    if any_latched(after) {
        let i = choose|i: int| 0 <= i < after.len() && (#[trigger] after[i]).state is Latched;
        assert(after[i] == let_go(state.modifiers, state.clears(key, pressed) == false)[i]);
    }
}

/// An event of a key that is no modifier, unless it is the escape press that
/// clears, is passed on unchanged and first.
pub proof fn lemma_ordinary_key_comes_first(
    state: InternalStateView,
    key: u16,
    pressed: i32,
    time: u128,
)
    requires
        !has_key(state.modifiers, key),
        !state.clears(key, pressed),
    ensures
        state.key_output(key, pressed, time).len() >= 1,
        state.key_output(key, pressed, time)[0] == (KeyEvent { code: key, value: pressed }),
        state.key_output(key, pressed, time).skip(1) == releases(state.modifiers, true),
{
    let head = seq![KeyEvent { code: key, value: pressed }];
    assert((head + releases(state.modifiers, true)).skip(1) =~= releases(state.modifiers, true));
}

/// The escape press that clears is swallowed: what is sent is the releases
/// of the held modifiers, and afterwards none is held.
pub proof fn lemma_escape_clears(state: InternalStateView, time: u128)
    requires
        state.clear_all_with_escape,
    ensures
        state.key_output(KEY_ESC, PRESS, time) == releases(state.modifiers, false),
        !any_held(state.after_key(KEY_ESC, PRESS, time).modifiers),
{
    let after = state.after_key(KEY_ESC, PRESS, time).modifiers;
    if any_held(after) {
        let i = choose|i: int| 0 <= i < after.len() && (#[trigger] after[i]).state.is_pressed();
        assert(after[i] == let_go(state.modifiers, false)[i]);
    }
}

/// A locked modifier stays locked through a key event, unless the event is a
/// press of that modifier or the escape press that clears.
pub proof fn lemma_lock_survives_keys(
    state: InternalStateView,
    at: int,
    key: u16,
    pressed: i32,
    time: u128,
)
    requires
        0 <= at < state.modifiers.len(),
        state.modifiers[at].state is Locked,
    ensures
        state.after_key(key, pressed, time).modifiers[at].state is Locked || (pressed == PRESS && (
        key == state.modifiers[at].key || state.clears(key, pressed))),
{
}

/// A locked modifier stays locked through every event of the touchpad, every
/// release of the latched modifiers and every poll for staged events.
pub proof fn lemma_lock_survives_touchpad(
    state: InternalStateView,
    at: int,
    kind: u16,
    code: u16,
    value: i32,
    time: u128,
)
    requires
        0 <= at < state.modifiers.len(),
        state.modifiers[at].state is Locked,
    ensures
        state.after_touch(value, time).modifiers[at].state is Locked,
        state.after_touchpad_event(kind, code, value, time).modifiers[at].state is Locked,
        state.after_release_latched().modifiers[at].state is Locked,
        state.after_poll(time).modifiers[at].state is Locked,
        forall|axis: int| (#[trigger] state.after_motion(axis, value)).modifiers[at].state is Locked,
{
}

/// The indicator light is on exactly while a modifier is held.
pub proof fn lemma_led_shows_held(state: InternalStateView)
    ensures
        state.led() != 0 <==> any_held(state.modifiers),
{
}

/// Clearing twice is clearing once: the second time nothing changes and
/// nothing is sent.
pub proof fn lemma_clear_all_twice(entries: Seq<ModifierEntry>)
    ensures
        let_go(let_go(entries, false), false) == let_go(entries, false),
        releases(let_go(entries, false), false) == Seq::<KeyEvent>::empty(),
{
    let cleared = let_go(entries, false);
    assert forall|i: int| 0 <= i < cleared.len() implies (#[trigger] cleared[i]).state
        == KeyState::Released by {}
    lemma_nothing_to_release(cleared, false);
}

/// Where no modifier is latched, releasing the latched ones changes nothing
/// and sends nothing.
pub proof fn lemma_release_without_latch(entries: Seq<ModifierEntry>)
    requires
        !any_latched(entries),
    ensures
        let_go(entries, true) == entries,
        releases(entries, true) == Seq::<KeyEvent>::empty(),
{
    lemma_nothing_to_release(entries, true);
}

/// A touch that has moved exactly as far as the fuzz is no drag; one that
/// has moved further is.
pub proof fn lemma_fuzz_is_strict(touchpad: TouchpadView, axis: int, at: i32)
    requires
        0 <= axis < 2,
        touchpad.origin.len() == 2,
        !touchpad.dragging,
        touchpad.origin[axis] != COORDINATE_EMPTY,
    ensures
        touchpad.moved(axis, at).dragging <==> (touchpad.origin[axis] - at > touchpad.fuzz || at
            - touchpad.origin[axis] > touchpad.fuzz),
        (touchpad.origin[axis] - at == touchpad.fuzz || at - touchpad.origin[axis]
            == touchpad.fuzz) ==> touchpad.moved(axis, at) == touchpad,
{
}

/// Once a touch is a drag, its end stages nothing and lets go of nothing.
pub proof fn lemma_drag_releases_nothing(state: InternalStateView, now: u128)
    requires
        state.touchpad.dragging,
    ensures
        state.after_touch(0, now).modifiers == state.modifiers,
        state.after_touch(0, now).touchpad.pending == state.touchpad.pending,
        state.after_touch(0, now).touchpad.last_release == state.touchpad.last_release,
        !state.after_touch(0, now).touchpad.dragging,
{
}

/// Staged events are handed out strictly after the debounce time, once, and
/// the wait that the engine names is the time until then.
pub proof fn lemma_wait_ends_when_due(touchpad: TouchpadView, now: u128, debounce: u128)
    requires
        touchpad.wf(),
    ensures
        match touchpad.wait(now, debounce) {
            Some(time) => {
                &&& time >= 0
                &&& time == 0 <==> touchpad.due(now, debounce)
                &&& forall|later: u128| now <= later < now + time ==> !touchpad.due(later, debounce)
                &&& forall|later: u128| later >= now + time ==> touchpad.due(later, debounce)
            },
            None => forall|later: u128|
                (#[trigger] touchpad.handed_out(later, debounce)) == Seq::<KeyEvent>::empty(),
        },
        touchpad.polled(now, debounce).handed_out(now, debounce) == Seq::<KeyEvent>::empty(),
        touchpad.due(now, debounce) ==> touchpad.polled(now, debounce).wait(now, debounce) is None,
{
    if touchpad.wait(now, debounce) is None {
        assert forall|later: u128|
            (#[trigger] touchpad.handed_out(later, debounce)) == Seq::<KeyEvent>::empty() by {
            if touchpad.due(later, debounce) {
                assert(touchpad.pending =~= Seq::<KeyEvent>::empty());
            }
        }
    }
}

} // verus!
