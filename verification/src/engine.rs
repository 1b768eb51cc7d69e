//! The engine: what the virtual keyboard is sent for each event of the real
//! keyboard and of the touchpad, and what becomes of the modifiers.

use crate::config::{Config, ConfigView};
use crate::keys::{
    KeyEvent, ABS_X, ABS_Y, BTN_LEFT, BTN_RIGHT, BTN_TOUCH, EV_ABS, EV_KEY, KEY_ESC, PRESS,
};
use crate::laws::{
    lemma_modifier_event_reports_state, lemma_ordinary_key_comes_first,
    lemma_ordinary_key_ends_latches,
};
use crate::table::{
    any_held, any_latched, distinct_keys, fresh, has_key, let_go, releases, state_of, with_press,
    ModifierEntry, ModifierTable,
};
use crate::touchpad::{Touchpad, TouchpadView};
use vstd::prelude::*;

verus! {

/// Nanoseconds in a millisecond.
pub const NANOS_PER_MILLI: u128 = 1_000_000;

/// The value of a touch event that reports the end of a touch.
pub const TOUCH_RELEASED: i32 = 0;

/// The value of a touch event that reports the start of a touch.
pub const TOUCH_HELD: i32 = 1;

/// The state of the engine: the modifiers, the touchpad, and the settings
/// that events are judged by. Times are nanoseconds.
#[derive(Debug)]
pub struct InternalState {
    modifiers: ModifierTable,
    timeout: u128,
    clear_all_with_escape: bool,
    touchpad: Touchpad,
    touchpad_enabled: bool,
    touchpad_timeout: u128,
}

/// An [`InternalState`] as contracts see it.
pub struct InternalStateView {
    /// The modifiers and their states, in the order of the table.
    pub modifiers: Seq<ModifierEntry>,
    /// How long after a first tap a second one still locks.
    pub timeout: u128,
    /// Whether pressing escape lets go of every modifier.
    pub clear_all_with_escape: bool,
    /// The touchpad.
    pub touchpad: TouchpadView,
    /// Whether events of the touchpad are listened to.
    pub touchpad_enabled: bool,
    /// How long after a tap the staged events are held back.
    pub touchpad_timeout: u128,
}

impl InternalStateView {
    /// Well formed: no modifier occurs twice, and the touchpad is well formed.
    pub open spec fn wf(self) -> bool {
        distinct_keys(self.modifiers) && self.touchpad.wf()
    }

    /// The state that the daemon starts in under `config`.
    pub open spec fn initial(config: ConfigView) -> InternalStateView {
        InternalStateView {
            modifiers: fresh(config.modifiers),
            timeout: (config.timeout * NANOS_PER_MILLI) as u128,
            clear_all_with_escape: config.clear_all_with_escape,
            touchpad: TouchpadView::idle(config.touchpad_fuzz),
            touchpad_enabled: config.touchpad,
            touchpad_timeout: (config.touchpad_timeout * NANOS_PER_MILLI) as u128,
        }
    }

    /// Whether the key event is the escape press that lets go of everything.
    pub open spec fn clears(self, key: u16, pressed: i32) -> bool {
        self.clear_all_with_escape && key == KEY_ESC && pressed == PRESS
    }

    /// The modifiers after the key event `(key, pressed)` at `time`.
    pub open spec fn modifiers_after_key(self, key: u16, pressed: i32, time: u128) -> Seq<
        ModifierEntry,
    > {
        if self.clears(key, pressed) {
            let_go(self.modifiers, false)
        } else if has_key(self.modifiers, key) {
            if pressed == PRESS {
                with_press(self.modifiers, key, time, self.timeout)
            } else {
                self.modifiers
            }
        } else {
            let_go(self.modifiers, true)
        }
    }

    /// The state after the key event `(key, pressed)` at `time`.
    pub open spec fn after_key(self, key: u16, pressed: i32, time: u128) -> InternalStateView {
        InternalStateView { modifiers: self.modifiers_after_key(key, pressed, time), ..self }
    }

    /// What the virtual keyboard is sent for the key event `(key, pressed)`
    /// at `time`.
    ///
    /// The escape press that clears is swallowed and answered with the
    /// releases of all held modifiers. An event of a modifier is replaced by
    /// one that reports whether the modifier is held. Any other event is
    /// passed on, followed by the releases of the latched modifiers.
    pub open spec fn key_output(self, key: u16, pressed: i32, time: u128) -> Seq<KeyEvent> {
        if self.clears(key, pressed) {
            releases(self.modifiers, false)
        } else if has_key(self.modifiers, key) {
            seq![
                KeyEvent {
                    code: key,
                    value: state_of(self.modifiers_after_key(key, pressed, time), key).pressed_value(),
                },
            ]
        } else {
            seq![KeyEvent { code: key, value: pressed }] + releases(self.modifiers, true)
        }
    }

    /// The state after an event of the keyboard, given by its type, code and
    /// value: only key events count.
    pub open spec fn after_keyboard_event(
        self,
        kind: u16,
        code: u16,
        value: i32,
        time: u128,
    ) -> InternalStateView {
        if kind == EV_KEY {
            self.after_key(code, value, time)
        } else {
            self
        }
    }

    /// The state after the latched modifiers were let go of.
    pub open spec fn after_release_latched(self) -> InternalStateView {
        InternalStateView { modifiers: let_go(self.modifiers, true), ..self }
    }

    /// The state after the touchpad reported `touch` at `now`: 1 as a touch
    /// begins, 0 as it ends. The end of a tap lets go of the latched modifiers
    /// and stages their releases.
    pub open spec fn after_touch(self, touch: i32, now: u128) -> InternalStateView {
        if touch == TOUCH_HELD {
            InternalStateView { touchpad: self.touchpad.pressed(), ..self }
        } else if touch == TOUCH_RELEASED {
            if self.touchpad.dragging {
                InternalStateView {
                    touchpad: self.touchpad.released(now, Seq::empty()),
                    ..self
                }
            } else {
                InternalStateView {
                    modifiers: let_go(self.modifiers, true),
                    touchpad: self.touchpad.released(now, releases(self.modifiers, true)),
                    ..self
                }
            }
        } else {
            self
        }
    }

    /// The state after the touchpad reported the position `coordinate` on
    /// `axis`.
    pub open spec fn after_motion(self, axis: int, coordinate: i32) -> InternalStateView {
        InternalStateView { touchpad: self.touchpad.moved(axis, coordinate), ..self }
    }

    /// Whether an event of the touchpad with this type and code reports a
    /// touch or a button.
    pub open spec fn is_touch(kind: u16, code: u16) -> bool {
        kind == EV_KEY && (code == BTN_LEFT || code == BTN_RIGHT || code == BTN_TOUCH)
    }

    /// Whether an event of the touchpad with this type and code reports a
    /// position.
    pub open spec fn is_motion(kind: u16, code: u16) -> bool {
        kind == EV_ABS && (code == ABS_X || code == ABS_Y)
    }

    /// The state after an event of the touchpad, given by its type, code and
    /// value. Nothing changes while the touchpad is not listened to.
    pub open spec fn after_touchpad_event(
        self,
        kind: u16,
        code: u16,
        value: i32,
        now: u128,
    ) -> InternalStateView {
        if !self.touchpad_enabled {
            self
        } else if Self::is_touch(kind, code) {
            self.after_touch(value, now)
        } else if Self::is_motion(kind, code) {
            self.after_motion(code as int, value)
        } else {
            self
        }
    }

    /// The state after the staged events were asked for at `now`.
    pub open spec fn after_poll(self, now: u128) -> InternalStateView {
        InternalStateView { touchpad: self.touchpad.polled(now, self.touchpad_timeout), ..self }
    }

    /// What asking for the staged events at `now` hands out.
    pub open spec fn poll_output(self, now: u128) -> Seq<KeyEvent> {
        self.touchpad.handed_out(now, self.touchpad_timeout)
    }

    /// What the indicator light is set to: the largest `i32` while any
    /// modifier is held, 0 otherwise.
    pub open spec fn led(self) -> i32 {
        if any_held(self.modifiers) {
            i32::MAX
        } else {
            0
        }
    }
}

impl View for InternalState {
    type V = InternalStateView;

    closed spec fn view(&self) -> InternalStateView {
        InternalStateView {
            modifiers: self.modifiers@,
            timeout: self.timeout,
            clear_all_with_escape: self.clear_all_with_escape,
            touchpad: self.touchpad@,
            touchpad_enabled: self.touchpad_enabled,
            touchpad_timeout: self.touchpad_timeout,
        }
    }
}

impl InternalState {
    /// The state that the daemon starts in under `config`: every modifier
    /// released, the touchpad untouched.
    pub fn new(config: &Config) -> (state: InternalState)
        ensures
            state@ == InternalStateView::initial(config@),
            state@.wf(),
    {
        InternalState {
            modifiers: ModifierTable::new(&config.modifiers),
            timeout: config.timeout as u128 * NANOS_PER_MILLI,
            clear_all_with_escape: config.clear_all_with_escape,
            touchpad: Touchpad::new(config.touchpad_fuzz),
            touchpad_enabled: config.touchpad,
            touchpad_timeout: config.touchpad_timeout as u128 * NANOS_PER_MILLI,
        }
    }

    /// The modifiers and their states.
    pub fn modifiers(&self) -> (table: &ModifierTable)
        ensures
            table@ == self@.modifiers,
    {
        &self.modifiers
    }

    /// The touchpad.
    pub fn touchpad(&self) -> (touchpad: &Touchpad)
        ensures
            touchpad@ == self@.touchpad,
    {
        &self.touchpad
    }

    /// Lets go of the latched modifiers and returns a release event for each,
    /// in the order of the table.
    pub fn release_latched(&mut self) -> (events: Vec<KeyEvent>)
        ensures
            final(self)@ == old(self)@.after_release_latched(),
            events@ == releases(old(self)@.modifiers, true),
            !any_latched(final(self)@.modifiers),
            old(self)@.wf() ==> final(self)@.wf(),
    {
        self.modifiers.release_all_latched()
    }

    /// Takes the key event `(key, pressed)` of the keyboard, stamped
    /// `timestamp`, and returns what the virtual keyboard is to be sent.
    pub fn transition(&mut self, key: u16, pressed: i32, timestamp: u128) -> (events: Vec<KeyEvent>)
        ensures
            final(self)@ == old(self)@.after_key(key, pressed, timestamp),
            events@ == old(self)@.key_output(key, pressed, timestamp),
            old(self)@.wf() ==> final(self)@.wf(),
            has_key(old(self)@.modifiers, key) && !old(self)@.clears(key, pressed) ==> events@.len()
                == 1 && events@[0].code == key && (events@[0].value == 1 <==> state_of(
                final(self)@.modifiers,
                key,
            ).is_pressed()) && (events@[0].value == 0 <==> state_of(
                final(self)@.modifiers,
                key,
            ) is Released),
            !has_key(old(self)@.modifiers, key) ==> !any_latched(final(self)@.modifiers),
            !has_key(old(self)@.modifiers, key) && !old(self)@.clears(key, pressed) ==> events@.len()
                >= 1 && events@[0] == (KeyEvent { code: key, value: pressed }),
    {
        proof {
            let before = self@;
            if has_key(before.modifiers, key) {
                if !before.clears(key, pressed) {
                    lemma_modifier_event_reports_state(before, key, pressed, timestamp);
                }
            } else {
                lemma_ordinary_key_ends_latches(before, key, pressed, timestamp);
                if !before.clears(key, pressed) {
                    lemma_ordinary_key_comes_first(before, key, pressed, timestamp);
                }
            }
        }
        if self.clear_all_with_escape && key == KEY_ESC && pressed == PRESS {
            return self.modifiers.clear_all();
        }
        if self.modifiers.is_modifier(key) {
            if pressed == PRESS {
                self.modifiers.transition_on_press(key, timestamp, self.timeout);
            }
            let mut events: Vec<KeyEvent> = Vec::new();
            events.push(KeyEvent::new(key, self.modifiers.current_pressed_state(key)));
            assert(events@ =~= old(self)@.key_output(key, pressed, timestamp));
            return events;
        }
        let mut events: Vec<KeyEvent> = Vec::new();
        events.push(KeyEvent::new(key, pressed));
        let mut released = self.modifiers.release_all_latched();
        events.append(&mut released);
        assert(events@ =~= old(self)@.key_output(key, pressed, timestamp));
        events
    }

    /// Takes the start (`touch` 1) or the end (`touch` 0) of a touch at `now`.
    pub fn respond_touch(&mut self, touch: i32, now: u128)
        ensures
            final(self)@ == old(self)@.after_touch(touch, now),
            old(self)@.wf() ==> final(self)@.wf(),
    {
        if touch == TOUCH_HELD {
            self.touchpad.press();
        } else if touch == TOUCH_RELEASED {
            let staged = if self.touchpad.is_dragging() {
                Vec::new()
            } else {
                self.modifiers.release_all_latched()
            };
            self.touchpad.release(now, staged);
        }
    }

    /// Takes the position `coordinate` of the touch on `axis` (0 is x, 1 is y).
    pub fn respond_motion(&mut self, axis: usize, coordinate: i32)
        requires
            axis < 2,
        ensures
            final(self)@ == old(self)@.after_motion(axis as int, coordinate),
            old(self)@.wf() ==> final(self)@.wf(),
    {
        self.touchpad.motion(axis, coordinate);
    }

    /// What the indicator light is to be set to: the largest `i32` while any
    /// modifier is latched or locked, 0 otherwise.
    pub fn led_state(&self) -> (led: i32)
        ensures
            led == self@.led(),
            led != 0 <==> any_held(self@.modifiers),
    {
        if self.modifiers.any_pressed() {
            i32::MAX
        } else {
            0
        }
    }

    /// Whether any modifier is latched or locked.
    pub fn any_pressed(&self) -> (yes: bool)
        ensures
            yes == any_held(self@.modifiers),
    {
        self.modifiers.any_pressed()
    }

    /// Hands out the events that a tap staged, once more than the debounce
    /// time has passed since the tap; nothing before that.
    pub fn poll_deferred(&mut self, now: u128) -> (events: Vec<KeyEvent>)
        ensures
            final(self)@ == old(self)@.after_poll(now),
            events@ == old(self)@.poll_output(now),
            old(self)@.wf() ==> final(self)@.wf(),
    {
        self.touchpad.poll(now, self.touchpad_timeout)
    }

    /// How long to wait from `now` until staged events become due, as far as
    /// a `u128` reaches; `None` while nothing is staged, when only an event
    /// can wake the loop.
    pub fn until_deferred(&self, now: u128) -> (wait: Option<u128>)
        ensures
            match self@.touchpad.wait(now, self@.touchpad_timeout) {
                Some(time) => wait == Some(
                    if time <= u128::MAX {
                        time as u128
                    } else {
                        u128::MAX
                    },
                ),
                None => wait is None,
            },
    {
        self.touchpad.until_due(now, self.touchpad_timeout)
    }

    /// Takes an event of the keyboard, given by its type, code, value and
    /// time stamp. A key event is answered with what the virtual keyboard is
    /// to be sent; any other event is dropped.
    pub fn on_keyboard_event(&mut self, kind: u16, code: u16, value: i32, timestamp: u128) -> (events:
        Option<Vec<KeyEvent>>)
        ensures
            final(self)@ == old(self)@.after_keyboard_event(kind, code, value, timestamp),
            match events {
                Some(sent) => kind == EV_KEY && sent@ == old(self)@.key_output(
                    code,
                    value,
                    timestamp,
                ),
                None => kind != EV_KEY,
            },
            old(self)@.wf() ==> final(self)@.wf(),
    {
        if kind == EV_KEY {
            Some(self.transition(code, value, timestamp))
        } else {
            None
        }
    }

    /// Takes an event of the touchpad at `now`, given by its type, code and
    /// value: a touch or button event starts or ends a touch, a position on
    /// the x or y axis moves it, anything else is ignored, and so is every
    /// event while the touchpad is not listened to.
    pub fn on_touchpad_event(&mut self, kind: u16, code: u16, value: i32, now: u128)
        ensures
            final(self)@ == old(self)@.after_touchpad_event(kind, code, value, now),
            old(self)@.wf() ==> final(self)@.wf(),
    {
        if !self.touchpad_enabled {
            return ;
        }
        if kind == EV_KEY && (code == BTN_LEFT || code == BTN_RIGHT || code == BTN_TOUCH) {
            self.respond_touch(value, now);
        } else if kind == EV_ABS && (code == ABS_X || code == ABS_Y) {
            self.respond_motion(code as usize, value);
        }
    }
}

} // verus!
