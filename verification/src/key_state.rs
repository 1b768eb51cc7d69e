//! The three-state automaton of a single sticky modifier key.

use crate::text::{decimal, decimal_text};
use vstd::prelude::*;

verus! {

/// Nanoseconds in a second.
pub const NANOS_PER_SECOND: u128 = 1_000_000_000;

/// What a sticky modifier is doing right now.
///
/// Times are nanoseconds since the Unix epoch; a timeout is a count of
/// nanoseconds.
#[derive(Clone, Copy, Debug, PartialEq, Eq, Structural)]
pub enum KeyState {
    /// Virtually held until the next ordinary key; carries the time of the
    /// press that latched it.
    Latched(u128),
    /// Virtually held until it is tapped again.
    Locked,
    /// Not held.
    Released,
}

impl KeyState {
    /// The state that follows `self` when the modifier is pressed at `time`.
    ///
    /// A quick second tap (strictly less than `timeout` after the first)
    /// locks; a slow one, or one whose time lies before the first, clears.
    /// The tap that leaves `Latched` or `Locked` never latches again.
    pub open spec fn after_press(self, time: u128, timeout: u128) -> KeyState {
        match self {
            KeyState::Released => KeyState::Latched(time),
            KeyState::Latched(last_press) => if last_press <= time && time - last_press < timeout {
                KeyState::Locked
            } else {
                KeyState::Released
            },
            KeyState::Locked => KeyState::Released,
        }
    }

    /// Whether the modifier counts as held down.
    pub open spec fn is_pressed(self) -> bool {
        self is Latched || self is Locked
    }

    /// The value reported for the key towards the virtual device.
    pub open spec fn pressed_value(self) -> i32 {
        if self.is_pressed() {
            1
        } else {
            0
        }
    }

    /// The whole seconds that a modifier latched at `latched_at` has been
    /// latched for at `now`; 0 if `now` lies before.
    pub open spec fn seconds_latched(latched_at: u128, now: u128) -> nat {
        if latched_at <= now {
            ((now - latched_at) / NANOS_PER_SECOND as int) as nat
        } else {
            0
        }
    }

    /// The state in words, as seen at `now`: `Latched 3s` for a modifier
    /// latched for three seconds, `Locked`, or `None`.
    pub open spec fn description(self, now: u128) -> Seq<char> {
        match self {
            KeyState::Latched(latched_at) => "Latched "@ + decimal_text(
                Self::seconds_latched(latched_at, now),
            ) + "s"@,
            KeyState::Locked => "Locked"@,
            KeyState::Released => "None"@,
        }
    }

    /// Applies one press of the modifier at `time`.
    pub fn transition(&mut self, time: u128, timeout: u128)
        ensures
            *final(self) == old(self).after_press(time, timeout),
    {
        let next = match *self {
            KeyState::Latched(last_press) => {
                if last_press <= time && time - last_press < timeout {
                    KeyState::Locked
                } else {
                    KeyState::Released
                }
            },
            KeyState::Locked => KeyState::Released,
            KeyState::Released => KeyState::Latched(time),
        };
        *self = next;
    }

    /// Describes the state in words, as seen at `now`.
    pub fn describe(&self, now: u128) -> (words: String)
        ensures
            words@ == self.description(now),
    {
        match self {
            KeyState::Latched(latched_at) => {
                let seconds = if *latched_at <= now {
                    (now - *latched_at) / NANOS_PER_SECOND
                } else {
                    0
                };
                let mut words = "Latched ".to_owned();
                words.append(decimal(seconds).as_str());
                words.append("s");
                words
            },
            KeyState::Locked => "Locked".to_owned(),
            KeyState::Released => "None".to_owned(),
        }
    }

    /// 1 while the modifier is latched or locked, 0 otherwise.
    pub fn pressed_state(&self) -> (value: i32)
        ensures
            value == self.pressed_value(),
            value == 1 <==> self.is_pressed(),
            value == 0 <==> !self.is_pressed(),
    {
        match self {
            KeyState::Locked | KeyState::Latched(_) => 1,
            KeyState::Released => 0,
        }
    }
}

} // verus!
