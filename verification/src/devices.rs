//! Choosing the keyboard and the touchpad among the input devices by name.

use crate::error::{Error, ErrorView};
use crate::text::{characters, contains, lowered, occurs};
use vstd::prelude::*;

verus! {

/// Whether a device called `name` is taken for a keyboard: the name
/// contains `keyboard`, in small letters.
pub open spec fn is_keyboard_name(name: Seq<char>) -> bool {
    occurs(name, "keyboard"@)
}

/// Whether a device called `name` is taken for a touchpad: the name
/// contains `touchpad`, in letters of either case.
pub open spec fn is_touchpad_name(name: Seq<char>) -> bool {
    occurs(lowered(name), "touchpad"@)
}

/// Whether the device with this name, if it has one, is of the kind looked
/// for: a touchpad, or else a keyboard.
pub open spec fn is_wanted(name: Option<String>, touchpad: bool) -> bool {
    match name {
        Some(name) => if touchpad {
            is_touchpad_name(name@)
        } else {
            is_keyboard_name(name@)
        },
        None => false,
    }
}

/// Whether `at` is the first place in `names` that holds a wanted name.
pub open spec fn is_first_wanted(names: Seq<Option<String>>, touchpad: bool, at: int) -> bool {
    &&& 0 <= at < names.len()
    &&& is_wanted(names[at], touchpad)
    &&& forall|before: int| 0 <= before < at ==> !is_wanted(#[trigger] names[before], touchpad)
}

/// Whether no place in `names` holds a wanted name.
pub open spec fn none_wanted(names: Seq<Option<String>>, touchpad: bool) -> bool {
    forall|at: int| 0 <= at < names.len() ==> !is_wanted(#[trigger] names[at], touchpad)
}

/// The first place in `names` that holds a wanted name.
fn pick(names: &Vec<Option<String>>, touchpad: bool) -> (result: Result<usize, Error>)
    ensures
        match result {
            Ok(at) => is_first_wanted(names@, touchpad, at as int),
            Err(error) => error@ == ErrorView::NoKeyboardDevice && none_wanted(names@, touchpad),
        },
{
    let mut at: usize = 0;
    while at < names.len()
        invariant
            at <= names.len(),
            forall|before: int| 0 <= before < at ==> !is_wanted(#[trigger] names@[before], touchpad),
        decreases names.len() - at,
    {
        match &names[at] {
            Some(name) => {
                let chars = characters(name.as_str());
                let word = if touchpad {
                    "touchpad"
                } else {
                    "keyboard"
                };
                if contains(&chars, word, touchpad) {
                    return Ok(at);
                }
            },
            None => {},
        }
        at += 1;
    }
    Err(Error::NoKeyboardDevice)
}

/// Picks the keyboard among the devices with these names, given in the
/// order in which the devices were found: the first whose name contains
/// `keyboard`. Devices without a name are passed over.
pub fn pick_device(names: &Vec<Option<String>>) -> (result: Result<usize, Error>)
    ensures
        match result {
            Ok(at) => is_first_wanted(names@, false, at as int),
            Err(error) => error@ == ErrorView::NoKeyboardDevice && none_wanted(names@, false),
        },
{
    pick(names, false)
}

/// Picks the touchpad among the devices with these names: the first whose
/// name contains `touchpad` in letters of either case.
pub fn pick_touchpad(names: &Vec<Option<String>>) -> (result: Result<usize, Error>)
    ensures
        match result {
            Ok(at) => is_first_wanted(names@, true, at as int),
            Err(error) => error@ == ErrorView::NoKeyboardDevice && none_wanted(names@, true),
        },
{
    pick(names, true)
}

} // verus!
