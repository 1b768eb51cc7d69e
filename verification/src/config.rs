//! The daemon's settings and the text format they are written in.
//!
//! A configuration is lines of `key=value`. It starts in the global section;
//! a line `[touchpad]` opens the touchpad section, and two blank lines in a
//! row lead back to the global one. White space around a line is ignored,
//! white space around `=` is not.

use crate::error::{Error, ErrorView};
use crate::keys::{
    KEY_CAPSLOCK, KEY_COMPOSE, KEY_FN, KEY_LEFTALT, KEY_LEFTCTRL, KEY_LEFTMETA, KEY_LEFTSHIFT,
    KEY_RIGHTCTRL, KEY_RIGHTMETA, KEY_RIGHTSHIFT,
};
use crate::text::{
    characters, equals, equals_ignoring_case, find, first_index, lowered, number, parse_number,
    trim, trimmed,
};
use vstd::prelude::*;

verus! {

/// The settings of the daemon. Times are in milliseconds.
#[derive(Clone, Debug, PartialEq, Eq)]
pub struct Config {
    /// The keys that are sticky, in the order in which they were named.
    pub modifiers: Vec<u16>,
    /// How long after a first tap a second one still locks.
    pub timeout: u64,
    /// The keyboard to take over; `None` to pick one by its name.
    pub keyboard_device: Option<String>,
    /// Whether pressing escape lets go of every modifier.
    pub clear_all_with_escape: bool,
    /// Whether a tap on the touchpad lets go of the latched modifiers.
    pub touchpad: bool,
    /// How long after a tap on the touchpad the modifiers are let go.
    pub touchpad_timeout: u64,
    /// How far, in the touchpad's units, a finger may move and still tap.
    pub touchpad_fuzz: u64,
}

/// A [`Config`] as contracts see it.
pub struct ConfigView {
    pub modifiers: Seq<u16>,
    pub timeout: u64,
    pub keyboard_device: Option<Seq<char>>,
    pub clear_all_with_escape: bool,
    pub touchpad: bool,
    pub touchpad_timeout: u64,
    pub touchpad_fuzz: u64,
}

impl View for Config {
    type V = ConfigView;

    open spec fn view(&self) -> ConfigView {
        ConfigView {
            modifiers: self.modifiers@,
            timeout: self.timeout,
            keyboard_device: match self.keyboard_device {
                Some(path) => Some(path@),
                None => None,
            },
            clear_all_with_escape: self.clear_all_with_escape,
            touchpad: self.touchpad,
            touchpad_timeout: self.touchpad_timeout,
            touchpad_fuzz: self.touchpad_fuzz,
        }
    }
}

impl ConfigView {
    /// The settings in force where the configuration says nothing.
    pub open spec fn initial() -> ConfigView {
        ConfigView {
            modifiers: seq![KEY_LEFTSHIFT, KEY_LEFTMETA, KEY_LEFTCTRL, KEY_LEFTALT],
            timeout: 500,
            keyboard_device: None,
            clear_all_with_escape: true,
            touchpad: false,
            touchpad_timeout: 200,
            touchpad_fuzz: 300,
        }
    }
}

impl Default for Config {
    fn default() -> (config: Config)
        ensures
            config@ == ConfigView::initial(),
    {
        let mut modifiers: Vec<u16> = Vec::new();
        modifiers.push(KEY_LEFTSHIFT);
        modifiers.push(KEY_LEFTMETA);
        modifiers.push(KEY_LEFTCTRL);
        modifiers.push(KEY_LEFTALT);
        assert(modifiers@ =~= seq![KEY_LEFTSHIFT, KEY_LEFTMETA, KEY_LEFTCTRL, KEY_LEFTALT]);
        Config {
            touchpad_fuzz: 300,
            clear_all_with_escape: true,
            modifiers,
            timeout: 500,
            keyboard_device: None,
            touchpad: false,
            touchpad_timeout: 200,
        }
    }
}

/// The part of the configuration that a line belongs to.
#[derive(Clone, Copy, Debug, PartialEq, Eq, Structural)]
pub enum Section {
    Global,
    Touchpad,
}

/// How far a configuration has been read.
pub struct Reading {
    /// The settings so far.
    pub config: ConfigView,
    /// The section that the next line belongs to.
    pub section: Section,
    /// Whether the line just read was blank.
    pub after_blank: bool,
}

/// What a result's error looks like to contracts.
pub open spec fn seen<T>(result: Result<T, Error>) -> Result<T, ErrorView> {
    match result {
        Ok(value) => Ok(value),
        Err(error) => Err(error@),
    }
}

/// What a parsed configuration looks like to contracts.
pub open spec fn seen_config(result: Result<Config, Error>) -> Result<ConfigView, ErrorView> {
    match result {
        Ok(config) => Ok(config@),
        Err(error) => Err(error@),
    }
}

/// The truth value that `word` writes, whatever the case of its letters:
/// `yes` and `true`, `no` and `false`.
pub open spec fn yes_or_no(word: Seq<char>) -> Option<bool> {
    let small = lowered(word);
    if small == "yes"@ || small == "true"@ {
        Some(true)
    } else if small == "no"@ || small == "false"@ {
        Some(false)
    } else {
        None
    }
}

/// The key that the configuration calls `name`.
pub open spec fn modifier_code(name: Seq<char>) -> Option<u16> {
    if name == "leftshift"@ {
        Some(KEY_LEFTSHIFT)
    } else if name == "rightshift"@ {
        Some(KEY_RIGHTSHIFT)
    } else if name == "leftctrl"@ {
        Some(KEY_LEFTCTRL)
    } else if name == "rightctrl"@ {
        Some(KEY_RIGHTCTRL)
    } else if name == "compose"@ {
        Some(KEY_COMPOSE)
    } else if name == "leftmeta"@ {
        Some(KEY_LEFTMETA)
    } else if name == "fn"@ {
        Some(KEY_FN)
    } else if name == "capslock"@ {
        Some(KEY_CAPSLOCK)
    } else if name == "rightmeta"@ {
        Some(KEY_RIGHTMETA)
    } else {
        None
    }
}

/// The keys that a list of names separated by commas stands for, in order,
/// or the first name in it that is not known.
pub open spec fn modifier_codes(list: Seq<char>) -> Result<Seq<u16>, Seq<char>>
    decreases list.len(),
{
    let comma = first_index(list, ',');
    let name = list.take(comma);
    match modifier_code(name) {
        None => Err(name),
        Some(code) => if 0 <= comma < list.len() {
            match modifier_codes(list.skip(comma + 1)) {
                Ok(rest) => Ok(seq![code] + rest),
                Err(unknown) => Err(unknown),
            }
        } else {
            Ok(seq![code])
        },
    }
}

/// The settings after `key=value`, read in `section`, is applied to `config`;
/// `line` is the whole line, for the error.
pub open spec fn with_setting(
    config: ConfigView,
    section: Section,
    key: Seq<char>,
    value: Seq<char>,
    line: Seq<char>,
) -> Result<ConfigView, ErrorView> {
    match section {
        Section::Global => {
            if key == "device"@ {
                if value == "autodetect"@ {
                    Ok(config)
                } else {
                    Ok(ConfigView { keyboard_device: Some(value), ..config })
                }
            } else if key == "modifiers"@ {
                match modifier_codes(value) {
                    Ok(codes) => Ok(ConfigView { modifiers: config.modifiers + codes, ..config }),
                    Err(name) => Err(ErrorView::InvalidModifier(name)),
                }
            } else if key == "timeout"@ {
                match number(value) {
                    Some(milliseconds) => Ok(ConfigView { timeout: milliseconds, ..config }),
                    None => Err(ErrorView::InvalidTimeout(value)),
                }
            } else if key == "clear_all_with_escape"@ {
                match yes_or_no(value) {
                    Some(choice) => Ok(ConfigView { clear_all_with_escape: choice, ..config }),
                    None => Err(ErrorView::InvalidConfig(line)),
                }
            } else {
                Err(ErrorView::InvalidConfig(line))
            }
        },
        Section::Touchpad => {
            if key == "timeout"@ {
                match number(value) {
                    Some(milliseconds) => Ok(
                        ConfigView { touchpad_timeout: milliseconds, ..config },
                    ),
                    None => Err(ErrorView::InvalidTimeout(value)),
                }
            } else if key == "fuzz"@ {
                match number(value) {
                    Some(units) => Ok(ConfigView { touchpad_fuzz: units, ..config }),
                    None => Err(ErrorView::InvalidFuzz(value)),
                }
            } else if key == "enabled"@ {
                match yes_or_no(value) {
                    Some(choice) => Ok(ConfigView { touchpad: choice, ..config }),
                    None => Err(ErrorView::InvalidConfig(line)),
                }
            } else {
                Err(ErrorView::InvalidConfig(line))
            }
        },
    }
}

/// The reading after one more line, given without the white space around it.
pub open spec fn after_line(reading: Reading, line: Seq<char>) -> Result<Reading, ErrorView> {
    if line.len() == 0 {
        Ok(
            Reading {
                config: reading.config,
                section: if reading.after_blank {
                    Section::Global
                } else {
                    reading.section
                },
                after_blank: true,
            },
        )
    } else if line == "[touchpad]"@ {
        Ok(Reading { config: reading.config, section: Section::Touchpad, after_blank: false })
    } else {
        let eq = first_index(line, '=');
        if 0 <= eq < line.len() {
            match with_setting(
                reading.config,
                reading.section,
                line.take(eq),
                line.skip(eq + 1),
                line,
            ) {
                Ok(config) => Ok(Reading { config, section: reading.section, after_blank: false }),
                Err(error) => Err(error),
            }
        } else {
            Err(ErrorView::InvalidConfig(line))
        }
    }
}

/// The reading after the lines of `text`, which line feeds separate.
pub open spec fn after_lines(reading: Reading, text: Seq<char>) -> Result<Reading, ErrorView>
    decreases text.len(),
{
    let feed = first_index(text, '\n');
    match after_line(reading, trimmed(text.take(feed))) {
        Err(error) => Err(error),
        Ok(next) => if 0 <= feed < text.len() {
            after_lines(next, text.skip(feed + 1))
        } else {
            Ok(next)
        },
    }
}

/// The settings at the end of a reading, or the error that stopped it.
pub open spec fn settled(outcome: Result<Reading, ErrorView>) -> Result<ConfigView, ErrorView> {
    match outcome {
        Ok(reading) => Ok(reading.config),
        Err(error) => Err(error),
    }
}

/// What the configuration `text` says: the settings, or the first error in it.
pub open spec fn parsed(text: Seq<char>) -> Result<ConfigView, ErrorView> {
    settled(
        after_lines(
            Reading {
                config: ConfigView::initial(),
                section: Section::Global,
                after_blank: false,
            },
            trimmed(text),
        ),
    )
}

/// The truth value written by `chars[from..to]`.
fn truth_at(chars: &Vec<char>, from: usize, to: usize) -> (choice: Option<bool>)
    requires
        from <= to <= chars.len(),
    ensures
        choice == yes_or_no(chars@.subrange(from as int, to as int)),
{
    if equals_ignoring_case(chars, from, to, "yes") || equals_ignoring_case(
        chars,
        from,
        to,
        "true",
    ) {
        Some(true)
    } else if equals_ignoring_case(chars, from, to, "no") || equals_ignoring_case(
        chars,
        from,
        to,
        "false",
    ) {
        Some(false)
    } else {
        None
    }
}

/// The key named by `chars[from..to]`.
fn modifier_at(chars: &Vec<char>, from: usize, to: usize) -> (code: Option<u16>)
    requires
        from <= to <= chars.len(),
    ensures
        code == modifier_code(chars@.subrange(from as int, to as int)),
{
    if equals(chars, from, to, "leftshift") {
        Some(KEY_LEFTSHIFT)
    } else if equals(chars, from, to, "rightshift") {
        Some(KEY_RIGHTSHIFT)
    } else if equals(chars, from, to, "leftctrl") {
        Some(KEY_LEFTCTRL)
    } else if equals(chars, from, to, "rightctrl") {
        Some(KEY_RIGHTCTRL)
    } else if equals(chars, from, to, "compose") {
        Some(KEY_COMPOSE)
    } else if equals(chars, from, to, "leftmeta") {
        Some(KEY_LEFTMETA)
    } else if equals(chars, from, to, "fn") {
        Some(KEY_FN)
    } else if equals(chars, from, to, "capslock") {
        Some(KEY_CAPSLOCK)
    } else if equals(chars, from, to, "rightmeta") {
        Some(KEY_RIGHTMETA)
    } else {
        None
    }
}

/// A string of its own that holds `text[from..to]`, counted in characters.
fn owned(text: &str, from: usize, to: usize) -> (part: String)
    requires
        from <= to <= text@.len(),
    ensures
        part@ == text@.subrange(from as int, to as int),
{
    text.substring_char(from, to).to_owned()
}

/// Reads a truth value, whatever the case of its letters: `yes` or `true`,
/// `no` or `false`. Anything else is an error that quotes `line`.
pub fn yesnt(s: &str, line: &str) -> (result: Result<bool, Error>)
    ensures
        seen(result) == match yes_or_no(s@) {
            Some(choice) => Ok::<bool, ErrorView>(choice),
            None => Err::<bool, ErrorView>(ErrorView::InvalidConfig(line@)),
        },
{
    let chars = characters(s);
    assert(chars@.subrange(0, chars.len() as int) =~= s@);
    match truth_at(&chars, 0, chars.len()) {
        Some(choice) => Ok(choice),
        None => Err(Error::InvalidConfig(line.to_owned())),
    }
}

/// The key that the configuration calls `s`, if it is one of the names
/// `leftshift`, `rightshift`, `leftctrl`, `rightctrl`, `compose`, `leftmeta`,
/// `fn`, `capslock`, `rightmeta`.
pub fn modifier_name_to_key_code(s: &str) -> (code: Option<u16>)
    ensures
        code == modifier_code(s@),
{
    let chars = characters(s);
    assert(chars@.subrange(0, chars.len() as int) =~= s@);
    modifier_at(&chars, 0, chars.len())
}

/// Appends to `modifiers` the keys that `text[from..to]` lists. Stops at the
/// first name that is not known.
fn push_modifiers(
    modifiers: &mut Vec<u16>,
    text: &str,
    chars: &Vec<char>,
    from: usize,
    to: usize,
) -> (result: Result<(), Error>)
    requires
        chars@ == text@,
        from <= to <= chars.len(),
    ensures
        match modifier_codes(chars@.subrange(from as int, to as int)) {
            Ok(codes) => result is Ok && final(modifiers)@ == old(modifiers)@ + codes,
            Err(name) => result matches Err(error) && error@ == ErrorView::InvalidModifier(name),
        },
{
    let ghost list = chars@.subrange(from as int, to as int);
    let ghost before = modifiers@;
    let ghost mut added: Seq<u16> = Seq::empty();
    let mut at: usize = from;
    assert(before + added =~= before);
    loop
        invariant
            chars@ == text@,
            from <= at <= to <= chars.len(),
            list == chars@.subrange(from as int, to as int),
            before == old(modifiers)@,
            modifiers@ == before + added,
            match modifier_codes(chars@.subrange(at as int, to as int)) {
                Ok(rest) => modifier_codes(list) == Ok::<Seq<u16>, Seq<char>>(added + rest),
                Err(name) => modifier_codes(list) == Err::<Seq<u16>, Seq<char>>(name),
            },
        decreases to - at,
    {
        let ghost rest = chars@.subrange(at as int, to as int);
        let comma = find(chars, at, to, ',');
        proof {
            assert(rest.take(comma - at) =~= chars@.subrange(at as int, comma as int));
            if comma < to {
                assert(rest.skip(comma - at + 1) =~= chars@.subrange(comma + 1, to as int));
            }
        }
        match modifier_at(chars, at, comma) {
            None => {
                return Err(Error::InvalidModifier(owned(text, at, comma)));
            },
            Some(code) => {
                modifiers.push(code);
                proof {
                    assert(before + added.push(code) =~= (before + added).push(code));
                    if comma < to {
                        match modifier_codes(chars@.subrange(comma + 1, to as int)) {
                            Ok(more) => {
                                assert(added.push(code) + more =~= added + (seq![code] + more));
                            },
                            Err(name) => {},
                        }
                    } else {
                        assert(added.push(code) =~= added + seq![code]);
                    }
                    added = added.push(code);
                }
            },
        }
        if comma == to {
            return Ok(());
        }
        at = comma + 1;
    }
}

/// Applies the setting `key=value` of a line to `config`, where the key is
/// `text[from..eq]`, the value `text[eq + 1..to]` and `text[from..to]` the line.
fn apply_setting(
    config: &mut Config,
    section: Section,
    text: &str,
    chars: &Vec<char>,
    from: usize,
    eq: usize,
    to: usize,
) -> (result: Result<(), Error>)
    requires
        chars@ == text@,
        from <= eq < to <= chars.len(),
    ensures
        match with_setting(
            old(config)@,
            section,
            chars@.subrange(from as int, eq as int),
            chars@.subrange(eq + 1, to as int),
            chars@.subrange(from as int, to as int),
        ) {
            Ok(next) => result is Ok && final(config)@ == next,
            Err(fault) => result matches Err(error) && error@ == fault,
        },
{
    let value: usize = eq + 1;
    match section {
        Section::Global => {
            if equals(chars, from, eq, "device") {
                if !equals(chars, value, to, "autodetect") {
                    config.keyboard_device = Some(owned(text, value, to));
                }
                Ok(())
            } else if equals(chars, from, eq, "modifiers") {
                push_modifiers(&mut config.modifiers, text, chars, value, to)
            } else if equals(chars, from, eq, "timeout") {
                match parse_number(chars, value, to) {
                    Some(milliseconds) => {
                        config.timeout = milliseconds;
                        Ok(())
                    },
                    None => Err(Error::InvalidTimeout(owned(text, value, to))),
                }
            } else if equals(chars, from, eq, "clear_all_with_escape") {
                match truth_at(chars, value, to) {
                    Some(choice) => {
                        config.clear_all_with_escape = choice;
                        Ok(())
                    },
                    None => Err(Error::InvalidConfig(owned(text, from, to))),
                }
            } else {
                Err(Error::InvalidConfig(owned(text, from, to)))
            }
        },
        Section::Touchpad => {
            if equals(chars, from, eq, "timeout") {
                match parse_number(chars, value, to) {
                    Some(milliseconds) => {
                        config.touchpad_timeout = milliseconds;
                        Ok(())
                    },
                    None => Err(Error::InvalidTimeout(owned(text, value, to))),
                }
            } else if equals(chars, from, eq, "fuzz") {
                match parse_number(chars, value, to) {
                    Some(units) => {
                        config.touchpad_fuzz = units;
                        Ok(())
                    },
                    None => Err(Error::InvalidFuzz(owned(text, value, to))),
                }
            } else if equals(chars, from, eq, "enabled") {
                match truth_at(chars, value, to) {
                    Some(choice) => {
                        config.touchpad = choice;
                        Ok(())
                    },
                    None => Err(Error::InvalidConfig(owned(text, from, to))),
                }
            } else {
                Err(Error::InvalidConfig(owned(text, from, to)))
            }
        },
    }
}

/// Reads the line `text[from..to]`, which has no white space around it, into
/// `config`; returns the section and the blank-line mark for the next line.
fn read_line(
    config: &mut Config,
    section: Section,
    after_blank: bool,
    text: &str,
    chars: &Vec<char>,
    from: usize,
    to: usize,
) -> (result: Result<(Section, bool), Error>)
    requires
        chars@ == text@,
        from <= to <= chars.len(),
    ensures
        match after_line(
            Reading { config: old(config)@, section, after_blank },
            chars@.subrange(from as int, to as int),
        ) {
            Ok(next) => result matches Ok(mark) && next == (Reading {
                config: final(config)@,
                section: mark.0,
                after_blank: mark.1,
            }),
            Err(fault) => result matches Err(error) && error@ == fault,
        },
{
    let ghost line = chars@.subrange(from as int, to as int);
    if from == to {
        return Ok(
            (
                if after_blank {
                    Section::Global
                } else {
                    section
                },
                true,
            ),
        );
    }
    if equals(chars, from, to, "[touchpad]") {
        return Ok((Section::Touchpad, false));
    }
    let eq = find(chars, from, to, '=');
    if eq == to {
        return Err(Error::InvalidConfig(owned(text, from, to)));
    }
    proof {
        assert(line.take(eq - from) =~= chars@.subrange(from as int, eq as int));
        assert(line.skip(eq - from + 1) =~= chars@.subrange(eq + 1, to as int));
    }
    match apply_setting(config, section, text, chars, from, eq, to) {
        Ok(()) => Ok((section, false)),
        Err(error) => Err(error),
    }
}

/// Reads a configuration from its text: the settings it leaves in force, or
/// the first error in it.
pub fn parse_config(text: &str) -> (result: Result<Config, Error>)
    ensures
        seen_config(result) == parsed(text@),
{
    let chars = characters(text);
    let (start, end) = trim(&chars, 0, chars.len());
    assert(chars@.subrange(0, chars.len() as int) =~= text@);
    let mut config = Config::default();
    let mut section = Section::Global;
    let mut after_blank = false;
    let mut at: usize = start;
    loop
        invariant
            chars@ == text@,
            start <= at <= end <= chars.len(),
            settled(
                after_lines(
                    Reading { config: config@, section, after_blank },
                    chars@.subrange(at as int, end as int),
                ),
            ) == parsed(text@),
        decreases end - at,
    {
        let ghost rest = chars@.subrange(at as int, end as int);
        let feed = find(&chars, at, end, '\n');
        let (from, to) = trim(&chars, at, feed);
        proof {
            assert(rest.take(feed - at) =~= chars@.subrange(at as int, feed as int));
            if feed < end {
                assert(rest.skip(feed - at + 1) =~= chars@.subrange(feed + 1, end as int));
            }
        }
        match read_line(&mut config, section, after_blank, text, &chars, from, to) {
            Ok(mark) => {
                section = mark.0;
                after_blank = mark.1;
            },
            Err(error) => {
                return Err(error);
            },
        }
        if feed == end {
            return Ok(config);
        }
        at = feed + 1;
    }
}

} // verus!
