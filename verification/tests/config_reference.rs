use lollipop::config::parse_config;
use lollipop::keys::{
    KEY_CAPSLOCK, KEY_COMPOSE, KEY_FN, KEY_LEFTCTRL, KEY_LEFTMETA, KEY_LEFTSHIFT, KEY_RIGHTCTRL,
    KEY_RIGHTMETA, KEY_RIGHTSHIFT,
};
use lollipop::{Config, Error};

type Outcome = Result<Config, (&'static str, String)>;

fn name_to_code(name: &str) -> Option<u16> {
    Some(match name {
        "leftshift" => KEY_LEFTSHIFT,
        "rightshift" => KEY_RIGHTSHIFT,
        "leftctrl" => KEY_LEFTCTRL,
        "rightctrl" => KEY_RIGHTCTRL,
        "compose" => KEY_COMPOSE,
        "leftmeta" => KEY_LEFTMETA,
        "fn" => KEY_FN,
        "capslock" => KEY_CAPSLOCK,
        "rightmeta" => KEY_RIGHTMETA,
        _ => return None,
    })
}

fn truth(word: &str, line: &str) -> Result<bool, (&'static str, String)> {
    match word.to_lowercase().as_ref() {
        "yes" | "true" => Ok(true),
        "no" | "false" => Ok(false),
        _ => Err(("InvalidConfig", line.to_string())),
    }
}

/// The format, read with the string methods of the standard library.
fn reference(text: &str) -> Outcome {
    let mut config = Config::default();
    let mut touchpad = false;
    let mut blank = false;
    for line in text.trim().lines() {
        let line = line.trim();
        if line.is_empty() {
            if blank {
                touchpad = false;
            }
            blank = true;
            continue;
        }
        blank = false;
        if line == "[touchpad]" {
            touchpad = true;
            continue;
        }
        let Some((key, value)) = line.split_once('=') else {
            return Err(("InvalidConfig", line.to_string()));
        };
        match (touchpad, key) {
            (false, "device") => {
                if value != "autodetect" {
                    config.keyboard_device = Some(value.to_string());
                }
            }
            (false, "modifiers") => {
                for name in value.split(',') {
                    let code = name_to_code(name).ok_or(("InvalidModifier", name.to_string()))?;
                    config.modifiers.push(code);
                }
            }
            (false, "timeout") => {
                config.timeout = value.parse().map_err(|_| ("InvalidTimeout", value.to_string()))?;
            }
            (false, "clear_all_with_escape") => config.clear_all_with_escape = truth(value, line)?,
            (true, "timeout") => {
                config.touchpad_timeout =
                    value.parse().map_err(|_| ("InvalidTimeout", value.to_string()))?;
            }
            (true, "fuzz") => {
                config.touchpad_fuzz = value.parse().map_err(|_| ("InvalidFuzz", value.to_string()))?;
            }
            (true, "enabled") => config.touchpad = truth(value, line)?,
            _ => return Err(("InvalidConfig", line.to_string())),
        }
    }
    Ok(config)
}

fn library(text: &str) -> Outcome {
    parse_config(text).map_err(|error| match error {
        Error::InvalidModifier(name) => ("InvalidModifier", name),
        Error::InvalidTimeout(text) => ("InvalidTimeout", text),
        Error::InvalidFuzz(text) => ("InvalidFuzz", text),
        Error::InvalidConfig(line) => ("InvalidConfig", line),
        Error::OpenDeviceHandle { path, .. } => ("OpenDeviceHandle", path),
        Error::FailedReadingConfig { path, .. } => ("FailedReadingConfig", path),
        Error::NoKeyboardDevice => ("NoKeyboardDevice", String::new()),
    })
}

const LINES: [&str; 24] = [
    "",
    " ",
    "[touchpad]",
    " [touchpad]\r",
    "device=autodetect",
    "device=/dev/input/event0",
    "modifiers=rightshift,fn",
    "modifiers=capslock,",
    "timeout=250",
    "timeout=+0",
    "timeout=many",
    "fuzz=12",
    "fuzz=-12",
    "enabled=Yes",
    "enabled=off",
    "clear_all_with_escape=FALSE",
    "clear_all_with_escape",
    "\u{a0}timeout=7\u{2003}",
    "timeout=7\u{200b}",
    "time\rout=7",
    "\u{85}",
    "=",
    "\u{feff}timeout=1",
    "enabled=TRUE\r",
];

const BREAKS: [&str; 3] = ["\n", "\r\n", "\n\n"];

#[test]
fn single_lines_are_read_as_the_standard_library_reads_them() {
    for line in LINES {
        assert_eq!(library(line), reference(line), "{line:?}");
    }
}

#[test]
fn two_lines_are_read_as_the_standard_library_reads_them() {
    for first in LINES {
        for second in LINES {
            for line_break in BREAKS {
                let text = format!("{first}{line_break}{second}");
                assert_eq!(library(&text), reference(&text), "{text:?}");
            }
        }
    }
}

#[test]
fn three_lines_are_read_as_the_standard_library_reads_them() {
    for first in LINES {
        for second in LINES {
            for third in LINES {
                let text = format!("{first}\n{second}\n{third}\n");
                assert_eq!(library(&text), reference(&text), "{text:?}");
            }
        }
    }
}

#[test]
fn blank_runs_are_read_as_the_standard_library_reads_them() {
    for blanks in 0..6 {
        for tail in ["fuzz=1", "timeout=1", "[touchpad]\nfuzz=1"] {
            let text = format!("[touchpad]\nenabled=yes{}{tail}", "\n".repeat(blanks + 1));
            assert_eq!(library(&text), reference(&text), "{text:?}");
        }
    }
}
