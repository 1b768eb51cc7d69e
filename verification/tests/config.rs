use lollipop::config::{modifier_name_to_key_code, parse_config, yesnt};
use lollipop::keys::{
    KEY_CAPSLOCK, KEY_COMPOSE, KEY_FN, KEY_LEFTALT, KEY_LEFTCTRL, KEY_LEFTMETA, KEY_LEFTSHIFT,
    KEY_RIGHTCTRL, KEY_RIGHTMETA, KEY_RIGHTSHIFT,
};
use lollipop::{Config, Error};

fn defaults() -> Vec<u16> {
    vec![KEY_LEFTSHIFT, KEY_LEFTMETA, KEY_LEFTCTRL, KEY_LEFTALT]
}

/// The variant of an error and the text it quotes.
fn told(error: &Error) -> (&'static str, String) {
    match error {
        Error::OpenDeviceHandle { path, .. } => ("OpenDeviceHandle", path.clone()),
        Error::NoKeyboardDevice => ("NoKeyboardDevice", String::new()),
        Error::InvalidModifier(name) => ("InvalidModifier", name.clone()),
        Error::InvalidTimeout(text) => ("InvalidTimeout", text.clone()),
        Error::InvalidFuzz(text) => ("InvalidFuzz", text.clone()),
        Error::InvalidConfig(line) => ("InvalidConfig", line.clone()),
        Error::FailedReadingConfig { path, .. } => ("FailedReadingConfig", path.clone()),
    }
}

fn parsed(text: &str) -> Result<Config, (&'static str, String)> {
    parse_config(text).map_err(|error| told(&error))
}

fn refused(text: &str) -> (&'static str, String) {
    parsed(text).expect_err("the configuration is refused")
}

fn quoting(kind: &'static str, text: &str) -> (&'static str, String) {
    (kind, text.to_string())
}

#[test]
fn default_config_has_the_documented_values() {
    let config = Config::default();
    assert_eq!(config.modifiers, defaults());
    assert_eq!(config.timeout, 500);
    assert_eq!(config.keyboard_device, None);
    assert!(config.clear_all_with_escape);
    assert!(!config.touchpad);
    assert_eq!(config.touchpad_timeout, 200);
    assert_eq!(config.touchpad_fuzz, 300);
}

#[test]
fn empty_and_blank_texts_give_the_defaults() {
    for text in ["", " ", "\n", "\n\n\n", " \t\r\n \n"] {
        assert_eq!(parsed(text), Ok(Config::default()), "{text:?}");
    }
}

#[test]
fn global_settings_are_read() {
    let config = parsed(
        "device=/dev/input/event3\ntimeout=750\nclear_all_with_escape=no\nmodifiers=rightshift,capslock\n",
    )
    .unwrap();
    assert_eq!(
        config,
        Config {
            modifiers: vec![
                KEY_LEFTSHIFT,
                KEY_LEFTMETA,
                KEY_LEFTCTRL,
                KEY_LEFTALT,
                KEY_RIGHTSHIFT,
                KEY_CAPSLOCK,
            ],
            timeout: 750,
            keyboard_device: Some("/dev/input/event3".to_string()),
            clear_all_with_escape: false,
            ..Config::default()
        }
    );
}

#[test]
fn touchpad_settings_are_read_in_their_section() {
    let config = parsed("[touchpad]\nenabled=yes\ntimeout=150\nfuzz=42").unwrap();
    assert_eq!(
        config,
        Config { touchpad: true, touchpad_timeout: 150, touchpad_fuzz: 42, ..Config::default() }
    );
}

#[test]
fn timeout_means_the_section_it_stands_in() {
    let config = parsed("timeout=1\n[touchpad]\ntimeout=2").unwrap();
    assert_eq!(config.timeout, 1);
    assert_eq!(config.touchpad_timeout, 2);
}

#[test]
fn device_autodetect_leaves_the_device_open() {
    assert_eq!(parsed("device=autodetect").unwrap().keyboard_device, None);
    assert_eq!(parsed("device=/dev/a\ndevice=autodetect").unwrap().keyboard_device, Some("/dev/a".to_string()));
    assert_eq!(parsed("device=Autodetect").unwrap().keyboard_device, Some("Autodetect".to_string()));
    assert_eq!(parsed("device=").unwrap().keyboard_device, Some(String::new()));
    assert_eq!(parsed("device=a=b").unwrap().keyboard_device, Some("a=b".to_string()));
}

#[test]
fn later_settings_replace_earlier_ones_but_modifiers_add_up() {
    let config = parsed("timeout=1\ntimeout=2\nmodifiers=fn\nmodifiers=fn,compose").unwrap();
    assert_eq!(config.timeout, 2);
    let mut expected = defaults();
    expected.extend([KEY_FN, KEY_FN, KEY_COMPOSE]);
    assert_eq!(config.modifiers, expected);
}

#[test]
fn white_space_around_lines_is_ignored_but_not_around_the_equals_sign() {
    let config = parsed("  \t timeout=9 \r\n\u{a0}[touchpad]\u{3000}\r\n   fuzz=8\t\n").unwrap();
    assert_eq!(config.timeout, 9);
    assert_eq!(config.touchpad_fuzz, 8);
    assert_eq!(refused("timeout = 9"), quoting("InvalidConfig", "timeout = 9"));
    assert_eq!(refused("timeout= 9"), quoting("InvalidTimeout", " 9"));
    assert_eq!(refused("timeout =9"), quoting("InvalidConfig", "timeout =9"));
}

#[test]
fn one_blank_line_keeps_the_section_and_two_lead_back_to_global() {
    assert_eq!(parsed("[touchpad]\n\nfuzz=5").unwrap().touchpad_fuzz, 5);
    assert_eq!(refused("[touchpad]\n\n\nfuzz=5"), quoting("InvalidConfig", "fuzz=5"));
    assert_eq!(parsed("[touchpad]\n\n\ntimeout=5").unwrap().timeout, 5);
    assert_eq!(parsed("[touchpad]\n \n\t\ntimeout=5").unwrap().touchpad_timeout, 200);
    assert_eq!(parsed("[touchpad]\n\nfuzz=1\n\nfuzz=2").unwrap().touchpad_fuzz, 2);
    assert_eq!(parsed("[touchpad]\n\n\n\n[touchpad]\n\nfuzz=3").unwrap().touchpad_fuzz, 3);
    assert_eq!(parsed("[touchpad]\n\n\n\nfuzz=3").unwrap_err().0, "InvalidConfig");
    assert_eq!(parsed("[touchpad]\n\n[touchpad]\n\nfuzz=3").unwrap().touchpad_fuzz, 3);
}

#[test]
fn settings_of_the_other_section_are_refused() {
    assert_eq!(refused("fuzz=5"), quoting("InvalidConfig", "fuzz=5"));
    assert_eq!(refused("enabled=yes"), quoting("InvalidConfig", "enabled=yes"));
    assert_eq!(refused("[touchpad]\ndevice=autodetect"), quoting("InvalidConfig", "device=autodetect"));
    assert_eq!(refused("[touchpad]\nmodifiers=fn"), quoting("InvalidConfig", "modifiers=fn"));
    assert_eq!(
        refused("[touchpad]\nclear_all_with_escape=yes"),
        quoting("InvalidConfig", "clear_all_with_escape=yes")
    );
}

#[test]
fn lines_that_are_no_settings_are_refused() {
    assert_eq!(refused("hello"), quoting("InvalidConfig", "hello"));
    assert_eq!(refused("  # comment  "), quoting("InvalidConfig", "# comment"));
    assert_eq!(refused("[global]"), quoting("InvalidConfig", "[global]"));
    assert_eq!(refused("[Touchpad]"), quoting("InvalidConfig", "[Touchpad]"));
    assert_eq!(refused("=5"), quoting("InvalidConfig", "=5"));
    assert_eq!(refused("volume=5"), quoting("InvalidConfig", "volume=5"));
    assert_eq!(refused("Timeout=5"), quoting("InvalidConfig", "Timeout=5"));
    assert_eq!(refused("timeout=5\rfuzz=1"), quoting("InvalidTimeout", "5\rfuzz=1"));
}

#[test]
fn first_error_wins() {
    assert_eq!(refused("timeout=x\nfuzz=y"), quoting("InvalidTimeout", "x"));
    assert_eq!(refused("timeout=1\nbogus\ntimeout=x"), quoting("InvalidConfig", "bogus"));
}

#[test]
fn bad_numbers_are_refused_with_their_text() {
    assert_eq!(refused("timeout=abc"), quoting("InvalidTimeout", "abc"));
    assert_eq!(refused("timeout="), quoting("InvalidTimeout", ""));
    assert_eq!(refused("timeout=-1"), quoting("InvalidTimeout", "-1"));
    assert_eq!(refused("timeout=18446744073709551616"), quoting("InvalidTimeout", "18446744073709551616"));
    assert_eq!(refused("[touchpad]\ntimeout=1.5"), quoting("InvalidTimeout", "1.5"));
    assert_eq!(refused("[touchpad]\nfuzz=many"), quoting("InvalidFuzz", "many"));
    assert_eq!(refused("[touchpad]\nfuzz=+"), quoting("InvalidFuzz", "+"));
    assert_eq!(parsed("timeout=+18446744073709551615").unwrap().timeout, u64::MAX);
    assert_eq!(parsed("[touchpad]\nfuzz=0").unwrap().touchpad_fuzz, 0);
}

#[test]
fn unknown_modifiers_are_refused_with_their_name() {
    assert_eq!(refused("modifiers=hyper"), quoting("InvalidModifier", "hyper"));
    assert_eq!(refused("modifiers=fn,hyper,super"), quoting("InvalidModifier", "hyper"));
    assert_eq!(refused("modifiers="), quoting("InvalidModifier", ""));
    assert_eq!(refused("modifiers=fn,"), quoting("InvalidModifier", ""));
    assert_eq!(refused("modifiers=,fn"), quoting("InvalidModifier", ""));
    assert_eq!(refused("modifiers=fn, compose"), quoting("InvalidModifier", " compose"));
    assert_eq!(refused("modifiers=leftalt"), quoting("InvalidModifier", "leftalt"));
    assert_eq!(refused("modifiers=LeftShift"), quoting("InvalidModifier", "LeftShift"));
}

#[test]
fn truth_values_are_read_whatever_their_case() {
    assert!(!parsed("clear_all_with_escape=FALSE").unwrap().clear_all_with_escape);
    assert!(!parsed("clear_all_with_escape=No").unwrap().clear_all_with_escape);
    assert!(parsed("clear_all_with_escape=no\nclear_all_with_escape=True").unwrap().clear_all_with_escape);
    assert!(parsed("[touchpad]\nenabled=YES").unwrap().touchpad);
    assert_eq!(refused("[touchpad]\n enabled=maybe "), quoting("InvalidConfig", "enabled=maybe"));
    assert_eq!(refused("clear_all_with_escape=1"), quoting("InvalidConfig", "clear_all_with_escape=1"));
    assert_eq!(refused("clear_all_with_escape="), quoting("InvalidConfig", "clear_all_with_escape="));
}

#[test]
fn yesnt_reads_the_four_words() {
    assert!(matches!(yesnt("yes", "l"), Ok(true)));
    assert!(matches!(yesnt("true", "l"), Ok(true)));
    assert!(matches!(yesnt("no", "l"), Ok(false)));
    assert!(matches!(yesnt("false", "l"), Ok(false)));
    assert!(matches!(yesnt("tRuE", "l"), Ok(true)));
    assert_eq!(told(&yesnt("y", "the line").unwrap_err()), quoting("InvalidConfig", "the line"));
    assert_eq!(told(&yesnt("", "").unwrap_err()), quoting("InvalidConfig", ""));
    assert_eq!(told(&yesnt(" yes", "x").unwrap_err()), quoting("InvalidConfig", "x"));
}

fn lowercase_verdict(word: &str) -> Option<bool> {
    match word.to_lowercase().as_ref() {
        "yes" | "true" => Some(true),
        "no" | "false" => Some(false),
        _ => None,
    }
}

#[test]
fn yesnt_agrees_with_full_lowercasing_on_every_character() {
    let frames = [("", "es"), ("y", "s"), ("ye", ""), ("", "o"), ("n", ""), ("fa", "se"), ("tr", "e"), ("", "")];
    for code in 0..=0x10ffffu32 {
        let Some(c) = char::from_u32(code) else { continue };
        for (before, after) in frames {
            let word = format!("{before}{c}{after}");
            assert_eq!(yesnt(&word, "").ok(), lowercase_verdict(&word), "{word:?}");
        }
    }
}

#[test]
fn modifier_names_give_their_key_codes() {
    assert_eq!(modifier_name_to_key_code("leftshift"), Some(KEY_LEFTSHIFT));
    assert_eq!(modifier_name_to_key_code("rightshift"), Some(KEY_RIGHTSHIFT));
    assert_eq!(modifier_name_to_key_code("leftctrl"), Some(KEY_LEFTCTRL));
    assert_eq!(modifier_name_to_key_code("rightctrl"), Some(KEY_RIGHTCTRL));
    assert_eq!(modifier_name_to_key_code("compose"), Some(KEY_COMPOSE));
    assert_eq!(modifier_name_to_key_code("leftmeta"), Some(KEY_LEFTMETA));
    assert_eq!(modifier_name_to_key_code("fn"), Some(KEY_FN));
    assert_eq!(modifier_name_to_key_code("capslock"), Some(KEY_CAPSLOCK));
    assert_eq!(modifier_name_to_key_code("rightmeta"), Some(KEY_RIGHTMETA));
}

#[test]
fn other_names_give_no_key_code() {
    for name in ["", "leftalt", "rightalt", "shift", "Fn", "fn ", " fn", "leftshift,", "esc", "LEFTSHIFT"] {
        assert_eq!(modifier_name_to_key_code(name), None, "{name:?}");
    }
}

#[test]
fn failures_of_the_system_carry_their_cause_and_path() {
    let cause = || std::io::Error::new(std::io::ErrorKind::NotFound, "gone");
    let error = Error::FailedReadingConfig { io: cause(), path: "/etc/lollipop.conf".to_string() };
    assert_eq!(told(&error), quoting("FailedReadingConfig", "/etc/lollipop.conf"));
    let error = Error::OpenDeviceHandle { io: cause(), path: "/dev/input/event9".to_string() };
    assert_eq!(told(&error), quoting("OpenDeviceHandle", "/dev/input/event9"));
    match error {
        Error::OpenDeviceHandle { io, .. } => assert_eq!(io.kind(), std::io::ErrorKind::NotFound),
        _ => unreachable!(),
    }
}
