//! Sticky modifier keys: the engine that turns a keyboard's event stream into
//! one where configured modifiers latch on a tap, lock on a quick second tap
//! and clear on a third, with an optional touchpad tap that lets go of the
//! latched ones.

pub mod config;
pub mod devices;
pub mod engine;
pub mod error;
pub mod key_state;
pub mod keys;
pub mod laws;
pub mod table;
pub mod text;
pub mod touchpad;

pub use config::{modifier_name_to_key_code, parse_config, yesnt, Config};
pub use devices::{pick_device, pick_touchpad};
pub use engine::InternalState;
pub use error::Error;
pub use key_state::KeyState;
pub use keys::KeyEvent;
pub use table::{ModifierEntry, ModifierTable};
pub use touchpad::Touchpad;
