//! The terminal side of the app, as far as it can be told without a terminal:
//! input events, the keyboard mode, the frame rate cap and console requests.

pub mod event;
pub mod runtime;
pub mod tui;

pub use event::{Event, Key, KeyKind, KeyPress};
pub use runtime::ConsoleRequest;
pub use tui::KeyboardMode;
