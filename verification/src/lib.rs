//! Frame-oriented input state tracking for a game loop.
//!
//! Two independent trackers ingest a stream of window-system events and
//! answer per-frame queries: [`keyboard::KeyboardManager`] for keys and
//! [`mouse::MouseManager`] for mouse buttons, cursor motion and scrolling.
//! Both are driven once per incoming event and once per frame boundary by
//! the host's event loop; the host converts its window library's raw events
//! into the plain [`event::InputEvent`] values consumed here and supplies
//! timestamps in milliseconds from any monotonic clock.

pub mod event;
pub mod keyboard;
pub mod mouse;
mod stamps;

pub use event::InputEvent;
pub use event::KeyCode;
pub use event::Transition;
pub use keyboard::KeyboardManager;
pub use mouse::MouseManager;
