use vstd::prelude::*;

verus! {

/// Identity of a physical key: an opaque numeric token chosen by the host
/// (for example the discriminant of its window library's key-code enum).
/// Two tokens denote the same key exactly when they are equal.
#[derive(Debug, Hash, PartialEq, Eq, Clone, Copy)]
pub struct KeyCode(pub u32);

/// Identity of a mouse button, with a catch-all variant for buttons that
/// the host's window library reports only as a numeric code.
#[derive(Debug, Hash, PartialEq, Eq, Clone, Copy)]
pub enum MouseButton {
    Left,
    Right,
    Middle,
    Other(u16),
}

/// The direction of a key or button transition.
#[derive(Debug, Hash, PartialEq, Eq, Clone, Copy)]
pub enum Transition {
    Pressed,
    Released,
}

/// One input event, already reduced to plain values by the host.
///
/// Cursor positions are absolute and scroll deltas are relative, both in
/// whole units of the host's choosing (pixels, lines, or a fixed-point
/// scale). Events a tracker does not understand are ignored; the host may
/// map anything unrecognized to `Ignored`.
#[derive(Debug, Clone, Copy)]
pub enum InputEvent {
    /// A key changed state.
    Key { key: KeyCode, state: Transition },
    /// A mouse button changed state.
    Button { button: MouseButton, state: Transition },
    /// The cursor moved to an absolute position.
    CursorMoved { x: i32, y: i32 },
    /// The wheel scrolled by a relative delta.
    Scroll { dx: i32, dy: i32 },
    /// The window lost input focus; both trackers reset defensively.
    FocusLost,
    /// Anything the trackers do not act on.
    Ignored,
}

} // verus!
