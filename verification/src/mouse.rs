use vstd::prelude::*;

use crate::event::{InputEvent, Transition};
use crate::stamps::StampMap;

pub use crate::event::MouseButton;

verus! {

/// Milliseconds a button must stay pressed before it reports as held.
pub const DEBOUNCE_WINDOW_MS: u64 = 100;

/// One recorded button transition of the current frame.
#[derive(Debug, Clone, Copy, PartialEq, Eq)]
pub struct MouseInput {
    pub button: MouseButton,
    pub state: Transition,
    pub repeat: bool,
}

/// One recorded wheel event of the current frame, as an (x, y) scroll delta.
#[derive(Debug, Clone, Copy, PartialEq, Eq)]
pub struct MouseWheelInput {
    pub delta: (i32, i32),
}

/// The numeric token a button is tracked under; distinct buttons get
/// distinct tokens.
pub open spec fn spec_button_code(button: MouseButton) -> u32 {
    match button {
        MouseButton::Left => 0,
        MouseButton::Right => 1,
        MouseButton::Middle => 2,
        MouseButton::Other(id) => (3 + id as u32) as u32,
    }
}

fn button_code(button: MouseButton) -> (r: u32)
    ensures
        r == spec_button_code(button),
{
    match button {
        MouseButton::Left => 0,
        MouseButton::Right => 1,
        MouseButton::Middle => 2,
        MouseButton::Other(id) => 3 + id as u32,
    }
}

/// `x` clamped to the range of a 64-bit signed integer.
pub open spec fn clip_i64(x: int) -> int {
    if x > i64::MAX as int {
        i64::MAX as int
    } else if x < i64::MIN as int {
        i64::MIN as int
    } else {
        x
    }
}

fn sat_add_i64(a: i64, b: i64) -> (r: i64)
    ensures
        r as int == clip_i64(a + b),
{
    if b >= 0 {
        if a > i64::MAX - b {
            i64::MAX
        } else {
            a + b
        }
    } else {
        if a < i64::MIN - b {
            i64::MIN
        } else {
            a + b
        }
    }
}

/// The abstract state of a mouse tracker: per-button transition maps as for
/// the keyboard, the frame's button and wheel logs, the last known absolute
/// cursor position, and the frame's motion and scroll accumulators.
#[verifier::ext_equal]
pub ghost struct MouseView {
    /// Buttons freshly pressed this frame.
    pub pressed: Map<u32, u64>,
    /// Buttons pressed and not yet released, stamped with their last press.
    pub held: Map<u32, u64>,
    /// Buttons released this frame.
    pub released: Map<u32, u64>,
    /// Button transitions of the current frame, in arrival order.
    pub events: Seq<MouseInput>,
    /// Wheel events of the current frame, in arrival order.
    pub wheel_events: Seq<MouseWheelInput>,
    pub debounce_ms: u64,
    /// Last known absolute cursor position; persists across frames.
    pub cursor: (i32, i32),
    /// Motion accumulated since the last frame boundary (saturating).
    pub motion: (i64, i64),
    /// Scroll accumulated since the last frame boundary (saturating).
    pub scroll: (i64, i64),
}

/// Whether a press of `button` counts as a repeat: the button is already
/// down. The mouse tracker uses this presence rule rather than the keyboard
/// tracker's time-window rule.
pub open spec fn ms_is_repeat(s: MouseView, button: MouseButton) -> bool {
    s.held.contains_key(spec_button_code(button))
}

/// Whether `button` was freshly pressed this frame.
pub open spec fn ms_just_pressed(s: MouseView, button: MouseButton) -> bool {
    s.pressed.contains_key(spec_button_code(button))
}

/// Whether `button` was released this frame.
pub open spec fn ms_just_released(s: MouseView, button: MouseButton) -> bool {
    s.released.contains_key(spec_button_code(button))
}

/// Whether `button` counts as held at `now_ms`: it is down and its last
/// press lies at least the debounce window in the past.
pub open spec fn ms_held(s: MouseView, button: MouseButton, now_ms: u64) -> bool {
    s.held.contains_key(spec_button_code(button)) && now_ms >= s.held[spec_button_code(button)]
        + s.debounce_ms
}

/// The state after a press of `button` at `now_ms`.
pub open spec fn mouse_press_step(s: MouseView, button: MouseButton, now_ms: u64) -> MouseView {
    let repeat = ms_is_repeat(s, button);
    MouseView {
        pressed: if repeat {
            s.pressed
        } else {
            s.pressed.insert(spec_button_code(button), now_ms)
        },
        held: s.held.insert(spec_button_code(button), now_ms),
        released: s.released,
        events: s.events.push(MouseInput { button, state: Transition::Pressed, repeat }),
        wheel_events: s.wheel_events,
        debounce_ms: s.debounce_ms,
        cursor: s.cursor,
        motion: s.motion,
        scroll: s.scroll,
    }
}

/// The state after a release of `button` at `now_ms`.
pub open spec fn mouse_release_step(s: MouseView, button: MouseButton, now_ms: u64) -> MouseView {
    MouseView {
        pressed: s.pressed,
        held: s.held.remove(spec_button_code(button)),
        released: s.released.insert(spec_button_code(button), now_ms),
        events: s.events.push(MouseInput { button, state: Transition::Released, repeat: false }),
        wheel_events: s.wheel_events,
        debounce_ms: s.debounce_ms,
        cursor: s.cursor,
        motion: s.motion,
        scroll: s.scroll,
    }
}

/// The state after the cursor moved to the absolute position (x, y): the
/// delta from the last known position joins the motion accumulator
/// (saturating at the i64 range) and the position is stored.
pub open spec fn mouse_move_step(s: MouseView, x: i32, y: i32) -> MouseView {
    MouseView {
        pressed: s.pressed,
        held: s.held,
        released: s.released,
        events: s.events,
        wheel_events: s.wheel_events,
        debounce_ms: s.debounce_ms,
        cursor: (x, y),
        motion: (
            clip_i64(s.motion.0 + (x - s.cursor.0)) as i64,
            clip_i64(s.motion.1 + (y - s.cursor.1)) as i64,
        ),
        scroll: s.scroll,
    }
}

/// The state after a scroll by (dx, dy): the delta joins the scroll
/// accumulator (saturating at the i64 range) and the wheel event is logged.
pub open spec fn mouse_scroll_step(s: MouseView, dx: i32, dy: i32) -> MouseView {
    MouseView {
        pressed: s.pressed,
        held: s.held,
        released: s.released,
        events: s.events,
        wheel_events: s.wheel_events.push(MouseWheelInput { delta: (dx, dy) }),
        debounce_ms: s.debounce_ms,
        cursor: s.cursor,
        motion: s.motion,
        scroll: (
            clip_i64(s.scroll.0 + dx) as i64,
            clip_i64(s.scroll.1 + dy) as i64,
        ),
    }
}

/// The state after a frame boundary: one-shot marks, both logs and both
/// accumulators are cleared; held buttons and the absolute cursor position
/// persist.
pub open spec fn mouse_end_frame(s: MouseView) -> MouseView {
    MouseView {
        pressed: Map::empty(),
        held: s.held,
        released: Map::empty(),
        events: Seq::empty(),
        wheel_events: Seq::empty(),
        debounce_ms: s.debounce_ms,
        cursor: s.cursor,
        motion: (0, 0),
        scroll: (0, 0),
    }
}

/// The state after every button state, both logs and both accumulators are
/// forgotten, as on a focus loss — the same defensive reset against stuck
/// buttons as the keyboard tracker's. The absolute cursor position persists
/// (it is not transition state) and so does the timing configuration.
pub open spec fn mouse_cleared(s: MouseView) -> MouseView {
    MouseView {
        pressed: Map::empty(),
        held: Map::empty(),
        released: Map::empty(),
        events: Seq::empty(),
        wheel_events: Seq::empty(),
        debounce_ms: s.debounce_ms,
        cursor: s.cursor,
        motion: (0, 0),
        scroll: (0, 0),
    }
}

/// The state of a freshly constructed tracker: cursor at the origin,
/// accumulators at zero.
pub open spec fn mouse_init() -> MouseView {
    MouseView {
        pressed: Map::empty(),
        held: Map::empty(),
        released: Map::empty(),
        events: Seq::empty(),
        wheel_events: Seq::empty(),
        debounce_ms: DEBOUNCE_WINDOW_MS,
        cursor: (0, 0),
        motion: (0, 0),
        scroll: (0, 0),
    }
}

/// How one incoming event at `now_ms` transforms the tracker state. Button
/// transitions, cursor moves and scrolls update it; a focus loss resets all
/// button and frame state defensively (only the absolute cursor position
/// survives); every other event leaves the tracker unchanged.
pub open spec fn mouse_step(s: MouseView, event: InputEvent, now_ms: u64) -> MouseView {
    match event {
        InputEvent::Button { button, state } => match state {
            Transition::Pressed => mouse_press_step(s, button, now_ms),
            Transition::Released => mouse_release_step(s, button, now_ms),
        },
        InputEvent::CursorMoved { x, y } => mouse_move_step(s, x, y),
        InputEvent::Scroll { dx, dy } => mouse_scroll_step(s, dx, dy),
        InputEvent::FocusLost => mouse_cleared(s),
        _ => s,
    }
}

/// The state after a sequence of cursor moves, oldest first.
pub open spec fn moves_run(s: MouseView, positions: Seq<(i32, i32)>) -> MouseView
    decreases positions.len(),
{
    if positions.len() == 0 {
        s
    } else {
        mouse_move_step(moves_run(s, positions.drop_last()), positions.last().0, positions.last().1)
    }
}

/// The exact vector sum of consecutive position deltas over a sequence of
/// cursor positions, the first delta taken against `start`.
pub open spec fn delta_sum(start: (i32, i32), positions: Seq<(i32, i32)>) -> (int, int)
    decreases positions.len(),
{
    if positions.len() == 0 {
        (0, 0)
    } else {
        let prev = if positions.len() == 1 {
            start
        } else {
            positions[positions.len() - 2]
        };
        let rest = delta_sum(start, positions.drop_last());
        (
            rest.0 + (positions.last().0 - prev.0),
            rest.1 + (positions.last().1 - prev.1),
        )
    }
}

/// Tracks per-frame mouse state: button transitions with the same
/// press/hold/release bookkeeping as the keyboard tracker, plus the absolute
/// cursor position and the motion and scroll accumulated since the last
/// frame boundary. Timestamps are milliseconds from one monotonic clock of
/// the host's choosing.
pub struct MouseManager {
    buttons_pressed: StampMap,
    buttons_held: StampMap,
    buttons_released: StampMap,
    wheel_events: Vec<MouseWheelInput>,
    events: Vec<MouseInput>,
    debounce_ms: u64,
    cursor_x: i32,
    cursor_y: i32,
    motion_x: i64,
    motion_y: i64,
    scroll_x: i64,
    scroll_y: i64,
}

impl View for MouseManager {
    type V = MouseView;

    closed spec fn view(&self) -> MouseView {
        MouseView {
            pressed: self.buttons_pressed@,
            held: self.buttons_held@,
            released: self.buttons_released@,
            events: self.events@,
            wheel_events: self.wheel_events@,
            debounce_ms: self.debounce_ms,
            cursor: (self.cursor_x, self.cursor_y),
            motion: (self.motion_x, self.motion_y),
            scroll: (self.scroll_x, self.scroll_y),
        }
    }
}

impl MouseManager {
    /// The internal stamp stores are well formed.
    pub closed spec fn wf(self) -> bool {
        self.buttons_pressed.wf() && self.buttons_held.wf() && self.buttons_released.wf()
    }

    /// A tracker with no button state, empty logs, the cursor at the origin
    /// and both accumulators at zero.
    pub fn new() -> (m: MouseManager)
        ensures
            m.wf(),
            m@ == mouse_init(),
    {
        let m = MouseManager {
            buttons_pressed: StampMap::new(),
            buttons_held: StampMap::new(),
            buttons_released: StampMap::new(),
            wheel_events: Vec::new(),
            events: Vec::new(),
            debounce_ms: DEBOUNCE_WINDOW_MS,
            cursor_x: 0,
            cursor_y: 0,
            motion_x: 0,
            motion_y: 0,
            scroll_x: 0,
            scroll_y: 0,
        };
        proof {
            assert(m@ =~= mouse_init());
        }
        m
    }

    /// Move the cursor to an absolute position: the delta from the last
    /// known position joins the motion accumulator and the position is
    /// stored.
    pub fn update_cursor_position(&mut self, position: (i32, i32))
        requires
            old(self).wf(),
        ensures
            final(self).wf(),
            final(self)@ == mouse_move_step(old(self)@, position.0, position.1),
    {
        let dx = position.0 as i64 - self.cursor_x as i64;
        let dy = position.1 as i64 - self.cursor_y as i64;
        self.motion_x = sat_add_i64(self.motion_x, dx);
        self.motion_y = sat_add_i64(self.motion_y, dy);
        self.cursor_x = position.0;
        self.cursor_y = position.1;
        proof {
            assert(self@ =~= mouse_move_step(old(self)@, position.0, position.1));
        }
    }

    /// The last known absolute cursor position.
    pub fn get_cursor_position(&self) -> (r: (i32, i32))
        ensures
            r == self@.cursor,
    {
        (self.cursor_x, self.cursor_y)
    }

    /// The motion accumulated since the last frame boundary.
    pub fn get_accumulated_motion(&self) -> (r: (i64, i64))
        ensures
            r == self@.motion,
    {
        (self.motion_x, self.motion_y)
    }

    /// The scroll accumulated since the last frame boundary.
    pub fn get_accumulated_scroll(&self) -> (r: (i64, i64))
        ensures
            r == self@.scroll,
    {
        (self.scroll_x, self.scroll_y)
    }

    /// Feed one event, stamped with the current time in milliseconds.
    /// Button transitions update the press/hold/release bookkeeping, cursor
    /// moves and scrolls feed the accumulators, a focus loss resets every
    /// button state and frame accumulation defensively (a button held across
    /// a focus loss is forgotten, so the next physical press counts as
    /// fresh; only the absolute cursor position survives), and any other
    /// event leaves the tracker unchanged.
    pub fn handle_event(&mut self, event: &InputEvent, now_ms: u64)
        requires
            old(self).wf(),
        ensures
            final(self).wf(),
            final(self)@ == mouse_step(old(self)@, *event, now_ms),
    {
        match *event {
            InputEvent::Button { button, state } => {
                let code = button_code(button);
                match state {
                    Transition::Pressed => {
                        let is_repeat = self.buttons_held.contains_key(code);
                        if !is_repeat {
                            self.buttons_pressed.insert(code, now_ms);
                        }
                        self.buttons_held.insert(code, now_ms);
                        self.events.push(
                            MouseInput { button, state: Transition::Pressed, repeat: is_repeat },
                        );
                        proof {
                            assert(self@ =~= mouse_step(old(self)@, *event, now_ms));
                        }
                    },
                    Transition::Released => {
                        self.buttons_released.insert(code, now_ms);
                        self.buttons_held.remove(code);
                        self.events.push(
                            MouseInput { button, state: Transition::Released, repeat: false },
                        );
                        proof {
                            assert(self@ =~= mouse_step(old(self)@, *event, now_ms));
                        }
                    },
                }
            },
            InputEvent::CursorMoved { x, y } => {
                self.update_cursor_position((x, y));
            },
            InputEvent::Scroll { dx, dy } => {
                self.scroll_x = sat_add_i64(self.scroll_x, dx as i64);
                self.scroll_y = sat_add_i64(self.scroll_y, dy as i64);
                self.wheel_events.push(MouseWheelInput { delta: (dx, dy) });
                proof {
                    assert(self@ =~= mouse_step(old(self)@, *event, now_ms));
                }
            },
            InputEvent::FocusLost => self.reset_all_states(),
            _ => {},
        }
    }

    /// Forget every button state, both logs and both accumulators, as after
    /// a focus loss; the absolute cursor position persists.
    fn reset_all_states(&mut self)
        ensures
            final(self).wf(),
            final(self)@ == mouse_cleared(old(self)@),
    {
        self.buttons_pressed.clear();
        self.buttons_held.clear();
        self.buttons_released.clear();
        self.events.clear();
        self.wheel_events.clear();
        self.motion_x = 0;
        self.motion_y = 0;
        self.scroll_x = 0;
        self.scroll_y = 0;
        proof {
            assert(self@ =~= mouse_cleared(old(self)@));
        }
    }

    /// Close the frame: clear the one-shot press/release marks, both logs
    /// and both accumulators; held buttons and the cursor position persist.
    pub fn end_frame(&mut self)
        requires
            old(self).wf(),
        ensures
            final(self).wf(),
            final(self)@ == mouse_end_frame(old(self)@),
    {
        self.buttons_pressed.clear();
        self.buttons_released.clear();
        self.events.clear();
        self.wheel_events.clear();
        self.motion_x = 0;
        self.motion_y = 0;
        self.scroll_x = 0;
        self.scroll_y = 0;
        proof {
            assert(self@ =~= mouse_end_frame(old(self)@));
        }
    }

    /// Whether the button was freshly pressed during the current frame.
    pub fn is_button_just_pressed(&self, button: MouseButton) -> (r: bool)
        requires
            self.wf(),
        ensures
            r == ms_just_pressed(self@, button),
    {
        self.buttons_pressed.contains_key(button_code(button))
    }

    /// Whether the button counts as held at `now_ms`: pressed, not yet
    /// released, and past the debounce window since its last press.
    pub fn is_button_held(&self, button: MouseButton, now_ms: u64) -> (r: bool)
        requires
            self.wf(),
        ensures
            r == ms_held(self@, button, now_ms),
    {
        match self.buttons_held.get(button_code(button)) {
            Some(last_held) => now_ms >= last_held && now_ms - last_held >= self.debounce_ms,
            None => false,
        }
    }

    /// Whether the button was released during the current frame.
    pub fn is_button_just_released(&self, button: MouseButton) -> (r: bool)
        requires
            self.wf(),
        ensures
            r == ms_just_released(self@, button),
    {
        self.buttons_released.contains_key(button_code(button))
    }

    /// The frame's button transitions so far, in arrival order.
    pub fn get_events(&self) -> (r: &Vec<MouseInput>)
        ensures
            r@ == self@.events,
    {
        &self.events
    }

    /// The frame's wheel events so far, in arrival order.
    pub fn get_wheel_events(&self) -> (r: &Vec<MouseWheelInput>)
        ensures
            r@ == self@.wheel_events,
    {
        &self.wheel_events
    }
}

/// From a fresh frame (motion accumulator zero), a run of cursor moves
/// accumulates exactly the vector sum of the consecutive position deltas —
/// saturation can never bite, because that sum telescopes to the final
/// position minus the starting one, which two 32-bit coordinates bound well
/// inside the 64-bit range.
pub proof fn lemma_motion_accumulates(s: MouseView, positions: Seq<(i32, i32)>)
    requires
        s.motion.0 == 0,
        s.motion.1 == 0,
    ensures
        moves_run(s, positions).motion.0 as int == delta_sum(s.cursor, positions).0,
        moves_run(s, positions).motion.1 as int == delta_sum(s.cursor, positions).1,
        moves_run(s, positions).cursor == (if positions.len() == 0 {
            s.cursor
        } else {
            positions.last()
        }),
        delta_sum(s.cursor, positions).0 == (if positions.len() == 0 {
            0int
        } else {
            positions.last().0 - s.cursor.0
        }),
        delta_sum(s.cursor, positions).1 == (if positions.len() == 0 {
            0int
        } else {
            positions.last().1 - s.cursor.1
        }),
    decreases positions.len(),
{
    if positions.len() > 0 {
        let dl = positions.drop_last();
        lemma_motion_accumulates(s, dl);
        let s1 = moves_run(s, dl);
        let prev = if positions.len() == 1 {
            s.cursor
        } else {
            positions[positions.len() - 2]
        };
        if positions.len() > 1 {
            assert(dl.last() == positions[positions.len() - 2]);
        }
        assert(s1.cursor == prev);
        assert(s1.motion.0 == delta_sum(s.cursor, dl).0);
        assert(s1.motion.1 == delta_sum(s.cursor, dl).1);
    }
}

/// A focus loss clears all button state: immediately afterwards no button
/// is held at any query time, none is just-pressed or just-released, and
/// both logs and both accumulators are empty, even though no release events
/// were received; the absolute cursor position is kept.
pub proof fn lemma_focus_loss_clears_mouse(s: MouseView, now_ms: u64)
    ensures
        forall|button: MouseButton, t: u64|
            !(#[trigger] ms_held(mouse_step(s, InputEvent::FocusLost, now_ms), button, t)),
        forall|button: MouseButton|
            !(#[trigger] ms_just_pressed(mouse_step(s, InputEvent::FocusLost, now_ms), button)),
        forall|button: MouseButton|
            !(#[trigger] ms_just_released(mouse_step(s, InputEvent::FocusLost, now_ms), button)),
        mouse_step(s, InputEvent::FocusLost, now_ms).events == Seq::<MouseInput>::empty(),
        mouse_step(s, InputEvent::FocusLost, now_ms).wheel_events == Seq::<
            MouseWheelInput,
        >::empty(),
        mouse_step(s, InputEvent::FocusLost, now_ms).motion == (0i64, 0i64),
        mouse_step(s, InputEvent::FocusLost, now_ms).scroll == (0i64, 0i64),
        mouse_step(s, InputEvent::FocusLost, now_ms).cursor == s.cursor,
{
}

} // verus!
