use vstd::prelude::*;

use crate::event::{InputEvent, KeyCode, Transition};
use crate::stamps::StampMap;

verus! {

/// Milliseconds a key must stay pressed before it reports as held; a key
/// deliberately does not report held immediately on press, so a short tap
/// never counts as holding.
pub const DEBOUNCE_WINDOW_MS: u64 = 100;

/// Press events arriving within this many milliseconds of the key's last
/// press refresh count as auto-repeats, not fresh presses.
pub const REPEAT_INTERVAL_MS: u64 = 50;

/// One recorded key transition of the current frame.
#[derive(Debug, Clone)]
pub struct KeyboardInput {
    pub key_code: KeyCode,
    pub state: Transition,
    pub repeat: bool,
    /// Text produced by the keypress, where the host supplies any
    /// (dead-key composition); transitions recorded here carry none.
    pub text: Option<String>,
}

/// The abstract state of a keyboard tracker: three maps from key token to
/// the millisecond timestamp of the key's last relevant transition, the
/// frame's event log, and the tracker's fixed timing configuration.
#[verifier::ext_equal]
pub ghost struct KeyboardView {
    /// Keys freshly pressed this frame.
    pub pressed: Map<u32, u64>,
    /// Keys pressed and not yet released, stamped with their last press refresh.
    pub held: Map<u32, u64>,
    /// Keys released this frame.
    pub released: Map<u32, u64>,
    /// Transitions of the current frame, in arrival order.
    pub events: Seq<KeyboardInput>,
    pub debounce_ms: u64,
    pub repeat_ms: u64,
}

/// Whether a press of `key` at `now_ms` is an auto-repeat: the key is still
/// down and its last press refresh lies within the repeat interval.
pub open spec fn kb_is_repeat(s: KeyboardView, key: KeyCode, now_ms: u64) -> bool {
    s.held.contains_key(key.0) && now_ms <= s.held[key.0] + s.repeat_ms
}

/// Whether `key` was freshly pressed this frame.
pub open spec fn kb_just_pressed(s: KeyboardView, key: KeyCode) -> bool {
    s.pressed.contains_key(key.0)
}

/// Whether `key` was released this frame.
pub open spec fn kb_just_released(s: KeyboardView, key: KeyCode) -> bool {
    s.released.contains_key(key.0)
}

/// Whether `key` counts as held at `now_ms`: it is down and its last press
/// refresh lies at least the debounce window in the past.
pub open spec fn kb_held(s: KeyboardView, key: KeyCode, now_ms: u64) -> bool {
    s.held.contains_key(key.0) && now_ms >= s.held[key.0] + s.debounce_ms
}

/// The state after a press of `key` at `now_ms`: the held stamp refreshes
/// always, the just-pressed mark is set only for a fresh (non-repeat) press,
/// and the transition is logged with its repeat flag.
pub open spec fn kb_press_step(s: KeyboardView, key: KeyCode, now_ms: u64) -> KeyboardView {
    let repeat = kb_is_repeat(s, key, now_ms);
    KeyboardView {
        pressed: if repeat {
            s.pressed
        } else {
            s.pressed.insert(key.0, now_ms)
        },
        held: s.held.insert(key.0, now_ms),
        released: s.released,
        events: s.events.push(
            KeyboardInput { key_code: key, state: Transition::Pressed, repeat, text: None },
        ),
        debounce_ms: s.debounce_ms,
        repeat_ms: s.repeat_ms,
    }
}

/// The state after a release of `key` at `now_ms`: the key leaves the held
/// map, gains a just-released mark, and the transition is logged.
pub open spec fn kb_release_step(s: KeyboardView, key: KeyCode, now_ms: u64) -> KeyboardView {
    KeyboardView {
        pressed: s.pressed,
        held: s.held.remove(key.0),
        released: s.released.insert(key.0, now_ms),
        events: s.events.push(
            KeyboardInput { key_code: key, state: Transition::Released, repeat: false, text: None },
        ),
        debounce_ms: s.debounce_ms,
        repeat_ms: s.repeat_ms,
    }
}

/// The state after a key transition of either direction.
pub open spec fn kb_key_step(
    s: KeyboardView,
    key: KeyCode,
    state: Transition,
    now_ms: u64,
) -> KeyboardView {
    match state {
        Transition::Pressed => kb_press_step(s, key, now_ms),
        Transition::Released => kb_release_step(s, key, now_ms),
    }
}

/// The state after every key state and the event log are forgotten, as on a
/// focus loss; only the timing configuration survives.
pub open spec fn kb_cleared(s: KeyboardView) -> KeyboardView {
    KeyboardView {
        pressed: Map::empty(),
        held: Map::empty(),
        released: Map::empty(),
        events: Seq::empty(),
        debounce_ms: s.debounce_ms,
        repeat_ms: s.repeat_ms,
    }
}

/// The state after a frame boundary: one-shot marks and the event log are
/// cleared, held keys persist.
pub open spec fn kb_end_frame(s: KeyboardView) -> KeyboardView {
    KeyboardView {
        pressed: Map::empty(),
        held: s.held,
        released: Map::empty(),
        events: Seq::empty(),
        debounce_ms: s.debounce_ms,
        repeat_ms: s.repeat_ms,
    }
}

/// The state of a freshly constructed tracker.
pub open spec fn kb_init() -> KeyboardView {
    KeyboardView {
        pressed: Map::empty(),
        held: Map::empty(),
        released: Map::empty(),
        events: Seq::empty(),
        debounce_ms: DEBOUNCE_WINDOW_MS,
        repeat_ms: REPEAT_INTERVAL_MS,
    }
}

/// How one incoming event at `now_ms` transforms the tracker state: key
/// transitions update the maps, a focus loss forgets everything, and every
/// other event is ignored.
pub open spec fn kb_step(s: KeyboardView, event: InputEvent, now_ms: u64) -> KeyboardView {
    match event {
        InputEvent::Key { key, state } => kb_key_step(s, key, state, now_ms),
        InputEvent::FocusLost => kb_cleared(s),
        _ => s,
    }
}

/// The state after a whole sequence of timestamped events, oldest first.
pub open spec fn kb_run(s: KeyboardView, events: Seq<(InputEvent, u64)>) -> KeyboardView
    decreases events.len(),
{
    if events.len() == 0 {
        s
    } else {
        kb_step(kb_run(s, events.drop_last()), events.last().0, events.last().1)
    }
}

/// Whether an event concerns `key` directly or forgets it wholesale.
pub open spec fn kb_event_touches(event: InputEvent, key: KeyCode) -> bool {
    match event {
        InputEvent::Key { key: k, state } => k == key,
        InputEvent::FocusLost => true,
        _ => false,
    }
}

/// Tracks per-frame keyboard state: which keys were freshly pressed or
/// released this frame, which are held (debounced), and the frame's ordered
/// transition log. Driven by [`Self::handle_event`] for every incoming event
/// and by [`Self::end_frame`] once per game-loop iteration; all timestamps
/// are milliseconds from one monotonic clock of the host's choosing.
pub struct KeyboardManager {
    keys_pressed: StampMap,
    keys_held: StampMap,
    keys_released: StampMap,
    events: Vec<KeyboardInput>,
    debounce_ms: u64,
    repeat_ms: u64,
}

impl View for KeyboardManager {
    type V = KeyboardView;

    closed spec fn view(&self) -> KeyboardView {
        KeyboardView {
            pressed: self.keys_pressed@,
            held: self.keys_held@,
            released: self.keys_released@,
            events: self.events@,
            debounce_ms: self.debounce_ms,
            repeat_ms: self.repeat_ms,
        }
    }
}

impl KeyboardManager {
    /// The internal stamp stores are well formed.
    pub closed spec fn wf(self) -> bool {
        self.keys_pressed.wf() && self.keys_held.wf() && self.keys_released.wf()
    }

    /// A tracker with no key state, no logged events, and the fixed
    /// debounce and repeat windows.
    pub fn new() -> (m: KeyboardManager)
        ensures
            m.wf(),
            m@ == kb_init(),
    {
        let m = KeyboardManager {
            keys_pressed: StampMap::new(),
            keys_held: StampMap::new(),
            keys_released: StampMap::new(),
            events: Vec::new(),
            debounce_ms: DEBOUNCE_WINDOW_MS,
            repeat_ms: REPEAT_INTERVAL_MS,
        };
        proof {
            assert(m@ =~= kb_init());
        }
        m
    }

    /// Feed one event, stamped with the current time in milliseconds. Key
    /// transitions update the press/hold/release bookkeeping, a focus loss
    /// resets every key state defensively (a key held across a focus loss is
    /// forgotten, so the next physical press counts as fresh), and any other
    /// event leaves the tracker unchanged.
    pub fn handle_event(&mut self, event: &InputEvent, now_ms: u64)
        requires
            old(self).wf(),
        ensures
            final(self).wf(),
            final(self)@ == kb_step(old(self)@, *event, now_ms),
    {
        match *event {
            InputEvent::Key { key, state } => self.process_key_event(key, state, now_ms),
            InputEvent::FocusLost => self.reset_all_states(),
            _ => {},
        }
    }

    /// Apply one key transition.
    fn process_key_event(&mut self, key: KeyCode, state: Transition, now_ms: u64)
        requires
            old(self).wf(),
        ensures
            final(self).wf(),
            final(self)@ == kb_key_step(old(self)@, key, state, now_ms),
    {
        match state {
            Transition::Pressed => {
                let is_repeat = match self.keys_held.get(key.0) {
                    Some(last_held) => now_ms < last_held || now_ms - last_held <= self.repeat_ms,
                    None => false,
                };
                proof {
                    assert(is_repeat == kb_is_repeat(self@, key, now_ms));
                }
                if !is_repeat {
                    self.keys_pressed.insert(key.0, now_ms);
                }
                self.keys_held.insert(key.0, now_ms);
                self.events.push(
                    KeyboardInput {
                        key_code: key,
                        state: Transition::Pressed,
                        repeat: is_repeat,
                        text: None,
                    },
                );
                proof {
                    assert(self@ =~= kb_key_step(old(self)@, key, state, now_ms));
                }
            },
            Transition::Released => {
                self.keys_released.insert(key.0, now_ms);
                self.keys_held.remove(key.0);
                self.events.push(
                    KeyboardInput {
                        key_code: key,
                        state: Transition::Released,
                        repeat: false,
                        text: None,
                    },
                );
                proof {
                    assert(self@ =~= kb_key_step(old(self)@, key, state, now_ms));
                }
            },
        }
    }

    /// Forget every key state and the event log, as after a focus loss.
    fn reset_all_states(&mut self)
        ensures
            final(self).wf(),
            final(self)@ == kb_cleared(old(self)@),
    {
        self.keys_pressed.clear();
        self.keys_held.clear();
        self.keys_released.clear();
        self.events.clear();
        proof {
            assert(self@ =~= kb_cleared(old(self)@));
        }
    }

    /// Close the frame: clear the one-shot press/release marks and the event
    /// log; keys still down stay held.
    pub fn end_frame(&mut self)
        requires
            old(self).wf(),
        ensures
            final(self).wf(),
            final(self)@ == kb_end_frame(old(self)@),
    {
        self.keys_pressed.clear();
        self.keys_released.clear();
        self.events.clear();
        proof {
            assert(self@ =~= kb_end_frame(old(self)@));
        }
    }

    /// Whether the key was freshly pressed during the current frame.
    pub fn is_key_just_pressed(&self, key: KeyCode) -> (r: bool)
        requires
            self.wf(),
        ensures
            r == kb_just_pressed(self@, key),
    {
        self.keys_pressed.contains_key(key.0)
    }

    /// Whether the key counts as held at `now_ms`: pressed, not yet
    /// released, and past the debounce window since its last press refresh.
    pub fn is_key_held(&self, key: KeyCode, now_ms: u64) -> (r: bool)
        requires
            self.wf(),
        ensures
            r == kb_held(self@, key, now_ms),
    {
        match self.keys_held.get(key.0) {
            Some(last_held) => now_ms >= last_held && now_ms - last_held >= self.debounce_ms,
            None => false,
        }
    }

    /// Whether the key was released during the current frame.
    pub fn is_key_just_released(&self, key: KeyCode) -> (r: bool)
        requires
            self.wf(),
        ensures
            r == kb_just_released(self@, key),
    {
        self.keys_released.contains_key(key.0)
    }

    /// Whether a press of the key at `now_ms` would count as an auto-repeat.
    pub fn is_key_repeat(&self, key: KeyCode, now_ms: u64) -> (r: bool)
        requires
            self.wf(),
        ensures
            r == kb_is_repeat(self@, key, now_ms),
    {
        match self.keys_held.get(key.0) {
            Some(last_held) => now_ms < last_held || now_ms - last_held <= self.repeat_ms,
            None => false,
        }
    }

    /// The frame's key transitions so far, in arrival order.
    pub fn get_events(&self) -> (r: &Vec<KeyboardInput>)
        ensures
            r@ == self@.events,
    {
        &self.events
    }
}

/// A fresh (non-repeat) press marks the key just-pressed and stamps its held
/// entry with the press time; it does not count as held at the press instant
/// itself when the debounce window is positive.
pub proof fn lemma_press_marks_just_pressed(s: KeyboardView, key: KeyCode, now_ms: u64)
    requires
        !kb_is_repeat(s, key, now_ms),
    ensures
        ({
            let s2 = kb_step(s, (InputEvent::Key { key, state: Transition::Pressed }), now_ms);
            &&& kb_just_pressed(s2, key)
            &&& s2.held.contains_key(key.0)
            &&& s2.held[key.0] == now_ms
            &&& (s.debounce_ms > 0 ==> !kb_held(s2, key, now_ms))
        }),
{
}

/// Just-pressed state lasts for the remainder of the frame: any sequence of
/// further events that contains no focus loss keeps the key just-pressed.
pub proof fn lemma_just_pressed_persists(
    s: KeyboardView,
    events: Seq<(InputEvent, u64)>,
    key: KeyCode,
)
    requires
        kb_just_pressed(s, key),
        forall|i: int| 0 <= i < events.len() ==> !((#[trigger] events[i]).0 is FocusLost),
    ensures
        kb_just_pressed(kb_run(s, events), key),
    decreases events.len(),
{
    if events.len() > 0 {
        let dl = events.drop_last();
        assert forall|i: int| 0 <= i < dl.len() implies !((#[trigger] dl[i]).0 is FocusLost) by {
            assert(dl[i] == events[i]);
        }
        lemma_just_pressed_persists(s, dl, key);
        assert(!(events[events.len() - 1].0 is FocusLost));
    }
}

/// A run of events that never touches `key` (no transition of it, no focus
/// loss) preserves the key's held stamp and the timing configuration.
proof fn lemma_run_untouched_preserves(
    s: KeyboardView,
    events: Seq<(InputEvent, u64)>,
    key: KeyCode,
)
    requires
        forall|i: int| 0 <= i < events.len() ==> !kb_event_touches((#[trigger] events[i]).0, key),
    ensures
        kb_run(s, events).held.contains_key(key.0) == s.held.contains_key(key.0),
        s.held.contains_key(key.0) ==> kb_run(s, events).held[key.0] == s.held[key.0],
        kb_run(s, events).debounce_ms == s.debounce_ms,
    decreases events.len(),
{
    if events.len() > 0 {
        let dl = events.drop_last();
        assert forall|i: int| 0 <= i < dl.len() implies !kb_event_touches(
            (#[trigger] dl[i]).0,
            key,
        ) by {
            assert(dl[i] == events[i]);
        }
        lemma_run_untouched_preserves(s, dl, key);
        let s1 = kb_run(s, dl);
        let e = events.last().0;
        assert(!kb_event_touches(e, key)) by {
            assert(events[events.len() - 1] == events.last());
        }
        match e {
            InputEvent::Key { key: k2, state } => {
                assert(k2 != key);
                assert(k2.0 != key.0);
            },
            _ => {},
        }
    }
}

/// After a press of `key` at time `t`, as long as every later event leaves
/// the key untouched and focus is kept, the key reports held at a query time
/// exactly once the debounce window has elapsed since the press.
pub proof fn lemma_held_after_debounce(
    s: KeyboardView,
    key: KeyCode,
    t: u64,
    events: Seq<(InputEvent, u64)>,
    now_ms: u64,
)
    requires
        forall|i: int| 0 <= i < events.len() ==> !kb_event_touches((#[trigger] events[i]).0, key),
    ensures
        ({
            let s2 = kb_run(
                kb_step(s, (InputEvent::Key { key, state: Transition::Pressed }), t),
                events,
            );
            kb_held(s2, key, now_ms) <==> now_ms >= t + s.debounce_ms
        }),
{
    let s1 = kb_step(s, (InputEvent::Key { key, state: Transition::Pressed }), t);
    assert(s1.held.contains_key(key.0) && s1.held[key.0] == t);
    lemma_run_untouched_preserves(s1, events, key);
}

/// Ending a frame clears the one-shot marks: afterwards no key is
/// just-pressed or just-released and the event log is empty, until new
/// events arrive.
pub proof fn lemma_end_frame_clears(s: KeyboardView)
    ensures
        forall|key: KeyCode| !(#[trigger] kb_just_pressed(kb_end_frame(s), key)),
        forall|key: KeyCode| !(#[trigger] kb_just_released(kb_end_frame(s), key)),
        kb_end_frame(s).events == Seq::<KeyboardInput>::empty(),
{
}

/// A focus loss clears all held state: immediately afterwards no key is
/// held at any query time, and none is just-pressed or just-released, even
/// though no release event was received.
pub proof fn lemma_focus_loss_clears(s: KeyboardView, now_ms: u64)
    ensures
        forall|key: KeyCode, t: u64|
            !(#[trigger] kb_held(kb_step(s, InputEvent::FocusLost, now_ms), key, t)),
        forall|key: KeyCode|
            !(#[trigger] kb_just_pressed(kb_step(s, InputEvent::FocusLost, now_ms), key)),
        forall|key: KeyCode|
            !(#[trigger] kb_just_released(kb_step(s, InputEvent::FocusLost, now_ms), key)),
{
}

} // verus!
