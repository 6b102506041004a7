//! Per-key button state: held down, and pressed or released since the last frame.
use vstd::prelude::*;

use super::key::{ElementState, Key};

verus! {

/// The state of one button.
#[derive(Clone, Copy, Debug, PartialEq, Eq, Structural)]
pub struct ButtonState {
    /// The button went down since the last `update`.
    pub pressed: bool,
    /// The button came up since the last `update`.
    pub released: bool,
    /// The button is held down.
    pub down: bool,
}

/// A button that was never touched: not held, not pressed, not released.
pub open spec fn untouched() -> ButtonState {
    ButtonState { pressed: false, released: false, down: false }
}

/// The state of a button in state `b` after the event `state`.
pub open spec fn applied(b: ButtonState, state: ElementState) -> ButtonState {
    match state {
        ElementState::Pressed => ButtonState { pressed: true, down: true, ..b },
        ElementState::Released => ButtonState { released: true, down: false, ..b },
    }
}

/// The state of a button in state `b` once a new frame starts.
pub open spec fn cleared(b: ButtonState) -> ButtonState {
    ButtonState { pressed: false, released: false, ..b }
}

/// A press leaves the button held and marked pressed; a release leaves it up and marked
/// released; a mark stays through later events until the frame ends; and ending the
/// frame clears both marks without changing whether the button is held.
pub proof fn lemma_button_events(b: ButtonState, s: ElementState)
    ensures
        applied(b, ElementState::Pressed).down,
        applied(b, ElementState::Pressed).pressed,
        !applied(b, ElementState::Released).down,
        applied(b, ElementState::Released).released,
        b.pressed ==> applied(b, s).pressed,
        b.released ==> applied(b, s).released,
        !cleared(applied(b, s)).pressed,
        !cleared(applied(b, s)).released,
        cleared(applied(b, s)).down == applied(b, s).down,
{
}

/// An event changes only its own mark and whether the button is held: a press sets
/// `pressed` and `down` and keeps `released`; a release sets `released`, clears `down` and
/// keeps `pressed`. Starting a frame clears both marks and never changes whether any
/// button is held.
pub proof fn lemma_event_marks_are_independent(b: ButtonState)
    ensures
        applied(b, ElementState::Pressed).pressed == true,
        applied(b, ElementState::Pressed).down == true,
        applied(b, ElementState::Pressed).released == b.released,
        applied(b, ElementState::Released).released == true,
        applied(b, ElementState::Released).down == false,
        applied(b, ElementState::Released).pressed == b.pressed,
        cleared(b).down == b.down,
        cleared(b).pressed == false,
        cleared(b).released == false,
{
}

impl Default for ButtonState {
    /// A button that was never touched.
    fn default() -> (b: Self)
        ensures
            b == untouched(),
    {
        ButtonState { pressed: false, released: false, down: false }
    }
}

impl ButtonState {
    /// Starts a new frame: forgets the presses and releases, keeps whether it is held.
    pub fn update(&mut self)
        ensures
            *final(self) == cleared(*old(self)),
            final(self).down == old(self).down,
            !final(self).pressed,
            !final(self).released,
    {
        self.pressed = false;
        self.released = false;
    }

    /// Applies a press or a release.
    pub fn apply(&mut self, state: ElementState)
        ensures
            *final(self) == applied(*old(self), state),
            final(self).down == (state == ElementState::Pressed),
            final(self).pressed == (old(self).pressed || state == ElementState::Pressed),
            final(self).released == (old(self).released || state == ElementState::Released),
    {
        match state {
            ElementState::Pressed => {
                self.pressed = true;
                self.down = true;
            },
            ElementState::Released => {
                self.released = true;
                self.down = false;
            },
        }
    }
}

/// The state recorded for `key` in `entries`: that of its last entry, if any.
pub open spec fn state_of(entries: Seq<(Key, ButtonState)>, key: Key) -> Option<ButtonState>
    decreases entries.len(),
{
    if entries.len() == 0 {
        None
    } else if entries.last().0 == key {
        Some(entries.last().1)
    } else {
        state_of(entries.drop_last(), key)
    }
}

/// Tracks the state of every button that ever had an event.
pub struct InputTracker {
    key_states: Vec<(Key, ButtonState)>,
}

impl InputTracker {
    /// Each key has at most one entry.
    #[verifier::type_invariant]
    spec fn keys_distinct(self) -> bool {
        forall|a: int, b: int|
            0 <= a < self.key_states@.len() && 0 <= b < self.key_states@.len() && a != b
                ==> #[trigger] self.key_states@[a].0 != #[trigger] self.key_states@[b].0
    }
}

impl Default for InputTracker {
    /// No button has had an event.
    fn default() -> (tracker: Self)
        ensures
            forall|k: Key| tracker.button(k) == None::<ButtonState>,
    {
        InputTracker { key_states: Vec::new() }
    }
}

impl InputTracker {
    /// The state of the button for `key`, or `None` if it never had an event.
    pub closed spec fn button(&self, key: Key) -> Option<ButtonState> {
        state_of(self.key_states@, key)
    }

    /// No button has had an event.
    pub fn new() -> (tracker: Self)
        ensures
            forall|k: Key| tracker.button(k) == None::<ButtonState>,
    {
        Self::default()
    }

    /// Position of the last entry for `key`, if any.
    fn find(&self, key: Key) -> (found: Option<usize>)
        ensures
            match found {
                Some(i) => {
                    &&& i < self.key_states@.len()
                    &&& self.key_states@[i as int].0 == key
                    &&& forall|j: int|
                        i < j < self.key_states@.len() ==> self.key_states@[j].0 != key
                },
                None => forall|j: int| 0 <= j < self.key_states@.len() ==> self.key_states@[j].0 != key,
            },
    {
        let mut i = self.key_states.len();
        while i > 0
            invariant
                i <= self.key_states@.len(),
                forall|j: int| i <= j < self.key_states@.len() ==> self.key_states@[j].0 != key,
            decreases i,
        {
            i = i - 1;
            if self.key_states[i].0 == key {
                return Some(i);
            }
        }
        None
    }

    /// Applies a press or a release of `key`; a button seen for the first time starts
    /// untouched. Every other button is left as it was.
    pub fn on_keyboard_button(&mut self, key: Key, state: ElementState)
        ensures
            final(self).button(key) == Some(
                applied(
                    match old(self).button(key) {
                        Some(b) => b,
                        None => untouched(),
                    },
                    state,
                ),
            ),
            forall|k: Key| k != key ==> final(self).button(k) == old(self).button(k),
    {
        proof {
            use_type_invariant(&*self);
        }
        let mut entries: Vec<(Key, ButtonState)> = Vec::new();
        match self.find(key) {
            Some(i) => {
                let (k, b) = self.key_states[i];
                let mut b = b;
                proof {
                    lemma_state_of_last_entry(self.key_states@, i as int, key);
                }
                b.apply(state);
                std::mem::swap(&mut entries, &mut self.key_states);
                entries.set(i, (k, b));
                proof {
                    lemma_state_of_update(old(self).key_states@, i as int, key, b);
                    assert forall|x: int, y: int|
                        0 <= x < entries@.len() && 0 <= y < entries@.len() && x != y
                            implies #[trigger] entries@[x].0 != #[trigger] entries@[y].0 by {
                        assert(old(self).key_states@[x].0 != old(self).key_states@[y].0);
                    }
                }
                self.key_states = entries;
            },
            None => {
                let mut b = ButtonState::default();
                proof {
                    lemma_state_of_absent(self.key_states@, key);
                }
                b.apply(state);
                std::mem::swap(&mut entries, &mut self.key_states);
                entries.push((key, b));
                proof {
                    assert(entries@.drop_last() =~= old(self).key_states@);
                    assert forall|x: int, y: int|
                        0 <= x < entries@.len() && 0 <= y < entries@.len() && x != y
                            implies #[trigger] entries@[x].0 != #[trigger] entries@[y].0 by {
                        if x < entries@.len() - 1 && y < entries@.len() - 1 {
                            assert(old(self).key_states@[x].0 != old(self).key_states@[y].0);
                        }
                    }
                }
                self.key_states = entries;
            },
        }
    }

    /// Whether the button for `key` is held down (`false` if it never had an event).
    pub fn is_down(&self, key: Key) -> (down: bool)
        ensures
            down == match self.button(key) {
                Some(b) => b.down,
                None => false,
            },
    {
        match self.find(key) {
            Some(i) => {
                proof {
                    lemma_state_of_last_entry(self.key_states@, i as int, key);
                }
                self.key_states[i].1.down
            },
            None => {
                proof {
                    lemma_state_of_absent(self.key_states@, key);
                }
                false
            },
        }
    }
}

/// With no entry for `key`, nothing is recorded for it.
proof fn lemma_state_of_absent(entries: Seq<(Key, ButtonState)>, key: Key)
    requires
        forall|j: int| 0 <= j < entries.len() ==> entries[j].0 != key,
    ensures
        state_of(entries, key) == None::<ButtonState>,
    decreases entries.len(),
{
    if entries.len() > 0 {
        lemma_state_of_absent(entries.drop_last(), key);
    }
}

/// The state recorded for `key` is that of its last entry.
proof fn lemma_state_of_last_entry(entries: Seq<(Key, ButtonState)>, i: int, key: Key)
    requires
        0 <= i < entries.len(),
        entries[i].0 == key,
        forall|j: int| i < j < entries.len() ==> entries[j].0 != key,
    ensures
        state_of(entries, key) == Some(entries[i].1),
    decreases entries.len(),
{
    if i < entries.len() - 1 {
        lemma_state_of_last_entry(entries.drop_last(), i, key);
    }
}

/// Rewriting the last entry for `key` changes what is recorded for `key` and nothing else.
proof fn lemma_state_of_update(entries: Seq<(Key, ButtonState)>, i: int, key: Key, b: ButtonState)
    requires
        0 <= i < entries.len(),
        entries[i].0 == key,
        forall|j: int| i < j < entries.len() ==> entries[j].0 != key,
    ensures
        state_of(entries.update(i, (key, b)), key) == Some(b),
        forall|k: Key| k != key ==> state_of(entries.update(i, (key, b)), k) == state_of(entries, k),
    decreases entries.len(),
{
    let updated = entries.update(i, (key, b));
    if i == entries.len() - 1 {
        assert(updated.drop_last() =~= entries.drop_last());
        assert forall|k: Key| k != key implies state_of(updated, k) == state_of(entries, k) by {
            assert(updated.last().0 == key);
        }
    } else {
        assert(updated.drop_last() =~= entries.drop_last().update(i, (key, b)));
        lemma_state_of_update(entries.drop_last(), i, key, b);
        assert forall|k: Key| k != key implies state_of(updated, k) == state_of(entries, k) by {
            assert(updated.last() == entries.last());
            assert(state_of(entries.drop_last().update(i, (key, b)), k) == state_of(entries.drop_last(), k));
        }
    }
}

} // verus!
