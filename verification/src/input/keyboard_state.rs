//! The set of keys held down.
use vstd::prelude::*;

use super::key::{ElementState, Key, NamedKey};

verus! {

broadcast use vstd::seq_lib::group_seq_properties;

/// Which keys are held down, fed by press and release events.
pub struct KeyboardState {
    down: Vec<Key>,
}

impl KeyboardState {
    /// Each held key is listed once.
    #[verifier::type_invariant]
    spec fn keys_distinct(self) -> bool {
        self.down@.no_duplicates()
    }
}

/// `1` for a held key, `0` otherwise.
pub open spec fn held(b: bool) -> int {
    if b { 1 } else { 0 }
}

impl View for KeyboardState {
    type V = Set<Key>;

    /// The keys held down.
    closed spec fn view(&self) -> Set<Key> {
        self.down@.to_set()
    }
}

impl Default for KeyboardState {
    /// No key held down.
    fn default() -> (state: Self)
        ensures
            state@ == Set::<Key>::empty(),
    {
        let state = KeyboardState { down: Vec::new() };
        assert(state@ =~= Set::<Key>::empty());
        state
    }
}

impl KeyboardState {
    /// No key held down.
    pub fn new() -> (state: Self)
        ensures
            state@ == Set::<Key>::empty(),
    {
        Self::default()
    }

    /// Records that `key` went down (`Pressed`) or came up (`Released`).
    pub fn on_keyboard_button(&mut self, key: Key, state: ElementState)
        ensures
            final(self)@ == match state {
                ElementState::Pressed => old(self)@.insert(key),
                ElementState::Released => old(self)@.remove(key),
            },
    {
        match state {
            ElementState::Pressed => {
                proof {
                    use_type_invariant(&*self);
                }
                if !self.is_down(key) {
                    let mut down: Vec<Key> = Vec::new();
                    std::mem::swap(&mut down, &mut self.down);
                    down.push(key);
                    self.down = down;
                }
                assert(self.down@.to_set() =~= old(self)@.insert(key));
            },
            ElementState::Released => {
                proof {
                    use_type_invariant(&*self);
                }
                let mut kept: Vec<Key> = Vec::new();
                let n = self.down.len();
                let mut i: usize = 0;
                while i < n
                    invariant
                        n == self.down@.len(),
                        i <= n,
                        self.down@ == old(self).down@,
                        self.down@.no_duplicates(),
                        kept@.no_duplicates(),
                        forall|k: Key|
                            kept@.contains(k) <==> (k != key && self.down@.take(i as int).contains(k)),
                    decreases n - i,
                {
                    let k = self.down[i];
                    proof {
                        if self.down@.take(i as int).contains(k) {
                            let j = choose|j: int| 0 <= j < i && self.down@.take(i as int)[j] == k;
                            assert(self.down@[j] == self.down@[i as int]);
                        }
                        assert(!kept@.contains(k));
                    }
                    let ghost kept_before = kept@;
                    if k != key {
                        kept.push(k);
                        proof {
                            assert forall|a: int, b: int|
                                0 <= a < kept@.len() && 0 <= b < kept@.len() && a != b implies kept@[a]
                                != kept@[b] by {
                                if a < kept_before.len() && b < kept_before.len() {
                                    assert(kept_before[a] != kept_before[b]);
                                } else if a < kept_before.len() {
                                    assert(kept_before.contains(kept_before[a]));
                                } else if b < kept_before.len() {
                                    assert(kept_before.contains(kept_before[b]));
                                }
                            }
                        }
                    }
                    proof {
                        let prev = self.down@.take(i as int);
                        let next = self.down@.take(i + 1);
                        assert(next =~= prev.push(k));
                        assert forall|x: Key| kept@.contains(x) <==> (x != key && next.contains(x)) by {
                            if next.contains(x) && x != key {
                                let j = choose|j: int| 0 <= j < next.len() && next[j] == x;
                                if j < prev.len() {
                                    assert(prev[j] == x);
                                }
                            }
                            if prev.contains(x) {
                                let j = choose|j: int| 0 <= j < prev.len() && prev[j] == x;
                                assert(next[j] == x);
                            }
                        }
                    }
                    i = i + 1;
                }
                assert(self.down@.take(n as int) =~= self.down@);
                self.down = kept;
                assert(self.down@.to_set() =~= old(self)@.remove(key));
            },
        }
    }

    /// Whether `key` is held down.
    pub fn is_down(&self, key: Key) -> (down: bool)
        ensures
            down == self@.contains(key),
    {
        let n = self.down.len();
        let mut i: usize = 0;
        while i < n
            invariant
                n == self.down@.len(),
                i <= n,
                forall|j: int| 0 <= j < i ==> self.down@[j] != key,
            decreases n - i,
        {
            if self.down[i] == key {
                assert(self.down@.contains(key));
                return true;
            }
            i = i + 1;
        }
        false
    }

    /// The direction of travel the held keys ask for, one axis each, before any speed is
    /// applied: `d`/`a` along x, `e`/`q` along y, `w`/`s` along z; each axis is `1` when only
    /// its positive key is held, `-1` when only its negative key is, and `0` otherwise.
    pub fn camera_translation_axes(&self) -> (axes: (i8, i8, i8))
        ensures
            axes.0 == held(self@.contains(Key::Character('d'))) - held(self@.contains(Key::Character('a'))),
            axes.1 == held(self@.contains(Key::Character('e'))) - held(self@.contains(Key::Character('q'))),
            axes.2 == held(self@.contains(Key::Character('w'))) - held(self@.contains(Key::Character('s'))),
    {
        (
            axis(self.is_down(Key::Character('d')), self.is_down(Key::Character('a'))),
            axis(self.is_down(Key::Character('e')), self.is_down(Key::Character('q'))),
            axis(self.is_down(Key::Character('w')), self.is_down(Key::Character('s'))),
        )
    }

    /// The turn the held arrow keys ask for, before any sensitivity is applied: right/left
    /// for the first axis and down/up for the second, as in `camera_translation_axes`.
    pub fn camera_rotation_axes(&self) -> (axes: (i8, i8))
        ensures
            axes.0 == held(self@.contains(Key::Named(NamedKey::ArrowRight))) - held(
                self@.contains(Key::Named(NamedKey::ArrowLeft)),
            ),
            axes.1 == held(self@.contains(Key::Named(NamedKey::ArrowDown))) - held(
                self@.contains(Key::Named(NamedKey::ArrowUp)),
            ),
    {
        (
            axis(
                self.is_down(Key::Named(NamedKey::ArrowRight)),
                self.is_down(Key::Named(NamedKey::ArrowLeft)),
            ),
            axis(
                self.is_down(Key::Named(NamedKey::ArrowDown)),
                self.is_down(Key::Named(NamedKey::ArrowUp)),
            ),
        )
    }
}

/// A press leaves the key held and a release leaves it up, whatever came before; pressing
/// a held key or releasing a free one changes nothing; and an event for one key leaves
/// every other key as it was.
pub proof fn lemma_key_event_effects(held_keys: Set<Key>, key: Key, other: Key)
    requires
        other != key,
    ensures
        held_keys.insert(key).contains(key),
        !held_keys.remove(key).contains(key),
        held_keys.contains(key) ==> held_keys.insert(key) == held_keys,
        !held_keys.contains(key) ==> held_keys.remove(key) == held_keys,
        held_keys.insert(key).contains(other) == held_keys.contains(other),
        held_keys.remove(key).contains(other) == held_keys.contains(other),
{
    if held_keys.contains(key) {
        assert(held_keys.insert(key) =~= held_keys);
    } else {
        assert(held_keys.remove(key) =~= held_keys);
    }
}

/// The held keys after `key` is pressed `presses` times, starting from `held_keys`.
pub open spec fn after_presses(held_keys: Set<Key>, key: Key, presses: nat) -> Set<Key>
    decreases presses,
{
    if presses == 0 {
        held_keys
    } else {
        after_presses(held_keys, key, (presses - 1) as nat).insert(key)
    }
}

/// Presses are not counted: after any number of presses of a key that was not held, a
/// single release gives back the keys held before, and the key is held in between.
pub proof fn lemma_release_undoes_presses(held_keys: Set<Key>, key: Key, presses: nat)
    requires
        !held_keys.contains(key),
    ensures
        presses >= 1 ==> after_presses(held_keys, key, presses).contains(key),
        after_presses(held_keys, key, presses).remove(key) == held_keys,
    decreases presses,
{
    if presses == 0 {
        assert(held_keys.remove(key) =~= held_keys);
    } else {
        lemma_release_undoes_presses(held_keys, key, (presses - 1) as nat);
        let before = after_presses(held_keys, key, (presses - 1) as nat);
        assert(before.insert(key).remove(key) =~= before.remove(key));
    }
}

fn axis(positive: bool, negative: bool) -> (a: i8)
    ensures
        a == held(positive) - held(negative),
{
    let p: i8 = if positive { 1 } else { 0 };
    let n: i8 = if negative { 1 } else { 0 };
    p - n
}

} // verus!
