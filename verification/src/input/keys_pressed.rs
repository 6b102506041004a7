//! The names of the keys a browser reports as held down.
use vstd::prelude::*;

verus! {

broadcast use vstd::seq_lib::group_seq_properties;

/// The `key` names of the keys held down, as a browser's key events give them.
pub struct KeysPressed {
    keys: Vec<String>,
}

impl KeysPressed {
    /// Each name is listed once.
    #[verifier::type_invariant]
    spec fn names_distinct(self) -> bool {
        forall|a: int, b: int|
            0 <= a < self.keys@.len() && 0 <= b < self.keys@.len() && a != b
                ==> #[trigger] self.keys@[a]@ != #[trigger] self.keys@[b]@
    }
}

impl View for KeysPressed {
    type V = Set<Seq<char>>;

    /// The names of the keys held down.
    closed spec fn view(&self) -> Set<Seq<char>> {
        Set::new(|name: Seq<char>| exists|i: int| 0 <= i < self.keys@.len() && #[trigger] self.keys@[i]@ == name)
    }
}

impl KeysPressed {
    /// No key held down.
    pub fn new() -> (keys: Self)
        ensures
            keys@ == Set::<Seq<char>>::empty(),
    {
        let keys = KeysPressed { keys: Vec::new() };
        assert(keys@ =~= Set::<Seq<char>>::empty());
        keys
    }

    /// Whether the key named `key` is held down.
    pub fn is_down(&self, key: &str) -> (down: bool)
        ensures
            down == self@.contains(key@),
    {
        let name: String = key.to_owned();
        let n = self.keys.len();
        let mut i: usize = 0;
        while i < n
            invariant
                n == self.keys@.len(),
                i <= n,
                name@ == key@,
                forall|j: int| 0 <= j < i ==> self.keys@[j]@ != key@,
            decreases n - i,
        {
            if self.keys[i] == name {
                return true;
            }
            i = i + 1;
        }
        false
    }

    /// Records that the key named `key` went down.
    pub fn insert(&mut self, key: String)
        ensures
            final(self)@ == old(self)@.insert(key@),
    {
        proof {
            use_type_invariant(&*self);
        }
        if !self.is_down(key.as_str()) {
            let mut keys: Vec<String> = Vec::new();
            std::mem::swap(&mut keys, &mut self.keys);
            let ghost key_view = key@;
            keys.push(key);
            proof {
                assert forall|a: int, b: int|
                    0 <= a < keys@.len() && 0 <= b < keys@.len() && a != b
                        implies #[trigger] keys@[a]@ != #[trigger] keys@[b]@ by {
                    let last = keys@.len() - 1;
                    if a < last && b < last {
                        assert(old(self).keys@[a]@ != old(self).keys@[b]@);
                    } else if a < last {
                        assert(old(self).keys@[a]@ != key_view);
                    } else if b < last {
                        assert(old(self).keys@[b]@ != key_view);
                    }
                }
            }
            self.keys = keys;
            assert forall|name: Seq<char>| self@.contains(name) <==> old(self)@.insert(key@).contains(name) by {
                if old(self)@.contains(name) {
                    let i = choose|i: int| 0 <= i < old(self).keys@.len() && old(self).keys@[i]@ == name;
                    assert(self.keys@[i]@ == name);
                }
                if name == key@ {
                    assert(self.keys@[self.keys@.len() - 1]@ == name);
                }
            }
        }
        assert(self@ =~= old(self)@.insert(key@));
    }

    /// Records that the key named `key` came up.
    pub fn remove(&mut self, key: &String)
        ensures
            final(self)@ == old(self)@.remove(key@),
    {
        proof {
            use_type_invariant(&*self);
        }
        let mut kept: Vec<String> = Vec::new();
        let n = self.keys.len();
        let mut i: usize = 0;
        while i < n
            invariant
                n == self.keys@.len(),
                i <= n,
                self.keys@ == old(self).keys@,
                forall|a: int, b: int|
                    0 <= a < self.keys@.len() && 0 <= b < self.keys@.len() && a != b
                        ==> #[trigger] self.keys@[a]@ != #[trigger] self.keys@[b]@,
                forall|a: int, b: int|
                    0 <= a < kept@.len() && 0 <= b < kept@.len() && a != b
                        ==> #[trigger] kept@[a]@ != #[trigger] kept@[b]@,
                forall|name: Seq<char>|
                    #[trigger] lists(kept@, name) <==> (name != key@ && lists(self.keys@.take(i as int), name)),
            decreases n - i,
        {
            let ghost kept_before = kept@;
            let ghost prev = self.keys@.take(i as int);
            let ghost next = self.keys@.take(i + 1);
            proof {
                if lists(kept_before, self.keys@[i as int]@) {
                    assert(lists(prev, self.keys@[i as int]@));
                    let m = choose|m: int| 0 <= m < prev.len() && prev[m]@ == self.keys@[i as int]@;
                    assert(self.keys@[m]@ == self.keys@[i as int]@);
                    assert(false);
                }
            }
            if self.keys[i] != *key {
                let k = self.keys[i].clone();
                kept.push(k);
                proof {
                    assert forall|a: int, b: int|
                        0 <= a < kept@.len() && 0 <= b < kept@.len() && a != b
                            implies #[trigger] kept@[a]@ != #[trigger] kept@[b]@ by {
                        let last = kept@.len() - 1;
                        if a < last && b < last {
                            assert(kept_before[a]@ != kept_before[b]@);
                        } else if a < last {
                            if kept_before[a]@ == self.keys@[i as int]@ {
                                assert(lists(kept_before, self.keys@[i as int]@));
                            }
                        } else if b < last {
                            if kept_before[b]@ == self.keys@[i as int]@ {
                                assert(lists(kept_before, self.keys@[i as int]@));
                            }
                        }
                    }
                }
            }
            proof {
                assert(next =~= prev.push(self.keys@[i as int]));
                assert forall|name: Seq<char>|
                    #[trigger] lists(kept@, name) <==> (name != key@ && lists(next, name)) by {
                    if lists(kept@, name) {
                        let j = choose|j: int| 0 <= j < kept@.len() && kept@[j]@ == name;
                        if j < kept_before.len() {
                            assert(kept_before[j]@ == name);
                            assert(lists(kept_before, name));
                            let m = choose|m: int| 0 <= m < prev.len() && prev[m]@ == name;
                            assert(next[m]@ == name);
                        } else {
                            assert(next[next.len() - 1]@ == name);
                        }
                    }
                    if name != key@ && lists(next, name) {
                        let j = choose|j: int| 0 <= j < next.len() && next[j]@ == name;
                        if j < prev.len() {
                            assert(prev[j]@ == name);
                            assert(lists(prev, name));
                            assert(lists(kept_before, name));
                            let m = choose|m: int| 0 <= m < kept_before.len() && kept_before[m]@ == name;
                            assert(kept@[m]@ == name);
                        } else {
                            assert(kept@[kept@.len() - 1]@ == name);
                        }
                    }
                }
            }
            i = i + 1;
        }
        proof {
            assert(self.keys@.take(n as int) =~= self.keys@);
            assert forall|name: Seq<char>| old(self)@.contains(name) <==> lists(old(self).keys@, name) by {
                if lists(old(self).keys@, name) {
                    let j = choose|j: int| 0 <= j < old(self).keys@.len() && old(self).keys@[j]@ == name;
                    assert(old(self).keys@[j]@ == name);
                }
            }
        }
        self.keys = kept;
        proof {
            assert forall|name: Seq<char>| self@.contains(name) <==> lists(kept@, name) by {
                if lists(kept@, name) {
                    let j = choose|j: int| 0 <= j < kept@.len() && kept@[j]@ == name;
                    assert(self.keys@[j]@ == name);
                }
            }
        }
        assert forall|name: Seq<char>| self@.contains(name) <==> old(self)@.remove(key@).contains(name) by {
            assert(lists(kept@, name) <==> (name != key@ && lists(old(self).keys@.take(n as int), name)));
        }
        assert(self@ =~= old(self)@.remove(key@));
    }
}

/// Whether one of `keys` is named `name`.
pub open spec fn lists(keys: Seq<String>, name: Seq<char>) -> bool {
    exists|j: int| 0 <= j < keys.len() && keys[j]@ == name
}

} // verus!
