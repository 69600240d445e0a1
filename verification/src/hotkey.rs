//! Recognizing key combinations from the key events of input devices.

use vstd::prelude::*;
use vstd::string::*;

use crate::clicker::{DEVICE_NAME, EV_KEY};
use crate::text::same_text;

verus! {

/// Whether `code` is one of the modifier keys: left or right Ctrl, Shift,
/// Alt or Super.
pub open spec fn modifier_code(code: u16) -> bool {
    code == 29 || code == 97 || code == 42 || code == 54 || code == 56 || code == 100 || code
        == 125 || code == 126
}

/// Whether `code` is a modifier key.
pub fn is_modifier(code: u16) -> (r: bool)
    ensures
        r == modifier_code(code),
{
    code == 29 || code == 97 || code == 42 || code == 54 || code == 56 || code == 100 || code
        == 125 || code == 126
}

/// Whether key events of an input device are listened to: the device has
/// keys and is not the clicker's own virtual mouse (a device without a
/// name counts as named `""`).
pub fn listens_to(device_name: Option<&str>, has_keys: bool) -> (r: bool)
    ensures
        r == (has_keys && match device_name {
            Some(n) => n@ != DEVICE_NAME@,
            None => Seq::<char>::empty() != DEVICE_NAME@,
        }),
{
    proof {
        reveal_strlit("");
        assert(""@ =~= Seq::<char>::empty());
    }
    let own = match device_name {
        Some(n) => same_text(n, DEVICE_NAME),
        None => same_text("", DEVICE_NAME),
    };
    !own && has_keys
}

/// Whether `s` is in strictly ascending order.
pub open spec fn strictly_ascending(s: Seq<u16>) -> bool {
    forall|i: int, j: int| 0 <= i < j < s.len() ==> s[i] < s[j]
}

/// The keys currently held down on one input device.
pub struct KeyTracker {
    pressed: Vec<u16>,
}

impl View for KeyTracker {
    type V = Set<u16>;

    closed spec fn view(&self) -> Set<u16> {
        self.pressed@.to_set()
    }
}

impl KeyTracker {
    /// The held keys are kept in ascending order, each once.
    #[verifier::type_invariant]
    spec fn ordered(self) -> bool {
        strictly_ascending(self.pressed@)
    }

    /// A tracker with no key held.
    pub fn new() -> (t: KeyTracker)
        ensures
            t@ == Set::<u16>::empty(),
    {
        let t = KeyTracker { pressed: Vec::new() };
        assert(t.pressed@.to_set() =~= Set::<u16>::empty());
        t
    }

    /// The keys held down, in ascending order, each once.
    pub fn held(&self) -> (keys: Vec<u16>)
        ensures
            strictly_ascending(keys@),
            keys@.to_set() == self@,
    {
        proof {
            use_type_invariant(self);
        }
        self.pressed.clone()
    }

    fn press(&mut self, code: u16)
        ensures
            final(self)@ == old(self)@.insert(code),
    {
        proof {
            use_type_invariant(&*self);
        }
        let mut p: usize = 0;
        while p < self.pressed.len() && self.pressed[p] < code
            invariant
                p <= self.pressed@.len(),
                forall|j: int| 0 <= j < p ==> self.pressed@[j] < code,
            decreases self.pressed@.len() - p,
        {
            p = p + 1;
        }
        if p < self.pressed.len() && self.pressed[p] == code {
            assert(self.pressed@.to_set().insert(code) =~= self.pressed@.to_set());
            return;
        }
        let ghost before = self.pressed@;
        let mut keys = Vec::new();
        std::mem::swap(&mut keys, &mut self.pressed);
        keys.insert(p, code);
        assert forall|a: int, b: int| 0 <= a < b < keys@.len() implies keys@[a] < keys@[b] by {
            if b < p {
            } else if b == p {
            } else if a < p {
                assert(keys@[b] == before[b - 1]);
                assert(before[p as int] > code);
                assert(before[p as int] <= before[b - 1]);
            } else if a == p {
                assert(keys@[b] == before[b - 1]);
                assert(before[p as int] > code);
                assert(before[p as int] <= before[b - 1]);
            } else {
                assert(keys@[a] == before[a - 1]);
                assert(keys@[b] == before[b - 1]);
            }
        }
        assert forall|k: u16| keys@.to_set().contains(k) <==> before.to_set().insert(code).contains(k) by {
            if keys@.contains(k) {
                let i = choose|i: int| 0 <= i < keys@.len() && keys@[i] == k;
                if i < p {
                    assert(before[i] == k);
                } else if i > p {
                    assert(before[i - 1] == k);
                }
            }
            if before.contains(k) {
                let i = choose|i: int| 0 <= i < before.len() && before[i] == k;
                if i < p {
                    assert(keys@[i] == k);
                } else {
                    assert(keys@[i + 1] == k);
                }
            }
            if k == code {
                assert(keys@[p as int] == code);
            }
        }
        assert(keys@.to_set() =~= before.to_set().insert(code));
        self.pressed = keys;
    }

    fn release(&mut self, code: u16)
        ensures
            final(self)@ == old(self)@.remove(code),
    {
        proof {
            use_type_invariant(&*self);
        }
        let mut p: usize = 0;
        while p < self.pressed.len() && self.pressed[p] != code
            invariant
                p <= self.pressed@.len(),
                forall|j: int| 0 <= j < p ==> self.pressed@[j] != code,
            decreases self.pressed@.len() - p,
        {
            p = p + 1;
        }
        if p == self.pressed.len() {
            assert(self.pressed@.to_set().remove(code) =~= self.pressed@.to_set());
            return;
        }
        let ghost before = self.pressed@;
        let mut keys = Vec::new();
        std::mem::swap(&mut keys, &mut self.pressed);
        keys.remove(p);
        assert forall|a: int, b: int| 0 <= a < b < keys@.len() implies keys@[a] < keys@[b] by {
            if a < p {
                if b < p {
                } else {
                    assert(keys@[b] == before[b + 1]);
                }
            } else {
                assert(keys@[a] == before[a + 1]);
                assert(keys@[b] == before[b + 1]);
            }
        }
        assert forall|k: u16| keys@.to_set().contains(k) <==> before.to_set().remove(code).contains(k) by {
            if keys@.contains(k) {
                let i = choose|i: int| 0 <= i < keys@.len() && keys@[i] == k;
                if i < p {
                    assert(before[i] == k);
                    assert(before[p as int] == code);
                } else {
                    assert(before[i + 1] == k);
                    assert(before[p as int] == code);
                }
            }
            if before.contains(k) && k != code {
                let i = choose|i: int| 0 <= i < before.len() && before[i] == k;
                if i < p {
                    assert(keys@[i] == k);
                } else {
                    assert(i != p);
                    assert(keys@[i - 1] == k);
                }
            }
        }
        assert(keys@.to_set() =~= before.to_set().remove(code));
        self.pressed = keys;
    }

    /// Takes one input event, given as its type, code and value. A key
    /// going down (value 1) is added to the held keys, and when it is not
    /// a modifier the held keys, in ascending order, are the combination
    /// returned. A key going up (value 0) is removed. Other events change
    /// nothing.
    pub fn handle_event(&mut self, kind: u16, code: u16, value: i32) -> (combo: Option<Vec<u16>>)
        ensures
            kind == EV_KEY && value == 1 ==> final(self)@ == old(self)@.insert(code),
            kind == EV_KEY && value == 0 ==> final(self)@ == old(self)@.remove(code),
            !(kind == EV_KEY && (value == 0 || value == 1)) ==> final(self)@ == old(self)@,
            match combo {
                Some(keys) => kind == EV_KEY && value == 1 && !modifier_code(code)
                    && strictly_ascending(keys@) && keys@.to_set() == final(self)@,
                None => !(kind == EV_KEY && value == 1 && !modifier_code(code)),
            },
    {
        if kind != EV_KEY {
            return None;
        }
        if value == 1 {
            self.press(code);
            if !is_modifier(code) {
                return Some(self.held());
            }
            None
        } else if value == 0 {
            self.release(code);
            None
        } else {
            None
        }
    }
}

/// A key combination listed in ascending order without repeats is
/// determined by its keys: two such listings of the same keys are equal.
pub proof fn lemma_combo_unique(a: Seq<u16>, b: Seq<u16>)
    requires
        strictly_ascending(a),
        strictly_ascending(b),
        a.to_set() == b.to_set(),
    ensures
        a == b,
    decreases a.len(),
{
    if a.len() == 0 {
        if b.len() > 0 {
            assert(b.to_set().contains(b[0]));
        }
        assert(a =~= b);
    } else {
        assert(a.to_set().contains(a[0]));
        assert(b.to_set().contains(a[0]));
        assert(b.len() > 0);
        assert(a.to_set().contains(b[0]));
        let i = choose|i: int| 0 <= i < a.len() && a[i] == b[0];
        let j = choose|j: int| 0 <= j < b.len() && b[j] == a[0];
        assert(a[0] == b[0]) by {
            if i > 0 {
                assert(a[0] < a[i]);
                if j > 0 {
                    assert(b[0] < b[j]);
                }
            }
        }
        let a1 = a.drop_first();
        let b1 = b.drop_first();
        assert forall|k: u16| a1.to_set().contains(k) <==> b1.to_set().contains(k) by {
            if a1.contains(k) {
                let x = choose|x: int| 0 <= x < a1.len() && a1[x] == k;
                assert(a[x + 1] == k);
                assert(a.to_set().contains(k));
                assert(b.contains(k));
                let y = choose|y: int| 0 <= y < b.len() && b[y] == k;
                assert(k != a[0]);
                assert(y > 0);
                assert(b1[y - 1] == k);
            }
            if b1.contains(k) {
                let y = choose|y: int| 0 <= y < b1.len() && b1[y] == k;
                assert(b[y + 1] == k);
                assert(b.to_set().contains(k));
                assert(a.contains(k));
                let x = choose|x: int| 0 <= x < a.len() && a[x] == k;
                assert(k != b[0]);
                assert(x > 0);
                assert(a1[x - 1] == k);
            }
        }
        assert(a1.to_set() =~= b1.to_set());
        lemma_combo_unique(a1, b1);
        assert(a =~= seq![a[0]] + a1);
        assert(b =~= seq![b[0]] + b1);
    }
}

} // verus!
