//! The 16-key input pad: per-key down/up state plus the one-key latch that
//! the blocking key-wait instruction uses to detect a down-then-up
//! transition.

use vstd::prelude::*;

verus! {

/// One of the sixteen CHIP-8 keys, `0x0` through `0xF`.
#[derive(Clone, Copy)]
pub enum Key {
    Key0,
    Key1,
    Key2,
    Key3,
    Key4,
    Key5,
    Key6,
    Key7,
    Key8,
    Key9,
    KeyA,
    KeyB,
    KeyC,
    KeyD,
    KeyE,
    KeyF,
}

/// The pad index of a key, `0` through `15`.
pub open spec fn spec_key_index(key: Key) -> int {
    match key {
        Key::Key0 => 0,
        Key::Key1 => 1,
        Key::Key2 => 2,
        Key::Key3 => 3,
        Key::Key4 => 4,
        Key::Key5 => 5,
        Key::Key6 => 6,
        Key::Key7 => 7,
        Key::Key8 => 8,
        Key::Key9 => 9,
        Key::KeyA => 10,
        Key::KeyB => 11,
        Key::KeyC => 12,
        Key::KeyD => 13,
        Key::KeyE => 14,
        Key::KeyF => 15,
    }
}

impl Key {
    /// The pad index of this key.
    pub fn index(self) -> (r: u8)
        ensures
            r == spec_key_index(self),
            r < 16,
    {
        match self {
            Key::Key0 => 0,
            Key::Key1 => 1,
            Key::Key2 => 2,
            Key::Key3 => 3,
            Key::Key4 => 4,
            Key::Key5 => 5,
            Key::Key6 => 6,
            Key::Key7 => 7,
            Key::Key8 => 8,
            Key::Key9 => 9,
            Key::KeyA => 10,
            Key::KeyB => 11,
            Key::KeyC => 12,
            Key::KeyD => 13,
            Key::KeyE => 14,
            Key::KeyF => 15,
        }
    }
}

/// The lowest-index key that is down at or after index `i`, if any.
pub open spec fn first_down_from(keys: Seq<bool>, i: int) -> Option<u8>
    decreases 16 - i,
{
    if i < 0 || i >= 16 {
        None
    } else if keys[i] {
        Some(i as u8)
    } else {
        first_down_from(keys, i + 1)
    }
}

/// The lowest-index key that is currently down, if any.
pub open spec fn lowest_down(keys: Seq<bool>) -> Option<u8> {
    first_down_from(keys, 0)
}

/// With every key up there is no lowest down key.
pub proof fn lemma_lowest_down_none(keys: Seq<bool>)
    requires
        keys.len() == 16,
        forall|j: int| 0 <= j < 16 ==> !keys[j],
    ensures
        lowest_down(keys) is None,
{
    lemma_first_down_from_none(keys, 0);
}

proof fn lemma_first_down_from_none(keys: Seq<bool>, i: int)
    requires
        keys.len() == 16,
        forall|j: int| 0 <= j < 16 ==> !keys[j],
        0 <= i,
    ensures
        first_down_from(keys, i) is None,
    decreases 16 - i,
{
    if i < 16 {
        lemma_first_down_from_none(keys, i + 1);
    }
}

pub struct Keypad {
    keys: Vec<bool>,
    save_key: Option<u8>,
}

impl Keypad {
    /// The down/up state of each of the sixteen keys.
    pub closed spec fn spec_keys(self) -> Seq<bool> {
        self.keys@
    }

    /// The key latched by the blocking key-wait, if one is pending release.
    pub closed spec fn spec_latched(self) -> Option<u8> {
        self.save_key
    }

    /// Sixteen key slots; a latched key is a valid index.
    pub open spec fn wf(self) -> bool {
        self.spec_keys().len() == 16 && match self.spec_latched() {
            Some(k) => k < 16,
            None => true,
        }
    }

    pub fn new() -> (r: Keypad)
        ensures
            r.wf(),
            r.spec_keys() == Seq::new(16, |i: int| false),
            r.spec_latched() is None,
    {
        let keypad = Keypad { keys: vec![false; 16], save_key: None };
        proof {
            assert(keypad.keys@ =~= Seq::new(16, |i: int| false));
        }
        keypad
    }

    /// Record that `key` went down.
    pub fn key_down(&mut self, key: Key)
        requires
            old(self).wf(),
        ensures
            final(self).wf(),
            final(self).spec_keys() == old(self).spec_keys().update(spec_key_index(key), true),
            final(self).spec_latched() == old(self).spec_latched(),
    {
        let i = key.index();
        self.keys[i as usize] = true;
    }

    /// Record that `key` went up.
    pub fn key_up(&mut self, key: Key)
        requires
            old(self).wf(),
        ensures
            final(self).wf(),
            final(self).spec_keys() == old(self).spec_keys().update(spec_key_index(key), false),
            final(self).spec_latched() == old(self).spec_latched(),
    {
        let i = key.index();
        self.keys[i as usize] = false;
    }

    /// Whether the key with pad index `key` is down.
    pub fn is_key_down(&self, key: u8) -> (r: bool)
        requires
            self.wf(),
            key < 16,
        ensures
            r == self.spec_keys()[key as int],
    {
        self.keys[key as usize]
    }

    /// One step of the blocking key-wait's two-phase latch. With no key
    /// latched, latch the lowest currently-down key (if any) and report
    /// nothing. With a key latched, report it once it has been released,
    /// clearing the latch; while it stays down, report nothing.
    pub fn get_any_key_up(&mut self) -> (r: Option<u8>)
        requires
            old(self).wf(),
        ensures
            final(self).wf(),
            final(self).spec_keys() == old(self).spec_keys(),
            match old(self).spec_latched() {
                None => {
                    &&& r is None
                    &&& final(self).spec_latched() == lowest_down(old(self).spec_keys())
                },
                Some(k) => {
                    if old(self).spec_keys()[k as int] {
                        &&& r is None
                        &&& final(self).spec_latched() == Some(k)
                    } else {
                        &&& r == Some(k)
                        &&& final(self).spec_latched() is None
                    }
                },
            },
    {
        let mut key: Option<u8> = None;
        match self.save_key {
            None => {
                self.save_key = self.get_any_key_down();
            },
            Some(saved) => {
                if !self.is_key_down(saved) {
                    key = Some(saved);
                    self.save_key = None;
                }
            },
        }
        key
    }

    /// The lowest-index key that is currently down, if any.
    pub fn get_any_key_down(&self) -> (r: Option<u8>)
        requires
            self.wf(),
        ensures
            r == lowest_down(self.spec_keys()),
            match r {
                Some(k) => k < 16 && self.spec_keys()[k as int],
                None => forall|j: int| 0 <= j < 16 ==> !self.spec_keys()[j],
            },
    {
        let mut i: usize = 0;
        while i < 16
            invariant
                self.wf(),
                i <= 16,
                forall|j: int| 0 <= j < i ==> !self.spec_keys()[j],
                first_down_from(self.spec_keys(), 0) == first_down_from(self.spec_keys(), i as int),
            decreases 16 - i,
        {
            if self.keys[i] {
                return Some(i as u8);
            }
            i = i + 1;
        }
        None
    }
}

} // verus!
