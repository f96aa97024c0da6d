//! The 16-key hexadecimal keypad.

use vstd::prelude::*;

verus! {

/// The lowest key that is held down, if there is one: the keys are tried
/// from key 0 to key F.
pub open spec fn first_key_down(keys: Seq<bool>) -> Option<u8> {
    if keys[0] {
        Some(0u8)
    } else if keys[1] {
        Some(1u8)
    } else if keys[2] {
        Some(2u8)
    } else if keys[3] {
        Some(3u8)
    } else if keys[4] {
        Some(4u8)
    } else if keys[5] {
        Some(5u8)
    } else if keys[6] {
        Some(6u8)
    } else if keys[7] {
        Some(7u8)
    } else if keys[8] {
        Some(8u8)
    } else if keys[9] {
        Some(9u8)
    } else if keys[10] {
        Some(10u8)
    } else if keys[11] {
        Some(11u8)
    } else if keys[12] {
        Some(12u8)
    } else if keys[13] {
        Some(13u8)
    } else if keys[14] {
        Some(14u8)
    } else if keys[15] {
        Some(15u8)
    } else {
        None
    }
}

/// 16 key hexadecimal keypad. `keys[k]` is true while key `k` is held down.
pub struct Keypad {
    pub keys: [bool; 16],
}

impl View for Keypad {
    type V = Seq<bool>;

    /// The level of each key, by key number.
    open spec fn view(&self) -> Seq<bool> {
        self.keys@
    }
}

impl Keypad {
    /// A pad with every key up.
    pub fn new() -> (keypad: Keypad)
        ensures
            keypad@ =~= Seq::new(16, |k: int| false),
    {
        Keypad { keys: [false;16] }
    }

    /// Whether key `key` is held down.
    pub fn is_key_down(&self, key: u8) -> (down: bool)
        requires
            key < 16,
        ensures
            down == self@[key as int],
    {
        self.keys[key as usize]
    }

    /// The lowest-numbered key that is held down, or `None` when every key
    /// is up.
    pub fn get_first_key_down(&self) -> (first: Option<u8>)
        ensures
            first == first_key_down(self@),
            match first {
                Some(k) => k < 16 && self@[k as int] && forall|j: int| 0 <= j < k ==> !self@[j],
                None => forall|j: int| 0 <= j < 16 ==> !self@[j],
            },
    {
        let mut i: u8 = 0;
        while i < 16
            invariant
                i <= 16,
                forall|j: int| 0 <= j < i ==> !self@[j],
            decreases 16 - i,
        {
            if self.is_key_down(i) {
                return Some(i);
            }
            i += 1;
        }
        None
    }

    /// Records that key `key` went down. The other keys keep their level.
    pub fn key_down(&mut self, key: u8)
        requires
            key < 16,
        ensures
            final(self)@ == old(self)@.update(key as int, true),
    {
        self.keys[key as usize] = true;
    }

    /// Records that key `key` went up. The other keys keep their level.
    pub fn key_up(&mut self, key: u8)
        requires
            key < 16,
        ensures
            final(self)@ == old(self)@.update(key as int, false),
    {
        self.keys[key as usize] = false;
    }
}

} // verus!
