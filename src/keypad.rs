//! The sixteen-key hexadecimal keypad of the virtual machine.
//!
//! Virtual keypad layout, and the QWERTY keys bound to it:
//!
//! ```text
//! |1|2|3|C|      |1|2|3|4|
//! |4|5|6|D|      |Q|W|E|R|
//! |7|8|9|E|      |A|S|D|F|
//! |A|0|B|F|      |Z|X|C|V|
//! ```
use vstd::prelude::*;

verus! {

/// The number of keys of the virtual keypad.
pub const KEY_COUNT: usize = 16;

/// The state of a single key.
#[derive(Clone, Copy, Debug, PartialEq, Eq, Structural)]
pub enum Keystate {
    Pressed,
    Released,
}

impl Keystate {
    /// Whether this state means the key is held down.
    pub open spec fn is_down(self) -> bool {
        self == Keystate::Pressed
    }
}

/// Current state of the sixteen keys (`true` = pressed).
pub struct Keypad {
    keys: [bool; KEY_COUNT],
}

impl View for Keypad {
    type V = Seq<bool>;

    closed spec fn view(&self) -> Seq<bool> {
        self.keys@
    }
}

impl Keypad {
    /// There is one state for each of the sixteen keys.
    pub proof fn lemma_view_len(&self)
        ensures
            self@.len() == KEY_COUNT,
    {
    }

    /// A keypad with every key released.
    pub fn new() -> (r: Keypad)
        ensures
            r@ == Seq::new(KEY_COUNT as nat, |i: int| false),
            r@.len() == KEY_COUNT,
    {
        let r = Keypad { keys: [false; KEY_COUNT] };
        assert(r@ =~= Seq::new(KEY_COUNT as nat, |i: int| false));
        r
    }

    /// The state of the key at `index`, or `None` if there is no such key.
    pub fn is_pressed(&self, index: usize) -> (r: Option<bool>)
        ensures
            index < KEY_COUNT ==> r == Some(self@[index as int]),
            index >= KEY_COUNT ==> r.is_none(),
    {
        if index < KEY_COUNT {
            Some(self.keys[index])
        } else {
            None
        }
    }

    /// The state of the key at `index`.
    pub fn get_key_state(&self, index: usize) -> (r: Keystate)
        requires
            index < KEY_COUNT,
        ensures
            r.is_down() == self@[index as int],
    {
        if self.keys[index] {
            Keystate::Pressed
        } else {
            Keystate::Released
        }
    }

    /// Record the key at `index` as being in `state`.
    pub fn set_key_state(&mut self, index: usize, state: Keystate)
        requires
            index < KEY_COUNT,
        ensures
            final(self)@ == old(self)@.update(index as int, state.is_down()),
    {
        self.keys[index] = match state {
            Keystate::Pressed => true,
            Keystate::Released => false,
        };
    }

    /// Record the key at `index` as pressed.
    pub fn pressed(&mut self, index: usize)
        requires
            index < KEY_COUNT,
        ensures
            final(self)@ == old(self)@.update(index as int, true),
    {
        self.keys[index] = true;
    }

    /// Record the key at `index` as released.
    pub fn released(&mut self, index: usize)
        requires
            index < KEY_COUNT,
        ensures
            final(self)@ == old(self)@.update(index as int, false),
    {
        self.keys[index] = false;
    }
}

} // verus!
