//! The 16-key hexadecimal keypad state.

use vstd::prelude::*;

use crate::exceptions::Exception;
use crate::exceptions::ExceptionType;

verus! {

/// The key the wait-for-key instruction resolves to: the lowest index at or
/// past `i` whose key is down, scanning to the end of the pad.
pub open spec fn first_pressed_from(keys: Seq<u8>, i: int) -> Option<u8>
    decreases 16 - i,
{
    if i < 0 || i >= 16 {
        None
    } else if keys[i] == 1 {
        Some(i as u8)
    } else {
        first_pressed_from(keys, i + 1)
    }
}

/// The lowest pressed key of the whole pad, if any key is down.
pub open spec fn first_pressed_key(keys: Seq<u8>) -> Option<u8> {
    first_pressed_from(keys, 0)
}

/// One boolean state per hex key, written as `1` (down) or `0` (up). An
/// external input source reports transitions through `set_key`; the
/// instruction executor only reads.
pub struct Keyboard {
    pressed_keys: Vec<u8>,
}

impl View for Keyboard {
    type V = Seq<u8>;

    closed spec fn view(&self) -> Seq<u8> {
        self.pressed_keys@
    }
}

impl Keyboard {
    /// The pad always has exactly 16 keys, each recorded as 0 or 1.
    pub open spec fn wf(&self) -> bool {
        &&& self@.len() == 16
        &&& forall|k: int| 0 <= k < 16 ==> self@[k] == 0 || self@[k] == 1
    }

    /// A pad with every key up.
    pub fn new() -> (kb: Keyboard)
        ensures
            kb.wf(),
            kb@ == Seq::new(16, |k: int| 0u8),
    {
        let kb = Keyboard { pressed_keys: vec![0u8; 16] };
        proof {
            assert(kb@ =~= Seq::new(16, |k: int| 0u8));
        }
        kb
    }

    /// The state of one key: `Some(1)` down, `Some(0)` up, `None` for a key
    /// index outside the pad.
    pub fn get(&self, key: u8) -> (r: Option<u8>)
        requires
            self.wf(),
        ensures
            key < 16 ==> r == Some(self@[key as int]),
            key >= 16 ==> r is None,
    {
        if key >= 16 {
            None
        } else {
            Some(self.pressed_keys[key as usize])
        }
    }

    /// Records a key transition reported by the input source; a key index
    /// outside the pad is a fault.
    pub fn set_key(&mut self, key: u8, down: bool) -> (r: Result<(), Exception>)
        requires
            old(self).wf(),
        ensures
            final(self).wf(),
            key < 16 ==> r == Ok::<(), Exception>(())
                && final(self)@ == old(self)@.update(key as int, if down { 1u8 } else { 0u8 }),
            key >= 16 ==> (r matches Err(e)
                && e.exception_type == ExceptionType::BadArgument)
                && final(self)@ == old(self)@,
    {
        if key < 16 {
            self.pressed_keys[key as usize] = if down { 1 } else { 0 };
            Ok(())
        } else {
            Err(Exception::new(ExceptionType::BadArgument))
        }
    }

    /// The lowest pressed key, or `None` while every key is up. The
    /// wait-for-key instruction polls this once per cycle instead of
    /// blocking the machine.
    pub fn first_pressed(&self) -> (r: Option<u8>)
        requires
            self.wf(),
        ensures
            r == first_pressed_key(self@),
    {
        self.scan(0)
    }

    fn scan(&self, i: usize) -> (r: Option<u8>)
        requires
            self.wf(),
            i <= 16,
        ensures
            r == first_pressed_from(self@, i as int),
        decreases 16 - i,
    {
        if i >= 16 {
            None
        } else if self.pressed_keys[i] == 1 {
            Some(i as u8)
        } else {
            self.scan(i + 1)
        }
    }
}

} // verus!
