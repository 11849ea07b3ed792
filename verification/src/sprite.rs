//! Sprites: immutable rows of eight monochrome pixels each.

use vstd::prelude::*;

use crate::exceptions::Exception;
use crate::exceptions::ExceptionType;

verus! {

/// A byte sequence in which every byte stands for eight horizontal pixels,
/// the most significant bit leftmost. A sprite is built once (from a
/// contiguous memory read) and then drawn; `cap` bounds how many rows may
/// still be added to a sprite built incrementally.
#[derive(Debug)]
pub struct Sprite {
    length: usize,
    cap: usize,
    contents: Vec<u8>,
}

impl View for Sprite {
    type V = Seq<u8>;

    closed spec fn view(&self) -> Seq<u8> {
        self.contents@
    }
}

impl Sprite {
    /// The recorded length always matches the stored rows, and never
    /// exceeds the capacity the sprite was built with.
    pub open spec fn wf(&self) -> bool {
        &&& self@.len() == self.spec_length()
        &&& self.spec_length() <= self.spec_cap()
    }

    pub closed spec fn spec_length(&self) -> usize {
        self.length
    }

    pub closed spec fn spec_cap(&self) -> usize {
        self.cap
    }

    /// An empty sprite that may grow up to `cap` rows.
    pub fn new(cap: usize) -> (s: Sprite)
        ensures
            s.wf(),
            s@ == Seq::<u8>::empty(),
            s.spec_cap() == cap,
    {
        let s = Sprite { length: 0, cap, contents: Vec::new() };
        proof {
            assert(s@ =~= Seq::<u8>::empty());
        }
        s
    }

    /// A sprite holding exactly the given rows.
    pub fn new_with_content(p0: Vec<u8>) -> (s: Sprite)
        ensures
            s.wf(),
            s@ == p0@,
    {
        let length = p0.len();
        Sprite { length, cap: length, contents: p0 }
    }

    /// How many rows the sprite holds.
    pub fn length(&self) -> (n: usize)
        requires
            self.wf(),
        ensures
            n == self@.len(),
    {
        self.length
    }

    /// The row at index `i`; an index at or past the length is a fault.
    pub fn get(&self, i: usize) -> (r: Result<u8, Exception>)
        requires
            self.wf(),
        ensures
            i < self@.len() ==> r == Ok::<u8, Exception>(self@[i as int]),
            i >= self@.len() ==> (r matches Err(e)
                && e.exception_type == ExceptionType::BadArgument),
    {
        if i < self.length {
            Ok(self.contents[i])
        } else {
            Err(Exception::new(ExceptionType::BadArgument))
        }
    }

    /// Appends one row; a sprite already at capacity rejects it.
    pub fn add(&mut self, value: u8) -> (r: Result<(), Exception>)
        requires
            old(self).wf(),
        ensures
            final(self).wf(),
            final(self).spec_cap() == old(self).spec_cap(),
            old(self)@.len() < old(self).spec_cap() ==> r == Ok::<(), Exception>(())
                && final(self)@ == old(self)@.push(value),
            old(self)@.len() >= old(self).spec_cap() ==> (r matches Err(e)
                && e.exception_type == ExceptionType::BadArgument)
                && final(self)@ == old(self)@,
    {
        if self.length < self.cap {
            self.length = self.length + 1;
            self.contents.push(value);
            Ok(())
        } else {
            Err(Exception::new(ExceptionType::BadArgument))
        }
    }

    /// Replaces the rows with the given ones; more rows than the capacity
    /// is a fault, and the sprite then keeps the prefix that fit.
    pub fn set(&mut self, values: Vec<u8>) -> (r: Result<(), Exception>)
        requires
            old(self).wf(),
        ensures
            final(self).wf(),
            final(self).spec_cap() == old(self).spec_cap(),
            values@.len() <= old(self).spec_cap() ==> r == Ok::<(), Exception>(())
                && final(self)@ == values@,
            values@.len() > old(self).spec_cap() ==> (r matches Err(e)
                && e.exception_type == ExceptionType::BadArgument)
                && final(self)@ == values@.subrange(0, old(self).spec_cap() as int),
    {
        self.contents.clear();
        self.length = 0;
        proof {
            assert(self@ =~= values@.subrange(0, 0));
        }
        let mut i: usize = 0;
        while i < values.len()
            invariant
                self.wf(),
                self.spec_cap() == old(self).spec_cap(),
                i <= values@.len(),
                self@ == values@.subrange(0, i as int),
                i <= self.spec_cap(),
            decreases values@.len() - i,
        {
            if self.length >= self.cap {
                proof {
                    assert(i == self.spec_cap());
                    assert(self@ =~= values@.subrange(0, old(self).spec_cap() as int));
                }
                return Err(Exception::new(ExceptionType::BadArgument));
            }
            let value = values[i];
            self.length = self.length + 1;
            self.contents.push(value);
            i = i + 1;
            proof {
                assert(self@ =~= values@.subrange(0, i as int));
            }
        }
        proof {
            assert(self@ =~= values@);
        }
        Ok(())
    }
}

} // verus!
