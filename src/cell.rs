//! Tape cells and their wrapping arithmetic.

use vstd::prelude::*;

verus! {

/// `x + n` modulo 256.
pub open spec fn wrap_add(x: u8, n: u8) -> u8 {
    ((x as int + n as int) % 256) as u8
}

/// `x - n` modulo 256.
pub open spec fn wrap_sub(x: u8, n: u8) -> u8 {
    ((x as int - n as int + 256) % 256) as u8
}

/// Adding and then subtracting the same amount gives back the cell's value.
pub proof fn lemma_increment_then_decrement(x: u8, n: u8)
    ensures
        wrap_sub(wrap_add(x, n), n) == x,
{
}

/// A tape cell whose value wraps around its range.
pub trait CellKind {
    /// Adds `number_to_add`, wrapping past the top of the range, and returns
    /// the new value.
    fn wrapping_increment(&mut self, number_to_add: u8) -> u8;

    /// Subtracts `number_to_sub`, wrapping past zero, and returns the new
    /// value.
    fn wrapping_decrement(&mut self, number_to_sub: u8) -> u8;
}

impl CellKind for u8 {
    fn wrapping_increment(&mut self, number_to_add: u8) -> (r: u8)
        ensures
            r == wrap_add(*old(self), number_to_add),
            *final(self) == r,
    {
        let current_number = *self;
        let r = match current_number.checked_add(number_to_add) {
            Some(n) => n,
            // past 255: what is left of the amount after climbing to 256
            None => number_to_add - ((u8::MAX - current_number) + 1),
        };
        *self = r;
        r
    }

    fn wrapping_decrement(&mut self, number_to_sub: u8) -> (r: u8)
        ensures
            r == wrap_sub(*old(self), number_to_sub),
            *final(self) == r,
    {
        let current_number = *self;
        let r = match current_number.checked_sub(number_to_sub) {
            Some(n) => n,
            // below 0: count down from 255 by what is left after reaching 0
            None => u8::MAX - ((number_to_sub - current_number) - 1),
        };
        *self = r;
        r
    }
}

} // verus!
