//! A bounded integer: a `usize` confined to an inclusive range chosen at the
//! type level, used to range-check register indices.

use vstd::prelude::*;

verus! {

/// A `usize` confined to the inclusive range `[L, H]`. Constructors either
/// clamp the value into the range or reject values outside it.
#[derive(Debug)]
pub struct BoundedUsize<const L: usize, const H: usize>(pub usize);

/// The value `v` clamped into `[l, h]`: first capped at `h`, then raised
/// to `l` (so `l` wins if `l > h`).
pub open spec fn clamped(v: usize, l: usize, h: usize) -> usize {
    let capped = if v > h {
        h
    } else {
        v
    };
    if capped < l {
        l
    } else {
        capped
    }
}

impl<const L: usize, const H: usize> BoundedUsize<L, H> {
    /// Build a bounded value, clamping `value` into the range.
    pub fn new(value: usize) -> (r: Self)
        ensures
            r.0 == clamped(value, L, H),
    {
        let capped = if value > H {
            H
        } else {
            value
        };
        let v = if capped < L {
            L
        } else {
            capped
        };
        BoundedUsize(v)
    }

    /// Build a bounded value, rejecting `value` if it lies outside the range;
    /// the error says on which side it fell out.
    pub fn fallible_new(value: usize) -> (r: Result<Self, &'static str>)
        ensures
            r is Ok <==> L <= value <= H,
            r matches Ok(b) ==> b.0 == value,
            value < L ==> (r matches Err(m) && m@ == "Value too low"@),
            L <= value && value > H ==> (r matches Err(m) && m@ == "Value too high"@),
    {
        if value < L {
            Err("Value too low")
        } else if value > H {
            Err("Value too high")
        } else {
            Ok(BoundedUsize(value))
        }
    }

    /// Replace the held value, clamping the new one into the range.
    pub fn set(&mut self, value: usize)
        ensures
            final(self).0 == clamped(value, L, H),
    {
        *self = BoundedUsize::<L, H>::new(value);
    }

    /// The held value.
    pub fn value(&self) -> (r: usize)
        ensures
            r == self.0,
    {
        self.0
    }
}

} // verus!
