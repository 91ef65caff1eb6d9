//! A player's slot binding: an integer in `[1, 31]`, unique within a session.

use vstd::prelude::*;

verus! {

/// The slot a player holds within its session. Every value of this type lies
/// in `[1, 31]`.
#[derive(Debug, Clone, Copy)]
pub struct Bind(u8);

impl View for Bind {
    type V = u8;

    closed spec fn view(&self) -> u8 {
        self.0
    }
}

impl DeepView for Bind {
    type V = u8;

    open spec fn deep_view(&self) -> u8 {
        self.view()
    }
}

#[verifier::type_invariant]
spec fn bind_inv(b: Bind) -> bool {
    1 <= b.0 <= 31
}

impl Bind {
    /// Wraps a slot id, which must lie in `[1, 31]`.
    pub fn new(id: u8) -> (r: Self)
        requires
            1 <= id <= 31,
        ensures
            r@ == id,
    {
        Bind(id)
    }

    /// The slot id.
    pub fn id(&self) -> (r: u8)
        ensures
            r == self@,
            1 <= r <= 31,
    {
        proof {
            use_type_invariant(self);
        }
        self.0
    }

    /// The slot's bit in a 32-bit recipient mask: bit 0 for slot 1 and so on.
    pub fn mask(&self) -> (r: i32)
        ensures
            r == spec_bind_mask(self@),
    {
        proof {
            use_type_invariant(self);
        }
        1i32 << ((self.0 - 1) as i32)
    }
}

/// The mask bit of a slot id: bit 0 for slot 1 and so on.
pub open spec fn spec_bind_mask(id: u8) -> i32 {
    1i32 << (id - 1) as i32
}

} // verus!
