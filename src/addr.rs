//! Canonical 64-bit virtual addresses.

use vstd::prelude::*;

verus! {

/// Lowest address of the upper canonical half.
pub const UPPER_HALF_START: u64 = 0xFFFF_8000_0000_0000;

/// First address past the lower canonical half.
pub const LOWER_HALF_END: u64 = 0x0000_8000_0000_0000;

/// An address is canonical when bits 48..64 all repeat bit 47.
pub open spec fn is_canonical(a: u64) -> bool {
    a < LOWER_HALF_END || a >= UPPER_HALF_START
}

/// A 64-bit virtual address, always in canonical form.
#[derive(Clone, Copy, Debug, PartialEq, Eq, Structural)]
pub struct VirtAddr {
    addr: u64,
}

impl View for VirtAddr {
    type V = u64;

    closed spec fn view(&self) -> u64 {
        self.addr
    }
}

impl VirtAddr {
    #[verifier::type_invariant]
    spec fn canonical(&self) -> bool {
        is_canonical(self.addr)
    }

    /// The zero address.
    pub fn zero() -> (r: VirtAddr)
        ensures
            r@ == 0,
    {
        VirtAddr { addr: 0 }
    }

    /// Wraps `addr` if it is canonical; `None` otherwise.
    pub fn try_new(addr: u64) -> (r: Option<VirtAddr>)
        ensures
            r.is_some() <==> is_canonical(addr),
            r.is_some() ==> r.unwrap()@ == addr,
    {
        if addr < LOWER_HALF_END || addr >= UPPER_HALF_START {
            Some(VirtAddr { addr })
        } else {
            None
        }
    }

    /// The address as a plain integer.
    pub fn as_u64(&self) -> (r: u64)
        ensures
            r == self@,
            is_canonical(r),
    {
        proof {
            use_type_invariant(self);
        }
        self.addr
    }
}

} // verus!
