//! The buffer initialization policy that a source reports.

use vstd::prelude::*;

verus! {

/// Whether a destination region must be zeroed before a source may be asked to
/// fill it.
#[derive(Debug)]
pub struct Initializer(bool);

impl Initializer {
    /// The policy as a plain value: `true` where the region must be zeroed.
    pub closed spec fn zeroes(&self) -> bool {
        self.0
    }

    /// The safe default: the region is zeroed before use.
    #[inline]
    pub fn zeroing() -> (i: Initializer)
        ensures
            i.zeroes(),
    {
        Initializer(true)
    }

    /// The policy of a source that determines every byte it reports as
    /// transferred and never reads the destination: nothing is zeroed.
    #[inline]
    pub fn nop() -> (i: Initializer)
        ensures
            !i.zeroes(),
    {
        Initializer(false)
    }

    /// Whether the region must be zeroed.
    #[inline]
    #[verifier::when_used_as_spec(zeroes)]
    pub fn should_initialize(&self) -> (b: bool)
        ensures
            b == self.zeroes(),
    {
        self.0
    }

    /// Applies the policy to `buf`: every byte becomes zero where the policy
    /// asks for it, and nothing changes where it does not.
    #[inline]
    pub fn initialize(&self, buf: &mut [u8])
        ensures
            final(buf)@.len() == old(buf)@.len(),
            self.zeroes() ==> forall|i: int| 0 <= i < final(buf)@.len() ==> final(buf)@[i] == 0u8,
            !self.zeroes() ==> final(buf)@ == old(buf)@,
    {
        if self.should_initialize() {
            let len: usize = buf.len();
            let mut i: usize = 0;
            while i < len
                invariant
                    i <= len,
                    buf@.len() == len,
                    forall|j: int| 0 <= j < i ==> buf@[j] == 0u8,
                decreases len - i,
            {
                buf[i] = 0;
                i += 1;
            }
        }
    }
}

} // verus!
