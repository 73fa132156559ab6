use vstd::prelude::*;

verus! {

/// A 256-bit account or actor identity.
#[derive(Clone, Copy, Debug)]
pub struct ActorId(pub [u8; 32]);

impl ActorId {
    /// Builds the identity whose bytes are `bytes`.
    pub fn new(bytes: [u8; 32]) -> (r: ActorId)
        ensures
            r.0 == bytes,
    {
        ActorId(bytes)
    }

    /// The null identity: every byte zero.
    pub fn zero() -> (r: ActorId)
        ensures
            forall|i: int| 0 <= i < 32 ==> r.0[i] == 0u8,
    {
        ActorId([0u8; 32])
    }

    /// The identity of a numbered account: its number, least significant
    /// byte first, in bytes 12 to 19, and zero in the others.
    pub fn from_u64(n: u64) -> (r: ActorId)
        ensures
            forall|i: int| 12 <= i < 20 ==> r.0[i] == ((n >> (8 * (i - 12)) as u64) & 0xff) as u8,
            forall|i: int| 0 <= i < 12 || 20 <= i < 32 ==> r.0[i] == 0u8,
    {
        let mut bytes = [0u8; 32];
        let mut k: usize = 0;
        while k < 8
            invariant
                0 <= k <= 8,
                forall|i: int| 12 <= i < 12 + k ==> bytes[i] == ((n >> (8 * (i - 12)) as u64) & 0xff) as u8,
                forall|i: int| 0 <= i < 12 || 12 + k <= i < 32 ==> bytes[i] == 0u8,
            decreases 8 - k,
        {
            bytes[12 + k] = ((n >> (8 * k) as u64) & 0xff) as u8;
            k = k + 1;
        }
        ActorId(bytes)
    }
}

impl PartialEq for ActorId {
    fn eq(&self, other: &ActorId) -> (r: bool)
        ensures
            r == (self.0 == other.0),
    {
        let mut k: usize = 0;
        while k < 32
            invariant
                0 <= k <= 32,
                forall|i: int| 0 <= i < k ==> self.0[i] == other.0[i],
            decreases 32 - k,
        {
            if self.0[k] != other.0[k] {
                return false;
            }
            k = k + 1;
        }
        proof {
            assert(self.0@ =~= other.0@);
            vstd::array::axiom_array_ext_equal(self.0, other.0);
        }
        true
    }
}

impl vstd::std_specs::cmp::PartialEqSpecImpl for ActorId {
    open spec fn obeys_eq_spec() -> bool {
        true
    }

    open spec fn eq_spec(&self, other: &ActorId) -> bool {
        self.0 == other.0
    }
}

impl Eq for ActorId {
}

} // verus!
