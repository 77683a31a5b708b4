use vstd::prelude::*;

verus! {

/// A 32-byte digest or identifier.
pub type Bytes32 = [u8; 32];

/// A data-availability confirmation record for one block of one chain.
#[derive(Clone, Copy, Debug)]
pub struct DaBlock {
    pub rollup_id: u32,
    pub block_height: u64,
    pub state_root: Bytes32,
    pub transaction_id: Bytes32,
    pub commitment: Bytes32,
}

/// The fields of a chain header that correlation reads.
#[derive(Clone, Copy, Debug)]
pub struct Header {
    pub number: u64,
    pub timestamp: u64,
    pub state_root: Bytes32,
}

/// The statement that an operator attests for one header.
#[derive(Clone, Copy, Debug)]
pub struct StateRootUpdateMessage {
    pub rollup_id: u32,
    pub block_height: u64,
    pub timestamp: u64,
    pub state_root: Bytes32,
    pub near_da_transaction_id: Bytes32,
    pub near_da_commitment: Bytes32,
}

/// A state-root update message with the operator's signature over it.
#[derive(Clone, Debug)]
pub struct SignedStateRootUpdateMessage {
    pub message: StateRootUpdateMessage,
    pub bls_signature: Vec<u8>,
    pub operator_id: Bytes32,
}

/// The all-zero digest, which stands for "no DA correlation".
pub open spec fn zero_bytes() -> Seq<u8> {
    Seq::new(32, |i: int| 0u8)
}

/// Returns 32 zero bytes.
pub fn zeroed() -> (r: Bytes32)
    ensures
        r@ == zero_bytes(),
{
    let r: Bytes32 = [0u8; 32];
    assert(r@ =~= zero_bytes());
    r
}

/// Compares two digests byte by byte.
pub fn bytes_eq(a: &Bytes32, b: &Bytes32) -> (r: bool)
    ensures
        r == (a@ == b@),
{
    let mut i: usize = 0;
    while i < 32
        invariant
            0 <= i <= 32,
            a@.len() == 32,
            b@.len() == 32,
            forall|j: int| 0 <= j < i ==> a@[j] == b@[j],
        decreases 32 - i,
    {
        if a[i] != b[i] {
            return false;
        }
        i = i + 1;
    }
    assert(a@ =~= b@);
    true
}

} // verus!
