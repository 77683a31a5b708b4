use vstd::prelude::*;
use crate::types::Bytes32;

verus! {

/// What the DA-block consumer is started with: the chains it listens for and
/// the identity it registers under.
#[derive(Clone, Debug)]
pub struct ConsumerConfig {
    pub rollup_ids: Vec<u32>,
    pub id: String,
}

/// The lowercase hexadecimal digit of `n`, for `n < 16`.
pub open spec fn hex_digit(n: int) -> char {
    seq!['0', '1', '2', '3', '4', '5', '6', '7', '8', '9', 'a', 'b', 'c', 'd', 'e', 'f'][n]
}

/// Lowercase hexadecimal text of `b`: two digits per byte, high nibble first.
pub open spec fn hex_of(b: Seq<u8>) -> Seq<char>
    decreases b.len(),
{
    if b.len() == 0 {
        Seq::empty()
    } else {
        hex_of(b.drop_last()) + seq![hex_digit(b.last() as int / 16), hex_digit(b.last() as int % 16)]
    }
}

/// Relies on hex::encode: each byte becomes two lowercase hex digits, high
/// nibble first, in the order of the bytes.
#[verifier::external_body]
fn encode_hex(b: &Bytes32) -> (r: String)
    ensures
        r@ == hex_of(b@),
{
    hex::encode(b)
}

/// The consumer configuration of an operator: the chains to follow, and the
/// operator id in lowercase hexadecimal as its identity.
pub fn consumer_config(rollup_ids: Vec<u32>, operator_id: &Bytes32) -> (r: ConsumerConfig)
    ensures
        r.rollup_ids@ == rollup_ids@,
        r.id@ == hex_of(operator_id@),
{
    ConsumerConfig { rollup_ids, id: encode_hex(operator_id) }
}

} // verus!
