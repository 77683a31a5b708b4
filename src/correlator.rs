use vstd::prelude::*;
use crate::types::{
    Bytes32, DaBlock, Header, SignedStateRootUpdateMessage, StateRootUpdateMessage, zero_bytes,
    zeroed,
};
use crate::notifier::{BlockFilter, Subscription, delivers, matching_ids, unique_ids, lemma_matching_ids_contains, lemma_publish_reaches};

verus! {

/// How long a header waits for its DA block, in seconds.
pub const MQ_WAIT_TIMEOUT_SECS: u64 = 30;

/// How the wait for a header's DA block ended.
#[derive(Clone, Copy, Debug)]
pub enum WaitOutcome {
    /// A DA block was delivered to the header's subscription in time.
    Matched(DaBlock),
    /// The delivery channel closed before any block came.
    ChannelClosed,
    /// The wait bound elapsed first.
    TimedOut,
}

/// Why no signed message came out of a header.
#[derive(Clone, Debug, PartialEq, Eq)]
pub enum AttestError {
    SignFailed(String),
}

/// What the node has observed of one chain's headers.
#[derive(Clone, Copy, Debug)]
pub struct ChainStats {
    pub last_block: u64,
    pub last_timestamp: u64,
    pub received: u64,
    pub missed: u64,
}

/// The block filter that a header of `rollup_id` waits with.
pub open spec fn filter_of(rollup_id: u32, h: Header) -> BlockFilter {
    BlockFilter { rollup_id, block_height: h.number, state_root: h.state_root }
}

/// `d` corroborates the header `h` of `rollup_id`: same chain, height and root.
pub open spec fn corroborates(d: DaBlock, rollup_id: u32, h: Header) -> bool {
    &&& d.rollup_id == rollup_id
    &&& d.block_height == h.number
    &&& d.state_root@ == h.state_root@
}

/// The DA transaction id that the message for `o` carries.
pub open spec fn da_transaction_id(o: WaitOutcome) -> Seq<u8> {
    match o {
        WaitOutcome::Matched(d) => d.transaction_id@,
        _ => zero_bytes(),
    }
}

/// The DA commitment that the message for `o` carries.
pub open spec fn da_commitment(o: WaitOutcome) -> Seq<u8> {
    match o {
        WaitOutcome::Matched(d) => d.commitment@,
        _ => zero_bytes(),
    }
}

/// `m` is the message for header `h` of `rollup_id` after the wait ended with `o`.
pub open spec fn is_message_for(m: StateRootUpdateMessage, rollup_id: u32, h: Header, o: WaitOutcome) -> bool {
    &&& m.rollup_id == rollup_id
    &&& m.block_height == h.number
    &&& m.timestamp == h.timestamp
    &&& m.state_root@ == h.state_root@
    &&& m.near_da_transaction_id@ == da_transaction_id(o)
    &&& m.near_da_commitment@ == da_commitment(o)
}

/// The filter a header waits with: its chain, its height, its state root.
pub fn header_filter(rollup_id: u32, h: &Header) -> (r: BlockFilter)
    ensures
        r == filter_of(rollup_id, *h),
{
    BlockFilter { rollup_id, block_height: h.number, state_root: h.state_root }
}

/// Builds the state-root update message for a header once its wait is over:
/// the DA fields of the matched block, or zeros on a timeout or closed channel.
pub fn state_root_update(rollup_id: u32, h: &Header, outcome: &WaitOutcome) -> (r: StateRootUpdateMessage)
    ensures
        is_message_for(r, rollup_id, *h, *outcome),
{
    let (transaction_id, commitment): (Bytes32, Bytes32) = match outcome {
        WaitOutcome::Matched(d) => (d.transaction_id, d.commitment),
        _ => (zeroed(), zeroed()),
    };
    StateRootUpdateMessage {
        rollup_id,
        block_height: h.number,
        timestamp: h.timestamp,
        state_root: h.state_root,
        near_da_transaction_id: transaction_id,
        near_da_commitment: commitment,
    }
}

/// Wraps a message with the result of signing it: a signed message when the
/// signature came, the signing error otherwise.
pub fn attest(
    message: StateRootUpdateMessage,
    signature: Result<Vec<u8>, String>,
    operator_id: Bytes32,
) -> (r: Result<SignedStateRootUpdateMessage, AttestError>)
    ensures
        signature is Ok <==> r is Ok,
        r is Ok ==> r->Ok_0.message == message && r->Ok_0.bls_signature@ == signature->Ok_0@
            && r->Ok_0.operator_id == operator_id,
        r is Err ==> r->Err_0 == AttestError::SignFailed(signature->Err_0),
{
    match signature {
        Ok(bls_signature) => Ok(SignedStateRootUpdateMessage { message, bls_signature, operator_id }),
        Err(e) => Err(AttestError::SignFailed(e)),
    }
}

/// Correlation: while a header's subscription is registered, a published DA
/// block reaches it exactly when the block corroborates the header (chain,
/// height, state root); the header's message then carries that block's DA
/// transaction id and commitment. Without a block in time, both are zero.
pub proof fn lemma_correlation(s: Seq<Subscription>, rollup_id: u32, h: Header, id: u64, d: DaBlock)
    requires
        unique_ids(s),
        s.contains(Subscription { id, rollup_id, filter: filter_of(rollup_id, h) }),
    ensures
        matching_ids(s, d).contains(id) <==> corroborates(d, rollup_id, h),
        forall|m: StateRootUpdateMessage| #[trigger] is_message_for(m, rollup_id, h, WaitOutcome::Matched(d))
            ==> m.near_da_transaction_id@ == d.transaction_id@ && m.near_da_commitment@ == d.commitment@,
        forall|m: StateRootUpdateMessage, o: WaitOutcome| #[trigger] is_message_for(m, rollup_id, h, o) && !(o is Matched)
            ==> m.near_da_transaction_id@ == zero_bytes() && m.near_da_commitment@ == zero_bytes(),
{
    let x = Subscription { id, rollup_id, filter: filter_of(rollup_id, h) };
    lemma_publish_reaches(s, d);
    lemma_matching_ids_contains(s, d);
    if matching_ids(s, d).contains(id) {
        let y = choose|y: Subscription| s.contains(y) && y.id == id && delivers(y, d);
        let i = choose|i: int| 0 <= i < s.len() && s[i] == x;
        let j = choose|j: int| 0 <= j < s.len() && s[j] == y;
        assert(i == j);
    }
}

/// Exactly one message per header: for every way the wait can end there is
/// one message for the header, the same whichever way it is built.
pub proof fn lemma_one_message_per_header(
    rollup_id: u32,
    h: Header,
    o: WaitOutcome,
    m1: StateRootUpdateMessage,
    m2: StateRootUpdateMessage,
)
    requires
        is_message_for(m1, rollup_id, h, o),
        is_message_for(m2, rollup_id, h, o),
    ensures
        m1 == m2,
{
    assert(m1.state_root =~= m2.state_root);
    assert(m1.near_da_transaction_id =~= m2.near_da_transaction_id);
    assert(m1.near_da_commitment =~= m2.near_da_commitment);
}

impl ChainStats {
    /// Nothing observed yet.
    pub fn new() -> (r: ChainStats)
        ensures
            r == (ChainStats { last_block: 0, last_timestamp: 0, received: 0, missed: 0 }),
    {
        ChainStats { last_block: 0, last_timestamp: 0, received: 0, missed: 0 }
    }

    /// Records a received header: its height and timestamp, one more received.
    pub fn observe_header(&mut self, h: &Header)
        ensures
            final(self).last_block == h.number,
            final(self).last_timestamp == h.timestamp,
            final(self).received == sat_inc(old(self).received),
            final(self).missed == old(self).missed,
    {
        self.last_block = h.number;
        self.last_timestamp = h.timestamp;
        self.received = self.received.saturating_add(1);
    }

    /// Records how a wait ended: a timeout counts one more missed DA block.
    pub fn observe_outcome(&mut self, outcome: &WaitOutcome)
        ensures
            final(self).missed == if outcome is TimedOut {
                sat_inc(old(self).missed)
            } else {
                old(self).missed
            },
            final(self).last_block == old(self).last_block,
            final(self).last_timestamp == old(self).last_timestamp,
            final(self).received == old(self).received,
    {
        if let WaitOutcome::TimedOut = outcome {
            self.missed = self.missed.saturating_add(1);
        }
    }
}

/// Where a chain's header task stands.
#[derive(Clone, Copy, Debug)]
pub enum Stage {
    /// Waiting for the next header.
    WaitingForHeader,
    /// Waiting, bounded in time, for the DA block of this header.
    Correlating(Header),
}

/// The decisions of one chain's header task: each header is observed, waits
/// for its DA block, and leaves exactly one message, in order of arrival.
#[derive(Clone, Copy, Debug)]
pub struct HeaderCorrelator {
    pub rollup_id: u32,
    pub stage: Stage,
    pub stats: ChainStats,
    /// Messages built so far.
    pub emitted: u64,
}

impl HeaderCorrelator {
    /// A task of `rollup_id` that has seen nothing.
    pub fn new(rollup_id: u32) -> (r: HeaderCorrelator)
        ensures
            r.rollup_id == rollup_id,
            r.stage is WaitingForHeader,
            r.stats == (ChainStats { last_block: 0, last_timestamp: 0, received: 0, missed: 0 }),
            r.emitted == 0,
    {
        HeaderCorrelator { rollup_id, stage: Stage::WaitingForHeader, stats: ChainStats::new(), emitted: 0 }
    }

    /// Whether the task waits for a header.
    pub fn is_waiting(&self) -> (r: bool)
        ensures
            r == self.stage is WaitingForHeader,
    {
        match self.stage {
            Stage::WaitingForHeader => true,
            Stage::Correlating(_) => false,
        }
    }

    /// A header arrived: it is observed, and the filter to wait with is
    /// returned.
    pub fn on_header(&mut self, h: &Header) -> (r: BlockFilter)
        requires
            old(self).stage is WaitingForHeader,
        ensures
            r == filter_of(old(self).rollup_id, *h),
            final(self).stage == Stage::Correlating(*h),
            final(self).rollup_id == old(self).rollup_id,
            final(self).emitted == old(self).emitted,
            final(self).stats.last_block == h.number,
            final(self).stats.last_timestamp == h.timestamp,
            final(self).stats.received == sat_inc(old(self).stats.received),
            final(self).stats.missed == old(self).stats.missed,
    {
        self.stats.observe_header(h);
        self.stage = Stage::Correlating(*h);
        header_filter(self.rollup_id, h)
    }

    /// The wait of the current header ended with `outcome`: its message is
    /// built and the task waits for the next header.
    pub fn on_wait_over(&mut self, outcome: &WaitOutcome) -> (r: StateRootUpdateMessage)
        requires
            old(self).stage is Correlating,
            old(self).emitted < u64::MAX,
        ensures
            is_message_for(r, old(self).rollup_id, old(self).stage->Correlating_0, *outcome),
            final(self).stage is WaitingForHeader,
            final(self).rollup_id == old(self).rollup_id,
            final(self).emitted == old(self).emitted + 1,
            final(self).stats.missed == if outcome is TimedOut {
                sat_inc(old(self).stats.missed)
            } else {
                old(self).stats.missed
            },
            final(self).stats.received == old(self).stats.received,
            final(self).stats.last_block == old(self).stats.last_block,
            final(self).stats.last_timestamp == old(self).stats.last_timestamp,
    {
        let h = match self.stage {
            Stage::Correlating(h) => h,
            Stage::WaitingForHeader => Header { number: 0, timestamp: 0, state_root: zeroed() },
        };
        self.stats.observe_outcome(outcome);
        self.stage = Stage::WaitingForHeader;
        self.emitted = self.emitted + 1;
        state_root_update(self.rollup_id, &h, outcome)
    }
}

/// One more, stopping at the largest value.
pub open spec fn sat_inc(n: u64) -> u64 {
    if n == u64::MAX {
        n
    } else {
        (n + 1) as u64
    }
}

} // verus!
