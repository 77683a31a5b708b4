use vstd::prelude::*;
use crate::types::{Bytes32, DaBlock, bytes_eq};

verus! {

/// What a waiter asks of a DA block: this chain, this height, this state root.
#[derive(Clone, Copy, Debug)]
pub struct BlockFilter {
    pub rollup_id: u32,
    pub block_height: u64,
    pub state_root: Bytes32,
}

impl BlockFilter {
    pub open spec fn accepts(&self, b: DaBlock) -> bool {
        &&& b.rollup_id == self.rollup_id
        &&& b.block_height == self.block_height
        &&& b.state_root@ == self.state_root@
    }

    /// Tests a DA block against the filter.
    pub fn test(&self, b: &DaBlock) -> (r: bool)
        ensures
            r == self.accepts(*b),
    {
        b.rollup_id == self.rollup_id && b.block_height == self.block_height && bytes_eq(
            &b.state_root,
            &self.state_root,
        )
    }
}

/// One registered waiter of the broker.
#[derive(Clone, Copy, Debug)]
pub struct Subscription {
    pub id: u64,
    pub rollup_id: u32,
    pub filter: BlockFilter,
}

/// Why a publish was refused.
#[derive(Clone, Copy, Debug, PartialEq, Eq, Structural)]
pub enum NotifierError {
    Closed,
}

/// A publish of `b` is handed to `s`: same chain, and the filter accepts it.
pub open spec fn delivers(s: Subscription, b: DaBlock) -> bool {
    s.rollup_id == b.rollup_id && s.filter.accepts(b)
}

/// The subscriptions of `s` for which `p` holds, in their order.
pub open spec fn keep(s: Seq<Subscription>, p: spec_fn(Subscription) -> bool) -> Seq<Subscription>
    decreases s.len(),
{
    if s.len() == 0 {
        s
    } else if p(s.last()) {
        keep(s.drop_last(), p).push(s.last())
    } else {
        keep(s.drop_last(), p)
    }
}

/// Holds of the subscriptions that a publish of `b` does not reach.
pub open spec fn undelivered(b: DaBlock) -> spec_fn(Subscription) -> bool {
    |x: Subscription| !delivers(x, b)
}

/// Holds of every subscription but `id` of `rollup_id`.
pub open spec fn other_than(rollup_id: u32, id: u64) -> spec_fn(Subscription) -> bool {
    |x: Subscription| !(x.rollup_id == rollup_id && x.id == id)
}

/// The subscriptions that stay registered after `b` is published.
pub open spec fn remaining(s: Seq<Subscription>, b: DaBlock) -> Seq<Subscription> {
    keep(s, undelivered(b))
}

/// The subscriptions that stay registered after unsubscribing `id` on `rollup_id`.
pub open spec fn without(s: Seq<Subscription>, rollup_id: u32, id: u64) -> Seq<Subscription> {
    keep(s, other_than(rollup_id, id))
}

/// The ids, in order, of the subscriptions of `s` that a publish of `b` reaches.
pub open spec fn matching_ids(s: Seq<Subscription>, b: DaBlock) -> Seq<u64>
    decreases s.len(),
{
    if s.len() == 0 {
        Seq::empty()
    } else if delivers(s.last(), b) {
        matching_ids(s.drop_last(), b).push(s.last().id)
    } else {
        matching_ids(s.drop_last(), b)
    }
}

/// No two subscriptions of `s` share an id.
pub open spec fn unique_ids(s: Seq<Subscription>) -> bool {
    forall|i: int, j: int| 0 <= i < s.len() && 0 <= j < s.len() && i != j ==> s[i].id != s[j].id
}

pub proof fn lemma_keep_contains(s: Seq<Subscription>, p: spec_fn(Subscription) -> bool)
    ensures
        forall|x: Subscription| #[trigger] keep(s, p).contains(x) <==> (s.contains(x) && p(x)),
    decreases s.len(),
{
    if s.len() > 0 {
        lemma_keep_contains(s.drop_last(), p);
        assert(s =~= s.drop_last().push(s.last()));
        assert forall|x: Subscription| #[trigger] keep(s, p).contains(x) <==> (s.contains(x) && p(x)) by {
            if s.contains(x) && p(x) {
                let i = choose|i: int| 0 <= i < s.len() && s[i] == x;
                if i < s.len() - 1 {
                    assert(s.drop_last()[i] == x);
                    assert(s.drop_last().contains(x));
                    assert(keep(s.drop_last(), p).contains(x));
                    let k = choose|k: int| 0 <= k < keep(s.drop_last(), p).len() && keep(s.drop_last(), p)[k] == x;
                    if p(s.last()) {
                        assert(keep(s, p)[k] == x);
                    }
                } else {
                    assert(keep(s, p).last() == x);
                }
            }
            if keep(s, p).contains(x) {
                let k = choose|k: int| 0 <= k < keep(s, p).len() && keep(s, p)[k] == x;
                if p(s.last()) && k == keep(s, p).len() - 1 {
                    assert(s[s.len() - 1] == x);
                } else {
                    assert(keep(s.drop_last(), p)[k] == x);
                    assert(keep(s.drop_last(), p).contains(x));
                    assert(s.drop_last().contains(x));
                    let i = choose|i: int| 0 <= i < s.drop_last().len() && s.drop_last()[i] == x;
                    assert(s[i] == x);
                }
            }
        }
    }
}

pub proof fn lemma_keep_unique(s: Seq<Subscription>, p: spec_fn(Subscription) -> bool)
    requires
        unique_ids(s),
    ensures
        unique_ids(keep(s, p)),
    decreases s.len(),
{
    if s.len() > 0 {
        let d = s.drop_last();
        assert(unique_ids(d)) by {
            assert forall|i: int, j: int| 0 <= i < d.len() && 0 <= j < d.len() && i != j implies d[i].id != d[j].id by {
                assert(d[i] == s[i] && d[j] == s[j]);
            }
        }
        lemma_keep_unique(d, p);
        lemma_keep_contains(d, p);
        if p(s.last()) {
            let k = keep(d, p);
            let r = k.push(s.last());
            assert forall|i: int, j: int| 0 <= i < r.len() && 0 <= j < r.len() && i != j implies r[i].id != r[j].id by {
                if i < k.len() && j < k.len() {
                    assert(r[i] == k[i] && r[j] == k[j]);
                } else {
                    let m = if i < k.len() { i } else { j };
                    assert(k.contains(k[m]));
                    let n = choose|n: int| 0 <= n < d.len() && d[n] == k[m];
                    assert(s[n] == d[n]);
                    assert(s[s.len() - 1].id != s[n].id);
                }
            }
        }
    }
}

pub proof fn lemma_keep_all(s: Seq<Subscription>, p: spec_fn(Subscription) -> bool)
    requires
        forall|x: Subscription| s.contains(x) ==> p(x),
    ensures
        keep(s, p) == s,
    decreases s.len(),
{
    if s.len() > 0 {
        let d = s.drop_last();
        assert forall|x: Subscription| d.contains(x) implies p(x) by {
            let i = choose|i: int| 0 <= i < d.len() && d[i] == x;
            assert(s[i] == x);
            assert(s.contains(x));
        }
        lemma_keep_all(d, p);
        assert(s.contains(s[s.len() - 1]));
        assert(s =~= d.push(s.last()));
    }
}

pub proof fn lemma_matching_ids_contains(s: Seq<Subscription>, b: DaBlock)
    ensures
        forall|id: u64| #[trigger] matching_ids(s, b).contains(id) <==> exists|x: Subscription|
            s.contains(x) && x.id == id && delivers(x, b),
    decreases s.len(),
{
    if s.len() > 0 {
        let d = s.drop_last();
        lemma_matching_ids_contains(d, b);
        assert forall|id: u64| #[trigger] matching_ids(s, b).contains(id) <==> exists|x: Subscription|
            s.contains(x) && x.id == id && delivers(x, b) by {
            let m = matching_ids(d, b);
            if matching_ids(s, b).contains(id) {
                if delivers(s.last(), b) && id == s.last().id {
                    assert(s.contains(s[s.len() - 1]));
                } else {
                    if delivers(s.last(), b) {
                        let k = choose|k: int| 0 <= k < m.push(s.last().id).len() && m.push(s.last().id)[k] == id;
                        assert(m[k] == id);
                    }
                    assert(m.contains(id));
                    let x = choose|x: Subscription| d.contains(x) && x.id == id && delivers(x, b);
                    let i = choose|i: int| 0 <= i < d.len() && d[i] == x;
                    assert(s[i] == x);
                }
            }
            if exists|x: Subscription| s.contains(x) && x.id == id && delivers(x, b) {
                let x = choose|x: Subscription| s.contains(x) && x.id == id && delivers(x, b);
                let i = choose|i: int| 0 <= i < s.len() && s[i] == x;
                if i == s.len() - 1 {
                    assert(matching_ids(s, b).last() == id);
                } else {
                    assert(d[i] == x);
                    assert(m.contains(id));
                    if delivers(s.last(), b) {
                        let k = choose|k: int| 0 <= k < m.len() && m[k] == id;
                        assert(m.push(s.last().id)[k] == id);
                    }
                }
            }
        }
    }
}

proof fn lemma_same_id_same_sub(s: Seq<Subscription>, x: Subscription, y: Subscription)
    requires
        unique_ids(s),
        s.contains(x),
        s.contains(y),
        x.id == y.id,
    ensures
        x == y,
{
    let i = choose|i: int| 0 <= i < s.len() && s[i] == x;
    let j = choose|j: int| 0 <= j < s.len() && s[j] == y;
    assert(i == j);
}

/// Delivery is single-shot: a subscription that a publish reached has left the
/// table, so no later publish reaches it, whatever block it carries.
pub proof fn lemma_delivery_single_shot(s: Seq<Subscription>, b1: DaBlock, b2: DaBlock, id: u64)
    requires
        unique_ids(s),
        matching_ids(s, b1).contains(id),
    ensures
        forall|y: Subscription| #[trigger] remaining(s, b1).contains(y) ==> y.id != id,
        !matching_ids(remaining(s, b1), b2).contains(id),
{
    lemma_matching_ids_contains(s, b1);
    let x = choose|x: Subscription| s.contains(x) && x.id == id && delivers(x, b1);
    lemma_keep_contains(s, undelivered(b1));
    assert forall|y: Subscription| #[trigger] remaining(s, b1).contains(y) implies y.id != id by {
        if y.id == id {
            lemma_same_id_same_sub(s, x, y);
        }
    }
    lemma_matching_ids_contains(remaining(s, b1), b2);
}

/// Unsubscribing is idempotent: a second call changes nothing, and every other
/// subscription stays registered.
pub proof fn lemma_unsubscribe_idempotent(s: Seq<Subscription>, rollup_id: u32, id: u64)
    ensures
        without(without(s, rollup_id, id), rollup_id, id) == without(s, rollup_id, id),
        forall|x: Subscription| #[trigger] s.contains(x) && !(x.rollup_id == rollup_id && x.id == id)
            ==> without(s, rollup_id, id).contains(x),
{
    lemma_keep_contains(s, other_than(rollup_id, id));
    lemma_keep_all(without(s, rollup_id, id), other_than(rollup_id, id));
}

/// Unsubscribing an id that is not registered, such as one already satisfied
/// by a publish, leaves the table as it is.
pub proof fn lemma_unsubscribe_absent(s: Seq<Subscription>, rollup_id: u32, id: u64)
    requires
        forall|x: Subscription| #[trigger] s.contains(x) ==> x.id != id,
    ensures
        without(s, rollup_id, id) == s,
{
    lemma_keep_all(s, other_than(rollup_id, id));
}

/// Unsubscribing after the subscription was delivered to changes nothing.
pub proof fn lemma_unsubscribe_after_delivery(s: Seq<Subscription>, b: DaBlock, rollup_id: u32, id: u64)
    requires
        unique_ids(s),
        matching_ids(s, b).contains(id),
    ensures
        without(remaining(s, b), rollup_id, id) == remaining(s, b),
{
    lemma_delivery_single_shot(s, b, b, id);
    lemma_unsubscribe_absent(remaining(s, b), rollup_id, id);
}

/// Chains do not interfere: a publish never reaches a subscription of another
/// chain, and leaves every subscription of another chain registered.
pub proof fn lemma_chains_isolated(s: Seq<Subscription>, b: DaBlock)
    requires
        unique_ids(s),
    ensures
        forall|x: Subscription| #[trigger] s.contains(x) && x.rollup_id != b.rollup_id
            ==> !matching_ids(s, b).contains(x.id) && remaining(s, b).contains(x),
{
    lemma_matching_ids_contains(s, b);
    lemma_keep_contains(s, undelivered(b));
    assert forall|x: Subscription| #[trigger] s.contains(x) && x.rollup_id != b.rollup_id
        implies !matching_ids(s, b).contains(x.id) && remaining(s, b).contains(x) by {
        if matching_ids(s, b).contains(x.id) {
            let y = choose|y: Subscription| s.contains(y) && y.id == x.id && delivers(y, b);
            lemma_same_id_same_sub(s, x, y);
        }
    }
}

/// A publish reaches exactly the registered subscriptions of the block's chain
/// whose filter accepts it.
pub proof fn lemma_publish_reaches(s: Seq<Subscription>, b: DaBlock)
    ensures
        forall|x: Subscription| #[trigger] s.contains(x) ==>
            (delivers(x, b) <==> !remaining(s, b).contains(x)),
        forall|x: Subscription| #[trigger] s.contains(x) && delivers(x, b)
            ==> matching_ids(s, b).contains(x.id),
{
    lemma_matching_ids_contains(s, b);
    lemma_keep_contains(s, undelivered(b));
}

/// The subscription table of the broker: every registered waiter, in order
/// of registration, and the next id to hand out.
pub struct Notifier {
    subs: Vec<Subscription>,
    next_id: u64,
    closed: bool,
}

impl Notifier {
    pub closed spec fn subscriptions(&self) -> Seq<Subscription> {
        self.subs@
    }

    pub closed spec fn next_id_spec(&self) -> u64 {
        self.next_id
    }

    pub closed spec fn is_closed(&self) -> bool {
        self.closed
    }

    /// Ids are unique and all below the next id to hand out.
    pub open spec fn wf(&self) -> bool {
        &&& unique_ids(self.subscriptions())
        &&& forall|x: Subscription| #[trigger]
            self.subscriptions().contains(x) ==> x.id < self.next_id_spec()
    }

    /// An open broker with no subscription.
    pub fn new() -> (r: Notifier)
        ensures
            r.wf(),
            r.subscriptions() == Seq::<Subscription>::empty(),
            r.next_id_spec() == 0,
            !r.is_closed(),
    {
        Notifier { subs: Vec::new(), next_id: 0, closed: false }
    }

    /// Whether a further subscription can get an id.
    pub fn can_subscribe(&self) -> (r: bool)
        ensures
            r == (self.next_id_spec() < u64::MAX),
    {
        self.next_id < u64::MAX
    }

    /// Whether the broker has been shut down.
    pub fn closed(&self) -> (r: bool)
        ensures
            r == self.is_closed(),
    {
        self.closed
    }

    /// Shuts the broker down: later publishes are refused.
    pub fn shutdown(&mut self)
        ensures
            final(self).subscriptions() == old(self).subscriptions(),
            final(self).next_id_spec() == old(self).next_id_spec(),
            final(self).is_closed(),
    {
        self.closed = true;
    }

    /// Registers a waiter on `rollup_id` and returns its id, which is fresh.
    pub fn subscribe(&mut self, rollup_id: u32, filter: BlockFilter) -> (r: u64)
        requires
            old(self).wf(),
            old(self).next_id_spec() < u64::MAX,
        ensures
            final(self).wf(),
            r == old(self).next_id_spec(),
            final(self).next_id_spec() == r + 1,
            final(self).subscriptions() == old(self).subscriptions().push(
                Subscription { id: r, rollup_id, filter },
            ),
            final(self).is_closed() == old(self).is_closed(),
    {
        let id = self.next_id;
        let ghost s0 = self.subs@;
        self.subs.push(Subscription { id, rollup_id, filter });
        self.next_id = id + 1;
        proof {
            let s = self.subs@;
            assert forall|x: Subscription| #[trigger] s.contains(x) implies x.id < id + 1 by {
                let i = choose|i: int| 0 <= i < s.len() && s[i] == x;
                if i < s0.len() {
                    assert(s0[i] == x);
                    assert(s0.contains(x));
                }
            }
            assert forall|i: int, j: int| 0 <= i < s.len() && 0 <= j < s.len() && i != j implies s[i].id != s[j].id by {
                if i < s0.len() {
                    assert(s0.contains(s0[i]));
                }
                if j < s0.len() {
                    assert(s0.contains(s0[j]));
                }
            }
        }
        id
    }

    /// Hands `b` to every subscription of its chain whose filter accepts it.
    /// Those subscriptions are satisfied and leave the table; their ids are
    /// returned in order of registration. A shut-down broker refuses.
    pub fn publish(&mut self, b: &DaBlock) -> (r: Result<Vec<u64>, NotifierError>)
        requires
            old(self).wf(),
        ensures
            final(self).wf(),
            final(self).next_id_spec() == old(self).next_id_spec(),
            final(self).is_closed() == old(self).is_closed(),
            old(self).is_closed() ==> r == Err::<Vec<u64>, NotifierError>(NotifierError::Closed)
                && final(self).subscriptions() == old(self).subscriptions(),
            !old(self).is_closed() ==> r is Ok && r->Ok_0@ == matching_ids(old(self).subscriptions(), *b)
                && final(self).subscriptions() == remaining(old(self).subscriptions(), *b),
    {
        if self.closed {
            return Err(NotifierError::Closed);
        }
        let mut delivered: Vec<u64> = Vec::new();
        let mut kept: Vec<Subscription> = Vec::new();
        let mut i: usize = 0;
        let ghost s = self.subs@;
        while i < self.subs.len()
            invariant
                self.subs@ == s,
                0 <= i <= s.len(),
                delivered@ == matching_ids(s.take(i as int), *b),
                kept@ == remaining(s.take(i as int), *b),
            decreases s.len() - i,
        {
            let x = self.subs[i];
            proof {
                assert(s.take(i as int + 1).drop_last() =~= s.take(i as int));
                assert(s.take(i as int + 1).last() == x);
            }
            if x.rollup_id == b.rollup_id && x.filter.test(b) {
                delivered.push(x.id);
            } else {
                kept.push(x);
            }
            i = i + 1;
        }
        proof {
            assert(s.take(s.len() as int) =~= s);
            lemma_keep_unique(s, undelivered(*b));
            lemma_keep_contains(s, undelivered(*b));
        }
        self.subs = kept;
        Ok(delivered)
    }

    /// Removes the subscription `id` of `rollup_id`; does nothing if it is not
    /// registered (already satisfied, or removed before).
    pub fn unsubscribe(&mut self, rollup_id: u32, id: u64)
        requires
            old(self).wf(),
        ensures
            final(self).wf(),
            final(self).next_id_spec() == old(self).next_id_spec(),
            final(self).is_closed() == old(self).is_closed(),
            final(self).subscriptions() == without(old(self).subscriptions(), rollup_id, id),
    {
        let mut kept: Vec<Subscription> = Vec::new();
        let mut i: usize = 0;
        let ghost s = self.subs@;
        while i < self.subs.len()
            invariant
                self.subs@ == s,
                0 <= i <= s.len(),
                kept@ == without(s.take(i as int), rollup_id, id),
            decreases s.len() - i,
        {
            let x = self.subs[i];
            proof {
                assert(s.take(i as int + 1).drop_last() =~= s.take(i as int));
                assert(s.take(i as int + 1).last() == x);
            }
            if !(x.rollup_id == rollup_id && x.id == id) {
                kept.push(x);
            }
            i = i + 1;
        }
        proof {
            assert(s.take(s.len() as int) =~= s);
            lemma_keep_unique(s, other_than(rollup_id, id));
            lemma_keep_contains(s, other_than(rollup_id, id));
        }
        self.subs = kept;
    }

    /// Whether the subscription `id` of `rollup_id` is registered.
    pub fn is_subscribed(&self, rollup_id: u32, id: u64) -> (r: bool)
        ensures
            r == exists|x: Subscription| #[trigger]
                self.subscriptions().contains(x) && x.rollup_id == rollup_id && x.id == id,
    {
        let mut i: usize = 0;
        while i < self.subs.len()
            invariant
                0 <= i <= self.subs@.len(),
                forall|k: int| 0 <= k < i ==> !(self.subs@[k].rollup_id == rollup_id && self.subs@[k].id == id),
            decreases self.subs@.len() - i,
        {
            if self.subs[i].rollup_id == rollup_id && self.subs[i].id == id {
                assert(self.subscriptions().contains(self.subs@[i as int]));
                return true;
            }
            i = i + 1;
        }
        assert forall|x: Subscription| #[trigger] self.subscriptions().contains(x)
            implies !(x.rollup_id == rollup_id && x.id == id) by {
            let k = choose|k: int| 0 <= k < self.subs@.len() && self.subs@[k] == x;
        }
        false
    }

    /// The number of registered subscriptions.
    pub fn len(&self) -> (r: usize)
        ensures
            r == self.subscriptions().len(),
    {
        self.subs.len()
    }
}

} // verus!
