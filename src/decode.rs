//! The event decoder: flattens a segment into its logs, keeps those of the
//! target contract and decodes the known events.
use vstd::prelude::*;
use crate::chain::{Block, ChainSegment, Log, Transaction};

verus! {

broadcast use vstd::array::group_array_axioms;

/// The contract whose events count, and the topic that marks its
/// `Incremented(uint256)` event.
#[derive(Clone, Copy, Debug, PartialEq, Eq)]
pub struct EventFilter {
    pub contract: [u8; 20],
    pub incremented_topic: [u8; 32],
}

/// The events of the watched contract.
#[derive(Clone, Copy, Debug, PartialEq, Eq)]
pub enum CounterEvent {
    Incremented { value: [u8; 32] },
}

/// A decoded event with the block and transaction it came from.
#[derive(Clone, Copy, Debug, PartialEq, Eq)]
pub struct DecodedEvent {
    pub block_number: u64,
    pub block_hash: [u8; 32],
    pub tx_hash: [u8; 32],
    pub event: CounterEvent,
}

/// The 32-byte word whose bytes are `s`.
pub open spec fn word_of(s: Seq<u8>) -> [u8; 32] {
    choose|w: [u8; 32]| w@ == s
}

/// The event that a log holds, if it is one of the watched contract's events
/// and its data is well formed: one topic, and one 32-byte word of data.
pub open spec fn log_event(f: EventFilter, l: Log) -> Option<CounterEvent> {
    if l.address == f.contract && l.topics@.len() == 1 && l.topics@[0] == f.incremented_topic
        && l.data@.len() == 32 {
        Some(CounterEvent::Incremented { value: word_of(l.data@) })
    } else {
        None
    }
}

/// The events of `logs`, in order, tagged with block `b` and transaction `t`.
pub open spec fn logs_events(f: EventFilter, b: Block, t: Transaction, logs: Seq<Log>) -> Seq<
    DecodedEvent,
>
    decreases logs.len(),
{
    if logs.len() == 0 {
        seq![]
    } else {
        let earlier = logs_events(f, b, t, logs.drop_last());
        match log_event(f, logs.last()) {
            Some(e) => earlier.push(
                DecodedEvent {
                    block_number: b.number,
                    block_hash: b.hash,
                    tx_hash: t.hash,
                    event: e,
                },
            ),
            None => earlier,
        }
    }
}

/// The events of the transactions `txs` of block `b`, in order.
pub open spec fn txs_events(f: EventFilter, b: Block, txs: Seq<Transaction>) -> Seq<DecodedEvent>
    decreases txs.len(),
{
    if txs.len() == 0 {
        seq![]
    } else {
        txs_events(f, b, txs.drop_last()) + logs_events(f, b, txs.last(), txs.last().logs@)
    }
}

/// The events of the blocks `bs`, in order.
pub open spec fn blocks_events(f: EventFilter, bs: Seq<Block>) -> Seq<DecodedEvent>
    decreases bs.len(),
{
    if bs.len() == 0 {
        seq![]
    } else {
        blocks_events(f, bs.drop_last()) + txs_events(f, bs.last(), bs.last().transactions@)
    }
}

/// The events of a segment: block order, then transaction order, then log order.
pub open spec fn segment_events(f: EventFilter, seg: ChainSegment) -> Seq<DecodedEvent> {
    blocks_events(f, seg.blocks())
}

/// The events of blocks that hold no transactions: none.
proof fn lemma_quiet_blocks(f: EventFilter, bs: Seq<Block>)
    requires
        forall|i: int| 0 <= i < bs.len() ==> (#[trigger] bs[i]).transactions@.len() == 0,
    ensures
        blocks_events(f, bs) == Seq::<DecodedEvent>::empty(),
    decreases bs.len(),
{
    if bs.len() > 0 {
        lemma_quiet_blocks(f, bs.drop_last());
        assert(bs.last().transactions@.len() == 0);
        assert(blocks_events(f, bs) =~= Seq::<DecodedEvent>::empty());
    }
}

/// A segment whose blocks hold no transactions decodes to no events.
pub proof fn lemma_no_transactions_no_events(f: EventFilter, seg: ChainSegment)
    requires
        forall|i: int|
            0 <= i < seg.blocks().len() ==> (#[trigger] seg.blocks()[i]).transactions@.len() == 0,
    ensures
        segment_events(f, seg) == Seq::<DecodedEvent>::empty(),
{
    lemma_quiet_blocks(f, seg.blocks());
}

/// A log that another contract emitted adds no event: appending it to a
/// transaction's logs leaves the decoded events as they were.
pub proof fn lemma_foreign_log_dropped(
    f: EventFilter,
    b: Block,
    t: Transaction,
    logs: Seq<Log>,
    l: Log,
)
    requires
        l.address != f.contract,
    ensures
        log_event(f, l) is None,
        logs_events(f, b, t, logs.push(l)) == logs_events(f, b, t, logs),
{
    assert(logs.push(l).drop_last() =~= logs);
}

/// Whether two byte arrays are equal.
fn same_bytes<const N: usize>(a: &[u8; N], b: &[u8; N]) -> (r: bool)
    ensures
        r == (*a == *b),
{
    let mut i: usize = 0;
    while i < N
        invariant
            i <= N,
            a@.len() == N,
            b@.len() == N,
            forall|j: int| 0 <= j < i ==> a@[j] == b@[j],
        decreases N - i,
    {
        if a[i] != b[i] {
            return false;
        }
        i = i + 1;
    }
    assert(*a =~= *b);
    true
}

/// The word held by 32 bytes of data.
fn word_from(data: &Vec<u8>) -> (r: [u8; 32])
    requires
        data@.len() == 32,
    ensures
        r == word_of(data@),
{
    let mut w: [u8; 32] = [0u8; 32];
    let mut i: usize = 0;
    while i < 32
        invariant
            i <= 32,
            data@.len() == 32,
            w@.len() == 32,
            forall|j: int| 0 <= j < i ==> w@[j] == data@[j],
        decreases 32 - i,
    {
        w[i] = data[i];
        i = i + 1;
    }
    assert(w@ =~= data@);
    let ghost c = word_of(data@);
    assert(c@ == data@);
    assert(c =~= w);
    w
}

/// The event that one log holds for the filter, if any.
pub fn decode_log(f: &EventFilter, l: &Log) -> (r: Option<CounterEvent>)
    ensures
        r == log_event(*f, *l),
{
    if same_bytes(&l.address, &f.contract) && l.topics.len() == 1 && same_bytes(
        &l.topics[0],
        &f.incremented_topic,
    ) && l.data.len() == 32 {
        Some(CounterEvent::Incremented { value: word_from(&l.data) })
    } else {
        None
    }
}

/// Appends the events of transaction `t` of block `b` to `out`.
fn decode_transaction(f: &EventFilter, b: &Block, t: &Transaction, out: &mut Vec<DecodedEvent>)
    ensures
        final(out)@ == old(out)@ + logs_events(*f, *b, *t, t.logs@),
{
    let ghost start = out@;
    let mut i: usize = 0;
    while i < t.logs.len()
        invariant
            i <= t.logs@.len(),
            out@ == start + logs_events(*f, *b, *t, t.logs@.subrange(0, i as int)),
        decreases t.logs@.len() - i,
    {
        let ghost before = out@;
        assert(t.logs@.subrange(0, i + 1).drop_last() =~= t.logs@.subrange(0, i as int));
        match decode_log(f, &t.logs[i]) {
            Some(e) => {
                out.push(
                    DecodedEvent {
                        block_number: b.number,
                        block_hash: b.hash,
                        tx_hash: t.hash,
                        event: e,
                    },
                );
            },
            None => {},
        }
        i = i + 1;
        assert(out@ =~= start + logs_events(*f, *b, *t, t.logs@.subrange(0, i as int)));
    }
    assert(t.logs@.subrange(0, i as int) =~= t.logs@);
}

/// Appends the events of block `b` to `out`.
fn decode_block(f: &EventFilter, b: &Block, out: &mut Vec<DecodedEvent>)
    ensures
        final(out)@ == old(out)@ + txs_events(*f, *b, b.transactions@),
{
    let ghost start = out@;
    let mut i: usize = 0;
    while i < b.transactions.len()
        invariant
            i <= b.transactions@.len(),
            out@ == start + txs_events(*f, *b, b.transactions@.subrange(0, i as int)),
        decreases b.transactions@.len() - i,
    {
        let ghost before = out@;
        let ghost txs = b.transactions@.subrange(0, i + 1);
        assert(txs.drop_last() =~= b.transactions@.subrange(0, i as int));
        decode_transaction(f, b, &b.transactions[i], out);
        i = i + 1;
        assert(out@ =~= start + txs_events(*f, *b, b.transactions@.subrange(0, i as int)));
    }
    assert(b.transactions@.subrange(0, i as int) =~= b.transactions@);
}

/// The events of `seg` that the filter keeps, in chain order.
pub fn decode(seg: &ChainSegment, f: &EventFilter) -> (r: Vec<DecodedEvent>)
    ensures
        r@ == segment_events(*f, *seg),
{
    let mut out: Vec<DecodedEvent> = Vec::new();
    let mut i: usize = 0;
    while i < seg.ancestors.len()
        invariant
            i <= seg.ancestors@.len(),
            out@ == blocks_events(*f, seg.ancestors@.subrange(0, i as int)),
        decreases seg.ancestors@.len() - i,
    {
        let ghost bs = seg.ancestors@.subrange(0, i + 1);
        assert(bs.drop_last() =~= seg.ancestors@.subrange(0, i as int));
        decode_block(f, &seg.ancestors[i], &mut out);
        i = i + 1;
    }
    assert(seg.ancestors@.subrange(0, i as int) =~= seg.ancestors@);
    assert(seg.blocks().drop_last() =~= seg.ancestors@);
    decode_block(f, &seg.tip, &mut out);
    out
}

} // verus!
