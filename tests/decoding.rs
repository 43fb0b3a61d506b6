use state_root_relay::chain::{Block, ChainSegment, Log, Transaction};
use state_root_relay::decode::{decode, decode_log, CounterEvent, EventFilter};

const CONTRACT: [u8; 20] = [0x11; 20];
const OTHER: [u8; 20] = [0x22; 20];
const TOPIC: [u8; 32] = [0xaa; 32];

fn filter() -> EventFilter {
    EventFilter { contract: CONTRACT, incremented_topic: TOPIC }
}

fn incremented(address: [u8; 20], value: u8) -> Log {
    Log { address, topics: vec![TOPIC], data: vec![value; 32] }
}

fn block(number: u64, transactions: Vec<Transaction>) -> Block {
    Block { number, hash: [number as u8; 32], state_root: [0xab; 32], transactions }
}

fn tx(tag: u8, logs: Vec<Log>) -> Transaction {
    Transaction { hash: [tag; 32], logs }
}

#[test]
fn segment_without_transactions_decodes_to_nothing() {
    let seg = ChainSegment { ancestors: vec![block(1, vec![]), block(2, vec![])], tip: block(3, vec![]) };
    assert!(decode(&seg, &filter()).is_empty());
}

#[test]
fn one_matching_and_one_foreign_log_give_one_event() {
    let seg = ChainSegment {
        ancestors: vec![],
        tip: block(7, vec![tx(1, vec![incremented(CONTRACT, 5), incremented(OTHER, 6)])]),
    };
    let events = decode(&seg, &filter());
    assert_eq!(events.len(), 1);
    assert_eq!(events[0].block_number, 7);
    assert_eq!(events[0].block_hash, [7u8; 32]);
    assert_eq!(events[0].tx_hash, [1u8; 32]);
    assert_eq!(events[0].event, CounterEvent::Incremented { value: [5u8; 32] });
}

#[test]
fn malformed_logs_are_dropped() {
    let wrong_topic = Log { address: CONTRACT, topics: vec![[0xbb; 32]], data: vec![0; 32] };
    let short_data = Log { address: CONTRACT, topics: vec![TOPIC], data: vec![0; 31] };
    let extra_topic = Log { address: CONTRACT, topics: vec![TOPIC, TOPIC], data: vec![0; 32] };
    let no_topic = Log { address: CONTRACT, topics: vec![], data: vec![0; 32] };
    for l in [&wrong_topic, &short_data, &extra_topic, &no_topic] {
        assert_eq!(decode_log(&filter(), l), None);
    }
    let seg = ChainSegment {
        ancestors: vec![],
        tip: block(1, vec![tx(1, vec![wrong_topic, short_data, extra_topic, no_topic])]),
    };
    assert!(decode(&seg, &filter()).is_empty());
}

#[test]
fn events_come_in_block_transaction_log_order() {
    let seg = ChainSegment {
        ancestors: vec![block(1, vec![tx(1, vec![incremented(CONTRACT, 1), incremented(CONTRACT, 2)])])],
        tip: block(2, vec![tx(2, vec![incremented(CONTRACT, 3)]), tx(3, vec![incremented(CONTRACT, 4)])]),
    };
    let events = decode(&seg, &filter());
    let values: Vec<u8> = events
        .iter()
        .map(|e| match e.event {
            CounterEvent::Incremented { value } => value[0],
        })
        .collect();
    assert_eq!(values, vec![1, 2, 3, 4]);
    let blocks: Vec<u64> = events.iter().map(|e| e.block_number).collect();
    assert_eq!(blocks, vec![1, 1, 2, 2]);
    let txs: Vec<u8> = events.iter().map(|e| e.tx_hash[0]).collect();
    assert_eq!(txs, vec![1, 1, 2, 3]);
}

#[test]
fn segment_from_blocks_takes_last_as_tip() {
    assert!(ChainSegment::from_blocks(vec![]).is_none());
    let seg = ChainSegment::from_blocks(vec![block(4, vec![]), block(5, vec![]), block(6, vec![])]).unwrap();
    assert_eq!(seg.tip.number, 6);
    assert_eq!(seg.ancestors.len(), 2);
    let range = seg.block_range();
    assert_eq!((range.first, range.last), (4, 6));
    assert_eq!(seg.tip_height().number, 6);
    assert_eq!(seg.tip_height().hash, [6u8; 32]);
    assert_eq!(seg.commitment(), [0xab; 32]);
}
