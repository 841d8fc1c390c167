use mempool::codec::{decode_batch, encode_batch};
use mempool::mempool_handler::{route, Route};
use mempool::sealer::{HybridSealer, Sized, Timed};
use mempool::{
    digest_key, Batch, Batcher, Config, Digest, Helper, MempoolMsg, Processor, Round, Sealer,
};
use std::collections::hash_map::DefaultHasher;
use std::collections::HashMap;
use std::hash::{Hash, Hasher};

/// A stand-in digest for the tests: 32 bytes derived from the input.
fn test_hash(bytes: &Vec<u8>) -> Digest {
    let mut out = [0u8; 32];
    for (i, chunk) in out.chunks_mut(8).enumerate() {
        let mut h = DefaultHasher::new();
        (i, bytes).hash(&mut h);
        chunk.copy_from_slice(&h.finish().to_le_bytes());
    }
    out
}

fn tx(b: u8) -> Vec<u8> {
    vec![b]
}

#[test]
fn encode_batch_exact_bytes() {
    let batch = Batch::from(vec![vec![1u8, 2], vec![3u8]]);
    let bytes = encode_batch(&batch);
    let expected: Vec<u8> = vec![
        2, 0, 0, 0, 0, 0, 0, 0, // two transactions
        2, 0, 0, 0, 0, 0, 0, 0, 1, 2, // the first
        1, 0, 0, 0, 0, 0, 0, 0, 3, // the second
    ];
    assert_eq!(expected, bytes);
}

#[test]
fn encode_batch_matches_bincode_layout() {
    let payload = vec![vec![9u8, 8, 7], vec![], vec![0u8; 20]];
    let bytes = encode_batch(&Batch::from(payload.clone()));
    assert_eq!(bincode::serialize(&payload).unwrap(), bytes);
}

#[test]
fn batch_round_trip_concrete() {
    let payload = vec![vec![1u8], vec![], vec![5u8, 6, 7, 8]];
    let bytes = encode_batch(&Batch::from(payload.clone()));
    let back = decode_batch(&bytes).expect("a wire form decodes");
    assert_eq!(payload, back.payload);

    let empty = encode_batch(&Batch::from(Vec::<Vec<u8>>::new()));
    assert_eq!(vec![0u8; 8], empty);
    assert_eq!(0, decode_batch(&empty).unwrap().payload.len());
}

#[test]
fn decode_rejects_malformed_bytes() {
    let bytes = encode_batch(&Batch::from(vec![vec![1u8, 2, 3]]));
    assert!(decode_batch(&bytes[..bytes.len() - 1].to_vec()).is_none());
    let mut longer = bytes.clone();
    longer.push(0);
    assert!(decode_batch(&longer).is_none());
    assert!(decode_batch(&vec![1, 0, 0]).is_none());
    let huge_len = vec![1, 0, 0, 0, 0, 0, 0, 0, 255, 255, 255, 255, 255, 255, 255, 255];
    assert!(decode_batch(&huge_len).is_none());
}

#[test]
fn digest_key_is_the_digest() {
    let mut d = [0u8; 32];
    d[0] = 7;
    d[31] = 9;
    assert_eq!(d.to_vec(), digest_key(&d));
}

#[test]
fn processor_stores_under_the_digest() {
    let batch = Batch::from(vec![tx(1), tx(2)]);
    let p = Processor::process(&batch, test_hash);
    assert_eq!(encode_batch(&batch), p.value);
    assert_eq!(test_hash(&p.value), p.digest);
    assert_eq!(p.digest.to_vec(), p.key);
    assert_ne!(p.key, p.value);
}

#[test]
fn helper_replies_with_stored_batch() {
    let batch = Batch::from(vec![tx(4), tx(5)]);
    let bytes = encode_batch(&batch);
    match Helper::reply(3u32, Some(bytes)) {
        Some((to, MempoolMsg::Batch(b))) => {
            assert_eq!(3, to);
            assert_eq!(batch.payload, b.payload);
        }
        _ => panic!("expected a batch for the requester"),
    }
    assert!(Helper::reply(3u32, None).is_none());
    assert!(Helper::reply(3u32, Some(vec![1, 2, 3])).is_none());
}

#[test]
fn route_dispatches_by_kind() {
    let d: Digest = [1u8; 32];
    match route::<u32, Vec<u8>>(MempoolMsg::RequestBatch(5, vec![d])) {
        Route::Helper(source, digests) => {
            assert_eq!(5, source);
            assert_eq!(vec![d], digests);
        }
        Route::Processor(_) => panic!("a request goes to the helper"),
    }
    match route::<u32, Vec<u8>>(MempoolMsg::Batch(Batch::from(vec![tx(1)]))) {
        Route::Processor(b) => assert_eq!(vec![tx(1)], b.payload),
        Route::Helper(..) => panic!("a batch goes to the processor"),
    }
}

#[test]
fn config_defaults_and_log() {
    let c: Config<u64> = Config::default();
    assert_eq!(0, c.gc_depth);
    assert_eq!(100, c.sync_retry_delay);
    assert_eq!(3, c.sync_retry_nodes);
    let c = Config { gc_depth: 2u32, ..Config::default() };
    assert_eq!(
        vec![("GC Depth", 2u64), ("Sync retry delay (ms)", 100), ("Sync retry nodes", 3)],
        c.log()
    );
}

#[test]
fn round_arithmetic() {
    assert_eq!(0u8, <u8 as Round>::minimum());
    assert_eq!(6u16, 8u16.minus(&2));
    assert_eq!(40u64, 40u32.number());
    assert_eq!(0u64, 5u64.minus(&5));
}

#[test]
fn batcher_keeps_fifo_over_batches() {
    let mut batcher = Batcher::new(Sized::<u32>::new(3));
    let mut emitted = Vec::new();
    for i in 0..10u32 {
        batcher.update(i, 1);
        if let Some(b) = batcher.poll(0) {
            emitted.push(b.payload);
        }
    }
    assert_eq!(vec![vec![0, 1, 2], vec![3, 4, 5], vec![6, 7, 8]], emitted);
    assert_eq!(None, batcher.next_deadline());
}

/// Single node, `Sized(2)`: three transactions (the last one large enough
/// to fill a batch alone) give two digests, each readable from the store.
#[test]
fn single_node_round_trip() {
    let mut batcher = Batcher::new(Sized::<Vec<u8>>::new(2));
    let mut store: HashMap<Vec<u8>, Vec<u8>> = HashMap::new();
    let mut digests = Vec::new();
    let mut batches = Vec::new();
    for (t, size) in [(tx(1), 1), (tx(2), 1), (tx(3), 2)] {
        batcher.update(t, size);
        if let Some(batch) = batcher.poll(0) {
            let p = Processor::process(&batch, test_hash);
            store.insert(p.key.clone(), p.value.clone());
            digests.push(p.digest);
            batches.push(batch);
        }
    }
    assert_eq!(2, digests.len());
    assert_eq!(vec![tx(1), tx(2)], batches[0].payload);
    assert_eq!(vec![tx(3)], batches[1].payload);
    for (d, b) in digests.iter().zip(&batches) {
        assert_eq!(Some(&encode_batch(b)), store.get(&d.to_vec()));
    }
}

/// `Timed(50)`: with nothing submitted, polling at 60 gives one empty batch,
/// whose digest is then persisted.
#[test]
fn timed_seal_on_empty_input() {
    let mut batcher = Batcher::new(Timed::<Vec<u8>>::new(50, 0));
    assert_eq!(Some(50), batcher.next_deadline());
    let batch = batcher.poll(60).expect("the time-out has passed");
    assert!(batch.payload.is_empty());
    let p = Processor::process(&batch, test_hash);
    assert_eq!(vec![0u8; 8], p.value);
    assert_eq!(p.digest.to_vec(), p.key);
}

/// `Hybrid(100, 6)`: six size-1 transactions within 10 ms give a batch of
/// six in order, before the time-out.
#[test]
fn hybrid_size_wins_in_batcher() {
    let mut batcher = Batcher::new(HybridSealer::<Vec<u8>>::new(100, 6, 0));
    let mut out = None;
    for i in 0..6u8 {
        batcher.update(tx(i), 1);
        if let Some(b) = batcher.poll(i as u64 * 2) {
            out = Some((i, b));
        }
    }
    let (at, b) = out.expect("the size threshold was reached");
    assert_eq!(5, at);
    assert_eq!((0..6u8).map(tx).collect::<Vec<_>>(), b.payload);
}

/// `Hybrid(50, 6)`: three size-1 transactions give a batch of three once
/// 50 ms have passed, and not before.
#[test]
fn hybrid_timeout_wins_in_batcher() {
    let mut batcher = Batcher::new(HybridSealer::<Vec<u8>>::new(50, 6, 0));
    for i in 0..3u8 {
        batcher.update(tx(i), 1);
        assert!(batcher.poll(i as u64).is_none());
    }
    assert!(batcher.poll(49).is_none());
    let b = batcher.poll(50).expect("the time-out has passed");
    assert_eq!(vec![tx(0), tx(1), tx(2)], b.payload);
}

/// Each node of a committee batches with `Sized(2)`; four transactions to
/// each node give every node a first digest, whose batch is in its store.
#[test]
fn test_mempool() {
    let num_nodes = vec![4, 9, 16, 31, 67, 129];
    for num_node in num_nodes {
        let dummy = bincode::serialize(&true).unwrap();
        let mut first_digests = Vec::new();
        for _ in 0..num_node {
            let mut batcher = Batcher::new(Sized::<Vec<u8>>::new(2));
            let mut store: HashMap<Vec<u8>, Vec<u8>> = HashMap::new();
            let mut to_consensus = Vec::new();
            for _ in 0..4 {
                batcher.update(dummy.clone(), dummy.len());
                if let Some(batch) = batcher.poll(0) {
                    let p = Processor::process(&batch, test_hash);
                    store.insert(p.key.clone(), p.value.clone());
                    to_consensus.push(p.digest);
                }
            }
            assert_eq!(2, to_consensus.len());
            let d = to_consensus[0];
            assert_eq!(
                Some(&encode_batch(&Batch::from(vec![dummy.clone(), dummy.clone()]))),
                store.get(&d.to_vec())
            );
            first_digests.push(d);
        }
        // Every node seals the same batch, so every node reports the same digest.
        assert!(first_digests.windows(2).all(|w| w[0] == w[1]));
    }
}
