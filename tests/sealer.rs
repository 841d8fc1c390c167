use mempool::sealer::{HybridSealer, Sized, Timed};
use mempool::Sealer;

const SEAL_SIZE: usize = 6;
const SEAL_TIME: u64 = 50;

#[derive(Debug, Clone, Copy, PartialEq, Eq)]
struct Tx(bool);

fn transform(v: Vec<bool>) -> Vec<Tx> {
    v.into_iter().map(Tx).collect()
}

#[test]
fn sized_sealer_tests_test_fifo() {
    let mut sealer = Sized::<Tx>::new(SEAL_SIZE);
    let test_txs = transform(vec![true, false, true, false, true, false]);
    for test_tx in &test_txs {
        sealer.update(*test_tx, 1);
    }
    let txs = sealer.poll(0).expect("a full sealer triggers");
    assert_eq!(test_txs, txs);
}

#[test]
fn test_correct_size() {
    let mut sealer = Sized::<Tx>::new(SEAL_SIZE);
    let test_txs = transform(vec![true, false, true, false, true, false]);
    let res = sealer.poll(0);
    assert!(res.is_none(), "Sealer should not be ready when empty");
    for test_tx in &test_txs {
        sealer.update(*test_tx, 1);
    }
    let res = sealer.poll(0);
    assert!(res.is_some(), "Sealer should have been ready");
    let txs = res.unwrap();
    assert_eq!(test_txs, txs);
}

#[test]
fn sized_sealer_tests_test_multiple_seals() {
    let mut sealer = Sized::<Tx>::new(SEAL_SIZE);
    let test_txs = transform(vec![true, false, true, false, true, false]);
    let test_txs2 = transform(vec![true, true, true, false, true, false]);
    let test_txs3 = transform(vec![true, false, false, false, true, false]);
    for test_tx in &test_txs {
        sealer.update(*test_tx, 1);
    }
    assert_eq!(Some(test_txs), sealer.poll(0));
    for test_tx in &test_txs2 {
        sealer.update(*test_tx, 1);
    }
    assert_eq!(Some(test_txs2), sealer.poll(0));
    for test_tx in &test_txs3 {
        sealer.update(*test_tx, 1);
    }
    assert_eq!(Some(test_txs3), sealer.poll(0));
}

#[test]
fn sized_not_ready_below_threshold() {
    let mut sealer = Sized::<Tx>::new(SEAL_SIZE);
    for _ in 0..5 {
        sealer.update(Tx(true), 1);
        assert_eq!(None, sealer.poll(0));
    }
    assert_eq!(5, sealer.current_size());
    sealer.update(Tx(false), 1);
    assert_eq!(6, sealer.poll(0).unwrap().len());
    assert_eq!(0, sealer.current_size());
}

#[test]
fn sized_seal_twice_returns_empty() {
    let mut sealer = Sized::<Tx>::new(SEAL_SIZE);
    sealer.update(Tx(true), 1);
    sealer.update(Tx(false), 2);
    assert_eq!(vec![Tx(true), Tx(false)], sealer.seal(0));
    assert_eq!(Vec::<Tx>::new(), sealer.seal(0));
    assert_eq!(0, sealer.current_size());
}

#[test]
fn sized_single_large_update_fires() {
    let mut sealer = Sized::<Tx>::new(SEAL_SIZE);
    sealer.update(Tx(true), SEAL_SIZE + 3);
    assert_eq!(Some(vec![Tx(true)]), sealer.poll(0));
}

#[test]
fn sized_zero_size_never_fires_alone() {
    let mut sealer = Sized::<Tx>::new(SEAL_SIZE);
    for _ in 0..10 {
        sealer.update(Tx(true), 0);
    }
    assert_eq!(None, sealer.poll(u64::MAX));
}

#[test]
fn sized_size_saturates() {
    let mut sealer = Sized::<Tx>::new(usize::MAX);
    sealer.update(Tx(true), usize::MAX - 1);
    assert_eq!(None, sealer.poll(0));
    sealer.update(Tx(true), 5);
    assert_eq!(usize::MAX, sealer.current_size());
    assert_eq!(2, sealer.poll(0).unwrap().len());
}

#[test]
fn timed_sealer_tests_test_fifo() {
    let mut sealer = Timed::<Tx>::new(SEAL_TIME, 0);
    let test_txs: Vec<Tx> = transform(vec![true, false, true, false, true, false]);
    for test_tx in &test_txs {
        sealer.update(*test_tx, 1);
    }
    sealer.reset_timer(10);
    let txs = sealer.poll(10 + SEAL_TIME).expect("the time-out has passed");
    assert_eq!(test_txs, txs);
}

#[test]
fn test_correct_timing() {
    let mut sealer = Timed::<Tx>::new(SEAL_TIME, 0);
    let test_txs: Vec<Tx> = transform(vec![true, false, true, false, true, false]);
    for test_tx in &test_txs {
        sealer.update(*test_tx, 1);
    }
    let start = 1_000;
    sealer.reset_timer(start);
    assert_eq!(Some(start + SEAL_TIME), sealer.next_deadline());
    assert_eq!(None, sealer.poll(start + SEAL_TIME - 1));
    assert_eq!(Some(test_txs), sealer.poll(start + SEAL_TIME));
}

#[test]
fn timed_sealer_tests_test_multiple_seals() {
    let mut sealer = Timed::<Tx>::new(SEAL_TIME, 0);
    let test_txs = transform(vec![true, false, true, false, true, false]);
    let test_txs2 = transform(vec![true, true, true, false, true, false]);
    let test_txs3 = transform(vec![true, false, false, false, true, false]);
    let mut now = 0;
    for batch in [test_txs, test_txs2, test_txs3] {
        for test_tx in &batch {
            sealer.update(*test_tx, 1);
        }
        sealer.reset_timer(now);
        now += SEAL_TIME;
        assert_eq!(Some(batch), sealer.poll(now));
    }
}

#[test]
fn timed_empty_after_timeout() {
    let mut sealer = Timed::<Tx>::new(SEAL_TIME, 7);
    assert_eq!(None, sealer.poll(7 + SEAL_TIME - 1));
    assert_eq!(Some(Vec::new()), sealer.poll(7 + SEAL_TIME));
    assert_eq!(Some(7 + 2 * SEAL_TIME), sealer.next_deadline());
}

#[test]
fn timed_deadline_saturates() {
    let sealer = Timed::<Tx>::new(10, u64::MAX - 3);
    assert_eq!(Some(u64::MAX), sealer.next_deadline());
}

#[test]
fn test_hybrid_fifo() {
    let mut sealer = HybridSealer::<Tx>::new(SEAL_TIME, SEAL_SIZE, 0);
    sealer.reset(0);
    let test_txs = transform(vec![true, false, true, false, true]);
    for test_tx in &test_txs {
        sealer.update(*test_tx, 1);
    }
    assert_eq!(None, sealer.poll(SEAL_TIME - 1), "Did not seal by timeout");
    let txs = sealer.poll(SEAL_TIME).expect("the time-out has passed");
    assert_eq!(txs, test_txs, "The output and the input do not match");

    sealer.reset(SEAL_TIME);
    let test_txs = transform(vec![true, false, true, false, true, false]);
    for test_tx in &test_txs {
        sealer.update(*test_tx, 1);
    }
    let txs = sealer.poll(SEAL_TIME + 1).expect("the size threshold is reached");
    assert_eq!(txs, test_txs, "The output and the input do not match");
    assert_eq!(txs.len(), SEAL_SIZE);
}

#[test]
fn hybrid_size_wins() {
    let mut sealer = HybridSealer::<Tx>::new(100, 6, 0);
    let txs = transform(vec![true, false, true, true, false, false]);
    let mut out = None;
    for (t, tx) in txs.iter().enumerate() {
        assert!(out.is_none());
        sealer.update(*tx, 1);
        out = sealer.poll(t as u64);
    }
    assert_eq!(Some(txs), out);
    assert_eq!(Some(5 + 100), sealer.next_deadline());
}

#[test]
fn hybrid_timeout_wins() {
    let mut sealer = HybridSealer::<Tx>::new(50, 6, 0);
    let txs = transform(vec![true, false, true]);
    for tx in &txs {
        sealer.update(*tx, 1);
    }
    assert_eq!(None, sealer.poll(49));
    assert_eq!(Some(txs), sealer.poll(50));
    assert_eq!(None, sealer.poll(51));
    assert_eq!(Some(Vec::new()), sealer.poll(100));
}

#[test]
fn hybrid_reset_drops_everything() {
    let mut sealer = HybridSealer::<Tx>::new(50, 6, 0);
    sealer.update(Tx(true), 5);
    sealer.reset(20);
    sealer.update(Tx(false), 1);
    assert_eq!(None, sealer.poll(69));
    assert_eq!(Some(vec![Tx(false)]), sealer.poll(70));
}
