use std::sync::atomic::AtomicBool;
use std::sync::atomic::AtomicU64;
use std::sync::atomic::Ordering;

use taproot_vanity::keygen::fresh_secret_key;
use taproot_vanity::keygen::generate_candidate;
use taproot_vanity::keygen::generate_taproot_address;
use taproot_vanity::pattern::MatchSpec;
use taproot_vanity::worker::flush_remainder;
use taproot_vanity::worker::init_worker;
use taproot_vanity::worker::process_candidate;
use taproot_vanity::worker::worker_step;

#[test]
fn generated_addresses_are_taproot_and_fresh() {
    let (_counter, secp, mut rng) = init_worker(0, 1);
    let mut seen: Vec<String> = Vec::new();
    for _ in 0..50 {
        let (address, wif) = generate_candidate(&secp, &mut rng);
        // The standard mainnet Taproot shape: "bc1p", 62 symbols, all
        // from the bech32 alphabet after "bc1".
        assert!(address.starts_with("bc1p"));
        assert_eq!(address.len(), 62);
        for c in address[3..].chars() {
            assert!("qpzry9x8gf2tvdw0s3jn54khce6mua7l".contains(c));
        }
        // A mainnet compressed-key export starts with 'K' or 'L'.
        assert!(wif.starts_with('K') || wif.starts_with('L'));
        // Fresh entropy per candidate: repeats would mean key reuse.
        assert!(!seen.contains(&address));
        seen.push(address);
    }
}

#[test]
fn address_derivation_is_deterministic_per_key() {
    let (_counter, secp, mut rng) = init_worker(0, 1);
    let secret_key = fresh_secret_key(&mut rng);
    let a1 = generate_taproot_address(&secp, &secret_key);
    let a2 = generate_taproot_address(&secp, &secret_key);
    assert_eq!(a1, a2);
}

#[test]
fn synthetic_prefix_candidates_match_on_the_first() {
    let spec = MatchSpec::PrefixSuffix {
        prefix: b"ab".to_vec(),
        suffix: b"".to_vec(),
        case_sensitive: false,
    };
    // A deterministic candidate stream: the first qualifies, the
    // second does not; the match returns the address verbatim.
    let first = process_candidate(&spec, "bc1pABxyz".to_string(), "wif-one".to_string(), 0);
    let first = first.expect("first candidate must match");
    assert_eq!(first.address, "bc1pABxyz");
    assert_eq!(first.exported_private_key, "wif-one");
    assert_eq!(first.worker_id, 0);

    let second = process_candidate(&spec, "bc1pzzxyz".to_string(), "wif-two".to_string(), 0);
    assert!(second.is_none());
}

#[test]
fn synthetic_substring_candidates_respect_the_threshold() {
    let spec = MatchSpec::SubstringCount {
        required_prefix: b"bc1pkek".to_vec(),
        substring: b"kek".to_vec(),
        min_count: 2,
        case_sensitive: false,
    };
    let hit = process_candidate(&spec, "bc1pkekabckek".to_string(), "wif".to_string(), 4);
    let hit = hit.expect("two occurrences reach the threshold");
    assert_eq!(hit.address, "bc1pkekabckek");
    assert_eq!(hit.match_metric, 2);
    assert_eq!(hit.worker_id, 4);

    let miss = process_candidate(&spec, "bc1pkekabc".to_string(), "wif".to_string(), 4);
    assert!(miss.is_none());
}

#[test]
fn worker_step_emits_results_and_batches_the_counter() {
    let (mut counter, secp, mut rng) = init_worker(3, 2);
    let (tx, rx) = crossbeam::channel::unbounded();
    let total_attempts = AtomicU64::new(0);
    let stop = AtomicBool::new(false);

    // Every Taproot address matches an empty prefix/suffix pair.
    let spec = MatchSpec::PrefixSuffix {
        prefix: b"".to_vec(),
        suffix: b"".to_vec(),
        case_sensitive: false,
    };

    let outcome = worker_step(&mut counter, &secp, &mut rng, &spec, &total_attempts, &stop, &tx);
    // A successful delivery alone never ends the loop.
    assert!(outcome.delivered);
    assert!(!outcome.send_failed);
    assert!(!outcome.stop_seen);
    assert!(outcome.keep_running);
    assert_eq!(counter.local_attempts, 1);
    assert_eq!(total_attempts.load(Ordering::Relaxed), 0);
    let result = rx.try_recv().expect("the first candidate matches");
    assert!(result.address.starts_with("bc1p"));
    assert_eq!(result.worker_id, 3);
    assert_eq!(result.match_metric, 0);

    // The second attempt completes the batch and flushes it.
    let outcome = worker_step(&mut counter, &secp, &mut rng, &spec, &total_attempts, &stop, &tx);
    assert!(outcome.keep_running);
    assert_eq!(counter.local_attempts, 0);
    assert_eq!(total_attempts.load(Ordering::Relaxed), 2);

    // Once the stop flag is set, the worker asks to exit.
    stop.store(true, Ordering::Relaxed);
    let outcome = worker_step(&mut counter, &secp, &mut rng, &spec, &total_attempts, &stop, &tx);
    assert!(outcome.stop_seen);
    assert!(!outcome.keep_running);

    // The remainder flush makes the shared counter exact.
    flush_remainder(&mut counter, &total_attempts);
    assert_eq!(counter.local_attempts, 0);
    assert_eq!(total_attempts.load(Ordering::Relaxed), 3);
}

#[test]
fn worker_step_stops_when_the_consumer_is_gone() {
    let (mut counter, secp, mut rng) = init_worker(0, 1000);
    let (tx, rx) = crossbeam::channel::unbounded();
    drop(rx);
    let total_attempts = AtomicU64::new(0);
    let stop = AtomicBool::new(false);

    let spec = MatchSpec::PrefixSuffix {
        prefix: b"".to_vec(),
        suffix: b"".to_vec(),
        case_sensitive: false,
    };

    // The candidate matches, the send fails, the worker exits quietly.
    let outcome = worker_step(&mut counter, &secp, &mut rng, &spec, &total_attempts, &stop, &tx);
    assert!(outcome.send_failed);
    assert!(!outcome.delivered);
    assert!(!outcome.keep_running);
}
