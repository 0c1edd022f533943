use taproot_vanity::difficulty::estimate_difficulty;
use taproot_vanity::difficulty::estimate_kek_difficulty;
use taproot_vanity::pattern::MatchSpec;

#[test]
fn kek_difficulty_exact_values() {
    // Three constrained symbols: 32^3.
    assert_eq!(estimate_kek_difficulty(0), 32768);
    assert_eq!(estimate_kek_difficulty(1), 32768);
    // One extra occurrence costs another 32^3.
    assert_eq!(estimate_kek_difficulty(2), 32768u64 * 32768);
    assert_eq!(estimate_kek_difficulty(3), 32768u64 * 32768 * 32768);
}

#[test]
fn prefix_suffix_difficulty_exact_values() {
    let m = MatchSpec::PrefixSuffix {
        prefix: b"ab".to_vec(),
        suffix: b"c".to_vec(),
        case_sensitive: false,
    };
    assert_eq!(estimate_difficulty(&m), 32768);

    let empty = MatchSpec::PrefixSuffix {
        prefix: b"".to_vec(),
        suffix: b"".to_vec(),
        case_sensitive: false,
    };
    assert_eq!(estimate_difficulty(&empty), 1);
}

#[test]
fn difficulty_grows_strictly_with_prefix_length() {
    // The general monotonicity law is proved in the library; this
    // checks concrete instances, with the suffix held fixed.
    let mut previous = 0u64;
    for len in 0..=6usize {
        let m = MatchSpec::PrefixSuffix {
            prefix: vec![b'a'; len],
            suffix: b"zz".to_vec(),
            case_sensitive: true,
        };
        let d = estimate_difficulty(&m);
        assert!(d >= 1);
        assert!(d > previous);
        previous = d;
    }
}

#[test]
fn substring_difficulty_never_falls_as_threshold_rises() {
    let mut previous = 0u64;
    for count in 0..=4usize {
        let d = estimate_kek_difficulty(count);
        assert!(d >= 1);
        assert!(d >= previous);
        previous = d;
    }
}
