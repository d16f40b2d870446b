use conference_mapper::hashing::{conference_hash, pow10_u64, u64_to_dec_bytes};
use rand::distr::{Alphanumeric, SampleString};
use rand::rngs::StdRng;
use rand::SeedableRng;

#[test]
fn test_generate_hash() {
    // A fixed seed keeps this property test reproducible.
    let mut rng = StdRng::seed_from_u64(7);
    // Test 20 times for better collision checking
    for _ in 0..20 {
        // Test all strings from {1..100} for {6..13} digit hashes
        for digits in 6..13 {
            // Hashes are only going to be unique for a given digit count
            let mut known_hashes: Vec<u64> = Vec::new();

            for len in 1..100 {
                // Value is always <sample>@<muc domain>
                let value = format!(
                    "{}@muc.jitsi.meet",
                    Alphanumeric.sample_string(&mut rng, len)
                );
                let hash = conference_hash(&value, digits);

                assert!(hash >= u64::pow(10, digits - 1));
                assert!(hash < u64::pow(10, digits));

                assert!(!known_hashes.contains(&hash));
                known_hashes.push(hash);
            }
        }
    }
}

#[test]
fn hash_is_deterministic() {
    for digits in 6..=12 {
        let a = conference_hash("room@conference.example.com", digits);
        let b = conference_hash("room@conference.example.com", digits);
        assert_eq!(a, b);
    }
}

#[test]
fn hash_digit_count_is_exact() {
    for digits in 6..=12u32 {
        let h = conference_hash("x", digits);
        assert_eq!(h.to_string().len(), digits as usize);
    }
}

#[test]
fn pow10_matches_u64_pow() {
    for e in 0..=12u32 {
        assert_eq!(pow10_u64(e), u64::pow(10, e));
    }
}

#[test]
fn decimal_bytes_match_to_string() {
    for n in [0u64, 7, 10, 99, 100, 123456, 999999, 1000000000000, u64::MAX] {
        assert_eq!(u64_to_dec_bytes(n), n.to_string().into_bytes());
    }
}
