use bloom_filter::hashing::{position, probe};
use bloom_filter::{BloomError, BloomFilter};

const TOPPINGS: [&str; 5] = ["pizza", "pepperoni", "cheese", "sauce", "crust"];

fn keys(prefix: &str, n: usize) -> Vec<String> {
    (0..n).map(|t| format!("{}-{}", prefix, t)).collect()
}

#[test]
fn test_insert() {
    let mut bloom_filter = BloomFilter::new(100, 10).unwrap();

    let test_data: [&str; 5] = ["pizza", "pepperoni", "cheese", "sauce", "crust"];

    for item in test_data {
        bloom_filter.insert(item);
    }

    for item in test_data {
        assert!(bloom_filter.has(item));
    }
}

#[test]
fn test_not_inserted() {
    let bloom_filter = BloomFilter::new(100, 10).unwrap();

    let test_data: [&str; 2] = ["dominos", "pizza_hut"];

    for item in test_data {
        assert_eq!(bloom_filter.has(item), false);
    }
}

#[test]
fn zero_size_is_refused() {
    assert!(matches!(BloomFilter::new(0, 10), Err(BloomError::InvalidConfiguration)));
    assert!(matches!(BloomFilter::new(0, 0), Err(BloomError::InvalidConfiguration)));
}

#[test]
fn zero_hash_count_is_refused() {
    assert!(matches!(BloomFilter::new(100, 0), Err(BloomError::InvalidConfiguration)));
}

#[test]
fn smallest_filter_saturates() {
    let mut f = BloomFilter::new(1, 1).unwrap();
    assert!(!f.has("pizza"));
    f.insert("pizza");
    assert!(f.has("pizza"));
    assert!(f.has("anything else"));
    assert!(f.has(""));
}

#[test]
fn inserted_key_survives_later_inserts() {
    let mut f = BloomFilter::new(64, 4).unwrap();
    f.insert("first");
    assert!(f.has("first"));
    for k in keys("later", 500) {
        f.insert(&k);
        assert!(f.has("first"));
    }
}

#[test]
fn true_answers_never_turn_false() {
    let mut f = BloomFilter::new(200, 3).unwrap();
    let queries = keys("query", 300);
    let mut seen: Vec<bool> = queries.iter().map(|q| f.has(q)).collect();
    for k in keys("load", 100) {
        f.insert(&k);
        for (q, was) in queries.iter().zip(seen.iter_mut()) {
            let now = f.has(q);
            assert!(!*was || now);
            *was = now;
        }
    }
}

#[test]
fn same_inserts_give_same_answers() {
    let mut a = BloomFilter::new(128, 6).unwrap();
    let mut b = BloomFilter::new(128, 6).unwrap();
    for k in keys("shared", 40) {
        a.insert(&k);
        b.insert(&k);
    }
    for q in keys("probe", 1000) {
        assert_eq!(a.has(&q), b.has(&q));
    }
}

#[test]
fn repeated_insert_changes_nothing() {
    let mut once = BloomFilter::new(100, 10).unwrap();
    let mut thrice = BloomFilter::new(100, 10).unwrap();
    once.insert("pizza");
    for _ in 0..3 {
        thrice.insert("pizza");
    }
    for q in keys("probe", 1000) {
        assert_eq!(once.has(&q), thrice.has(&q));
    }
}

#[test]
fn other_key_missed_after_toppings() {
    let mut f = BloomFilter::new(100, 10).unwrap();
    for item in TOPPINGS {
        f.insert(item);
    }
    assert!(!f.has("dominos"));
}

#[test]
fn false_positive_rate_is_near_the_estimate() {
    let (m, k, n) = (1000usize, 5usize, 100usize);
    let mut f = BloomFilter::new(m, k).unwrap();
    for key in keys("key", n) {
        f.insert(&key);
    }
    let samples = keys("other", 10000);
    let hits = samples.iter().filter(|q| f.has(q)).count();
    let rate = hits as f64 / samples.len() as f64;
    let estimate = (1.0 - (-(k as f64) * (n as f64) / (m as f64)).exp()).powi(k as i32);
    assert!((rate - estimate).abs() < 0.005, "rate {} estimate {}", rate, estimate);
}

#[test]
fn probe_positions_follow_murmur3() {
    assert_eq!(probe("1234567890123456", 0, usize::MAX), 5746133278497385720);
    assert_eq!(probe("Hello, world!", 0, 1000000007), 741767388);
    assert_eq!(probe("Hello, world!", 1, 1000000007), 640375096);
    assert_eq!(probe("", 0, 1000000007), 0);
    assert_eq!(probe("\u{20ac}\u{20ac}\u{20ac}\u{20ac}\u{20ac}\u{20ac}\u{20ac}\u{20ac}\u{20ac}\u{20ac}", 3, 65536), 37984);
}

#[test]
fn probe_positions_of_pizza() {
    let got: Vec<usize> = (0..10).map(|i| probe("pizza", i, 100)).collect();
    assert_eq!(got, vec![56, 14, 40, 47, 45, 58, 80, 56, 87, 26]);
}

#[test]
fn position_takes_low_bits_modulo_size() {
    assert_eq!(position(0, 7), 0);
    assert_eq!(position(12345, 100), 45);
    assert_eq!(position(1u128 << 64, 10), 0);
    assert_eq!(position((1u128 << 64) + 17, 10), 7);
    assert_eq!(position(u128::MAX, usize::MAX), 0);
    assert_eq!(position(u128::MAX - 1, usize::MAX), usize::MAX - 1);
}
