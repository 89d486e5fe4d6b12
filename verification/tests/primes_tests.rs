use rusty_suite::primes::find_primes;

fn naive(limit: u32) -> u32 {
    (2..limit).filter(|&n| (2..n).all(|d| n % d != 0)).count() as u32
}

#[test]
fn small_limits() {
    assert_eq!(find_primes(0), 0);
    assert_eq!(find_primes(1), 0);
    assert_eq!(find_primes(2), 1);
    assert_eq!(find_primes(3), 1);
    assert_eq!(find_primes(10), 4);
    assert_eq!(find_primes(11), 4);
    assert_eq!(find_primes(12), 5);
}

#[test]
fn matches_naive_count() {
    for limit in 3..300 {
        assert_eq!(find_primes(limit), naive(limit), "limit {}", limit);
    }
}

#[test]
fn larger_limits() {
    assert_eq!(find_primes(100), 25);
    assert_eq!(find_primes(1000), 168);
    assert_eq!(find_primes(10_000), 1229);
}
