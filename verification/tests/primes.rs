use prime_counter::{count_primes, is_prime};

#[test]
fn is_prime_rejects_everything_below_two() {
    assert!(!is_prime(0));
    assert!(!is_prime(1));
}

#[test]
fn is_prime_accepts_known_primes() {
    for n in [2u64, 3, 5, 7, 11, 13, 97, 7919] {
        assert!(is_prime(n), "{} is prime", n);
    }
}

#[test]
fn is_prime_rejects_known_composites() {
    for n in [4u64, 6, 9, 100, 7921] {
        assert!(!is_prime(n), "{} is composite", n);
    }
}

#[test]
fn is_prime_rejects_squares_of_primes() {
    assert!(!is_prime(25));
    assert!(!is_prime(49));
    assert!(!is_prime(1_000_003 * 1_000_003));
}

#[test]
fn is_prime_handles_large_inputs() {
    assert!(is_prime(1_000_000_007));
    assert!(!is_prime(u64::MAX));
    assert!(!is_prime(u64::MAX - 1));
}

#[test]
fn is_prime_agrees_with_a_sieve() {
    let bound: usize = 5000;
    let mut composite = vec![false; bound + 1];
    let mut k = 2;
    while k * k <= bound {
        if !composite[k] {
            let mut m = k * k;
            while m <= bound {
                composite[m] = true;
                m += k;
            }
        }
        k += 1;
    }
    for n in 0..=bound {
        let expected = n >= 2 && !composite[n];
        assert_eq!(is_prime(n as u64), expected, "n = {}", n);
    }
}

#[test]
fn count_primes_is_zero_below_two() {
    assert_eq!(count_primes(0), 0);
    assert_eq!(count_primes(1), 0);
}

#[test]
fn count_primes_known_values() {
    assert_eq!(count_primes(2), 1);
    assert_eq!(count_primes(3), 2);
    assert_eq!(count_primes(10), 4);
    assert_eq!(count_primes(100), 25);
    assert_eq!(count_primes(1000), 168);
}

#[test]
fn count_primes_at_the_default_limit() {
    assert_eq!(count_primes(100000), 9592);
}

#[test]
fn count_primes_is_repeatable() {
    for limit in [0u64, 1, 2, 10, 97, 1000] {
        assert_eq!(count_primes(limit), count_primes(limit));
    }
}

#[test]
fn count_primes_grows_by_one_exactly_at_primes() {
    for limit in 1u64..500 {
        let step = count_primes(limit) - count_primes(limit - 1);
        assert_eq!(step, if is_prime(limit) { 1 } else { 0 });
    }
}
