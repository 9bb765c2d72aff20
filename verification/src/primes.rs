//! Primality by trial division and the counting of primes up to a limit.

use vstd::prelude::*;

verus! {

/// `d` divides `n` without remainder.
pub open spec fn divides(d: nat, n: nat) -> bool {
    d > 0 && n % d == 0
}

/// `n` is prime: at least two, and no number strictly between one and `n`
/// divides it.
pub open spec fn is_prime_spec(n: nat) -> bool {
    n >= 2 && forall|d: nat| 2 <= d < n ==> !#[trigger] divides(d, n)
}

/// A divisor of `n` that is at least `bound`, where `bound * bound > n`, has a
/// cofactor below `bound` that is a proper divisor too.
proof fn lemma_cofactor_is_small(n: nat, d: nat, bound: nat)
    requires
        2 <= d < n,
        divides(d, n),
        bound <= d,
        n < bound * bound,
    ensures
        2 <= n / d < bound,
        divides(n / d, n),
{
    let q = n / d;
    assert(n == q * d) by (nonlinear_arith)
        requires
            d > 0,
            n % d == 0,
            q == n / d,
    ;
    assert(q >= 2) by (nonlinear_arith)
        requires
            n == q * d,
            d < n,
            d >= 2,
    ;
    assert(q < bound) by (nonlinear_arith)
        requires
            n == q * d,
            bound <= d,
            n < bound * bound,
    ;
    assert(n % q == 0) by (nonlinear_arith)
        requires
            n == q * d,
            q > 0,
    ;
}

/// Tests `n` for primality by trial division, trying every candidate divisor
/// whose square does not exceed `n`.
pub fn is_prime(n: u64) -> (prime: bool)
    ensures
        prime == is_prime_spec(n as nat),
        n < 2 ==> !prime,
{
    if n < 2 {
        return false;
    }
    let mut i: u64 = 2;
    while i <= n / i
        invariant
            2 <= i <= n,
            forall|d: nat| 2 <= d < i ==> !#[trigger] divides(d, n as nat),
        decreases n - i,
    {
        assert(i * i <= n) by (nonlinear_arith)
            requires
                i > 0,
                i <= n / i,
        ;
        assert(2 * i <= i * i) by (nonlinear_arith)
            requires
                i >= 2,
        ;
        if n % i == 0 {
            assert(divides(i as nat, n as nat));
            return false;
        }
        i += 1;
    }
    proof {
        let bound = i as nat;
        let whole = n as nat;
        assert(whole < bound * bound) by (nonlinear_arith)
            requires
                bound > 0,
                whole / bound < bound,
        ;
        assert forall|d: nat| 2 <= d < n implies !#[trigger] divides(d, n as nat) by {
            if d >= bound && divides(d, n as nat) {
                lemma_cofactor_is_small(n as nat, d, bound);
                assert(divides(n as nat / d, n as nat));
            }
        }
    }
    true
}

/// The primes in the closed range from 2 to `limit`.
pub open spec fn primes_up_to(limit: nat) -> Set<nat> {
    Set::new(|k: nat| 2 <= k <= limit && is_prime_spec(k))
}

/// How many primes lie in the closed range from 2 to `limit`.
pub open spec fn count_primes_spec(limit: nat) -> nat {
    primes_up_to(limit).len()
}

/// Below 2 there is no prime at all.
pub proof fn lemma_no_primes_below_two(limit: nat)
    requires
        limit < 2,
    ensures
        primes_up_to(limit) == Set::<nat>::empty(),
        count_primes_spec(limit) == 0,
{
    assert(primes_up_to(limit) =~= Set::<nat>::empty());
}

/// Raising the limit by one adds the new limit to the primes exactly when it
/// is prime; the set stays finite and never has more members than `limit`.
pub proof fn lemma_primes_step(limit: nat)
    ensures
        primes_up_to(limit).finite(),
        count_primes_spec(limit) <= limit,
        limit >= 2 && is_prime_spec(limit) ==> count_primes_spec(limit) == count_primes_spec(
            (limit - 1) as nat,
        ) + 1,
        limit >= 2 && !is_prime_spec(limit) ==> count_primes_spec(limit) == count_primes_spec(
            (limit - 1) as nat,
        ),
    decreases limit,
{
    if limit < 2 {
        lemma_no_primes_below_two(limit);
    } else {
        let before = (limit - 1) as nat;
        lemma_primes_step(before);
        if is_prime_spec(limit) {
            assert(primes_up_to(limit) =~= primes_up_to(before).insert(limit));
        } else {
            assert(primes_up_to(limit) =~= primes_up_to(before));
        }
    }
}

/// Counts the primes in the closed range from 2 to `limit`, testing every
/// number of the range in turn.
pub fn count_primes(limit: u64) -> (count: u64)
    ensures
        count == count_primes_spec(limit as nat),
        limit < 2 ==> count == 0,
{
    if limit < 2 {
        proof {
            lemma_no_primes_below_two(limit as nat);
        }
        return 0;
    }
    let mut count: u64 = 0;
    let mut n: u64 = 1;
    proof {
        lemma_no_primes_below_two(1);
    }
    while n < limit
        invariant
            1 <= n <= limit,
            count == count_primes_spec(n as nat),
            count <= n,
        decreases limit - n,
    {
        n += 1;
        proof {
            lemma_primes_step(n as nat);
        }
        if is_prime(n) {
            count += 1;
        }
    }
    count
}

/// Counting has no hidden state: any two counts that the contract of
/// `count_primes` admits for one limit are the same number.
pub proof fn lemma_count_primes_repeatable(limit: u64, first: u64, second: u64)
    requires
        first == count_primes_spec(limit as nat),
        second == count_primes_spec(limit as nat),
    ensures
        first == second,
{
}

} // verus!
