//! Counting primes by trial division against the primes found so far.

use vstd::prelude::*;

verus! {

/// `n` is prime: at least 2, and no number in `2..n` divides it.
pub open spec fn is_prime(n: int) -> bool {
    &&& n >= 2
    &&& forall|d: int| 2 <= d < n ==> #[trigger] (n % d) != 0
}

/// The primes below `n`, in increasing order.
pub open spec fn primes_below(n: int) -> Seq<int>
    decreases n,
{
    if n <= 2 {
        Seq::empty()
    } else if is_prime(n - 1) {
        primes_below(n - 1).push(n - 1)
    } else {
        primes_below(n - 1)
    }
}

/// How many primes are below `n`.
pub open spec fn count_primes_below(n: int) -> nat {
    primes_below(n).len()
}

/// What `find_primes(limit)` returns: the number of primes below `limit`,
/// except that a limit of 2 answers 1.
pub open spec fn find_primes_spec(limit: u32) -> nat {
    if limit == 2 {
        1
    } else {
        count_primes_below(limit as int)
    }
}

/// `primes_below(n)` holds exactly the primes below `n`, in increasing order.
proof fn lemma_primes_below(n: int)
    ensures
        forall|i: int|
            0 <= i < primes_below(n).len() ==> is_prime(#[trigger] primes_below(n)[i])
                && primes_below(n)[i] < n,
        forall|i: int, j: int|
            0 <= i < j < primes_below(n).len() ==> #[trigger] primes_below(n)[i]
                < #[trigger] primes_below(n)[j],
        forall|x: int| is_prime(x) && x < n ==> #[trigger] primes_below(n).contains(x),
    decreases n,
{
    if n > 2 {
        lemma_primes_below(n - 1);
        let p = primes_below(n - 1);
        if is_prime(n - 1) {
            let q = p.push(n - 1);
            assert(primes_below(n) == q);
            assert forall|i: int| 0 <= i < q.len() implies is_prime(#[trigger] q[i]) && q[i] < n by {
                if i < p.len() {
                    assert(q[i] == p[i]);
                }
            }
            assert forall|i: int, j: int| 0 <= i < j < q.len() implies #[trigger] q[i]
                < #[trigger] q[j] by {
                assert(q[i] == p[i]);
                if j < p.len() {
                    assert(q[j] == p[j]);
                }
            }
            assert forall|x: int| is_prime(x) && x < n implies #[trigger] q.contains(x) by {
                if x < n - 1 {
                    assert(p.contains(x));
                    let k = choose|k: int| 0 <= k < p.len() && p[k] == x;
                    assert(q[k] == x);
                } else {
                    assert(q[p.len() as int] == x);
                }
            }
        } else {
            assert(primes_below(n) == p);
        }
    }
}

/// A number that is at least 2 and not prime has a prime divisor smaller
/// than itself.
proof fn lemma_prime_divisor(n: int)
    requires
        n >= 2,
        !is_prime(n),
    ensures
        exists|p: int| is_prime(p) && p < n && #[trigger] (n % p) == 0,
    decreases n,
{
    let d = choose|d: int| 2 <= d < n && #[trigger] (n % d) == 0;
    if is_prime(d) {
        assert(is_prime(d) && d < n && n % d == 0);
    } else {
        lemma_prime_divisor(d);
        let p = choose|p: int| is_prime(p) && p < d && #[trigger] (d % p) == 0;
        lemma_divides_trans(p, d, n);
        assert(is_prime(p) && p < n && n % p == 0);
    }
}

proof fn lemma_divides_trans(p: int, d: int, n: int)
    requires
        p > 0,
        d > 0,
        d % p == 0,
        n % d == 0,
    ensures
        n % p == 0,
{
    let a = d / p;
    let b = n / d;
    assert(d == p * a) by (nonlinear_arith)
        requires
            p > 0,
            d % p == 0,
            a == d / p,
    ;
    assert(n == d * b) by (nonlinear_arith)
        requires
            d > 0,
            n % d == 0,
            b == n / d,
    ;
    assert(n == p * (a * b)) by (nonlinear_arith)
        requires
            d == p * a,
            n == d * b,
    ;
    assert(n % p == 0) by (nonlinear_arith)
        requires
            p > 0,
            n == p * (a * b),
    ;
}

/// Whether some value of `found` divides `n`; the values are all positive.
fn any_divides(found: &Vec<u32>, n: u32) -> (r: bool)
    requires
        forall|i: int| 0 <= i < found@.len() ==> found@[i] > 0,
    ensures
        r == exists|i: int| 0 <= i < found@.len() && (n as int) % (found@[i] as int) == 0,
{
    let len = found.len();
    let mut i: usize = 0;
    while i < len
        invariant
            len == found@.len(),
            0 <= i <= len,
            forall|j: int| 0 <= j < found@.len() ==> found@[j] > 0,
            forall|j: int| 0 <= j < i ==> (n as int) % (found@[j] as int) != 0,
        decreases len - i,
    {
        if n % found[i] == 0 {
            return true;
        }
        i = i + 1;
    }
    false
}

/// Counts the primes below `limit` by trial division against the primes
/// found so far. A limit of 0 or 1 gives 0, and a limit of 2 gives 1.
pub fn find_primes(limit: u32) -> (count: u32)
    ensures
        count == find_primes_spec(limit),
{
    if limit == 1 {
        return 0;
    }
    if limit == 2 {
        return 1;
    }
    let mut found: Vec<u32> = Vec::new();
    let mut number: u32 = 2;
    while number < limit
        invariant
            2 <= number,
            limit >= 3 ==> number <= limit,
            limit < 3 ==> number == 2,
            found@.map_values(|x: u32| x as int) == primes_below(number as int),
        decreases limit - number,
    {
        proof {
            lemma_primes_below(number as int);
            assert forall|i: int| 0 <= i < found@.len() implies found@[i] > 0 by {
                assert(found@.map_values(|x: u32| x as int)[i] == found@[i] as int);
                assert(is_prime(primes_below(number as int)[i]));
            }
        }
        let has_divisor = any_divides(&found, number);
        proof {
            if has_divisor {
                let i = choose|i: int|
                    0 <= i < found@.len() && (number as int) % (found@[i] as int) == 0;
                assert(found@.map_values(|x: u32| x as int)[i] == found@[i] as int);
                let p = found@[i] as int;
                assert(p == primes_below(number as int)[i]);
                assert(is_prime(p));
                assert(2 <= p < number);
                assert(!is_prime(number as int));
            } else if !is_prime(number as int) {
                lemma_prime_divisor(number as int);
                let p = choose|p: int|
                    is_prime(p) && p < number && #[trigger] ((number as int) % p) == 0;
                assert(primes_below(number as int).contains(p));
                let k = choose|k: int| 0 <= k < primes_below(number as int).len()
                    && primes_below(number as int)[k] == p;
                assert(found@.map_values(|x: u32| x as int)[k] == found@[k] as int);
                assert((number as int) % (found@[k] as int) == 0);
            }
        }
        if !has_divisor {
            let ghost before = found@;
            found.push(number);
            proof {
                assert(found@.map_values(|x: u32| x as int) =~= before.map_values(
                    |x: u32| x as int,
                ).push(number as int));
            }
        }
        number = number + 1;
    }
    proof {
        if limit >= 3 {
            assert(number == limit);
        }
        assert(found@.len() == found@.map_values(|x: u32| x as int).len());
        lemma_count_below_bound(number as int);
    }
    found.len() as u32
}

/// There are fewer primes below `n` than `n`.
proof fn lemma_count_below_bound(n: int)
    ensures
        primes_below(n).len() <= if n > 0 {
            n
        } else {
            0
        },
    decreases n,
{
    if n > 2 {
        lemma_count_below_bound(n - 1);
    }
}

} // verus!
