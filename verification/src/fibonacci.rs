//! The arithmetic engine: an overflow-safe iterative Fibonacci computation,
//! with the mathematical laws the sequence obeys.

use vstd::prelude::*;

use crate::errors::ComputationError;

verus! {

/// The mathematical Fibonacci sequence: 0, 1, 1, 2, 3, 5, ...
pub open spec fn fib(n: nat) -> nat
    decreases n,
{
    if n == 0 {
        0
    } else if n == 1 {
        1
    } else {
        fib((n - 2) as nat) + fib((n - 1) as nat)
    }
}

/// The sequence never decreases as the index grows.
pub proof fn lemma_fib_is_monotonic(i: nat, j: nat)
    requires
        i <= j,
    ensures
        fib(i) <= fib(j),
    decreases j - i,
{
    if i < 2 && j < 2 {
    } else if i == j {
    } else if i == j - 1 {
        reveal_with_fuel(fib, 2);
        lemma_fib_is_monotonic(i, (j - 1) as nat);
    } else {
        lemma_fib_is_monotonic(i, (j - 1) as nat);
        lemma_fib_is_monotonic(i, (j - 2) as nat);
    }
}

/// Computes the `x`th Fibonacci number, reporting overflow instead of
/// wrapping or panicking: the result is `Ok` exactly when the true value
/// fits in `u128`, and otherwise the error carries the offending index.
pub fn fibonacci(x: u128) -> (r: Result<u128, ComputationError>)
    ensures
        fib(x as nat) <= u128::MAX ==> r == Ok::<u128, ComputationError>(fib(x as nat) as u128),
        fib(x as nat) > u128::MAX ==> r == Err::<u128, ComputationError>(
            ComputationError::Overflow(x),
        ),
{
    if x == 0 {
        return Ok(0);
    }
    let mut a: u128 = 0;
    let mut b: u128 = 1;
    let mut i: u128 = 1;
    while i < x
        invariant
            1 <= i <= x,
            a == fib((i - 1) as nat),
            b == fib(i as nat),
        decreases x - i,
    {
        if a > u128::MAX - b {
            proof {
                lemma_fib_is_monotonic((i + 1) as nat, x as nat);
            }
            return Err(ComputationError::Overflow(x));
        }
        let next: u128 = a + b;
        a = b;
        b = next;
        i = i + 1;
    }
    Ok(b)
}

/// Cassini's identity: for every index n >= 1, the product of the
/// neighbours of fib(n) differs from its square by exactly (-1)^n.
pub proof fn lemma_cassini(n: nat)
    requires
        n >= 1,
    ensures
        fib((n - 1) as nat) as int * fib((n + 1) as nat) as int - fib(n) as int * fib(n) as int
            == (if n % 2 == 0 { 1int } else { -1int }),
    decreases n,
{
    if n == 1 {
        reveal_with_fuel(fib, 3);
        assert(fib(0) == 0 && fib(1) == 1 && fib(2) == 1);
        assert(fib(0) as int * fib(2) as int - fib(1) as int * fib(1) as int == -1int);
    } else {
        lemma_cassini((n - 1) as nat);
        let a = fib((n - 2) as nat) as int;
        let b = fib((n - 1) as nat) as int;
        let c = fib(n) as int;
        let d = fib((n + 1) as nat) as int;
        assert(c == a + b);
        assert(d == b + c);
        assert(b * d - c * c == -(a * c - b * b)) by (nonlinear_arith)
            requires
                c == a + b,
                d == b + c,
        ;
        let m = (n - 1) as nat;
        assert(a * c - b * b == (if m % 2 == 0 { 1int } else { -1int }));
        assert(m % 2 == 0 <==> n % 2 == 1);
    }
}

/// Recurrence law: from index 2 on, each Fibonacci value is the sum of the
/// two values before it.
pub proof fn lemma_fib_recurrence(n: nat)
    requires
        n >= 2,
    ensures
        fib(n) == fib((n - 1) as nat) + fib((n - 2) as nat),
{
}

} // verus!
