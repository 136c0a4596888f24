//! The Fibonacci numbers, as the small command-line demo computes them.

use vstd::prelude::*;

verus! {

/// The Fibonacci sequence.
pub open spec fn fib(n: nat) -> nat
    decreases n,
{
    if n == 0 {
        0
    } else if n == 1 {
        1
    } else {
        fib((n - 1) as nat) + fib((n - 2) as nat)
    }
}

/// Two adjacent Fibonacci numbers, defined by one linear recursion so that
/// concrete values can be evaluated without exponential unfolding.
spec fn fib_pair(n: nat) -> (nat, nat)
    decreases n,
{
    if n == 0 {
        (0, 1)
    } else {
        let p = fib_pair((n - 1) as nat);
        (p.1, p.0 + p.1)
    }
}

proof fn lemma_fib_pair(n: nat)
    ensures
        fib_pair(n).0 == fib(n),
        fib_pair(n).1 == fib(n + 1),
    decreases n,
{
    if n > 0 {
        lemma_fib_pair((n - 1) as nat);
    }
}

/// The Fibonacci sequence never decreases.
proof fn lemma_fib_mono(m: nat, n: nat)
    requires
        m <= n,
    ensures
        fib(m) <= fib(n),
    decreases n,
{
    if m < n && n >= 2 {
        lemma_fib_mono(m, (n - 1) as nat);
    }
}

/// Every Fibonacci number up to the 92nd fits in a signed 64-bit word; the
/// 93rd does not.
proof fn lemma_fib_fits(n: nat)
    requires
        n <= 92,
    ensures
        fib(n) <= 7540113804746346429,
{
    assert(fib_pair(10) == (55nat, 89nat)) by {
        reveal_with_fuel(fib_pair, 11);
    }
    assert(fib_pair(20) == (6765nat, 10946nat)) by {
        reveal_with_fuel(fib_pair, 11);
    }
    assert(fib_pair(30) == (832040nat, 1346269nat)) by {
        reveal_with_fuel(fib_pair, 11);
    }
    assert(fib_pair(40) == (102334155nat, 165580141nat)) by {
        reveal_with_fuel(fib_pair, 11);
    }
    assert(fib_pair(50) == (12586269025nat, 20365011074nat)) by {
        reveal_with_fuel(fib_pair, 11);
    }
    assert(fib_pair(60) == (1548008755920nat, 2504730781961nat)) by {
        reveal_with_fuel(fib_pair, 11);
    }
    assert(fib_pair(70) == (190392490709135nat, 308061521170129nat)) by {
        reveal_with_fuel(fib_pair, 11);
    }
    assert(fib_pair(80) == (23416728348467685nat, 37889062373143906nat)) by {
        reveal_with_fuel(fib_pair, 11);
    }
    assert(fib_pair(90) == (2880067194370816120nat, 4660046610375530309nat)) by {
        reveal_with_fuel(fib_pair, 11);
    }
    assert(fib_pair(92).0 == 7540113804746346429) by {
        reveal_with_fuel(fib_pair, 3);
    }
    lemma_fib_pair(92);
    lemma_fib_mono(n, 92);
}

/// The `n`-th Fibonacci number. Arguments outside `0..=92` are excluded: a
/// negative index has no Fibonacci number and from the 93rd on the value no
/// longer fits the result type.
pub fn fibo(n: i64) -> (r: i64)
    requires
        0 <= n <= 92,
    ensures
        r == fib(n as nat),
{
    if n == 0 {
        return 0;
    }
    let mut prev: i64 = 0;
    let mut cur: i64 = 1;
    let mut i: i64 = 1;
    while i < n
        invariant
            1 <= i <= n <= 92,
            prev == fib((i - 1) as nat),
            cur == fib(i as nat),
        decreases n - i,
    {
        proof {
            lemma_fib_fits((i + 1) as nat);
        }
        let next = prev + cur;
        prev = cur;
        cur = next;
        i = i + 1;
    }
    cur
}

} // verus!
