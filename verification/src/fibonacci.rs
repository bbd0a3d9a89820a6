//! Three ways to compute Fibonacci numbers, and a harness that times them.

use vstd::prelude::*;

verus! {

/// The Fibonacci numbers: 0, 1, 1, 2, 3, 5, ...
pub open spec fn fib(n: nat) -> nat
    decreases n,
{
    if n == 0 {
        0
    } else if n == 1 {
        1
    } else {
        fib((n - 1) as nat) + fib((n - 2) as nat)
    }
}

/// The Fibonacci numbers never decrease.
pub proof fn lemma_fib_is_monotonic(i: nat, j: nat)
    requires
        i <= j,
    ensures
        fib(i) <= fib(j),
    decreases j - i,
{
    if i < j {
        lemma_fib_is_monotonic(i, (j - 1) as nat);
        if j >= 2 {
            assert(fib(j) == fib((j - 1) as nat) + fib((j - 2) as nat));
        }
    }
}

/// How many times [`iterate_func`] calls its function before the call whose
/// result it returns, plus one.
pub const ITERATIONS: u8 = 255;

/// Computes the `n`-th Fibonacci number from the two before it, keeping
/// only those two.
pub fn fibonacci_memory(n: u64) -> (value: u64)
    requires
        fib(n as nat) <= u64::MAX,
    ensures
        value == fib(n as nat),
{
    let mut num_1: u64 = 0;
    let mut num_2: u64 = 1;
    if n == 0 {
        return 0;
    } else if n == 1 {
        return num_2;
    } else {
        let mut i: u64 = 1;
        while i < n
            invariant
                1 <= i <= n,
                num_1 == fib((i - 1) as nat),
                num_2 == fib(i as nat),
                fib(n as nat) <= u64::MAX,
            decreases n - i,
        {
            proof {
                lemma_fib_is_monotonic((i + 1) as nat, n as nat);
            }
            let temp = num_1 + num_2;
            num_1 = num_2;
            num_2 = temp;
            i = i + 1;
        }
        return num_2;
    }
}

/// Computes the `n`-th Fibonacci number as [`fibonacci_memory`] does, and
/// returns `None` where it does not fit in 64 bits.
pub fn fibonacci_checked(n: u64) -> (value: Option<u64>)
    ensures
        value is Some <==> fib(n as nat) <= u64::MAX,
        value matches Some(v) ==> v == fib(n as nat),
{
    if n == 0 {
        return Some(0);
    }
    let mut num_1: u64 = 0;
    let mut num_2: u64 = 1;
    let mut i: u64 = 1;
    while i < n
        invariant
            1 <= i <= n,
            num_1 == fib((i - 1) as nat),
            num_2 == fib(i as nat),
        decreases n - i,
    {
        match num_1.checked_add(num_2) {
            Some(temp) => {
                num_1 = num_2;
                num_2 = temp;
            },
            None => {
                proof {
                    lemma_fib_is_monotonic((i + 1) as nat, n as nat);
                }
                return None;
            },
        }
        i = i + 1;
    }
    Some(num_2)
}

/// Computes a Fibonacci number from a table of the first two, counting
/// from one: the first is 0, the second is 1. For `n == 0` there is no such
/// number, and the result is 0.
pub fn fibonacci_dynamic(n: u64) -> (value: u64)
    requires
        n >= 1 ==> fib((n - 1) as nat) <= u64::MAX,
    ensures
        value == if n == 0 {
            0
        } else {
            fib((n - 1) as nat)
        },
    decreases n,
{
    let array: [u64; 2] = [0, 1];
    if n == 0 {
        return n;
    } else if n <= 2 {
        return array[(n - 1) as usize];
    } else {
        proof {
            lemma_fib_is_monotonic((n - 2) as nat, (n - 1) as nat);
            lemma_fib_is_monotonic((n - 3) as nat, (n - 1) as nat);
        }
        let temp_array = fibonacci_dynamic(n - 1) + fibonacci_dynamic(n - 2);
        return temp_array;
    }
}

/// Computes the `n`-th Fibonacci number by its definition.
pub fn fibonacci_recursion(n: u64) -> (value: u64)
    requires
        fib(n as nat) <= u64::MAX,
    ensures
        value == fib(n as nat),
    decreases n,
{
    if n == 0 {
        return 0;
    } else if n == 1 || n == 2 {
        assert(fib(2) == fib(1) + fib(0));
        return 1;
    }
    proof {
        lemma_fib_is_monotonic((n - 1) as nat, n as nat);
        lemma_fib_is_monotonic((n - 2) as nat, n as nat);
    }
    return fibonacci_recursion(n - 1) + fibonacci_recursion(n - 2);
}

/// Calls `func` on `num` as often as [`ITERATIONS`] says, measures how long
/// that took, and calls it once more for its result. Returns the time in
/// microseconds and that result; of the time nothing is promised.
pub fn iterate_func<F: Fn(u64) -> u64>(func: F, num: u64) -> (timed: (u128, u64))
    requires
        call_requires(func, (num,)),
    ensures
        call_ensures(func, (num,), timed.1),
{
    let now = std::time::Instant::now();
    let mut round: u8 = 1;
    while round < ITERATIONS
        invariant
            1 <= round <= ITERATIONS,
            call_requires(func, (num,)),
        decreases ITERATIONS - round,
    {
        func(num);
        round = round + 1;
    }
    let micros = now.elapsed().as_micros();
    (micros, func(num))
}

} // verus!
