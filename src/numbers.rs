//! Small numeric helpers.

use vstd::prelude::*;

verus! {

/// The Fibonacci sequence starting 1, 1, 2, 3, 5, ...
pub open spec fn fib(n: nat) -> nat
    decreases n,
{
    if n <= 1 {
        1
    } else {
        fib((n - 1) as nat) + fib((n - 2) as nat)
    }
}

/// The largest `n` whose Fibonacci number fits in a `u64`.
pub const FIBONACCI_MAX_INDEX: u64 = 92;

proof fn fib_monotonic(m: nat, n: nat)
    requires
        m <= n,
    ensures
        fib(m) <= fib(n),
    decreases n - m,
{
    if m < n {
        fib_monotonic(m, (n - 1) as nat);
        if n >= 2 {
            assert(fib(n) == fib((n - 1) as nat) + fib((n - 2) as nat));
        }
    }
}

proof fn fib_fits(n: nat)
    requires
        n <= FIBONACCI_MAX_INDEX,
    ensures
        fib(n) <= u64::MAX,
{
    // Evaluated two indices at a time, each unfolding back to the last two.
    assert(fib(92) == 12200160415121876738) by {
        reveal_with_fuel(fib, 3);
        assert(fib(3) == 3);
        assert(fib(5) == 8);
        assert(fib(7) == 21);
        assert(fib(9) == 55);
        assert(fib(11) == 144);
        assert(fib(13) == 377);
        assert(fib(15) == 987);
        assert(fib(17) == 2584);
        assert(fib(19) == 6765);
        assert(fib(21) == 17711);
        assert(fib(23) == 46368);
        assert(fib(25) == 121393);
        assert(fib(27) == 317811);
        assert(fib(29) == 832040);
        assert(fib(31) == 2178309);
        assert(fib(33) == 5702887);
        assert(fib(35) == 14930352);
        assert(fib(37) == 39088169);
        assert(fib(39) == 102334155);
        assert(fib(41) == 267914296);
        assert(fib(43) == 701408733);
        assert(fib(45) == 1836311903);
        assert(fib(47) == 4807526976);
        assert(fib(49) == 12586269025);
        assert(fib(51) == 32951280099);
        assert(fib(53) == 86267571272);
        assert(fib(55) == 225851433717);
        assert(fib(57) == 591286729879);
        assert(fib(59) == 1548008755920);
        assert(fib(61) == 4052739537881);
        assert(fib(63) == 10610209857723);
        assert(fib(65) == 27777890035288);
        assert(fib(67) == 72723460248141);
        assert(fib(69) == 190392490709135);
        assert(fib(71) == 498454011879264);
        assert(fib(73) == 1304969544928657);
        assert(fib(75) == 3416454622906707);
        assert(fib(77) == 8944394323791464);
        assert(fib(79) == 23416728348467685);
        assert(fib(81) == 61305790721611591);
        assert(fib(83) == 160500643816367088);
        assert(fib(85) == 420196140727489673);
        assert(fib(87) == 1100087778366101931);
        assert(fib(89) == 2880067194370816120);
        assert(fib(91) == 7540113804746346429);
        assert(fib(92) == 12200160415121876738);
    }
    fib_monotonic(n, 92);
}

/// The `n`-th Fibonacci number, counting `fibonacci(0) == fibonacci(1) == 1`.
/// From index 93 on the value no longer fits in a `u64`.
pub fn fibonacci(n: u64) -> (r: u64)
    requires
        n <= FIBONACCI_MAX_INDEX,
    ensures
        r == fib(n as nat),
    decreases n,
{
    proof {
        fib_fits(n as nat);
    }
    match n {
        0 => 1,
        1 => 1,
        n => fibonacci(n - 1) + fibonacci(n - 2),
    }
}

} // verus!
