//! Small helpers without a tie to the network.

pub mod digit_uppercase;

pub use digit_uppercase::digit_uppercase;

use vstd::prelude::*;

verus! {

/// The largest argument for which [`fib_rec`] fits its result type.
pub const FIB_LIMIT: i16 = 91;

/// The number of ways to climb `n` steps one or two at a time: 1 for fewer
/// than two steps, and the sum of the two numbers before it otherwise.
pub open spec fn fib(n: int) -> int
    decreases n,
{
    if n < 2 {
        1
    } else {
        fib(n - 1) + fib(n - 2)
    }
}

/// Every number of the sequence is at least 1.
pub proof fn lemma_fib_positive(n: int)
    ensures
        fib(n) >= 1,
    decreases n,
{
    if n >= 2 {
        lemma_fib_positive(n - 1);
        lemma_fib_positive(n - 2);
    }
}

/// The sequence never falls.
pub proof fn lemma_fib_monotonic(n: int, m: int)
    requires
        n <= m,
    ensures
        fib(n) <= fib(m),
    decreases m,
{
    if m >= 2 && n < m {
        lemma_fib_monotonic(n, m - 1);
        lemma_fib_positive(m - 2);
    } else if n < m {
        lemma_fib_positive(n);
    }
}

/// The numbers at 10 and 11.
proof fn lemma_fib_11()
    ensures
        fib(10) == 89,
        fib(11) == 144,
{
    assert(fib(0) == 1);
    assert(fib(1) == 1);
    assert(fib(2) == 2);
    assert(fib(3) == 3);
    assert(fib(4) == 5);
    assert(fib(5) == 8);
    assert(fib(6) == 13);
    assert(fib(7) == 21);
    assert(fib(8) == 34);
    assert(fib(9) == 55);
    assert(fib(10) == 89);
    assert(fib(11) == 144);
}

/// The numbers at 20 and 21.
proof fn lemma_fib_21()
    ensures
        fib(20) == 10946,
        fib(21) == 17711,
{
    lemma_fib_11();
    assert(fib(12) == 233);
    assert(fib(13) == 377);
    assert(fib(14) == 610);
    assert(fib(15) == 987);
    assert(fib(16) == 1597);
    assert(fib(17) == 2584);
    assert(fib(18) == 4181);
    assert(fib(19) == 6765);
    assert(fib(20) == 10946);
    assert(fib(21) == 17711);
}

/// The numbers at 30 and 31.
proof fn lemma_fib_31()
    ensures
        fib(30) == 1346269,
        fib(31) == 2178309,
{
    lemma_fib_21();
    assert(fib(22) == 28657);
    assert(fib(23) == 46368);
    assert(fib(24) == 75025);
    assert(fib(25) == 121393);
    assert(fib(26) == 196418);
    assert(fib(27) == 317811);
    assert(fib(28) == 514229);
    assert(fib(29) == 832040);
    assert(fib(30) == 1346269);
    assert(fib(31) == 2178309);
}

/// The numbers at 40 and 41.
proof fn lemma_fib_41()
    ensures
        fib(40) == 165580141,
        fib(41) == 267914296,
{
    lemma_fib_31();
    assert(fib(32) == 3524578);
    assert(fib(33) == 5702887);
    assert(fib(34) == 9227465);
    assert(fib(35) == 14930352);
    assert(fib(36) == 24157817);
    assert(fib(37) == 39088169);
    assert(fib(38) == 63245986);
    assert(fib(39) == 102334155);
    assert(fib(40) == 165580141);
    assert(fib(41) == 267914296);
}

/// The numbers at 50 and 51.
proof fn lemma_fib_51()
    ensures
        fib(50) == 20365011074,
        fib(51) == 32951280099,
{
    lemma_fib_41();
    assert(fib(42) == 433494437);
    assert(fib(43) == 701408733);
    assert(fib(44) == 1134903170);
    assert(fib(45) == 1836311903);
    assert(fib(46) == 2971215073);
    assert(fib(47) == 4807526976);
    assert(fib(48) == 7778742049);
    assert(fib(49) == 12586269025);
    assert(fib(50) == 20365011074);
    assert(fib(51) == 32951280099);
}

/// The numbers at 60 and 61.
proof fn lemma_fib_61()
    ensures
        fib(60) == 2504730781961,
        fib(61) == 4052739537881,
{
    lemma_fib_51();
    assert(fib(52) == 53316291173);
    assert(fib(53) == 86267571272);
    assert(fib(54) == 139583862445);
    assert(fib(55) == 225851433717);
    assert(fib(56) == 365435296162);
    assert(fib(57) == 591286729879);
    assert(fib(58) == 956722026041);
    assert(fib(59) == 1548008755920);
    assert(fib(60) == 2504730781961);
    assert(fib(61) == 4052739537881);
}

/// The numbers at 70 and 71.
proof fn lemma_fib_71()
    ensures
        fib(70) == 308061521170129,
        fib(71) == 498454011879264,
{
    lemma_fib_61();
    assert(fib(62) == 6557470319842);
    assert(fib(63) == 10610209857723);
    assert(fib(64) == 17167680177565);
    assert(fib(65) == 27777890035288);
    assert(fib(66) == 44945570212853);
    assert(fib(67) == 72723460248141);
    assert(fib(68) == 117669030460994);
    assert(fib(69) == 190392490709135);
    assert(fib(70) == 308061521170129);
    assert(fib(71) == 498454011879264);
}

/// The numbers at 80 and 81.
proof fn lemma_fib_81()
    ensures
        fib(80) == 37889062373143906,
        fib(81) == 61305790721611591,
{
    lemma_fib_71();
    assert(fib(72) == 806515533049393);
    assert(fib(73) == 1304969544928657);
    assert(fib(74) == 2111485077978050);
    assert(fib(75) == 3416454622906707);
    assert(fib(76) == 5527939700884757);
    assert(fib(77) == 8944394323791464);
    assert(fib(78) == 14472334024676221);
    assert(fib(79) == 23416728348467685);
    assert(fib(80) == 37889062373143906);
    assert(fib(81) == 61305790721611591);
}

/// The numbers at 90 and 91.
proof fn lemma_fib_91()
    ensures
        fib(90) == 4660046610375530309,
        fib(91) == 7540113804746346429,
{
    lemma_fib_81();
    assert(fib(82) == 99194853094755497);
    assert(fib(83) == 160500643816367088);
    assert(fib(84) == 259695496911122585);
    assert(fib(85) == 420196140727489673);
    assert(fib(86) == 679891637638612258);
    assert(fib(87) == 1100087778366101931);
    assert(fib(88) == 1779979416004714189);
    assert(fib(89) == 2880067194370816120);
    assert(fib(90) == 4660046610375530309);
    assert(fib(91) == 7540113804746346429);
}

/// The number at the limit still fits 64 bits with a sign; the next one
/// does not.
pub proof fn lemma_fib_limit()
    ensures
        fib(FIB_LIMIT as int) == 7540113804746346429,
        fib(FIB_LIMIT as int) <= i64::MAX,
        fib(FIB_LIMIT + 1) > i64::MAX,
{
    lemma_fib_91();
}

/// Computes `fib(num)` by its definition.
pub fn fib_rec(num: i16) -> (r: i64)
    requires
        num <= FIB_LIMIT,
    ensures
        r == fib(num as int),
    decreases num,
{
    if num < 2 {
        return 1;
    }
    proof {
        lemma_fib_limit();
        lemma_fib_monotonic(num as int, FIB_LIMIT as int);
        lemma_fib_positive(num - 1);
        lemma_fib_positive(num - 2);
    }
    fib_rec(num - 1) + fib_rec(num - 2)
}

} // verus!
