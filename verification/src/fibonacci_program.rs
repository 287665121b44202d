use vstd::prelude::*;

verus! {

/// The modulus that keeps the program's Fibonacci numbers small.
pub const FIB_MODULUS: u32 = 7919;

/// The `k`-th Fibonacci number, with each addition reduced modulo 7919.
pub open spec fn fib_mod(k: nat) -> nat
    decreases k,
{
    if k == 0 {
        0
    } else if k == 1 {
        1
    } else {
        (fib_mod((k - 1) as nat) + fib_mod((k - 2) as nat)) % 7919
    }
}

proof fn lemma_fib_mod_bound(k: nat)
    ensures
        fib_mod(k) < 7919,
    decreases k,
{
}

/// What the Fibonacci guest program commits for input `n`: the `n`-th
/// number and the last eight numbers it computed, that is the numbers
/// `n - 6` to `n + 1`.
pub fn fibonacci_outputs(n: u32) -> (r: (u32, [u32; 8]))
    requires
        n >= 8,
    ensures
        r.0 == fib_mod(n as nat),
        forall|j: int| 0 <= j < 8 ==> r.1[j] == fib_mod((n - 6 + j) as nat),
{
    let mut a: u32 = 0;
    let mut b: u32 = 1;
    let mut cs: Vec<u32> = Vec::new();
    let mut i: u32 = 0;
    while i < n
        invariant
            0 <= i <= n,
            a == fib_mod(i as nat),
            b == fib_mod((i + 1) as nat),
            cs.len() == i,
            forall|k: int| 0 <= k < i ==> cs[k] == fib_mod((k + 2) as nat),
        decreases n - i,
    {
        proof {
            lemma_fib_mod_bound(i as nat);
            lemma_fib_mod_bound((i + 1) as nat);
        }
        let mut c = a + b;
        c %= FIB_MODULUS;
        a = b;
        b = c;
        cs.push(c);
        i = i + 1;
    }
    let len = cs.len();
    let last: [u32; 8] = [
        cs[len - 8],
        cs[len - 7],
        cs[len - 6],
        cs[len - 5],
        cs[len - 4],
        cs[len - 3],
        cs[len - 2],
        cs[len - 1],
    ];
    (a, last)
}

} // verus!
