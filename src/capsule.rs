//! Logic of the example capsules that run inside the sandbox.
use vstd::prelude::*;

use crate::engine::EngineError;

verus! {

/// The Fibonacci numbers: `fib(0) == 0`, `fib(1) == 1`, and each further one the
/// sum of the two before it.
pub open spec fn fib(n: nat) -> nat
    decreases n,
{
    if n == 0 {
        0
    } else if n == 1 {
        1
    } else {
        fib((n - 1) as nat) + fib((n - 2) as nat)
    }
}

/// The sequence never decreases.
pub proof fn lemma_fib_monotonic(i: nat, j: nat)
    requires
        i <= j,
    ensures
        fib(i) <= fib(j),
    decreases j - i,
{
    if i < j {
        lemma_fib_monotonic(i, (j - 1) as nat);
        if j >= 2 {
            assert(fib(j) == fib((j - 1) as nat) + fib((j - 2) as nat));
        }
    }
}

/// Computes the `n`-th Fibonacci number, for every `n` whose value fits in a `u32`.
pub fn fibonacci(n: u32) -> (r: u32)
    requires
        fib(n as nat) <= u32::MAX,
    ensures
        r == fib(n as nat),
{
    if n == 0 {
        return 0;
    } else if n == 1 {
        return 1;
    }
    let mut f_0: u32 = 0;
    let mut f_1: u32 = 1;
    let mut i: u32 = 1;
    while i < n
        invariant
            1 <= i <= n,
            fib(n as nat) <= u32::MAX,
            f_0 == fib((i - 1) as nat),
            f_1 == fib(i as nat),
        decreases n - i,
    {
        proof {
            lemma_fib_monotonic((i + 1) as nat, n as nat);
        }
        f_1 = f_1 + f_0;
        f_0 = f_1 - f_0;
        i = i + 1;
    }
    f_1
}


/// What a capsule's panic handler leaves for the host: the guest traps at
/// once, so the run that panicked ends in an engine error and yields no value.
pub fn panic_handler<R>() -> (r: Result<R, EngineError>)
    ensures
        r == Err::<R, EngineError>(EngineError::Trap),
{
    Err(EngineError::Trap)
}


/// The path elements of a resource written as one path: the elements in
/// order, with a slash between each two.
pub open spec fn joined(elements: Seq<Seq<char>>) -> Seq<char>
    decreases elements.len(),
{
    if elements.len() == 0 {
        Seq::empty()
    } else if elements.len() == 1 {
        elements[0]
    } else {
        joined(elements.drop_last()) + seq!['/'] + elements.last()
    }
}

/// Writes the path of a resource that a capsule reports, from its elements.
pub fn resource_path(elements: &Vec<String>) -> (r: String)
    requires
        elements@.len() > 0,
    ensures
        r@ == joined(elements@.map_values(|e: String| e@)),
{
    let ghost parts = elements@.map_values(|e: String| e@);
    let mut path = elements[0].clone();
    assert(parts.take(1) =~= seq![parts[0]]);
    let mut i: usize = 1;
    while i < elements.len()
        invariant
            1 <= i <= elements@.len(),
            parts == elements@.map_values(|e: String| e@),
            path@ == joined(parts.take(i as int)),
        decreases elements@.len() - i,
    {
        proof {
            reveal_strlit("/");
        }
        path.append("/");
        path.append(elements[i].as_str());
        assert(parts.take(i + 1).drop_last() =~= parts.take(i as int));
        i = i + 1;
    }
    assert(parts.take(i as int) =~= parts);
    path
}

} // verus!
