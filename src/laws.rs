use crate::field::Felt;
use crate::poseidon::{is_full_round, partial_rounds, sbox_spec, values, Poseidon};
use vstd::prelude::*;

verus! {

/// How many of the first `n` rounds are partial rounds.
pub open spec fn partial_round_count(f: int, p: int, n: nat) -> nat
    decreases n,
{
    if n == 0 {
        0
    } else {
        partial_round_count(f, p, (n - 1) as nat) + if is_full_round(f, p, n - 1) {
            0nat
        } else {
            1nat
        }
    }
}

proof fn lemma_partial_round_prefix(f: nat, p: nat, n: nat)
    ensures
        partial_round_count(f as int, p as int, n) == if n <= f / 2 {
            0
        } else if n <= f / 2 + p {
            n - f / 2
        } else {
            p as int
        },
    decreases n,
{
    if n > 0 {
        lemma_partial_round_prefix(f, p, (n - 1) as nat);
    }
}

/// Of the `f + p` rounds of a permutation, exactly `p` are partial rounds,
/// and in a partial round the substitution leaves every element but
/// element 0 unchanged.
pub proof fn lemma_round_schedule(f: nat, p: nat, i: int, state: Seq<int>)
    ensures
        partial_round_count(f as int, p as int, f + p) == p,
        !is_full_round(f as int, p as int, i) ==> forall|j: int|
            1 <= j < state.len() ==> #[trigger] sbox_spec(f as int, p as int, i, state)[j] == state[j],
{
    lemma_partial_round_prefix(f, p, f + p);
}

/// Hashing is a function of the table and of the inputs' values: two input
/// vectors that hold the same field elements have the same digest.
pub proof fn lemma_hash_deterministic(h: Poseidon, a: Seq<Felt>, b: Seq<Felt>)
    requires
        values(a) == values(b),
    ensures
        h.accepts_len(a.len() as int) == h.accepts_len(b.len() as int),
        h.digest_of(values(a)) == h.digest_of(values(b)),
{
    assert(values(a).len() == a.len());
    assert(values(b).len() == b.len());
}

/// With the standard round counts, the accepted input lengths are exactly
/// `1..=6`: the empty input and inputs of seven or more elements are refused.
pub proof fn lemma_arity_bounds(h: Poseidon, k: int)
    requires
        h.table().n_rounds_p@ == partial_rounds(),
    ensures
        h.accepts_len(k) <==> 1 <= k <= 6,
{
}

} // verus!
