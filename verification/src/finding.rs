//! The first place at which something holds.
use vstd::prelude::*;

verus! {

/// The first number below `n` of which `p` holds.
pub open spec fn first_below(n: int, p: spec_fn(int) -> bool) -> Option<int>
    decreases n,
{
    if n <= 0 {
        None
    } else {
        match first_below(n - 1, p) {
            Some(i) => Some(i),
            None => if p(n - 1) {
                Some(n - 1)
            } else {
                None
            },
        }
    }
}

/// What was found stays found, however much comes behind it.
pub proof fn lemma_found(m: int, n: int, p: spec_fn(int) -> bool)
    requires
        m <= n,
        first_below(m, p) is Some,
    ensures
        first_below(n, p) == first_below(m, p),
    decreases n - m,
{
    if m < n {
        lemma_found(m, n - 1, p);
    }
}

/// What was found is there, and what was not found is not.
pub proof fn lemma_first(n: int, p: spec_fn(int) -> bool)
    ensures
        match first_below(n, p) {
            Some(i) => 0 <= i < n && p(i),
            None => forall|j: int| 0 <= j < n ==> !#[trigger] p(j),
        },
    decreases n,
{
    if n > 0 {
        lemma_first(n - 1, p);
    }
}

/// What is found depends on nothing but what holds below `n`.
pub proof fn lemma_first_same(n: int, p: spec_fn(int) -> bool, q: spec_fn(int) -> bool)
    requires
        forall|j: int| 0 <= j < n ==> #[trigger] p(j) == q(j),
    ensures
        first_below(n, p) == first_below(n, q),
    decreases n,
{
    if n > 0 {
        lemma_first_same(n - 1, p, q);
        assert(p(n - 1) == q(n - 1));
    }
}

} // verus!
