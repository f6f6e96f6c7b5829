use vstd::prelude::*;

verus! {

/// The window length used for smoothing: `frames`, made odd by adding one
/// when it is even, so that the window has a centre sample.
pub open spec fn odd_window_spec(frames: nat) -> nat {
    if frames % 2 == 0 { frames + 1 } else { frames }
}

/// Forces a frame count to the next odd number, keeping odd ones.
pub fn odd_window(frames: usize) -> (r: usize)
    ensures
        r == odd_window_spec(frames as nat),
        r % 2 == 1,
        r >= 1,
{
    if frames % 2 == 0 {
        frames + 1
    } else {
        frames
    }
}

/// The vertices around `idx` on a closed polygon of `n` vertices: the one
/// before, `idx` itself and the one after, wrapping at both ends.
pub fn neighbor_indices(idx: usize, n: usize) -> (r: (usize, usize, usize))
    requires
        idx < n,
    ensures
        r.0 == (idx + n - 1) % (n as int),
        r.1 == idx,
        r.2 == (idx + 1) % (n as int),
{
    let prev = if idx == 0 { n - 1 } else { idx - 1 };
    let next = if idx + 1 == n { 0 } else { idx + 1 };
    proof {
        if idx == 0 {
            vstd::arithmetic::div_mod::lemma_mod_self_0(n as int);
            assert((idx + n - 1) % (n as int) == n - 1) by {
                vstd::arithmetic::div_mod::lemma_small_mod((n - 1) as nat, n as nat);
            }
        } else {
            vstd::arithmetic::div_mod::lemma_mod_add_multiples_vanish((idx - 1) as int, n as int);
            vstd::arithmetic::div_mod::lemma_small_mod((idx - 1) as nat, n as nat);
        }
        if idx + 1 == n {
            vstd::arithmetic::div_mod::lemma_mod_self_0(n as int);
        } else {
            vstd::arithmetic::div_mod::lemma_small_mod((idx + 1) as nat, n as nat);
        }
    }
    (prev, idx, next)
}

} // verus!
