//! Partition of a list into contiguous chunks of a fixed maximum size.

use vstd::prelude::*;

verus! {

/// Number of windows handed to one unit of work unless the caller chooses
/// otherwise.
pub const DEFAULT_CHUNK_SIZE: usize = 1000;

/// Number of chunks of size at most `k` that cover `n` items: `n / k`,
/// rounded up.
pub open spec fn chunk_count(n: nat, k: nat) -> nat {
    if k == 0 {
        0
    } else {
        ((n + k - 1) / (k as int)) as nat
    }
}

/// Index of the first item of chunk `i`.
pub open spec fn chunk_lo(i: nat, k: nat, n: nat) -> nat {
    if i * k <= n {
        i * k
    } else {
        n
    }
}

/// One past the index of the last item of chunk `i`.
pub open spec fn chunk_hi(i: nat, k: nat, n: nat) -> nat {
    chunk_lo(i + 1, k, n)
}

/// The items of chunk `i` of `s`.
pub open spec fn chunk_of<T>(s: Seq<T>, k: nat, i: nat) -> Seq<T> {
    s.subrange(chunk_lo(i, k, s.len()) as int, chunk_hi(i, k, s.len()) as int)
}

/// The first `m` chunks of `s`, one after the other.
pub open spec fn concat_chunks<T>(s: Seq<T>, k: nat, m: nat) -> Seq<T>
    decreases m,
{
    if m == 0 {
        Seq::empty()
    } else {
        concat_chunks(s, k, (m - 1) as nat) + chunk_of(s, k, (m - 1) as nat)
    }
}

/// `chunk_count(n, k)` is the one `m` with `(m - 1) * k < n <= m * k`.
pub proof fn lemma_chunk_count_unique(n: nat, k: nat, m: nat)
    requires
        k > 0,
        n <= m * k,
        m == 0 || (m - 1) * k < n,
    ensures
        chunk_count(n, k) == m,
{
    let q = (n + k - 1) / (k as int);
    vstd::arithmetic::div_mod::lemma_fundamental_div_mod(n + k - 1, k as int);
    vstd::arithmetic::div_mod::lemma_mod_bound(n + k - 1, k as int);
    let r = (n + k - 1) % (k as int);
    assert(n + k - 1 == k * q + r);
    assert(q == m) by (nonlinear_arith)
        requires
            k > 0,
            n <= m * k,
            m == 0 || (m - 1) * k < n,
            n + k - 1 == k * q + r,
            0 <= r < k,
            n >= 0,
            m >= 0,
    ;
}

/// The chunks cover `n` items, and none of them is empty.
pub proof fn lemma_chunk_count_bounds(n: nat, k: nat)
    requires
        k > 0,
    ensures
        n <= chunk_count(n, k) * k,
        chunk_count(n, k) == 0 || (chunk_count(n, k) - 1) * k < n,
{
    let q = (n + k - 1) / (k as int);
    vstd::arithmetic::div_mod::lemma_fundamental_div_mod(n + k - 1, k as int);
    vstd::arithmetic::div_mod::lemma_mod_bound(n + k - 1, k as int);
    let r = (n + k - 1) % (k as int);
    assert(q >= 0 && n <= q * k && (q == 0 || (q - 1) * k < n)) by (nonlinear_arith)
        requires
            k > 0,
            n + k - 1 == k * q + r,
            0 <= r < k,
            n >= 0,
    ;
}

/// The index ranges `[lo, hi)` of the chunks of a list of `n` items, in
/// order: chunk `i` starts at `i * k` and holds `k` items, the last one
/// possibly fewer.
pub fn chunk_bounds(n: usize, k: usize) -> (bounds: Vec<(usize, usize)>)
    requires
        k > 0,
    ensures
        bounds@.len() == chunk_count(n as nat, k as nat),
        forall|i: int|
            0 <= i < bounds@.len() ==> (#[trigger] bounds@[i]).0 == i * k && bounds@[i].0
                == chunk_lo(i as nat, k as nat, n as nat) && bounds@[i].1 == chunk_hi(
                i as nat,
                k as nat,
                n as nat,
            ) && bounds@[i].0 < bounds@[i].1 && bounds@[i].1 - bounds@[i].0 <= k,
{
    let mut bounds: Vec<(usize, usize)> = Vec::new();
    let mut lo: usize = 0;
    proof {
        assert(0 * k == 0) by (nonlinear_arith);
    }
    while lo < n
        invariant
            k > 0,
            lo <= n,
            lo == chunk_lo(bounds@.len(), k as nat, n as nat),
            bounds@.len() == 0 || (bounds@.len() - 1) * k < n,
            forall|i: int|
                0 <= i < bounds@.len() ==> (#[trigger] bounds@[i]).0 == i * k && bounds@[i].0
                    == chunk_lo(i as nat, k as nat, n as nat) && bounds@[i].1 == chunk_hi(
                    i as nat,
                    k as nat,
                    n as nat,
                ) && bounds@[i].0 < bounds@[i].1 && bounds@[i].1 - bounds@[i].0 <= k,
        decreases n - lo,
    {
        let ghost m = bounds@.len();
        let hi: usize = if n - lo > k {
            lo + k
        } else {
            n
        };
        proof {
            assert(lo == m * k);
            assert((m + 1) * k == m * k + k) by (nonlinear_arith);
            assert(hi == chunk_hi(m, k as nat, n as nat));
        }
        bounds.push((lo, hi));
        lo = hi;
    }
    proof {
        let m = bounds@.len();
        assert(n <= m * k);
        lemma_chunk_count_unique(n as nat, k as nat, m);
    }
    bounds
}

/// The first `m` chunks, put together, are the first `m * k` items.
proof fn lemma_concat_chunks_prefix<T>(s: Seq<T>, k: nat, m: nat)
    requires
        k > 0,
    ensures
        concat_chunks(s, k, m) == s.subrange(0, chunk_lo(m, k, s.len()) as int),
    decreases m,
{
    if m == 0 {
        assert(0 * k == 0) by (nonlinear_arith);
        assert(concat_chunks(s, k, m) =~= s.subrange(0, 0));
    } else {
        let p = (m - 1) as nat;
        lemma_concat_chunks_prefix(s, k, p);
        assert(p * k <= m * k) by (nonlinear_arith)
            requires
                p <= m,
        ;
        assert(concat_chunks(s, k, m) =~= s.subrange(0, chunk_lo(m, k, s.len()) as int));
    }
}

/// Cutting a list into chunks of size `k` gives `len / k`, rounded up,
/// chunks; each holds at least one and at most `k` items; and the chunks put
/// together in order are the list again.
pub proof fn lemma_chunks_partition<T>(s: Seq<T>, k: nat)
    requires
        k > 0,
    ensures
        concat_chunks(s, k, chunk_count(s.len(), k)) == s,
        forall|i: nat|
            i < chunk_count(s.len(), k) ==> 0 < (#[trigger] chunk_of(s, k, i)).len() <= k,
        forall|i: nat|
            i + 1 < chunk_count(s.len(), k) ==> (#[trigger] chunk_of(s, k, i)).len() == k,
{
    let n = s.len();
    let q = chunk_count(n, k);
    lemma_chunk_count_bounds(n, k);
    lemma_concat_chunks_prefix(s, k, q);
    assert(s.subrange(0, n as int) =~= s);
    assert forall|i: nat| i < q implies 0 < (#[trigger] chunk_of(s, k, i)).len() <= k by {
        assert(i * k <= (q - 1) * k && (i + 1) * k == i * k + k) by (nonlinear_arith)
            requires
                i <= q - 1,
        ;
    }
    assert forall|i: nat| i + 1 < q implies (#[trigger] chunk_of(s, k, i)).len() == k by {
        assert((i + 1) * k <= (q - 1) * k && (i + 1) * k == i * k + k && i * k >= 0)
            by (nonlinear_arith)
            requires
                i + 1 <= q - 1,
                k > 0,
        ;
    }
}

} // verus!
