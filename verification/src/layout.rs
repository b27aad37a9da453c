//! Index arithmetic for the grouped-query attention layout, and the
//! causal visibility rule.
//!
//! Attention scores live in a buffer shaped
//! `[n_kv_heads, n_groups, seq_len, total_seq_len]`: each of the
//! `n_kv_heads` key/value heads serves `n_groups` consecutive query
//! heads. Query, key, value and output rows are flat with one
//! `head_dim`-wide segment per head. A query at position `q` of the
//! current window may attend exactly to key positions
//! `0 ..= total_seq_len - seq_len + q`.

use vstd::prelude::*;

verus! {

/// A two-level flat index stays inside the combined bound.
proof fn lemma_flat_index(a: int, b: int, c: int, d: int)
    by (nonlinear_arith)
    requires
        0 <= a < b,
        0 <= c < d,
    ensures
        0 <= a * d + c < b * d,
{
}

/// Multiplying a non-negative quantity by a factor of at least one never
/// shrinks it.
proof fn lemma_grow(a: int, s: int)
    by (nonlinear_arith)
    requires
        0 <= a,
        1 <= s,
    ensures
        a <= a * s,
{
}

/// The flat position of one attention score in the buffer shaped
/// `[n_kv_heads, n_groups, seq_len, total_seq_len]`.
pub open spec fn spec_att_index(
    n_groups: int,
    seq_len: int,
    total_seq_len: int,
    kv_head: int,
    group: int,
    q: int,
    key: int,
) -> int {
    ((kv_head * n_groups + group) * seq_len + q) * total_seq_len + key
}

/// The attention head that key/value head `kv_head` lends to query group
/// `group`: the heads of one key/value head are consecutive.
pub open spec fn spec_fused_head(n_groups: int, kv_head: int, group: int) -> int {
    kv_head * n_groups + group
}

/// The attention head serving query group `group` of key/value head
/// `kv_head`; always below `n_kv_heads * n_groups`.
pub fn fused_head(n_kv_heads: usize, n_groups: usize, kv_head: usize, group: usize) -> (h: usize)
    requires
        kv_head < n_kv_heads,
        group < n_groups,
        n_kv_heads * n_groups <= usize::MAX,
    ensures
        h == spec_fused_head(n_groups as int, kv_head as int, group as int),
        h < n_kv_heads * n_groups,
{
    proof {
        lemma_flat_index(kv_head as int, n_kv_heads as int, group as int, n_groups as int);
    }
    kv_head * n_groups + group
}

/// The flat position of the score of (key/value head, query group,
/// query position, key position) in the attention score buffer; always
/// inside the buffer.
pub fn att_score_index(
    n_kv_heads: usize,
    n_groups: usize,
    seq_len: usize,
    total_seq_len: usize,
    kv_head: usize,
    group: usize,
    q: usize,
    key: usize,
) -> (idx: usize)
    requires
        kv_head < n_kv_heads,
        group < n_groups,
        q < seq_len,
        key < total_seq_len,
        ((n_kv_heads * n_groups) * seq_len) * total_seq_len <= usize::MAX,
    ensures
        idx == spec_att_index(
            n_groups as int,
            seq_len as int,
            total_seq_len as int,
            kv_head as int,
            group as int,
            q as int,
            key as int,
        ),
        idx < ((n_kv_heads * n_groups) * seq_len) * total_seq_len,
{
    proof {
        lemma_flat_index(kv_head as int, n_kv_heads as int, group as int, n_groups as int);
        lemma_flat_index(
            kv_head as int * n_groups as int + group as int,
            n_kv_heads as int * n_groups as int,
            q as int,
            seq_len as int,
        );
        lemma_flat_index(
            (kv_head as int * n_groups as int + group as int) * seq_len as int + q as int,
            (n_kv_heads as int * n_groups as int) * seq_len as int,
            key as int,
            total_seq_len as int,
        );
        lemma_grow((n_kv_heads as int * n_groups as int) * seq_len as int, total_seq_len as int);
        lemma_grow(n_kv_heads as int * n_groups as int, seq_len as int);
    }
    ((kv_head * n_groups + group) * seq_len + q) * total_seq_len + key
}

/// A flat two-level index determines its parts: positions with the
/// same flat value have the same row and the same column.
proof fn lemma_flat_index_unique(a1: int, c1: int, a2: int, c2: int, d: int)
    by (nonlinear_arith)
    requires
        0 <= a1,
        0 <= a2,
        0 <= c1 < d,
        0 <= c2 < d,
        a1 * d + c1 == a2 * d + c2,
    ensures
        a1 == a2,
        c1 == c2,
{
}

/// Distinct scores never share a cell: the attention score layout is
/// injective, so no two (key/value head, query group, query position,
/// key position) tuples overlap in the buffer.
pub proof fn lemma_att_index_injective(
    n_groups: int,
    seq_len: int,
    total_seq_len: int,
    kv1: int,
    g1: int,
    q1: int,
    k1: int,
    kv2: int,
    g2: int,
    q2: int,
    k2: int,
)
    requires
        0 <= kv1,
        0 <= kv2,
        0 <= g1 < n_groups,
        0 <= g2 < n_groups,
        0 <= q1 < seq_len,
        0 <= q2 < seq_len,
        0 <= k1 < total_seq_len,
        0 <= k2 < total_seq_len,
        spec_att_index(n_groups, seq_len, total_seq_len, kv1, g1, q1, k1) == spec_att_index(
            n_groups,
            seq_len,
            total_seq_len,
            kv2,
            g2,
            q2,
            k2,
        ),
    ensures
        kv1 == kv2,
        g1 == g2,
        q1 == q2,
        k1 == k2,
{
    let h1 = kv1 * n_groups + g1;
    let h2 = kv2 * n_groups + g2;
    assert(0 <= kv1 * n_groups + g1 && 0 <= kv2 * n_groups + g2) by (nonlinear_arith)
        requires
            0 <= kv1,
            0 <= kv2,
            0 <= g1,
            0 <= g2,
            0 < n_groups,
    ;
    let r1 = h1 * seq_len + q1;
    let r2 = h2 * seq_len + q2;
    assert(0 <= h1 * seq_len + q1 && 0 <= h2 * seq_len + q2) by (nonlinear_arith)
        requires
            0 <= h1,
            0 <= h2,
            0 <= q1,
            0 <= q2,
            0 < seq_len,
    ;
    lemma_flat_index_unique(r1, k1, r2, k2, total_seq_len);
    lemma_flat_index_unique(h1, q1, h2, q2, seq_len);
    lemma_flat_index_unique(kv1, g1, kv2, g2, n_groups);
}

/// The flat position of feature `e` of head `head` in row `row` of a
/// buffer whose rows hold `n_heads` segments of `head_dim` entries.
pub open spec fn spec_head_elem_index(
    n_heads: int,
    head_dim: int,
    row: int,
    head: int,
    e: int,
) -> int {
    (row * n_heads + head) * head_dim + e
}

/// The flat position of feature `e` of head `head` in row `row`; always
/// below `(n_rows * n_heads) * head_dim`.
pub fn head_elem_index(
    n_rows: usize,
    n_heads: usize,
    head_dim: usize,
    row: usize,
    head: usize,
    e: usize,
) -> (idx: usize)
    requires
        row < n_rows,
        head < n_heads,
        e < head_dim,
        (n_rows * n_heads) * head_dim <= usize::MAX,
    ensures
        idx == spec_head_elem_index(n_heads as int, head_dim as int, row as int, head as int, e as int),
        idx < (n_rows * n_heads) * head_dim,
{
    proof {
        lemma_flat_index(row as int, n_rows as int, head as int, n_heads as int);
        lemma_flat_index(
            row as int * n_heads as int + head as int,
            n_rows as int * n_heads as int,
            e as int,
            head_dim as int,
        );
        lemma_grow(n_rows as int * n_heads as int, head_dim as int);
    }
    (row * n_heads + head) * head_dim + e
}

/// How many key positions the query at window position `q` may attend
/// to: those up to its own absolute position, `total_seq_len - seq_len
/// + q`, inclusive.
pub open spec fn spec_visible_len(seq_len: int, total_seq_len: int, q: int) -> int {
    total_seq_len - seq_len + q + 1
}

/// The number of causally visible key positions for the query at window
/// position `q`; at least one and at most `total_seq_len`.
pub fn visible_len(seq_len: usize, total_seq_len: usize, q: usize) -> (n: usize)
    requires
        seq_len <= total_seq_len,
        q < seq_len,
    ensures
        n == spec_visible_len(seq_len as int, total_seq_len as int, q as int),
        1 <= n <= total_seq_len,
{
    total_seq_len - seq_len + q + 1
}

/// Whether the query at window position `q` may attend to key position
/// `key`: exactly the positions below its visible length. Positions at
/// or beyond it are masked and must receive exactly zero probability.
pub fn is_causally_visible(seq_len: usize, total_seq_len: usize, q: usize, key: usize) -> (r: bool)
    requires
        seq_len <= total_seq_len,
        q < seq_len,
        key < total_seq_len,
    ensures
        r <==> key < spec_visible_len(seq_len as int, total_seq_len as int, q as int),
{
    key < total_seq_len - seq_len + q + 1
}

/// The two storage positions that rotary embedding rotates together for
/// pair `pair` of one head's feature vector: the adjacent elements
/// `2 * pair` and `2 * pair + 1`. The same convention must serve the
/// query and the key projections.
pub fn rope_pair_indices(head_dim: usize, pair: usize) -> (r: (usize, usize))
    requires
        2 * pair + 1 < head_dim,
    ensures
        r.0 == 2 * pair,
        r.1 == 2 * pair + 1,
        r.1 < head_dim,
{
    (2 * pair, 2 * pair + 1)
}

} // verus!
