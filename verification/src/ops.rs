//! The operators that need no arithmetic on the element type: the
//! embedding lookup, which moves table rows, and the sampling
//! truncation clamp.

use vstd::prelude::*;
use crate::tensor::Tensor;

verus! {

/// Entry `(row, col)` of a flat row-major buffer of `width`-wide rows.
pub open spec fn cell_at<T>(s: Seq<T>, width: int, row: int, col: int) -> T {
    s[row * width + col]
}

/// Clamps a requested top-k into `[1, vocab]`: a degenerate request
/// never fails, it falls back to the nearest sensible truncation.
pub fn clamp_top_k(top_k: u32, vocab: usize) -> (r: usize)
    requires
        vocab >= 1,
    ensures
        1 <= r <= vocab,
        (top_k as int) < 1 ==> r == 1,
        1 <= top_k as int <= vocab ==> r == top_k as int,
        (top_k as int) > vocab ==> r == vocab,
{
    if top_k < 1 {
        1
    } else if top_k as usize > vocab {
        vocab
    } else {
        top_k as usize
    }
}

/// Every id indexes a row of the table.
pub open spec fn ids_within(ids: Seq<u32>, rows: int) -> bool {
    forall|i: int| 0 <= i < ids.len() ==> ids[i] < rows
}

/// Checks that every id indexes a row of a table with `rows` rows.
pub fn ids_in_range(ids: &Tensor<u32>, rows: usize) -> (ok: bool)
    ensures
        ok <==> ids_within(ids.spec_data(), rows as int),
{
    let n = ids.size();
    let mut i: usize = 0;
    while i < n
        invariant
            i <= n,
            n == ids.spec_data().len(),
            forall|j: int| 0 <= j < i ==> ids.spec_data()[j] < rows,
        decreases n - i,
    {
        if *ids.get(i) as usize >= rows {
            return false;
        }
        i = i + 1;
    }
    true
}

/// Copies row `ids[i]` of the table into row `i` of the output, order
/// preserved: entry `(i, j)` of the output equals entry `(ids[i], j)`
/// of the table.
pub fn gather<T: Copy>(out: &mut Tensor<T>, ids: &Tensor<u32>, table: &Tensor<T>, width: usize)
    requires
        table.wf(),
        table.spec_shape().len() == 2,
        table.spec_shape()[1] == width,
        ids_within(ids.spec_data(), table.spec_shape()[0] as int),
        old(out).spec_data().len() == ids.spec_data().len() * width,
    ensures
        final(out).spec_shape() == old(out).spec_shape(),
        final(out).spec_data().len() == old(out).spec_data().len(),
        forall|i: int, j: int|
            0 <= i < ids.spec_data().len() && 0 <= j < width ==> #[trigger] cell_at(
                final(out).spec_data(),
                width as int,
                i,
                j,
            ) == cell_at(table.spec_data(), width as int, ids.spec_data()[i] as int, j),
{
    let n = ids.size();
    let out_len = out.size();
    let table_len = table.size();
    proof {
        crate::tensor::lemma_product_pair(table.spec_shape());
    }
    let ghost rows: int = table.spec_shape()[0] as int;
    let mut i: usize = 0;
    while i < n
        invariant
            i <= n,
            n == ids.spec_data().len(),
            out_len == out.spec_data().len(),
            out_len == n * width,
            table.wf(),
            table.spec_shape().len() == 2,
            table.spec_shape()[1] == width,
            rows == table.spec_shape()[0] as int,
            table_len == table.spec_data().len(),
            table_len == rows * width,
            ids_within(ids.spec_data(), rows),
            out.spec_shape() == old(out).spec_shape(),
            forall|a: int, b: int|
                0 <= a < i && 0 <= b < width ==> #[trigger] cell_at(
                    out.spec_data(),
                    width as int,
                    a,
                    b,
                ) == cell_at(table.spec_data(), width as int, ids.spec_data()[a] as int, b),
        decreases n - i,
    {
        let id = *ids.get(i) as usize;
        let mut j: usize = 0;
        while j < width
            invariant
                i < n,
                j <= width,
                n == ids.spec_data().len(),
                out_len == out.spec_data().len(),
                out_len == n * width,
                table.wf(),
                table.spec_shape().len() == 2,
                table.spec_shape()[1] == width,
                rows == table.spec_shape()[0] as int,
                table_len == table.spec_data().len(),
                table_len == rows * width,
                ids_within(ids.spec_data(), rows),
                id == ids.spec_data()[i as int],
                id < rows,
                out.spec_shape() == old(out).spec_shape(),
                forall|a: int, b: int|
                    0 <= a < i && 0 <= b < width ==> #[trigger] cell_at(
                        out.spec_data(),
                        width as int,
                        a,
                        b,
                    ) == cell_at(table.spec_data(), width as int, ids.spec_data()[a] as int, b),
                forall|b: int|
                    0 <= b < j ==> #[trigger] cell_at(out.spec_data(), width as int, i as int, b)
                        == cell_at(table.spec_data(), width as int, id as int, b),
            decreases width - j,
        {
            proof {
                lemma_row_cell(i as int, n as int, j as int, width as int);
                lemma_row_cell(id as int, rows, j as int, width as int);
            }
            let src = *table.get(id * width + j);
            let ghost before: Seq<T> = out.spec_data();
            out.set(i * width + j, src);
            proof {
                assert forall|a: int, b: int| 0 <= a < i && 0 <= b < width implies #[trigger] cell_at(
                    out.spec_data(),
                    width as int,
                    a,
                    b,
                ) == cell_at(before, width as int, a, b) by {
                    assert(a * width + b < i as int * width + j) by (nonlinear_arith)
                        requires
                            0 <= a < i,
                            0 <= b < width,
                            0 <= j,
                    ;
                }
                assert forall|b: int| 0 <= b < j implies #[trigger] cell_at(
                    out.spec_data(),
                    width as int,
                    i as int,
                    b,
                ) == cell_at(before, width as int, i as int, b) by {
                    assert(i as int * width + b != i as int * width + j);
                }
                assert(cell_at(out.spec_data(), width as int, i as int, j as int) == src);
            }
            j = j + 1;
        }
        i = i + 1;
    }
}

/// A cell of a row lies inside the row-major block of all rows.
proof fn lemma_row_cell(row: int, n_rows: int, col: int, width: int)
    by (nonlinear_arith)
    requires
        0 <= row < n_rows,
        0 <= col < width,
    ensures
        0 <= row * width + col < n_rows * width,
{
}

} // verus!
