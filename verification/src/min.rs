use vstd::prelude::*;

use crate::folds::{lemma_min_range_split, min2, min_range, spec_min};

verus! {

/// The balanced pairwise merge of eight minima: neighbours first, then the
/// four partial results, then the last two.
pub open spec fn min8(
    a1: int,
    a2: int,
    a3: int,
    a4: int,
    a5: int,
    a6: int,
    a7: int,
    a8: int,
) -> int {
    min2(min2(min2(a1, a2), min2(a3, a4)), min2(min2(a5, a6), min2(a7, a8)))
}

/// The smaller of two carrier values.
fn min_i64(a: i64, b: i64) -> (r: i64)
    ensures
        r as int == min2(a as int, b as int),
{
    if a <= b {
        a
    } else {
        b
    }
}

/// One lane of the 512-bit backend layout: the minimum of sixteen
/// consecutive elements, the model of one wide register minimum.
fn min_lane16(arr: &[i64], base: usize) -> (r: i64)
    requires
        base + 16 <= arr@.len(),
    ensures
        r as int == min_range(arr@, base as int, base as int + 16),
{
    let n = arr.len();
    let mut cur: i64 = i64::MAX;
    let mut j: usize = 0;
    while j < 16
        invariant
            j <= 16,
            n == arr@.len(),
            base + 16 <= n,
            cur as int == min_range(arr@, base as int, base as int + j as int),
        decreases 16 - j,
    {
        cur = min_i64(cur, arr[base + j]);
        j = j + 1;
    }
    cur
}

/// A 128-element block's minimum splits into the pairwise merge of its
/// eight lane minima.
proof fn lemma_min_block128(x: Seq<i64>, o: int)
    requires
        0 <= o,
        o + 128 <= x.len(),
    ensures
        min_range(x, o, o + 128) == min8(
            min_range(x, o, o + 16),
            min_range(x, o + 16, o + 32),
            min_range(x, o + 32, o + 48),
            min_range(x, o + 48, o + 64),
            min_range(x, o + 64, o + 80),
            min_range(x, o + 80, o + 96),
            min_range(x, o + 96, o + 112),
            min_range(x, o + 112, o + 128),
        ),
{
    lemma_min_range_split(x, o, o + 16, o + 128);
    lemma_min_range_split(x, o + 16, o + 32, o + 128);
    lemma_min_range_split(x, o + 32, o + 48, o + 128);
    lemma_min_range_split(x, o + 48, o + 64, o + 128);
    lemma_min_range_split(x, o + 64, o + 80, o + 128);
    lemma_min_range_split(x, o + 80, o + 96, o + 128);
    lemma_min_range_split(x, o + 96, o + 112, o + 128);
}

/// Merges the eight minimum accumulators into one value with the balanced
/// pairwise tree, then the final scalar is the whole reduction's result.
fn rollup_min_acc(
    acc1: i64,
    acc2: i64,
    acc3: i64,
    acc4: i64,
    acc5: i64,
    acc6: i64,
    acc7: i64,
    acc8: i64,
) -> (r: i64)
    ensures
        r as int == min8(
            acc1 as int,
            acc2 as int,
            acc3 as int,
            acc4 as int,
            acc5 as int,
            acc6 as int,
            acc7 as int,
            acc8 as int,
        ),
{
    let m1 = min_i64(acc1, acc2);
    let m3 = min_i64(acc3, acc4);
    let m5 = min_i64(acc5, acc6);
    let m7 = min_i64(acc7, acc8);

    let n1 = min_i64(m1, m3);
    let n5 = min_i64(m5, m7);

    min_i64(n1, n5)
}

/// Computes the horizontal minimum of a vector whose length `DIMS` is a
/// multiple of 128, with the 512-bit backend layout: 128-element blocks,
/// eight sixteen-wide lanes per block, each lane folded into its own
/// accumulator, merged once at the very end. An empty vector yields the
/// carrier's greatest value, the model of the floating-point
/// positive-infinity identity.
#[verifier::rlimit(60)]
pub fn xconst_avx512_min_horizontal<const DIMS: usize>(arr: &[i64]) -> (r: i64)
    requires
        arr@.len() == DIMS,
        DIMS % 128 == 0,
    ensures
        r as int == spec_min(arr@),
{
    let mut acc1: i64 = i64::MAX;
    let mut acc2: i64 = i64::MAX;
    let mut acc3: i64 = i64::MAX;
    let mut acc4: i64 = i64::MAX;
    let mut acc5: i64 = i64::MAX;
    let mut acc6: i64 = i64::MAX;
    let mut acc7: i64 = i64::MAX;
    let mut acc8: i64 = i64::MAX;

    let mut i: usize = 0;
    while i < DIMS
        invariant
            i <= DIMS,
            (DIMS - i) % 128 == 0,
            arr@.len() == DIMS,
            min8(
                acc1 as int,
                acc2 as int,
                acc3 as int,
                acc4 as int,
                acc5 as int,
                acc6 as int,
                acc7 as int,
                acc8 as int,
            ) == min_range(arr@, 0, i as int),
        decreases DIMS - i,
    {
        proof {
            lemma_min_range_split(arr@, 0, i as int, i as int + 128);
            lemma_min_block128(arr@, i as int);
        }
        acc1 = min_i64(acc1, min_lane16(arr, i));
        acc2 = min_i64(acc2, min_lane16(arr, i + 16));
        acc3 = min_i64(acc3, min_lane16(arr, i + 32));
        acc4 = min_i64(acc4, min_lane16(arr, i + 48));
        acc5 = min_i64(acc5, min_lane16(arr, i + 64));
        acc6 = min_i64(acc6, min_lane16(arr, i + 80));
        acc7 = min_i64(acc7, min_lane16(arr, i + 96));
        acc8 = min_i64(acc8, min_lane16(arr, i + 112));
        i = i + 128;
    }

    rollup_min_acc(acc1, acc2, acc3, acc4, acc5, acc6, acc7, acc8)
}

/// Computes the horizontal minimum of a vector of any length with the
/// 512-bit backend layout: the leading `len % 128` elements are folded into
/// the first accumulator one by one, then the rest is consumed in
/// 128-element blocks as in the fixed-length kernel. An empty vector yields
/// the carrier's greatest value.
#[verifier::rlimit(60)]
pub fn xany_avx512_min_horizontal(arr: &[i64]) -> (r: i64)
    ensures
        r as int == spec_min(arr@),
{
    let dims = arr.len();

    let mut acc1: i64 = i64::MAX;
    let mut acc2: i64 = i64::MAX;
    let mut acc3: i64 = i64::MAX;
    let mut acc4: i64 = i64::MAX;
    let mut acc5: i64 = i64::MAX;
    let mut acc6: i64 = i64::MAX;
    let mut acc7: i64 = i64::MAX;
    let mut acc8: i64 = i64::MAX;

    let mut offset_from = dims % 128;
    if offset_from != 0 {
        let mut i: usize = 0;
        while i < offset_from
            invariant
                i <= offset_from,
                offset_from <= dims,
                arr@.len() == dims,
                acc2 == i64::MAX,
                acc3 == i64::MAX,
                acc4 == i64::MAX,
                acc5 == i64::MAX,
                acc6 == i64::MAX,
                acc7 == i64::MAX,
                acc8 == i64::MAX,
                acc1 as int == min_range(arr@, 0, i as int),
            decreases offset_from - i,
        {
            acc1 = min_i64(acc1, arr[i]);
            i = i + 1;
        }
    }

    while offset_from < dims
        invariant
            offset_from <= dims,
            (dims - offset_from) % 128 == 0,
            arr@.len() == dims,
            min8(
                acc1 as int,
                acc2 as int,
                acc3 as int,
                acc4 as int,
                acc5 as int,
                acc6 as int,
                acc7 as int,
                acc8 as int,
            ) == min_range(arr@, 0, offset_from as int),
        decreases dims - offset_from,
    {
        proof {
            lemma_min_range_split(arr@, 0, offset_from as int, offset_from as int + 128);
            lemma_min_block128(arr@, offset_from as int);
        }
        acc1 = min_i64(acc1, min_lane16(arr, offset_from));
        acc2 = min_i64(acc2, min_lane16(arr, offset_from + 16));
        acc3 = min_i64(acc3, min_lane16(arr, offset_from + 32));
        acc4 = min_i64(acc4, min_lane16(arr, offset_from + 48));
        acc5 = min_i64(acc5, min_lane16(arr, offset_from + 64));
        acc6 = min_i64(acc6, min_lane16(arr, offset_from + 80));
        acc7 = min_i64(acc7, min_lane16(arr, offset_from + 96));
        acc8 = min_i64(acc8, min_lane16(arr, offset_from + 112));
        offset_from = offset_from + 128;
    }

    rollup_min_acc(acc1, acc2, acc3, acc4, acc5, acc6, acc7, acc8)
}

/// Minimum of column `j` over the rows `a..b` of a matrix, starting from
/// the carrier's greatest value.
pub open spec fn col_min_range(rows: Seq<Vec<i64>>, j: int, a: int, b: int) -> int
    decreases b - a,
{
    if b <= a {
        i64::MAX as int
    } else {
        min2(col_min_range(rows, j, a, b - 1), rows[b - 1]@[j] as int)
    }
}

/// The element-wise minimum of column `j` across all rows of a matrix.
pub open spec fn spec_col_min(rows: Seq<Vec<i64>>, j: int) -> int {
    col_min_range(rows, j, 0, rows.len() as int)
}

/// All rows of the matrix have width `dims`.
pub open spec fn uniform_rows(rows: Seq<Vec<i64>>, dims: int) -> bool {
    forall|m: int| 0 <= m < rows.len() ==> (#[trigger] rows[m])@.len() == dims
}

/// The minimum of column `j` folded row by row, the portable fallback the
/// remainder columns of the vertical kernel go through.
fn col_fold_min(matrix: &[Vec<i64>], j: usize, Ghost(dims): Ghost<int>) -> (r: i64)
    requires
        uniform_rows(matrix@, dims),
        0 <= j < dims,
    ensures
        r as int == spec_col_min(matrix@, j as int),
{
    let rows = matrix.len();
    let mut cur: i64 = i64::MAX;
    let mut m: usize = 0;
    while m < rows
        invariant
            m <= rows,
            rows == matrix@.len(),
            uniform_rows(matrix@, dims),
            0 <= j < dims,
            cur as int == col_min_range(matrix@, j as int, 0, m as int),
        decreases rows - m,
    {
        let row = &matrix[m];
        cur = min_i64(cur, row[j]);
        m = m + 1;
    }
    cur
}

/// One 128-column block of the vertical minimum: eight sixteen-wide lanes
/// (modelled as 128 per-column accumulators) held across the whole row
/// sweep, then handed back to be spilled into the output buffer at the
/// block's offsets.
fn min_vertical_block(matrix: &[Vec<i64>], i: usize, Ghost(dims): Ghost<int>) -> (acc: Vec<i64>)
    requires
        uniform_rows(matrix@, dims),
        i + 128 <= dims,
    ensures
        acc@.len() == 128,
        forall|t: int|
            0 <= t < 128 ==> #[trigger] acc@[t] as int == spec_col_min(matrix@, i as int + t),
{
    let rows = matrix.len();
    let mut acc: Vec<i64> = Vec::new();
    let mut t: usize = 0;
    while t < 128
        invariant
            t <= 128,
            acc@.len() == t,
            forall|s: int| 0 <= s < t ==> #[trigger] acc@[s] == i64::MAX,
        decreases 128 - t,
    {
        acc.push(i64::MAX);
        t = t + 1;
    }

    let mut m: usize = 0;
    while m < rows
        invariant
            m <= rows,
            rows == matrix@.len(),
            uniform_rows(matrix@, dims),
            i + 128 <= dims,
            acc@.len() == 128,
            forall|s: int|
                0 <= s < 128 ==> #[trigger] acc@[s] as int == col_min_range(
                    matrix@,
                    i as int + s,
                    0,
                    m as int,
                ),
        decreases rows - m,
    {
        let row = &matrix[m];
        let row_len = row.len();
        let mut t: usize = 0;
        while t < 128
            invariant
                t <= 128,
                m < rows,
                rows == matrix@.len(),
                uniform_rows(matrix@, dims),
                i + 128 <= dims,
                row == matrix@[m as int],
                row_len as int == dims,
                acc@.len() == 128,
                forall|s: int|
                    0 <= s < t as int ==> #[trigger] acc@[s] as int == col_min_range(
                        matrix@,
                        i as int + s,
                        0,
                        m as int + 1,
                    ),
                forall|s: int|
                    t as int <= s < 128 ==> #[trigger] acc@[s] as int == col_min_range(
                        matrix@,
                        i as int + s,
                        0,
                        m as int,
                    ),
            decreases 128 - t,
        {
            let merged = min_i64(acc[t], row[i + t]);
            acc.set(t, merged);
            t = t + 1;
        }
        m = m + 1;
    }

    acc
}

/// Computes the vertical (element-wise, across rows) minimum of a matrix
/// whose width `DIMS` is a multiple of 128, with the 512-bit backend
/// layout: 128 columns at a time, the whole row sweep per block, then the
/// block's accumulators spilled to the output buffer. With no rows every
/// column yields the carrier's greatest value.
pub fn xconst_avx512_min_vertical<const DIMS: usize>(matrix: &[Vec<i64>]) -> (r: Vec<i64>)
    requires
        DIMS % 128 == 0,
        uniform_rows(matrix@, DIMS as int),
    ensures
        r@.len() == DIMS,
        forall|j: int| 0 <= j < DIMS ==> #[trigger] r@[j] as int == spec_col_min(matrix@, j),
{
    let mut min_values: Vec<i64> = Vec::new();

    let mut i: usize = 0;
    while i < DIMS
        invariant
            i <= DIMS,
            (DIMS - i) % 128 == 0,
            uniform_rows(matrix@, DIMS as int),
            min_values@.len() == i,
            forall|j: int|
                0 <= j < i as int ==> #[trigger] min_values@[j] as int == spec_col_min(matrix@, j),
        decreases DIMS - i,
    {
        let acc = min_vertical_block(matrix, i, Ghost(DIMS as int));
        let mut t: usize = 0;
        while t < 128
            invariant
                t <= 128,
                i + 128 <= DIMS,
                acc@.len() == 128,
                forall|s: int|
                    0 <= s < 128 ==> #[trigger] acc@[s] as int == spec_col_min(
                        matrix@,
                        i as int + s,
                    ),
                min_values@.len() == i + t,
                uniform_rows(matrix@, DIMS as int),
                forall|j: int|
                    0 <= j < (i + t) as int ==> #[trigger] min_values@[j] as int == spec_col_min(
                        matrix@,
                        j,
                    ),
            decreases 128 - t,
        {
            min_values.push(acc[t]);
            t = t + 1;
        }
        i = i + 128;
    }

    min_values
}

/// Computes the vertical (element-wise, across rows) minimum of a matrix
/// of any uniform width, with the 512-bit backend layout: the leading
/// `width % 128` columns are folded row by row through the portable path,
/// then the rest is consumed in 128-column blocks as in the fixed-width
/// kernel.
///
/// The remainder phase runs exactly when `width % 128` is nonzero, the
/// same guard the horizontal kernel uses. A guard that instead compares
/// the remainder against the block size admits the same behaviour, since
/// the remainder is always below it; this kernel keeps the symmetric form.
pub fn xany_avx512_min_vertical(matrix: &[Vec<i64>]) -> (r: Vec<i64>)
    requires
        matrix@.len() >= 1,
        uniform_rows(matrix@, matrix@[0]@.len() as int),
    ensures
        r@.len() == matrix@[0]@.len(),
        forall|j: int|
            0 <= j < matrix@[0]@.len() ==> #[trigger] r@[j] as int == spec_col_min(matrix@, j),
{
    let first = &matrix[0];
    let dims = first.len();
    let mut min_values: Vec<i64> = Vec::new();
    let mut offset_from = dims % 128;

    if offset_from != 0 {
        let mut j: usize = 0;
        while j < offset_from
            invariant
                j <= offset_from,
                offset_from <= dims,
                dims == matrix@[0]@.len(),
                matrix@.len() >= 1,
                uniform_rows(matrix@, dims as int),
                min_values@.len() == j,
                forall|c: int|
                    0 <= c < j as int ==> #[trigger] min_values@[c] as int == spec_col_min(
                        matrix@,
                        c,
                    ),
            decreases offset_from - j,
        {
            let folded = col_fold_min(matrix, j, Ghost(dims as int));
            min_values.push(folded);
            j = j + 1;
        }
    }

    while offset_from < dims
        invariant
            offset_from <= dims,
            (dims - offset_from) % 128 == 0,
            dims == matrix@[0]@.len(),
            matrix@.len() >= 1,
            uniform_rows(matrix@, dims as int),
            min_values@.len() == offset_from,
            forall|c: int|
                0 <= c < offset_from as int ==> #[trigger] min_values@[c] as int == spec_col_min(
                    matrix@,
                    c,
                ),
        decreases dims - offset_from,
    {
        let acc = min_vertical_block(matrix, offset_from, Ghost(dims as int));
        let mut t: usize = 0;
        while t < 128
            invariant
                t <= 128,
                offset_from + 128 <= dims,
                dims == matrix@[0]@.len(),
                matrix@.len() >= 1,
                acc@.len() == 128,
                forall|s: int|
                    0 <= s < 128 ==> #[trigger] acc@[s] as int == spec_col_min(
                        matrix@,
                        offset_from as int + s,
                    ),
                min_values@.len() == offset_from + t,
                uniform_rows(matrix@, dims as int),
                forall|c: int|
                    0 <= c < (offset_from + t) as int ==> #[trigger] min_values@[c] as int
                        == spec_col_min(matrix@, c),
            decreases 128 - t,
        {
            min_values.push(acc[t]);
            t = t + 1;
        }
        offset_from = offset_from + 128;
    }

    min_values
}

} // verus!
