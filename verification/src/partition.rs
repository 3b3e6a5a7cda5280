use vstd::prelude::*;
use vstd::arithmetic::div_mod::{
    lemma_div_by_multiple, lemma_div_is_ordered, lemma_div_of0, lemma_div_pos_is_pos,
    lemma_fundamental_div_mod, lemma_mod_division_less_than_divisor,
};
use vstd::arithmetic::mul::{
    lemma_mul_inequality, lemma_mul_is_commutative, lemma_mul_nonnegative, lemma_mul_upper_bound,
};

verus! {

/// A contiguous half-open interval of linear pixel indices, stored as an
/// inclusive start and an exclusive end, each decomposed into 2D
/// coordinates. The linear index of the pixel at column `x`, row `y` is
/// `x + y * width`; that conversion is the sole addressing scheme shared
/// between the partitioner and the workers.
#[derive(Clone, Copy, PartialEq, Eq, Structural, Debug)]
pub struct PixelRange {
    pub start_x: usize,
    pub start_y: usize,
    pub end_x: usize,
    pub end_y: usize,
}

/// The linear index of the pixel at column `x`, row `y` of an image
/// `width` pixels wide.
pub open spec fn lin(x: int, y: int, width: int) -> int {
    x + y * width
}

impl PixelRange {
    /// The first linear index covered by this range.
    pub open spec fn start_lin(self, width: int) -> int {
        lin(self.start_x as int, self.start_y as int, width)
    }

    /// The first linear index past this range.
    pub open spec fn end_lin(self, width: int) -> int {
        lin(self.end_x as int, self.end_y as int, width)
    }

    /// Whether linear pixel index `p` falls in this range.
    pub open spec fn contains(self, width: int, p: int) -> bool {
        self.start_lin(width) <= p < self.end_lin(width)
    }

    /// How many pixels this range covers.
    pub open spec fn size(self, width: int) -> int {
        self.end_lin(width) - self.start_lin(width)
    }

    /// Well-formedness over an image of the given dimensions: both
    /// coordinates are canonical decompositions of linear indices, and the
    /// interval lies inside `[0, width * height]`.
    pub open spec fn wf(self, width: int, height: int) -> bool {
        &&& self.start_x < width
        &&& self.end_x < width
        &&& 0 <= self.start_lin(width)
        &&& self.start_lin(width) <= self.end_lin(width)
        &&& self.end_lin(width) <= width * height
    }
}

/// The first linear pixel index of worker `i`'s slice when `total` pixels
/// are split proportionally among `count` workers: `floor(total * i / count)`.
/// Worker `i` covers `[slice_lo(total, count, i), slice_lo(total, count, i + 1))`.
pub open spec fn slice_lo(total: int, count: int, i: int) -> int
    recommends
        count >= 1,
{
    total * i / count
}

/// Slice boundaries grow with the worker index, so slices never overlap.
pub proof fn lemma_slice_lo_monotone(total: int, count: int, i: int, j: int)
    requires
        count >= 1,
        0 <= total,
        0 <= i <= j,
    ensures
        slice_lo(total, count, i) <= slice_lo(total, count, j),
{
    lemma_mul_inequality(i, j, total);
    lemma_mul_is_commutative(i, total);
    lemma_mul_is_commutative(j, total);
    lemma_div_is_ordered(total * i, total * j, count);
}

/// The slice boundaries start at zero, end at `total`, and never leave
/// `[0, total]`: the slices tile exactly the full pixel index space.
pub proof fn lemma_slice_lo_bounds(total: int, count: int, i: int)
    requires
        count >= 1,
        0 <= total,
        0 <= i <= count,
    ensures
        0 <= slice_lo(total, count, i) <= total,
        slice_lo(total, count, 0) == 0,
        slice_lo(total, count, count) == total,
{
    lemma_div_of0(count);
    lemma_mul_nonnegative(total, i);
    lemma_div_pos_is_pos(total * i, count);
    lemma_div_by_multiple(total, count);
    lemma_slice_lo_monotone(total, count, i, count);
}

proof fn lemma_slice_find(total: int, count: int, p: int, j: int)
    requires
        count >= 1,
        0 <= p < total,
        0 <= j < count,
        slice_lo(total, count, j) <= p,
    ensures
        exists|i: int|
            0 <= i < count && #[trigger] slice_lo(total, count, i) <= p < slice_lo(
                total,
                count,
                i + 1,
            ),
    decreases count - j,
{
    if p < slice_lo(total, count, j + 1) {
        assert(0 <= j < count && slice_lo(total, count, j) <= p < slice_lo(total, count, j + 1));
    } else {
        lemma_slice_lo_bounds(total, count, count);
        assert(j + 1 < count) by {
            if j + 1 == count {
                assert(slice_lo(total, count, count) == total);
            }
        }
        lemma_slice_find(total, count, p, j + 1);
    }
}

/// Partition coverage: every linear pixel index below `total` falls in the
/// slice of some worker, so the union of all slices is exactly
/// `[0, total)` with no gaps.
pub proof fn lemma_partition_coverage(total: int, count: int, p: int)
    requires
        count >= 1,
        0 <= p < total,
    ensures
        exists|i: int|
            0 <= i < count && #[trigger] slice_lo(total, count, i) <= p < slice_lo(
                total,
                count,
                i + 1,
            ),
{
    lemma_slice_lo_bounds(total, count, 0);
    lemma_slice_find(total, count, p, 0);
}

/// Slices of two distinct workers never share a pixel.
pub proof fn lemma_partition_disjoint(total: int, count: int, i: int, j: int, p: int)
    requires
        count >= 1,
        0 <= total,
        0 <= i < count,
        0 <= j < count,
        i != j,
        slice_lo(total, count, i) <= p < slice_lo(total, count, i + 1),
    ensures
        !(slice_lo(total, count, j) <= p < slice_lo(total, count, j + 1)),
{
    if i < j {
        lemma_slice_lo_monotone(total, count, i + 1, j);
    } else {
        lemma_slice_lo_monotone(total, count, j + 1, i);
    }
}

/// Single-writer invariant: every linear pixel index below `total` falls in
/// the slice of exactly one worker.
pub proof fn lemma_single_writer(total: int, count: int, p: int)
    requires
        count >= 1,
        0 <= p < total,
    ensures
        exists|i: int|
            {
                &&& 0 <= i < count
                &&& #[trigger] slice_lo(total, count, i) <= p < slice_lo(total, count, i + 1)
                &&& forall|j: int|
                    0 <= j < count && j != i ==> !(#[trigger] slice_lo(total, count, j) <= p
                        < slice_lo(total, count, j + 1))
            },
{
    lemma_partition_coverage(total, count, p);
    let i = choose|i: int|
        0 <= i < count && #[trigger] slice_lo(total, count, i) <= p < slice_lo(total, count, i + 1);
    assert forall|j: int| 0 <= j < count && j != i implies !(#[trigger] slice_lo(total, count, j)
        <= p < slice_lo(total, count, j + 1)) by {
        lemma_partition_disjoint(total, count, i, j, p);
    }
}

/// Ordering of linear indices is lexicographic in `(row, column)` as long
/// as both columns lie inside the row width.
proof fn lemma_lin_lex(x1: int, y1: int, x2: int, y2: int, width: int)
    by (nonlinear_arith)
    requires
        width >= 1,
        0 <= x1 < width,
        0 <= x2 < width,
    ensures
        (x1 + y1 * width < x2 + y2 * width) <==> (y1 < y2 || (y1 == y2 && x1 < x2)),
{
}

exec fn slice_bound(total: usize, count: usize, i: usize) -> (r: usize)
    requires
        count >= 1,
        i <= count,
    ensures
        r == slice_lo(total as int, count as int, i as int),
        r <= total,
{
    proof {
        lemma_mul_upper_bound(total as int, u64::MAX as int, i as int, u64::MAX as int);
        lemma_slice_lo_bounds(total as int, count as int, i as int);
    }
    let wide: u128 = (total as u128) * (i as u128) / (count as u128);
    wide as usize
}

/// The half-open pixel range assigned to worker `worker_index` out of
/// `worker_count`: linear indices `[slice_lo(i), slice_lo(i + 1))`,
/// decomposed into canonical 2D coordinates. The same inputs always
/// produce the same range.
pub fn partition(width: usize, height: usize, worker_count: usize, worker_index: usize) -> (r:
    PixelRange)
    requires
        width >= 1,
        height >= 1,
        worker_count >= 1,
        worker_index < worker_count,
        width * height <= usize::MAX,
    ensures
        r.wf(width as int, height as int),
        r.start_lin(width as int) == slice_lo(
            (width * height) as int,
            worker_count as int,
            worker_index as int,
        ),
        r.end_lin(width as int) == slice_lo(
            (width * height) as int,
            worker_count as int,
            worker_index as int + 1,
        ),
{
    let total: usize = width * height;
    let s: usize = slice_bound(total, worker_count, worker_index);
    let e: usize = slice_bound(total, worker_count, worker_index + 1);
    let r = PixelRange {
        start_x: s % width,
        start_y: s / width,
        end_x: e % width,
        end_y: e / width,
    };
    proof {
        lemma_slice_lo_monotone(
            total as int,
            worker_count as int,
            worker_index as int,
            worker_index as int + 1,
        );
        lemma_mod_division_less_than_divisor(s as int, width as int);
        lemma_mod_division_less_than_divisor(e as int, width as int);
        lemma_fundamental_div_mod(s as int, width as int);
        lemma_fundamental_div_mod(e as int, width as int);
        lemma_mul_is_commutative(width as int, s as int / width as int);
        lemma_mul_is_commutative(width as int, e as int / width as int);
    }
    r
}

/// The columns a worker visits on row `y` of its range: the half-open span
/// `[s.0, s.1)`. A row strictly inside the range covers the full width;
/// the first row starts at the range's start column; the last row stops at
/// the range's end column. The span is exactly the set of columns whose
/// linear index falls in the range, which settles the row-boundary
/// arithmetic at row-aligned range ends.
pub fn row_span(r: &PixelRange, width: usize, y: usize) -> (s: (usize, usize))
    requires
        width >= 1,
        r.start_x < width,
        r.end_x < width,
        r.start_lin(width as int) <= r.end_lin(width as int),
    ensures
        s.0 <= s.1 <= width,
        forall|x: int|
            0 <= x < width ==> (s.0 <= x < s.1 <==> r.contains(
                width as int,
                lin(x, y as int, width as int),
            )),
{
    let span: (usize, usize) = if y < r.start_y || y > r.end_y {
        (0, 0)
    } else {
        let rs = if y == r.start_y {
            r.start_x
        } else {
            0
        };
        let re = if y == r.end_y {
            r.end_x
        } else {
            width
        };
        (rs, re)
    };
    proof {
        lemma_lin_lex(
            r.start_x as int,
            r.start_y as int,
            r.end_x as int,
            r.end_y as int,
            width as int,
        );
        assert forall|x: int| 0 <= x < width implies (span.0 <= x < span.1 <==> r.contains(
            width as int,
            lin(x, y as int, width as int),
        )) by {
            lemma_lin_lex(x, y as int, r.start_x as int, r.start_y as int, width as int);
            lemma_lin_lex(x, y as int, r.end_x as int, r.end_y as int, width as int);
        }
    }
    span
}

} // verus!
