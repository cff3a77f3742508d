//! The mathematical model of the layout.
//!
//! Every function here is a specification: contracts in `grid` state that
//! the executable code returns exactly what these functions describe, and
//! the lemmas in `laws` derive the layout's guarantees from them.
//!
//! Units: an aspect ratio is a whole number of millionths (`SCALE` of
//! them make a ratio of 1.0), heights are whole pixels, and widths are measured
//! in millionths of a pixel, so `height * ratio` is already a width.

use vstd::prelude::*;

use crate::grid::ImageGrid;
use crate::grid::ResizeError;

verus! {

/// Millionths in one unit: the denominator of the ratio fixed-point scale,
/// and the number of width units in one pixel.
pub const SCALE: u64 = 1_000_000;

/// Every ratio in the sequence is positive (at least one millionth).
pub open spec fn ratios_positive(ratios: Seq<u32>) -> bool {
    forall|i: int| 0 <= i < ratios.len() ==> ratios[i] >= 1
}

/// Sum of the ratios, in millionths.
pub open spec fn sum_ratios(ratios: Seq<u32>) -> int
    decreases ratios.len(),
{
    if ratios.len() == 0 {
        0
    } else {
        sum_ratios(ratios.drop_last()) + ratios.last()
    }
}

/// Total width of the items alone at height `height`: the sum of
/// `height * ratio` over the sequence, in millionths of a pixel.
pub open spec fn sum_item_widths(ratios: Seq<u32>, height: int) -> int
    decreases ratios.len(),
{
    if ratios.len() == 0 {
        0
    } else {
        sum_item_widths(ratios.drop_last(), height) + height * ratios.last()
    }
}

/// Width occupied by a row at height `height`, in millionths of a pixel:
/// every item scaled to the height, plus one gap between each pair of
/// adjacent items. An empty row occupies nothing.
pub open spec fn row_width(ratios: Seq<u32>, height: int, gap: int) -> int {
    if ratios.len() == 0 {
        0
    } else {
        sum_item_widths(ratios, height) + gap * (SCALE as int) * (ratios.len() - 1)
    }
}

/// Every item rendered at `height` is at least `min_item_width` pixels wide.
pub open spec fn items_wide_enough(ratios: Seq<u32>, height: int, min_item_width: int) -> bool {
    forall|i: int| 0 <= i < ratios.len() ==> height * ratios[i] >= min_item_width * (SCALE as int)
}

/// The guarded row width: the occupied width at `height`, unless some item
/// would fall below the minimum item width or the row would overflow the
/// available width.
pub open spec fn row_width_secure(grid: ImageGrid, ratios: Seq<u32>, height: int) -> Result<
    int,
    ResizeError,
> {
    if !items_wide_enough(ratios, height, grid.min_item_width as int) {
        Err(ResizeError::MinItemWidthOverload)
    } else if row_width(ratios, height, grid.gap as int) > (grid.available_width as int) * (SCALE as int) {
        Err(ResizeError::CanNotFitItems)
    } else {
        Ok(row_width(ratios, height, grid.gap as int))
    }
}

/// The height at which the row would occupy exactly the available width,
/// floored to a whole pixel: `(available_width - gaps) / sum(ratios)`.
/// When the gaps alone cover the container the ideal height is zero.
/// A target only: it ignores the height band and the minimum item width.
pub open spec fn ideal_height(grid: ImageGrid, ratios: Seq<u32>) -> int {
    let gaps = (grid.gap as int) * (ratios.len() - 1);
    if gaps >= grid.available_width as int {
        0
    } else {
        ((grid.available_width as int - gaps) * (SCALE as int)) / sum_ratios(ratios)
    }
}

/// Admissibility of one candidate height: inside the height band and
/// accepted by the guarded row width. On success, the slack — the width
/// left unused, in millionths of a pixel (never negative).
pub open spec fn may_fit(grid: ImageGrid, ratios: Seq<u32>, height: int) -> Result<
    int,
    ResizeError,
> {
    if height < grid.min_line_height as int {
        Err(ResizeError::LowerThanMinHeight)
    } else if height > grid.max_line_height as int {
        Err(ResizeError::BiggerThanMaxHeight)
    } else {
        match row_width_secure(grid, ratios, height) {
            Ok(width) => Ok((grid.available_width as int) * (SCALE as int) - width),
            Err(e) => Err(e),
        }
    }
}

/// Some admissible height exists among the three cheap candidates: the
/// minimum line height, the ideal height, and the maximum line height.
/// The height band is deliberately not applied to the candidates here.
pub open spec fn is_fittable(grid: ImageGrid, ratios: Seq<u32>) -> bool {
    row_width_secure(grid, ratios, grid.min_line_height as int) is Ok || row_width_secure(
        grid,
        ratios,
        ideal_height(grid, ratios),
    ) is Ok || row_width_secure(grid, ratios, grid.max_line_height as int) is Ok
}

/// One step of the height search, descending pixel by pixel from `height`.
/// `best` carries the tightest fit found so far as `(height, slack)`.
///
/// - Below the minimum line height the descent ends: the recorded best
///   height wins, or the search fails with `CanNotFitItems`.
/// - A fit whose slack exceeds the recorded best means the tightest fit
///   has been passed: the recorded height is returned.
/// - A fit at most as slack as the best (ties included) is recorded and
///   the descent continues, so equal slack prefers the lower height.
/// - A rejected height after a recorded fit ends the search with the
///   recorded height; before any fit the descent simply continues.
pub open spec fn best_height_from(
    grid: ImageGrid,
    ratios: Seq<u32>,
    height: int,
    best: Option<(int, int)>,
) -> Result<int, ResizeError>
    decreases height - grid.min_line_height + 1int,
{
    if height < grid.min_line_height as int {
        match best {
            Some(b) => Ok(b.0),
            None => Err(ResizeError::CanNotFitItems),
        }
    } else {
        match may_fit(grid, ratios, height) {
            Ok(slack) => match best {
                Some(b) => if slack > b.1 {
                    Ok(b.0)
                } else {
                    best_height_from(grid, ratios, height - 1, Some((height, slack)))
                },
                None => best_height_from(grid, ratios, height - 1, Some((height, slack))),
            },
            Err(e) => match best {
                Some(b) => Ok(b.0),
                None => best_height_from(grid, ratios, height - 1, None),
            },
        }
    }
}

/// The height search: descend whole pixels from the ideal height (capped
/// at the maximum line height) and return the highest height whose fit is
/// at least as tight as any lower height tried.
pub open spec fn best_height(grid: ImageGrid, ratios: Seq<u32>) -> Result<int, ResizeError> {
    if ratios.len() == 0 {
        Err(ResizeError::Empty)
    } else {
        let start = if ideal_height(grid, ratios) <= grid.max_line_height as int {
            ideal_height(grid, ratios)
        } else {
            grid.max_line_height as int
        };
        best_height_from(grid, ratios, start, None)
    }
}

/// Length of the longest prefix the packer will commit to: items are
/// peeled off the end, one by one, until what is left is fittable. Zero
/// when no prefix is fittable at all.
pub open spec fn peel(grid: ImageGrid, ratios: Seq<u32>) -> int
    decreases ratios.len(),
{
    if ratios.len() == 0 {
        0
    } else if is_fittable(grid, ratios) {
        ratios.len() as int
    } else {
        peel(grid, ratios.drop_last())
    }
}

/// The packed layout: an ordered list of `(item count, row height)` pairs.
///
/// Each round peels the working sequence down to its longest fittable
/// prefix, runs the height search on it, and continues with the spillover:
/// - an empty input, or one with no fittable prefix, packs to the single
///   sentinel row `(0, 0)` (in the latter case the items are dropped);
/// - a prefix whose height search fails is forced into its own row at the
///   minimum line height when it is a single item, and is dropped as a
///   sentinel row otherwise, the spillover being packed either way.
pub open spec fn pack_rows(grid: ImageGrid, ratios: Seq<u32>) -> Seq<(int, int)>
    decreases ratios.len(),
    via pack_rows_decreases
{
    if ratios.len() == 0 {
        seq![(0int, 0int)]
    } else {
        let e = peel(grid, ratios);
        if e <= 0 {
            seq![(0int, 0int)]
        } else {
            let row = match best_height(grid, ratios.take(e)) {
                Ok(h) => (e, h),
                Err(_) => if e == 1 {
                    (1int, grid.min_line_height as int)
                } else {
                    (0int, 0int)
                },
            };
            if e == ratios.len() {
                seq![row]
            } else {
                seq![row] + pack_rows(grid, ratios.skip(e))
            }
        }
    }
}

/// The ratio sum is bounded below by the length when every ratio is
/// positive, and above by the length times the largest ratio value.
pub proof fn lemma_sum_ratios_bounds(ratios: Seq<u32>)
    ensures
        0 <= sum_ratios(ratios) <= ratios.len() * u32::MAX,
        ratios_positive(ratios) ==> sum_ratios(ratios) >= ratios.len(),
    decreases ratios.len(),
{
    if ratios.len() > 0 {
        lemma_sum_ratios_bounds(ratios.drop_last());
        assert(ratios_positive(ratios) ==> ratios_positive(ratios.drop_last()));
    }
}

/// Extending a prefix by one item adds that item to the ratio sum.
pub proof fn lemma_sum_ratios_step(ratios: Seq<u32>, i: int)
    requires
        0 <= i < ratios.len(),
    ensures
        sum_ratios(ratios.take(i + 1)) == sum_ratios(ratios.take(i)) + ratios[i],
{
    assert(ratios.take(i + 1).drop_last() =~= ratios.take(i));
}

/// Extending a prefix by one item adds that item's width to the item sum.
pub proof fn lemma_sum_item_widths_step(ratios: Seq<u32>, height: int, i: int)
    requires
        0 <= i < ratios.len(),
    ensures
        sum_item_widths(ratios.take(i + 1), height) == sum_item_widths(ratios.take(i), height)
            + height * ratios[i],
{
    assert(ratios.take(i + 1).drop_last() =~= ratios.take(i));
}

/// At a non-negative height with a non-negative gap, a row is at least as
/// wide as any of its prefixes.
pub proof fn lemma_row_width_prefix(ratios: Seq<u32>, height: int, gap: int, n: int)
    requires
        0 <= n <= ratios.len(),
        height >= 0,
        gap >= 0,
    ensures
        row_width(ratios.take(n), height, gap) <= row_width(ratios, height, gap),
    decreases ratios.len() - n,
{
    if n < ratios.len() {
        lemma_sum_item_widths_step(ratios, height, n);
        vstd::arithmetic::mul::lemma_mul_nonnegative(height, ratios[n] as int);
        vstd::arithmetic::mul::lemma_mul_nonnegative(gap, SCALE as int);
        assert(gap * (SCALE as int) * n == gap * (SCALE as int) * (n - 1) + gap * (SCALE as int))
            by (nonlinear_arith);
        assert(row_width(ratios.take(n), height, gap) <= row_width(ratios.take(n + 1), height, gap));
        lemma_row_width_prefix(ratios, height, gap, n + 1);
    } else {
        assert(ratios.take(n) =~= ratios);
    }
}

/// A pixel height times a ratio stays well inside 128 bits.
pub proof fn lemma_height_ratio_bound(height: u64, ratio: u32)
    by (nonlinear_arith)
    ensures
        0 <= (height as int) * (ratio as int) <= (u64::MAX as int) * (u32::MAX as int),
{
}

/// The peel point always lies inside the sequence.
pub proof fn lemma_peel_bounds(grid: ImageGrid, ratios: Seq<u32>)
    ensures
        0 <= peel(grid, ratios) <= ratios.len(),
    decreases ratios.len(),
{
    if ratios.len() == 0 {
    } else if is_fittable(grid, ratios) {
    } else {
        lemma_peel_bounds(grid, ratios.drop_last());
    }
}

#[via_fn]
proof fn pack_rows_decreases(grid: ImageGrid, ratios: Seq<u32>) {
    lemma_peel_bounds(grid, ratios);
}

/// The rows flattened into one height per item, in input order.
pub open spec fn flatten_rows(rows: Seq<(int, int)>) -> Seq<int>
    decreases rows.len(),
{
    if rows.len() == 0 {
        Seq::empty()
    } else {
        Seq::new(rows.first().0 as nat, |i: int| rows.first().1) + flatten_rows(rows.drop_first())
    }
}

/// Appending a row to a list appends its expansion to the flat heights.
pub proof fn lemma_flatten_rows_snoc(rows: Seq<(int, int)>, row: (int, int))
    ensures
        flatten_rows(rows.push(row)) == flatten_rows(rows) + Seq::new(
            row.0 as nat,
            |i: int| row.1,
        ),
    decreases rows.len(),
{
    let expansion = Seq::new(row.0 as nat, |i: int| row.1);
    if rows.len() == 0 {
        assert(rows.push(row).drop_first() =~= rows);
        assert(expansion + flatten_rows(rows) =~= expansion);
        assert(flatten_rows(rows) + expansion =~= expansion);
    } else {
        assert(rows.push(row).drop_first() =~= rows.drop_first().push(row));
        lemma_flatten_rows_snoc(rows.drop_first(), row);
        let head = Seq::new(rows.first().0 as nat, |i: int| rows.first().1);
        assert(head + (flatten_rows(rows.drop_first()) + expansion) =~= (head + flatten_rows(
            rows.drop_first(),
        )) + expansion);
    }
}

/// The mathematical view of an executable height list.
pub open spec fn heights_view(heights: Seq<u64>) -> Seq<int> {
    heights.map_values(|h: u64| h as int)
}

/// The mathematical view of an executable row list.
pub open spec fn rows_view(rows: Seq<(usize, u64)>) -> Seq<(int, int)> {
    rows.map_values(|row: (usize, u64)| (row.0 as int, row.1 as int))
}

} // verus!
