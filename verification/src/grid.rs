//! The executable layout engine.
//!
//! `ImageGrid` holds the layout constraints; `get_row_from_items` packs an
//! ordered sequence of aspect ratios into rows, and `get_optimal_grid`
//! expands the rows into one height per input item.
//!
//! Units: aspect ratios are whole numbers of millionths (`model::SCALE`
//! millionths make a ratio of 1.0); the configuration and all returned
//! heights are whole pixels.

use vstd::prelude::*;

use crate::model;

verus! {

/// A reason a candidate row or height is rejected during the search.
/// These signals steer the packer and are always recovered inside it —
/// by peeling items off the row or forcing a single-item row — so they
/// never escape the layout functions.
#[derive(Debug, PartialEq, Eq, Structural, Clone, Copy)]
pub enum ResizeError {
    /// Some item rendered at the candidate height would be narrower than
    /// the configured minimum item width.
    MinItemWidthOverload,
    /// The candidate height lies below the minimum line height.
    LowerThanMinHeight,
    /// The candidate height lies above the maximum line height.
    BiggerThanMaxHeight,
    /// The row rendered at the candidate height would overflow the
    /// available width.
    CanNotFitItems,
    /// The height search was asked about an empty row.
    Empty,
}

/// A violation of the configuration invariants, reported by
/// [`ImageGrid::new`] before any layout work begins.
#[derive(Debug, PartialEq, Eq, Structural, Clone, Copy)]
pub enum GridConfigError {
    /// `min_line_height` exceeds `max_line_height`.
    MinHeightAboveMaxHeight,
    /// `available_width` is narrower than `min_item_width`.
    AvailableWidthBelowMinItemWidth,
}

/// The layout constraints, all in whole pixels. A valid configuration
/// (see [`ImageGrid::wf`]) has `min_line_height <= max_line_height` and
/// `available_width >= min_item_width`.
#[derive(Debug, PartialEq, Eq, Structural, Clone, Copy)]
pub struct ImageGrid {
    /// Width of the container every row should fill.
    pub available_width: u32,
    /// Lowest admissible row height.
    pub min_line_height: u32,
    /// Highest admissible row height.
    pub max_line_height: u32,
    /// No item may render narrower than this.
    pub min_item_width: u32,
    /// Spacing between adjacent items of a row (none before the first or
    /// after the last item).
    pub gap: u32,
}

impl ImageGrid {
    /// The configuration invariants: the height band is non-empty and the
    /// container is at least as wide as the narrowest admissible item.
    pub open spec fn wf(self) -> bool {
        self.min_line_height <= self.max_line_height && self.available_width
            >= self.min_item_width
    }

    /// The guarded row width of `ratios[start..end]` at `height`, in
    /// millionths of a pixel: rejects the height if some item would render
    /// narrower than the minimum item width or the row would overflow the
    /// available width.
    #[verifier::loop_isolation(false)]
    fn row_width_secure(
        &self,
        ratios: &Vec<u32>,
        start: usize,
        end: usize,
        height: u64,
    ) -> (result: Result<u128, ResizeError>)
        requires
            start <= end <= ratios.len(),
        ensures
            match result {
                Ok(width) => model::row_width_secure(
                    *self,
                    ratios@.subrange(start as int, end as int),
                    height as int,
                ) == Ok::<int, ResizeError>(width as int),
                Err(e) => model::row_width_secure(
                    *self,
                    ratios@.subrange(start as int, end as int),
                    height as int,
                ) == Err::<int, ResizeError>(e),
            },
    {
        let ghost row = ratios@.subrange(start as int, end as int);
        let floor: u128 = (self.min_item_width as u128) * (model::SCALE as u128);
        let mut i = start;
        while i < end
            invariant
                start <= i <= end,
                forall|j: int|
                    start <= j < i ==> (height as int) * ratios@[j] >= (self.min_item_width as int)
                        * (model::SCALE as int),
            decreases end - i,
        {
            proof {
                model::lemma_height_ratio_bound(height, ratios@[i as int]);
            }
            if (height as u128) * (ratios[i] as u128) < floor {
                assert(row[i - start] == ratios@[i as int]);
                assert(!model::items_wide_enough(row, height as int, self.min_item_width as int));
                return Err(ResizeError::MinItemWidthOverload);
            }
            i += 1;
        }
        assert(model::items_wide_enough(row, height as int, self.min_item_width as int));

        let limit: u128 = (self.available_width as u128) * (model::SCALE as u128);
        let mut width: u128 = 0;
        let mut i = start;
        while i < end
            invariant
                start <= i <= end,
                width == model::row_width(
                    ratios@.subrange(start as int, i as int),
                    height as int,
                    self.gap as int,
                ),
                width <= limit,
            decreases end - i,
        {
            let ghost prefix = ratios@.subrange(start as int, i as int);
            proof {
                model::lemma_height_ratio_bound(height, ratios@[i as int]);
            }
            if i > start {
                width = width + (self.gap as u128) * (model::SCALE as u128);
            }
            width = width + (height as u128) * (ratios[i] as u128);
            proof {
                let grown = ratios@.subrange(start as int, i + 1);
                assert(grown.take(i - start) =~= prefix);
                assert(model::sum_item_widths(grown, height as int) == model::sum_item_widths(
                    prefix,
                    height as int,
                ) + (height as int) * ratios@[i as int]) by {
                    model::lemma_sum_item_widths_step(grown, height as int, i - start);
                    assert(grown.take(i - start + 1) =~= grown);
                };
                let per_gap = (self.gap as int) * (model::SCALE as int);
                if i == start {
                    assert(per_gap * (grown.len() - 1) == 0) by (nonlinear_arith)
                        requires
                            grown.len() == 1,
                    ;
                } else {
                    assert(per_gap * (grown.len() - 1) == per_gap * (prefix.len() - 1)
                        + per_gap) by (nonlinear_arith)
                        requires
                            grown.len() - 1 == prefix.len(),
                    ;
                }
                assert(width == model::row_width(grown, height as int, self.gap as int));
            }
            if width > limit {
                proof {
                    let grown = ratios@.subrange(start as int, i + 1);
                    assert(grown =~= row.take(i + 1 - start));
                    model::lemma_row_width_prefix(row, height as int, self.gap as int, i + 1 - start);
                }
                return Err(ResizeError::CanNotFitItems);
            }
            i += 1;
        }
        assert(ratios@.subrange(start as int, end as int) =~= row);
        Ok(width)
    }

    /// The ideal height of `ratios[start..end]`: the whole-pixel height at
    /// which the row would occupy exactly the available width, ignoring
    /// the height band and the minimum item width.
    #[verifier::loop_isolation(false)]
    fn ideal_height_range(&self, ratios: &Vec<u32>, start: usize, end: usize) -> (height: u64)
        requires
            start < end <= ratios.len(),
            model::ratios_positive(ratios@.subrange(start as int, end as int)),
        ensures
            height == model::ideal_height(*self, ratios@.subrange(start as int, end as int)),
    {
        let ghost row = ratios@.subrange(start as int, end as int);
        let count = end - start;
        let gap = self.gap;
        proof {
            assert(0 <= (gap as int) * ((count - 1) as int) <= (u32::MAX as int) * (usize::MAX
                as int)) by (nonlinear_arith)
                requires
                    count >= 1,
            ;
        }
        let gaps: u128 = (gap as u128) * ((count - 1) as u128);
        if gaps >= self.available_width as u128 {
            return 0;
        }
        let mut total: u128 = 0;
        let mut i = start;
        while i < end
            invariant
                start <= i <= end,
                total == model::sum_ratios(ratios@.subrange(start as int, i as int)),
                total <= (i - start) * (u32::MAX as int),
            decreases end - i,
        {
            proof {
                let grown = ratios@.subrange(start as int, i + 1);
                assert(grown.take(i - start) =~= ratios@.subrange(start as int, i as int));
                model::lemma_sum_ratios_step(grown, i - start);
                assert(grown.take(i - start + 1) =~= grown);
            }
            total = total + (ratios[i] as u128);
            i += 1;
        }
        proof {
            model::lemma_sum_ratios_bounds(row);
            assert(row.len() >= 1);
        }
        let spread: u128 = ((self.available_width as u128) - gaps) * (model::SCALE as u128);
        let ideal: u128 = spread / total;
        proof {
            assert(ideal <= spread) by (nonlinear_arith)
                requires
                    total >= 1,
                    spread >= 0,
                    ideal == spread / total,
            ;
        }
        ideal as u64
    }

    /// Admissibility of one candidate height for `ratios[start..end]`:
    /// inside the height band and accepted by the guarded row width. On
    /// success, the slack left in the row, in millionths of a pixel.
    fn may_fit(&self, ratios: &Vec<u32>, start: usize, end: usize, height: u64) -> (result: Result<
        u128,
        ResizeError,
    >)
        requires
            start <= end <= ratios.len(),
        ensures
            match result {
                Ok(slack) => model::may_fit(
                    *self,
                    ratios@.subrange(start as int, end as int),
                    height as int,
                ) == Ok::<int, ResizeError>(slack as int),
                Err(e) => model::may_fit(
                    *self,
                    ratios@.subrange(start as int, end as int),
                    height as int,
                ) == Err::<int, ResizeError>(e),
            },
    {
        if height < self.min_line_height as u64 {
            return Err(ResizeError::LowerThanMinHeight);
        }
        if height > self.max_line_height as u64 {
            return Err(ResizeError::BiggerThanMaxHeight);
        }
        match self.row_width_secure(ratios, start, end, height) {
            Ok(width) => {
                let limit: u128 = (self.available_width as u128) * (model::SCALE as u128);
                Ok(limit - width)
            },
            Err(e) => Err(e),
        }
    }

    /// Whether `ratios[start..end]` fits at any of the three cheap
    /// candidate heights: the minimum line height, the ideal height, and
    /// the maximum line height (the height band is deliberately not
    /// applied to the candidates here).
    fn is_fittable(&self, ratios: &Vec<u32>, start: usize, end: usize) -> (fittable: bool)
        requires
            start < end <= ratios.len(),
            model::ratios_positive(ratios@.subrange(start as int, end as int)),
        ensures
            fittable == model::is_fittable(*self, ratios@.subrange(start as int, end as int)),
    {
        if self.row_width_secure(ratios, start, end, self.min_line_height as u64).is_ok() {
            return true;
        }
        let ideal = self.ideal_height_range(ratios, start, end);
        if self.row_width_secure(ratios, start, end, ideal).is_ok() {
            return true;
        }
        self.row_width_secure(ratios, start, end, self.max_line_height as u64).is_ok()
    }

    /// The height at which `ratios` would occupy exactly the available
    /// width with no slack, floored to a whole pixel. A target, not a
    /// guarantee: it ignores the height band and the minimum item width.
    pub fn get_optimal_height(&self, ratios: &Vec<u32>) -> (height: u64)
        requires
            ratios.len() > 0,
            model::ratios_positive(ratios@),
        ensures
            height == model::ideal_height(*self, ratios@),
    {
        let ghost all = ratios@;
        let height = self.ideal_height_range(ratios, 0, ratios.len());
        proof {
            assert(all.subrange(0, all.len() as int) =~= all);
        }
        height
    }

    /// The best height found so far, as the model sees it.
    spec fn best_so_far_view(best: Option<(u64, u128)>) -> Option<(int, int)> {
        match best {
            Some(b) => Some((b.0 as int, b.1 as int)),
            None => None,
        }
    }

    /// The height search over `ratios[start..end]`: descend whole pixels
    /// from the ideal height (capped at the maximum line height) and
    /// return the highest height whose fit is at least as tight as any
    /// lower height tried; ties in slack keep descending, so they resolve
    /// to the lower height.
    #[verifier::loop_isolation(false)]
    fn best_height(&self, ratios: &Vec<u32>, start: usize, end: usize) -> (result: Result<
        u64,
        ResizeError,
    >)
        requires
            start <= end <= ratios.len(),
            model::ratios_positive(ratios@.subrange(start as int, end as int)),
        ensures
            match result {
                Ok(height) => model::best_height(
                    *self,
                    ratios@.subrange(start as int, end as int),
                ) == Ok::<int, ResizeError>(height as int),
                Err(e) => model::best_height(
                    *self,
                    ratios@.subrange(start as int, end as int),
                ) == Err::<int, ResizeError>(e),
            },
    {
        let ghost row = ratios@.subrange(start as int, end as int);
        if start == end {
            return Err(ResizeError::Empty);
        }
        let ideal = self.ideal_height_range(ratios, start, end);
        let mut height: u64 = if ideal <= self.max_line_height as u64 {
            ideal
        } else {
            self.max_line_height as u64
        };
        let mut best: Option<(u64, u128)> = None;
        let ghost goal = model::best_height_from(*self, row, height as int, None);
        loop
            invariant
                model::best_height_from(*self, row, height as int, Self::best_so_far_view(best))
                    == goal,
            decreases height,
        {
            if height < self.min_line_height as u64 {
                return match best {
                    Some(b) => Ok(b.0),
                    None => Err(ResizeError::CanNotFitItems),
                };
            }
            match self.may_fit(ratios, start, end, height) {
                Ok(slack) => {
                    match best {
                        Some(b) => {
                            if slack > b.1 {
                                return Ok(b.0);
                            }
                            best = Some((height, slack));
                        },
                        None => {
                            best = Some((height, slack));
                        },
                    }
                },
                Err(_) => {
                    match best {
                        Some(b) => {
                            return Ok(b.0);
                        },
                        None => {},
                    }
                },
            }
            if height == 0 {
                proof {
                    reveal_with_fuel(model::best_height_from, 2);
                }
                return match best {
                    Some(b) => Ok(b.0),
                    None => Err(ResizeError::CanNotFitItems),
                };
            }
            height = height - 1;
        }
    }

    /// Packs the ratio sequence into rows: an ordered list of
    /// `(item count, row height)` pairs, exactly as the model's
    /// [`model::pack_rows`] describes. Each round commits the longest
    /// fittable prefix of what is left as one row, sized by the height
    /// search, and continues with the spillover; an empty input packs to
    /// the single sentinel row `(0, 0)`.
    #[verifier::loop_isolation(false)]
    #[verifier::rlimit(60)]
    pub fn get_row_from_items(&self, ratios: &Vec<u32>) -> (rows: Vec<(usize, u64)>)
        requires
            self.wf(),
            model::ratios_positive(ratios@),
        ensures
            model::rows_view(rows@) == model::pack_rows(*self, ratios@),
    {
        let n = ratios.len();
        let mut rows: Vec<(usize, u64)> = Vec::new();
        if n == 0 {
            rows.push((0, 0));
            proof {
                assert(model::rows_view(rows@) =~= model::pack_rows(*self, ratios@));
            }
            return rows;
        }
        let mut start: usize = 0;
        proof {
            assert(ratios@.skip(0) =~= ratios@);
            assert(model::rows_view(rows@) =~= Seq::<(int, int)>::empty());
        }
        loop
            invariant
                0 <= start < n,
                model::pack_rows(*self, ratios@) == model::rows_view(rows@) + model::pack_rows(
                    *self,
                    ratios@.skip(start as int),
                ),
            decreases n - start,
        {
            let ghost current = ratios@.skip(start as int);
            proof {
                assert(forall|j: int|
                    0 <= j < current.len() ==> current[j] == ratios@[start + j] && current[j] >= 1);
            }
            let mut e = n;
            proof {
                assert(current.take(n - start) =~= current);
            }
            #[verifier::loop_isolation(true)]
            loop
                invariant
                    start < n <= ratios.len(),
                    start <= e <= n,
                    current == ratios@.skip(start as int),
                    model::ratios_positive(ratios@),
                    model::peel(*self, current) == model::peel(
                        *self,
                        current.take(e - start),
                    ),
                ensures
                    start <= e <= n,
                    model::peel(*self, current) == model::peel(*self, current.take(e - start)),
                    e == start || model::is_fittable(
                        *self,
                        ratios@.subrange(start as int, e as int),
                    ),
                decreases e,
            {
                if e == start {
                    break ;
                }
                proof {
                    assert(ratios@.subrange(start as int, e as int) =~= current.take(e - start));
                }
                if self.is_fittable(ratios, start, e) {
                    break ;
                }
                proof {
                    assert(current.take(e - start).drop_last() =~= current.take(e - 1 - start));
                }
                e = e - 1;
            }
            if e == start {
                rows.push((0, 0));
                proof {
                    assert(current.take(0) =~= Seq::<u32>::empty());
                    assert(model::peel(*self, current) == 0);
                    assert(model::pack_rows(*self, current) =~= seq![(0int, 0int)]);
                    assert(model::rows_view(rows@) =~= model::pack_rows(*self, ratios@));
                }
                return rows;
            }
            proof {
                assert(ratios@.subrange(start as int, e as int) =~= current.take(e - start));
                assert(current.take(e - start).len() > 0);
                assert(model::peel(*self, current) == e - start);
            }
            let row: (usize, u64) = match self.best_height(ratios, start, e) {
                Ok(height) => (e - start, height),
                Err(_) => if e - start == 1 {
                    (1, self.min_line_height as u64)
                } else {
                    (0, 0)
                },
            };
            let ghost prev = rows@;
            rows.push(row);
            let ghost pushed = (row.0 as int, row.1 as int);
            proof {
                assert(model::rows_view(rows@) =~= model::rows_view(prev) + seq![pushed]);
            }
            if e == n {
                proof {
                    assert(model::pack_rows(*self, current) == seq![pushed]);
                    assert(model::rows_view(rows@) =~= model::pack_rows(*self, ratios@));
                }
                return rows;
            }
            proof {
                assert(current.skip(e - start) =~= ratios@.skip(e as int));
                assert(model::pack_rows(*self, current) == seq![pushed] + model::pack_rows(
                    *self,
                    ratios@.skip(e as int),
                ));
                assert((model::rows_view(prev) + seq![pushed]) + model::pack_rows(
                    *self,
                    ratios@.skip(e as int),
                ) =~= model::rows_view(prev) + (seq![pushed] + model::pack_rows(
                    *self,
                    ratios@.skip(e as int),
                )));
                assert(model::rows_view(rows@) + model::pack_rows(*self, ratios@.skip(e as int))
                    =~= model::pack_rows(*self, ratios@));
            }
            start = e;
        }
    }

    /// Validates a configuration. Fails exactly when an invariant is
    /// violated, before any computation; no other input is rejected.
    pub fn new(
        available_width: u32,
        min_line_height: u32,
        max_line_height: u32,
        min_item_width: u32,
        gap: u32,
    ) -> (result: Result<ImageGrid, GridConfigError>)
        ensures
            min_line_height > max_line_height <==> result == Err::<ImageGrid, GridConfigError>(
                GridConfigError::MinHeightAboveMaxHeight,
            ),
            min_line_height <= max_line_height && available_width < min_item_width <==> result
                == Err::<ImageGrid, GridConfigError>(
                GridConfigError::AvailableWidthBelowMinItemWidth,
            ),
            result is Ok <==> min_line_height <= max_line_height && available_width
                >= min_item_width,
            result matches Ok(grid) ==> grid == (ImageGrid {
                available_width,
                min_line_height,
                max_line_height,
                min_item_width,
                gap,
            }) && grid.wf(),
    {
        if min_line_height > max_line_height {
            Err(GridConfigError::MinHeightAboveMaxHeight)
        } else if available_width < min_item_width {
            Err(GridConfigError::AvailableWidthBelowMinItemWidth)
        } else {
            Ok(ImageGrid { available_width, min_line_height, max_line_height, min_item_width, gap })
        }
    }
}

/// Computes the whole layout in one call: validates the configuration,
/// packs `ratios` into rows, and expands the rows into one height per
/// input item, in input order (all items of a row share its height).
/// Fails exactly when the configuration is invalid, before any row is
/// computed.
#[verifier::loop_isolation(false)]
pub fn get_optimal_grid(
    ratios: &Vec<u32>,
    available_width: u32,
    min_line_height: u32,
    max_line_height: u32,
    min_item_width: u32,
    gap: u32,
) -> (result: Result<Vec<u64>, GridConfigError>)
    requires
        model::ratios_positive(ratios@),
    ensures
        min_line_height > max_line_height <==> result == Err::<Vec<u64>, GridConfigError>(
            GridConfigError::MinHeightAboveMaxHeight,
        ),
        min_line_height <= max_line_height && available_width < min_item_width <==> result
            == Err::<Vec<u64>, GridConfigError>(GridConfigError::AvailableWidthBelowMinItemWidth),
        result is Ok <==> min_line_height <= max_line_height && available_width >= min_item_width,
        result matches Ok(heights) ==> model::heights_view(heights@) == model::flatten_rows(
            model::pack_rows(
                (ImageGrid {
                    available_width,
                    min_line_height,
                    max_line_height,
                    min_item_width,
                    gap,
                }),
                ratios@,
            ),
        ),
{
    let grid = match ImageGrid::new(
        available_width,
        min_line_height,
        max_line_height,
        min_item_width,
        gap,
    ) {
        Ok(grid) => grid,
        Err(e) => {
            return Err(e);
        },
    };
    let rows = grid.get_row_from_items(ratios);
    let ghost packed = model::pack_rows(grid, ratios@);
    let mut heights: Vec<u64> = Vec::new();
    let mut i: usize = 0;
    while i < rows.len()
        invariant
            i <= rows.len(),
            model::heights_view(heights@) == model::flatten_rows(
                model::rows_view(rows@).take(i as int),
            ),
        decreases rows.len() - i,
    {
        let (count, height) = rows[i];
        let ghost before = model::heights_view(heights@);
        let mut j: usize = 0;
        while j < count
            invariant
                j <= count,
                count == rows@[i as int].0,
                height == rows@[i as int].1,
                model::heights_view(heights@) == before + Seq::new(j as nat, |k: int| height as int),
            decreases count - j,
        {
            let ghost held = heights@;
            heights.push(height);
            proof {
                assert(model::heights_view(heights@) =~= model::heights_view(held).push(
                    height as int,
                ));
                assert(model::heights_view(held).push(height as int) =~= before + Seq::new(
                    (j + 1) as nat,
                    |k: int| height as int,
                ));
            }
            j += 1;
        }
        proof {
            let seen = model::rows_view(rows@).take(i as int);
            let entry = model::rows_view(rows@)[i as int];
            model::lemma_flatten_rows_snoc(seen, entry);
            assert(seen.push(entry) =~= model::rows_view(rows@).take(i + 1));
            assert(model::heights_view(heights@) == model::flatten_rows(
                model::rows_view(rows@).take(i + 1),
            ));
        }
        i += 1;
    }
    proof {
        assert(model::rows_view(rows@).take(rows@.len() as int) =~= model::rows_view(rows@));
    }
    Ok(heights)
}

} // verus!
