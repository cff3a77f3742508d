//! The guarantees of the packed layout, stated and proved against the
//! model in [`crate::model`]. Together with the contracts in
//! [`crate::grid`] — the executable packer returns exactly
//! [`model::pack_rows`] — these laws carry over to every run.

use vstd::prelude::*;

use crate::grid::ImageGrid;
use crate::grid::ResizeError;
use crate::model;

verus! {

/// Total number of items covered by a row list.
pub open spec fn sum_counts(rows: Seq<(int, int)>) -> int
    decreases rows.len(),
{
    if rows.len() == 0 {
        0
    } else {
        rows.first().0 + sum_counts(rows.drop_first())
    }
}

/// Index of the first input item of row `i`: the items of the rows before
/// it, counted in order.
pub open spec fn row_offset(rows: Seq<(int, int)>, i: int) -> int {
    sum_counts(rows.take(i))
}

/// The sentinel row list covers no items.
proof fn lemma_sum_counts_sentinel()
    ensures
        sum_counts(seq![(0int, 0int)]) == 0,
{
    reveal_with_fuel(sum_counts, 2);
    assert(seq![(0int, 0int)].drop_first() =~= Seq::<(int, int)>::empty());
    assert(seq![(0int, 0int)].first() == (0int, 0int));
}

/// Prepending a row adds its count to the total.
proof fn lemma_sum_counts_cons(row: (int, int), rest: Seq<(int, int)>)
    ensures
        sum_counts(seq![row] + rest) == row.0 + sum_counts(rest),
{
    assert((seq![row] + rest).drop_first() =~= rest);
}

/// A height the search returns is admissible: inside the height band and
/// accepted by the guarded row width.
proof fn lemma_best_height_from_fits(
    grid: ImageGrid,
    ratios: Seq<u32>,
    height: int,
    best: Option<(int, int)>,
)
    requires
        best matches Some(b) ==> model::may_fit(grid, ratios, b.0) == Ok::<int, ResizeError>(b.1),
    ensures
        model::best_height_from(grid, ratios, height, best) matches Ok(h) ==> model::may_fit(
            grid,
            ratios,
            h,
        ) is Ok,
    decreases height - grid.min_line_height + 1int,
{
    if height < grid.min_line_height as int {
    } else {
        match model::may_fit(grid, ratios, height) {
            Ok(slack) => match best {
                Some(b) => {
                    if slack > b.1 {
                    } else {
                        lemma_best_height_from_fits(grid, ratios, height - 1, Some((height, slack)));
                    }
                },
                None => {
                    lemma_best_height_from_fits(grid, ratios, height - 1, Some((height, slack)));
                },
            },
            Err(_) => match best {
                Some(_) => {},
                None => {
                    lemma_best_height_from_fits(grid, ratios, height - 1, None);
                },
            },
        }
    }
}

/// A height returned by the height search fits its row: it lies inside
/// the height band, every item stays at least the minimum item width, and
/// the row does not overflow the available width.
pub proof fn lemma_best_height_fits(grid: ImageGrid, ratios: Seq<u32>)
    ensures
        model::best_height(grid, ratios) matches Ok(h) ==> model::may_fit(grid, ratios, h) is Ok,
{
    if ratios.len() > 0 {
        let start = if model::ideal_height(grid, ratios) <= grid.max_line_height as int {
            model::ideal_height(grid, ratios)
        } else {
            grid.max_line_height as int
        };
        lemma_best_height_from_fits(grid, ratios, start, None);
    }
}

/// Shape of one packed row: a sentinel row carries height zero, and every
/// other row's height lies inside the configured height band — a forced
/// single-item overflow row sits at exactly the minimum line height, which
/// the band contains.
pub open spec fn row_band_ok(grid: ImageGrid, row: (int, int)) -> bool {
    &&& row.0 == 0 ==> row.1 == 0
    &&& row.0 != 0 ==> grid.min_line_height <= row.1 <= grid.max_line_height
}

/// Every height the packer assigns to a non-sentinel row lies between the
/// minimum and the maximum line height; sentinel rows carry height zero.
pub proof fn lemma_pack_rows_heights(grid: ImageGrid, ratios: Seq<u32>)
    requires
        grid.wf(),
    ensures
        forall|i: int|
            0 <= i < model::pack_rows(grid, ratios).len() ==> row_band_ok(
                grid,
                #[trigger] model::pack_rows(grid, ratios)[i],
            ),
    decreases ratios.len(),
{
    let rows = model::pack_rows(grid, ratios);
    if ratios.len() == 0 {
    } else {
        let e = model::peel(grid, ratios);
        model::lemma_peel_bounds(grid, ratios);
        if e <= 0 {
        } else {
            let head = ratios.take(e);
            lemma_best_height_fits(grid, head);
            if e == ratios.len() {
            } else {
                lemma_pack_rows_heights(grid, ratios.skip(e));
                let rest = model::pack_rows(grid, ratios.skip(e));
                assert(forall|i: int| 1 <= i < rows.len() ==> rows[i] == rest[i - 1]);
            }
        }
    }
}

/// The packed rows never cover more items than were supplied, and cover
/// all of them when no sentinel row was emitted; an empty input packs to
/// exactly the one sentinel row.
pub proof fn lemma_pack_rows_counts(grid: ImageGrid, ratios: Seq<u32>)
    ensures
        forall|i: int|
            0 <= i < model::pack_rows(grid, ratios).len() ==> (#[trigger] model::pack_rows(
                grid,
                ratios,
            )[i]).0 >= 0,
        sum_counts(model::pack_rows(grid, ratios)) <= ratios.len(),
        (forall|i: int|
            0 <= i < model::pack_rows(grid, ratios).len() ==> (#[trigger] model::pack_rows(
                grid,
                ratios,
            )[i]).0 != 0) ==> sum_counts(model::pack_rows(grid, ratios)) == ratios.len(),
        ratios.len() == 0 ==> model::pack_rows(grid, ratios) == seq![(0int, 0int)],
    decreases ratios.len(),
{
    let rows = model::pack_rows(grid, ratios);
    if ratios.len() == 0 {
        lemma_sum_counts_sentinel();
    } else {
        let e = model::peel(grid, ratios);
        model::lemma_peel_bounds(grid, ratios);
        if e <= 0 {
            lemma_sum_counts_sentinel();
        } else {
            let head = ratios.take(e);
            let row = match model::best_height(grid, head) {
                Ok(h) => (e, h),
                Err(_) => if e == 1 {
                    (1int, grid.min_line_height as int)
                } else {
                    (0int, 0int)
                },
            };
            if e == ratios.len() {
                assert(rows =~= seq![row]);
                assert(sum_counts(rows) == row.0) by {
                    reveal_with_fuel(sum_counts, 2);
                    assert(rows.drop_first() =~= Seq::<(int, int)>::empty());
                };
            } else {
                lemma_pack_rows_counts(grid, ratios.skip(e));
                let rest = model::pack_rows(grid, ratios.skip(e));
                lemma_sum_counts_cons(row, rest);
                assert(forall|i: int| 1 <= i < rows.len() ==> rows[i] == rest[i - 1]);
                assert forall|i: int| 0 <= i < rows.len() implies (#[trigger] rows[i]).0 >= 0 by {
                    if i >= 1 {
                        assert(rows[i] == rest[i - 1]);
                        assert(rest[i - 1].0 >= 0);
                    }
                }
                if forall|i: int| 0 <= i < rows.len() ==> (#[trigger] rows[i]).0 != 0 {
                    assert(rows[0].0 != 0);
                    assert forall|i: int| 0 <= i < rest.len() implies (#[trigger] rest[i]).0
                        != 0 by {
                        assert(rows[i + 1] == rest[i]);
                        assert(rows[i + 1].0 != 0);
                    }
                }
            }
        }
    }
}

/// Row `i` of a packed layout is justified: it covers a contiguous
/// segment of the input in order, and unless it is a forced single-item
/// overflow row (pinned to the minimum line height after a failed height
/// search), its height came from the height search, so the row stays
/// within the available width, every item keeps the minimum item width,
/// and the height lies inside the band.
pub open spec fn row_segment_justified(
    grid: ImageGrid,
    ratios: Seq<u32>,
    rows: Seq<(int, int)>,
    i: int,
) -> bool {
    let offset = row_offset(rows, i);
    let count = rows[i].0;
    let height = rows[i].1;
    let segment = ratios.subrange(offset, offset + count);
    &&& 0 <= offset
    &&& offset + count <= ratios.len()
    &&& count >= 1
    &&& ((count == 1 && height == grid.min_line_height && model::best_height(grid, segment) is Err)
        || (model::best_height(grid, segment) == Ok::<int, ResizeError>(height) && model::row_width(
        segment,
        height,
        grid.gap as int,
    ) <= (grid.available_width as int) * (model::SCALE as int) && model::items_wide_enough(
        segment,
        height,
        grid.min_item_width as int,
    ) && grid.min_line_height <= height <= grid.max_line_height))
}

/// When the packer drops nothing — no sentinel row appears — every packed
/// row is justified over its own segment of the input.
pub proof fn lemma_rows_justified(grid: ImageGrid, ratios: Seq<u32>)
    requires
        forall|i: int|
            0 <= i < model::pack_rows(grid, ratios).len() ==> (#[trigger] model::pack_rows(
                grid,
                ratios,
            )[i]).0 != 0,
    ensures
        forall|i: int|
            #![trigger model::pack_rows(grid, ratios)[i]]
            0 <= i < model::pack_rows(grid, ratios).len() ==> row_segment_justified(
                grid,
                ratios,
                model::pack_rows(grid, ratios),
                i,
            ),
    decreases ratios.len(),
{
    let rows = model::pack_rows(grid, ratios);
    if ratios.len() == 0 {
        assert(rows[0].0 != 0);
        assert(false);
    } else {
        let e = model::peel(grid, ratios);
        model::lemma_peel_bounds(grid, ratios);
        if e <= 0 {
            assert(rows[0].0 != 0);
            assert(false);
        } else {
            let head = ratios.take(e);
            let row = match model::best_height(grid, head) {
                Ok(h) => (e, h),
                Err(_) => if e == 1 {
                    (1int, grid.min_line_height as int)
                } else {
                    (0int, 0int)
                },
            };
            assert(rows[0] == row);
            assert(rows[0].0 != 0);
            assert(row.0 == e);
            lemma_best_height_fits(grid, head);
            assert(rows.take(0) =~= Seq::<(int, int)>::empty());
            assert(ratios.subrange(0, e) =~= head);
            assert(row_segment_justified(grid, ratios, rows, 0));
            if e == ratios.len() {
                assert(rows.len() == 1);
            } else {
                let rest = model::pack_rows(grid, ratios.skip(e));
                assert(forall|i: int| 1 <= i < rows.len() ==> rows[i] == rest[i - 1]);
                assert forall|j: int| 0 <= j < rest.len() implies (#[trigger] rest[j]).0 != 0 by {
                    assert(rows[j + 1] == rest[j]);
                    assert(rows[j + 1].0 != 0);
                }
                lemma_rows_justified(grid, ratios.skip(e));
                assert forall|i: int|
                    #![trigger rows[i]]
                    1 <= i < rows.len() implies row_segment_justified(grid, ratios, rows, i) by {
                    let j = i - 1;
                    assert(rows[i] == rest[j]);
                    assert(row_segment_justified(grid, ratios.skip(e), rest, j));
                    assert(rows.take(i) =~= seq![row] + rest.take(j));
                    lemma_sum_counts_cons(row, rest.take(j));
                    assert(row_offset(rows, i) == e + row_offset(rest, j));
                    let offset = row_offset(rest, j);
                    let count = rest[j].0;
                    assert(ratios.subrange(e + offset, e + offset + count) =~= ratios.skip(
                        e,
                    ).subrange(offset, offset + count));
                }
            }
        }
    }
}

/// The flat height list is exactly as long as the items the rows cover.
pub proof fn lemma_flatten_rows_len(rows: Seq<(int, int)>)
    requires
        forall|i: int| 0 <= i < rows.len() ==> (#[trigger] rows[i]).0 >= 0,
    ensures
        model::flatten_rows(rows).len() == sum_counts(rows),
    decreases rows.len(),
{
    if rows.len() > 0 {
        assert(forall|i: int| 0 <= i < rows.drop_first().len() ==> rows.drop_first()[i] == rows[
            i + 1
        ]);
        assert forall|i: int|
            0 <= i < rows.drop_first().len() implies (#[trigger] rows.drop_first()[i]).0 >= 0 by {
            assert(rows.drop_first()[i] == rows[i + 1]);
            assert(rows[i + 1].0 >= 0);
        }
        lemma_flatten_rows_len(rows.drop_first());
    }
}

/// The flat layout never holds more heights than there were input items,
/// and holds exactly one height per item when no sentinel row was
/// emitted.
pub proof fn lemma_grid_covers_items(grid: ImageGrid, ratios: Seq<u32>)
    ensures
        model::flatten_rows(model::pack_rows(grid, ratios)).len() <= ratios.len(),
        (forall|i: int|
            0 <= i < model::pack_rows(grid, ratios).len() ==> (#[trigger] model::pack_rows(
                grid,
                ratios,
            )[i]).0 != 0) ==> model::flatten_rows(model::pack_rows(grid, ratios)).len()
            == ratios.len(),
{
    lemma_pack_rows_counts(grid, ratios);
    lemma_flatten_rows_len(model::pack_rows(grid, ratios));
}

/// The layout is a pure function of the configuration and the ratio
/// sequence: computing it twice over identical inputs yields identical
/// rows — there is no hidden state and no randomness in the model, and
/// `get_row_from_items` returns exactly the model's rows.
pub proof fn lemma_pack_rows_deterministic(grid: ImageGrid, first: Seq<u32>, second: Seq<u32>)
    requires
        first == second,
    ensures
        model::pack_rows(grid, first) == model::pack_rows(grid, second),
{
}

} // verus!
