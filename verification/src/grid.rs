//! The cluster grid of the "Versions" page: how many cards fit side by side
//! in the width the layout reports, and how the clusters are cut into rows.

use vstd::prelude::*;

verus! {

/// Narrowest width, in pixels, that a cluster card is laid out at.
pub const MIN_CARD_WIDTH_PX: u32 = 280;

/// Gap, in pixels, between two cards of a row.
pub const GRID_GAP_PX: u32 = 12;

/// Width, in pixels, that the page keeps free beside the grid.
pub const GRID_MARGIN_PX: u32 = 16;

/// Fewest columns that the grid shows.
pub const MIN_COLUMNS: usize = 1;

/// Most columns that the grid shows.
pub const MAX_COLUMNS: usize = 3;

/// `v` brought into `lo..=hi`.
pub open spec fn clamp_spec(v: int, lo: int, hi: int) -> int {
    if v < lo {
        lo
    } else if v > hi {
        hi
    } else {
        v
    }
}

/// Columns for a grid `width_px` pixels wide: one while a single card does
/// not fit beside the margin, else as many cards and gaps as fit, between one
/// and three.
pub open spec fn grid_columns_spec(width_px: int) -> int {
    let grid_width = width_px - GRID_MARGIN_PX;
    if grid_width < MIN_CARD_WIDTH_PX {
        1
    } else {
        clamp_spec(grid_width / (MIN_CARD_WIDTH_PX + GRID_GAP_PX) as int, 1, 3)
    }
}

/// Number of card columns for a grid of the given width in whole pixels.
pub fn grid_columns_for_width(available_width_px: u32) -> (cols: usize)
    ensures
        cols == grid_columns_spec(available_width_px as int),
{
    if available_width_px < GRID_MARGIN_PX {
        return MIN_COLUMNS;
    }
    let grid_width = available_width_px - GRID_MARGIN_PX;
    if grid_width < MIN_CARD_WIDTH_PX {
        return MIN_COLUMNS;
    }
    let fit = grid_width / (MIN_CARD_WIDTH_PX + GRID_GAP_PX);
    if fit < 1 {
        MIN_COLUMNS
    } else if fit > 3 {
        MAX_COLUMNS
    } else {
        fit as usize
    }
}

/// Every width gets between one and three columns, and a wider grid never
/// gets fewer columns than a narrower one.
pub proof fn lemma_grid_columns_bounded_and_monotone(narrow_px: int, wide_px: int)
    requires
        narrow_px <= wide_px,
    ensures
        MIN_COLUMNS <= grid_columns_spec(narrow_px) <= MAX_COLUMNS,
        grid_columns_spec(narrow_px) <= grid_columns_spec(wide_px),
{
    let a = narrow_px - GRID_MARGIN_PX;
    let b = wide_px - GRID_MARGIN_PX;
    if a >= MIN_CARD_WIDTH_PX {
        vstd::arithmetic::div_mod::lemma_div_is_ordered(a, b, (MIN_CARD_WIDTH_PX + GRID_GAP_PX) as int);
    }
}

/// The grid shows as many cards side by side as fit: past the margin, the
/// columns it shows (each a card and a gap wide) fit in the width, unless it
/// shows the single column it never goes below; and one more column would not
/// fit, unless it already shows the most it ever does.
pub proof fn lemma_grid_columns_fit(width_px: int)
    ensures
        ({
            let cols = grid_columns_spec(width_px);
            let room = width_px - GRID_MARGIN_PX;
            &&& cols == 1 || cols * (MIN_CARD_WIDTH_PX + GRID_GAP_PX) <= room
            &&& cols == 3 || room < (cols + 1) * (MIN_CARD_WIDTH_PX + GRID_GAP_PX)
        }),
{
    let room = width_px - GRID_MARGIN_PX;
    let q = room / 292;
    assert(q * 292 <= room < (q + 1) * 292) by (nonlinear_arith)
        requires
            q == room / 292,
    ;
}

/// Empty cells that pad a row of `row_len` cards to a full row of `columns`.
pub fn placeholder_count(row_len: usize, columns: usize) -> (n: usize)
    ensures
        n == if row_len < columns {
            columns - row_len
        } else {
            0
        },
{
    if row_len < columns {
        columns - row_len
    } else {
        0
    }
}

/// The contents of each row.
pub open spec fn rows_view<T>(rows: Seq<Vec<T>>) -> Seq<Seq<T>> {
    rows.map_values(|r: Vec<T>| r@)
}

/// `rows` cut `items` into rows of `width`: read in order they give back
/// `items`, no row is empty or wider than `width`, and every row but the last
/// is exactly `width` wide.
pub open spec fn is_row_split<T>(rows: Seq<Seq<T>>, items: Seq<T>, width: nat) -> bool {
    &&& rows.flatten() == items
    &&& forall|r: int| 0 <= r < rows.len() ==> 0 < #[trigger] rows[r].len() <= width
    &&& forall|r: int| 0 <= r < rows.len() - 1 ==> #[trigger] rows[r].len() == width
}

/// Width of the rows that `columns` asks for: a grid of no columns keeps all
/// items in one row.
pub open spec fn row_width(columns: nat, len: nat) -> nat {
    if columns == 0 {
        len
    } else {
        columns
    }
}

/// `clusters` cut into rows of `columns`, the last one possibly shorter.
pub fn chunk_clusters<T: Copy>(clusters: &[T], columns: usize) -> (rows: Vec<Vec<T>>)
    ensures
        is_row_split(
            rows_view(rows@),
            clusters@,
            row_width(columns as nat, clusters@.len()),
        ),
{
    let ghost width = row_width(columns as nat, clusters@.len());
    let mut chunks: Vec<Vec<T>> = Vec::new();
    let mut current: Vec<T> = Vec::new();
    let n = clusters.len();
    let mut i: usize = 0;
    while i < n
        invariant
            n == clusters@.len(),
            width == row_width(columns as nat, clusters@.len()),
            i <= n,
            rows_view(chunks@).flatten() + current@ == clusters@.take(i as int),
            columns == 0 ==> chunks@.len() == 0,
            columns > 0 ==> current@.len() < columns,
            forall|r: int| 0 <= r < chunks@.len() ==> #[trigger] chunks@[r]@.len() == columns,
        decreases n - i,
    {
        current.push(clusters[i]);
        assert(clusters@.take(i + 1) =~= clusters@.take(i as int).push(clusters@[i as int]));
        if current.len() == columns {
            let ghost before = chunks@;
            chunks.push(current);
            proof {
                assert(rows_view(chunks@) =~= rows_view(before).push(
                    chunks@[chunks@.len() - 1]@,
                ));
                rows_view(before).lemma_flatten_push(chunks@[chunks@.len() - 1]@);
            }
            current = Vec::new();
            assert(rows_view(chunks@).flatten() + current@ =~= rows_view(chunks@).flatten());
        }
        i = i + 1;
    }
    assert(clusters@.take(n as int) =~= clusters@);
    if current.len() > 0 {
        let ghost before = chunks@;
        chunks.push(current);
        proof {
            assert(rows_view(chunks@) =~= rows_view(before).push(chunks@[chunks@.len() - 1]@));
            rows_view(before).lemma_flatten_push(chunks@[chunks@.len() - 1]@);
        }
    }
    proof {
        let rv = rows_view(chunks@);
        assert forall|r: int| 0 <= r < rv.len() implies 0 < #[trigger] rv[r].len() <= width by {
            if columns == 0 {
                assert(rv.len() == 1);
                rv.lemma_flatten_singleton();
            }
        }
    }
    chunks
}

} // verus!
