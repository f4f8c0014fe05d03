//! How cards are laid out in a grid of columns.
use vstd::prelude::*;

verus! {

/// Edge length of the icon on an application card.
pub const ICON_SIZE_CARD: u16 = 48;

/// Width set aside for the text of an application card.
pub const CARD_TEXT_WIDTH: u16 = 180;

/// The theme's spacing scale, smallest to largest.
#[derive(Clone, Copy, Debug)]
pub struct Spacing {
    pub space_none: u16,
    pub space_xxxs: u16,
    pub space_xxs: u16,
    pub space_xs: u16,
    pub space_s: u16,
    pub space_m: u16,
    pub space_l: u16,
    pub space_xl: u16,
    pub space_xxl: u16,
    pub space_xxxl: u16,
}

/// The narrowest a card may be: its icon with padding on both sides, a gap,
/// and its text.
pub open spec fn card_min_width(spacing: Spacing) -> int {
    ICON_SIZE_CARD + 2 * spacing.space_xxs + spacing.space_xs + CARD_TEXT_WIDTH
}

/// How many columns of cards fit in `width`: one, and one more for each
/// further card with its gap that fits beside the first.
pub open spec fn spec_grid_cols(width: usize, spacing: Spacing) -> int {
    (if width >= card_min_width(spacing) { width - card_min_width(spacing) } else { 0int })
        / (card_min_width(spacing) + spacing.space_m) + 1
}

/// The width of each card: what the gaps leave of `width`, shared out
/// among the columns.
pub open spec fn spec_item_width(width: usize, spacing: Spacing) -> int {
    (width - (spec_grid_cols(width, spacing) - 1) * spacing.space_m) / spec_grid_cols(width, spacing)
}

/// The number of columns, the width of each card, and the gap between columns.
#[derive(Clone, Copy, Debug)]
pub struct GridMetrics {
    pub cols: usize,
    pub item_width: usize,
    pub column_spacing: u16,
}

/// Where the `i`-th item goes: its row and column. Items fill each row from
/// the left before a new row starts; a grid of no columns puts every item in
/// a row of its own, after a first row that stays empty.
pub open spec fn grid_cell(cols: usize, i: int) -> (int, int) {
    if cols == 0 {
        (i + 1, 0)
    } else {
        (i / cols as int, i % cols as int)
    }
}

impl GridMetrics {
    /// The grid for a width: as many columns as fit at the cards' least
    /// width with their gaps (at least one), sharing out the width that the
    /// gaps leave.
    pub fn new(width: usize, spacing: &Spacing) -> (r: Self)
        requires
            card_min_width(*spacing) <= u16::MAX,
        ensures
            r.column_spacing == spacing.space_m,
            r.cols as int == spec_grid_cols(width, *spacing),
            r.item_width as int == spec_item_width(width, *spacing),
            r.cols >= 1,
            width >= card_min_width(*spacing) ==> r.cols * card_min_width(*spacing) + (r.cols - 1) * spacing.space_m <= width,
            width < (r.cols + 1) * card_min_width(*spacing) + r.cols * spacing.space_m,
            r.cols * r.item_width + (r.cols - 1) * spacing.space_m <= width,
    {
        let min_width = (ICON_SIZE_CARD + 2 * spacing.space_xxs + spacing.space_xs + CARD_TEXT_WIDTH) as usize;
        let column_spacing = spacing.space_m;
        let width_m1 = width.saturating_sub(min_width);
        let step = min_width + column_spacing as usize;
        let cols_m1 = width_m1 / step;
        let cs = column_spacing as usize;
        proof {
            let q = cols_m1 as int;
            let d = step as int;
            let w = width_m1 as int;
            assert(q * d <= w && w < (q + 1) * d) by (nonlinear_arith)
                requires q == w / d, d > 0, w >= 0;
            assert(q * (cs as int) <= q * d) by (nonlinear_arith)
                requires cs as int <= d, q >= 0;
            assert(q * d == q * (min_width as int) + q * (cs as int)) by (nonlinear_arith)
                requires d == min_width + cs;
            assert((q + 1) * d == (q + 1) * (min_width as int) + (q + 1) * (cs as int)) by (nonlinear_arith)
                requires d == min_width + cs;
        }
        let cols = cols_m1 + 1;
        proof {
            let q = cols_m1 as int;
            let d = step as int;
            let m = min_width as int;
            let c = cols as int;
            assert(c * m + (c - 1) * (cs as int) == m + q * d) by (nonlinear_arith)
                requires c == q + 1, d == m + cs;
            assert((c + 1) * m + c * (cs as int) == m + (q + 1) * d) by (nonlinear_arith)
                requires c == q + 1, d == m + cs;
            assert((q + 1) * d >= 0) by (nonlinear_arith) requires q >= 0, d > 0;
        }
        let used = cols_m1 * cs;
        let item_width = width.saturating_sub(used) / cols;
        proof {
            let c = cols as int;
            let rest = (width - used) as int;
            assert(c * (item_width as int) <= rest) by (nonlinear_arith)
                requires item_width as int == rest / c, c > 0, rest >= 0;
        }
        GridMetrics { cols, item_width, column_spacing }
    }

    /// The cell of each of `n_items` items, in order.
    pub fn build_grid(&self, n_items: usize) -> (r: Vec<(usize, usize)>)
        ensures
            r@.len() == n_items,
            forall|i: int| 0 <= i < n_items ==> (#[trigger] r@[i]).0 as int == grid_cell(self.cols, i).0
                && r@[i].1 as int == grid_cell(self.cols, i).1,
    {
        let cols = self.cols;
        let mut cells: Vec<(usize, usize)> = Vec::new();
        let mut row: usize = 0;
        let mut col: usize = 0;
        let mut i: usize = 0;
        while i < n_items
            invariant
                cols == self.cols,
                i <= n_items,
                cells@.len() == i,
                forall|k: int| 0 <= k < i ==> (#[trigger] cells@[k]).0 as int == grid_cell(cols, k).0
                    && cells@[k].1 as int == grid_cell(cols, k).1,
                cols > 0 ==> i == row * cols + col && col <= cols && row <= i,
                cols == 0 ==> row == i && col == (if i == 0 { 0usize } else { 1usize }),
            decreases n_items - i,
        {
            if col >= cols {
                proof {
                    if cols > 0 {
                        assert((row + 1) * cols == row * cols + cols) by (nonlinear_arith);
                        assert(row + 1 <= i + 1) by (nonlinear_arith)
                            requires i == row * cols + col, col == cols, cols > 0;
                    }
                }
                row = row + 1;
                col = 0;
            }
            proof {
                if cols > 0 {
                    vstd::arithmetic::div_mod::lemma_fundamental_div_mod_converse(
                        i as int, cols as int, row as int, col as int);
                    assert(i as int == row * cols + col);
                }
            }
            cells.push((row, col));
            col = col + 1;
            i = i + 1;
        }
        cells
    }
}

/// Items fill the grid in reading order: an earlier item stands in an
/// earlier row, or in the same row further left, and no column goes past
/// the grid's last.
pub proof fn lemma_grid_reading_order(cols: usize, i: int, j: int)
    requires
        0 <= i < j,
    ensures
        grid_cell(cols, i).0 < grid_cell(cols, j).0
            || (grid_cell(cols, i).0 == grid_cell(cols, j).0 && grid_cell(cols, i).1 < grid_cell(cols, j).1),
        0 <= grid_cell(cols, j).1 && (cols == 0 || grid_cell(cols, j).1 < cols),
{
    if cols > 0 {
        let c = cols as int;
        vstd::arithmetic::div_mod::lemma_fundamental_div_mod(i, c);
        vstd::arithmetic::div_mod::lemma_fundamental_div_mod(j, c);
        vstd::arithmetic::div_mod::lemma_mod_pos_bound(i, c);
        vstd::arithmetic::div_mod::lemma_mod_pos_bound(j, c);
        let qi = i / c;
        let qj = j / c;
        if qj < qi {
            assert(c * qj + c <= c * qi) by (nonlinear_arith)
                requires qj < qi, c > 0;
        } else if qj == qi {
        }
    }
}

/// A wider window never shows fewer columns.
pub proof fn lemma_grid_cols_monotone(w1: usize, w2: usize, spacing: Spacing)
    requires
        w1 <= w2,
    ensures
        spec_grid_cols(w1, spacing) <= spec_grid_cols(w2, spacing),
{
    let m = card_min_width(spacing);
    let a: int = if w1 >= m { w1 - m } else { 0 };
    let b: int = if w2 >= m { w2 - m } else { 0 };
    vstd::arithmetic::div_mod::lemma_div_is_ordered(a, b, m + spacing.space_m);
}

} // verus!
