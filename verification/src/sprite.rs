//! What drawing a sprite does to the display as a whole: which pixels flip,
//! what the collision flag means, and that drawing twice undoes itself.

use crate::virtual_buffer::{
    cols_drawn, draw, draw_row, draw_rows, pixel_at, pixel_index, rows_drawn, sprite_bit,
    VIRTUAL_PIXELS,
};
use vstd::prelude::*;

verus! {

/// Whether an odd number of dots in the first `cols` columns of the sprite
/// row `byte`, drawn at `(x, y)`, land on the pixel with index `p`.
pub open spec fn row_flips(x: int, y: int, byte: u8, cols: nat, p: int) -> bool
    decreases cols,
{
    if cols == 0 {
        false
    } else {
        let col = (cols - 1) as usize;
        row_flips(x, y, byte, (cols - 1) as nat, p) != (sprite_bit(byte, col) && pixel_index(
            x + col,
            y,
        ) == p)
    }
}

/// Whether an odd number of dots in the first `count` rows of `rows`, drawn
/// from `(x, y)` downwards, `cols` columns of each, land on the pixel with
/// index `p`.
pub open spec fn flips(x: int, y: int, rows: Seq<u8>, count: nat, cols: nat, p: int) -> bool
    decreases count,
{
    if count == 0 {
        false
    } else {
        flips(x, y, rows, (count - 1) as nat, cols, p) != row_flips(
            x,
            y + count - 1,
            rows[count - 1],
            cols,
            p,
        )
    }
}

/// `grid` with every pixel flipped for which `flips` holds.
pub open spec fn flipped(grid: Seq<bool>, x: int, y: int, rows: Seq<u8>, count: nat, cols: nat) -> Seq<
    bool,
> {
    Seq::new(grid.len(), |p: int| grid[p] != flips(x, y, rows, count, cols, p))
}

/// Whether the sprite row would land a dot on a pixel that is lit in `grid`.
spec fn row_lit(grid: Seq<bool>, x: int, y: int, byte: u8, cols: nat) -> bool
    decreases cols,
{
    if cols == 0 {
        false
    } else {
        let col = (cols - 1) as usize;
        row_lit(grid, x, y, byte, (cols - 1) as nat) || (sprite_bit(byte, col) && pixel_at(
            grid,
            x + col,
            y,
        ))
    }
}

/// Whether the sprite would land a dot on a pixel that is lit in `grid`.
spec fn lit(grid: Seq<bool>, x: int, y: int, rows: Seq<u8>, count: nat, cols: nat) -> bool
    decreases count,
{
    if count == 0 {
        false
    } else {
        lit(grid, x, y, rows, (count - 1) as nat, cols) || row_lit(
            grid,
            x,
            y + count - 1,
            rows[count - 1],
            cols,
        )
    }
}

proof fn lemma_index_range(x: int, y: int)
    ensures
        0 <= pixel_index(x, y) < VIRTUAL_PIXELS,
        pixel_index(x, y) / 64 == y % 32,
        pixel_index(x, y) % 64 == x % 64,
{
}

/// A row flips no pixel outside the display row it is drawn in.
proof fn lemma_row_stays_in_row(x: int, y: int, byte: u8, cols: nat, p: int)
    requires
        p / 64 != y % 32,
    ensures
        !row_flips(x, y, byte, cols, p),
    decreases cols,
{
    if cols > 0 {
        lemma_row_stays_in_row(x, y, byte, (cols - 1) as nat, p);
        lemma_index_range(x + (cols - 1) as usize, y);
    }
}

/// The first columns of a row flip no pixel that lies `cols` or more columns
/// to the right of the row's start, as long as the row does not lap itself.
proof fn lemma_row_not_yet(x: int, y: int, byte: u8, cols: nat, later: int)
    requires
        cols <= later < 64,
        cols <= 8,
    ensures
        !row_flips(x, y, byte, cols, pixel_index(x + later, y)),
    decreases cols,
{
    if cols > 0 {
        lemma_row_not_yet(x, y, byte, (cols - 1) as nat, later);
        let col = (cols - 1) as usize;
        assert((x + col) % 64 != (x + later) % 64);
    }
}

/// The first rows flip no pixel of a display row that a later sprite row
/// is drawn in, as long as the sprite does not lap itself.
proof fn lemma_rows_not_yet(
    x: int,
    y: int,
    rows: Seq<u8>,
    count: nat,
    cols: nat,
    later: int,
    p: int,
)
    requires
        count <= later < 32,
        p / 64 == (y + later) % 32,
    ensures
        !flips(x, y, rows, count, cols, p),
    decreases count,
{
    if count > 0 {
        lemma_rows_not_yet(x, y, rows, (count - 1) as nat, cols, later, p);
        assert((y + count - 1) % 32 != (y + later) % 32);
        lemma_row_stays_in_row(x, y + count - 1, rows[count - 1], cols, p);
    }
}

/// Drawing a row flips exactly the pixels that an odd number of its dots
/// land on.
proof fn lemma_row_flipped(grid: Seq<bool>, x: int, y: int, byte: u8, cols: nat)
    requires
        grid.len() == VIRTUAL_PIXELS,
    ensures
        draw_row(grid, x, y, byte, cols).0 == Seq::new(
            grid.len(),
            |p: int| grid[p] != row_flips(x, y, byte, cols, p),
        ),
    decreases cols,
{
    let target = Seq::new(grid.len(), |p: int| grid[p] != row_flips(x, y, byte, cols, p));
    if cols > 0 {
        lemma_row_flipped(grid, x, y, byte, (cols - 1) as nat);
        let col = (cols - 1) as usize;
        lemma_index_range(x + col, y);
        assert(draw_row(grid, x, y, byte, cols).0 =~= target);
    } else {
        assert(draw_row(grid, x, y, byte, cols).0 =~= target);
    }
}

/// Drawing a sprite flips exactly the pixels that an odd number of its
/// dots land on.
proof fn lemma_rows_flipped(grid: Seq<bool>, x: int, y: int, rows: Seq<u8>, count: nat, cols: nat)
    requires
        grid.len() == VIRTUAL_PIXELS,
    ensures
        draw_rows(grid, x, y, rows, count, cols).0 == flipped(grid, x, y, rows, count, cols),
    decreases count,
{
    if count > 0 {
        lemma_rows_flipped(grid, x, y, rows, (count - 1) as nat, cols);
        let before = flipped(grid, x, y, rows, (count - 1) as nat, cols);
        lemma_row_flipped(before, x, y + count - 1, rows[count - 1], cols);
        assert(draw_rows(grid, x, y, rows, count, cols).0 =~= flipped(
            grid,
            x,
            y,
            rows,
            count,
            cols,
        ));
    } else {
        assert(draw_rows(grid, x, y, rows, count, cols).0 =~= flipped(
            grid,
            x,
            y,
            rows,
            count,
            cols,
        ));
    }
}

/// A row collides exactly when one of its dots lands on a pixel that was
/// lit before the row was drawn.
proof fn lemma_row_collision(grid: Seq<bool>, x: int, y: int, byte: u8, cols: nat)
    requires
        grid.len() == VIRTUAL_PIXELS,
        cols <= 8,
    ensures
        draw_row(grid, x, y, byte, cols).1 == row_lit(grid, x, y, byte, cols),
    decreases cols,
{
    if cols > 0 {
        let fewer = (cols - 1) as nat;
        lemma_row_collision(grid, x, y, byte, fewer);
        lemma_row_flipped(grid, x, y, byte, fewer);
        lemma_row_not_yet(x, y, byte, fewer, fewer as int);
        lemma_index_range(x + fewer, y);
    }
}

/// Whether a row would hit a lit pixel depends only on the display row it
/// is drawn in.
proof fn lemma_row_lit_local(a: Seq<bool>, b: Seq<bool>, x: int, y: int, byte: u8, cols: nat)
    requires
        forall|p: int| 0 <= p < VIRTUAL_PIXELS && p / 64 == y % 32 ==> a[p] == b[p],
    ensures
        row_lit(a, x, y, byte, cols) == row_lit(b, x, y, byte, cols),
    decreases cols,
{
    if cols > 0 {
        lemma_row_lit_local(a, b, x, y, byte, (cols - 1) as nat);
        lemma_index_range(x + (cols - 1) as usize, y);
    }
}

/// A sprite that does not lap itself collides exactly when one of its dots
/// lands on a pixel that was lit before the sprite was drawn.
proof fn lemma_rows_collision(
    grid: Seq<bool>,
    x: int,
    y: int,
    rows: Seq<u8>,
    count: nat,
    cols: nat,
)
    requires
        grid.len() == VIRTUAL_PIXELS,
        count <= 32,
        cols <= 8,
    ensures
        draw_rows(grid, x, y, rows, count, cols).1 == lit(grid, x, y, rows, count, cols),
    decreases count,
{
    if count > 0 {
        let fewer = (count - 1) as nat;
        lemma_rows_collision(grid, x, y, rows, fewer, cols);
        lemma_rows_flipped(grid, x, y, rows, fewer, cols);
        let before = flipped(grid, x, y, rows, fewer, cols);
        lemma_row_collision(before, x, y + fewer, rows[fewer as int], cols);
        assert forall|p: int| 0 <= p < VIRTUAL_PIXELS && p / 64 == (y + fewer) % 32 implies before[p]
            == grid[p] by {
            lemma_rows_not_yet(x, y, rows, fewer, cols, fewer as int, p);
        }
        lemma_row_lit_local(before, grid, x, y + fewer, rows[fewer as int], cols);
    }
}

/// A row would hit a lit pixel exactly when it flips one.
proof fn lemma_row_lit_flips(grid: Seq<bool>, x: int, y: int, byte: u8, cols: nat)
    requires
        grid.len() == VIRTUAL_PIXELS,
        cols <= 8,
    ensures
        row_lit(grid, x, y, byte, cols) == exists|p: int|
            0 <= p < VIRTUAL_PIXELS && grid[p] && #[trigger] row_flips(x, y, byte, cols, p),
    decreases cols,
{
    if cols > 0 {
        let fewer = (cols - 1) as nat;
        let col = fewer as usize;
        let q = pixel_index(x + col, y);
        lemma_row_lit_flips(grid, x, y, byte, fewer);
        lemma_row_not_yet(x, y, byte, fewer, fewer as int);
        lemma_index_range(x + col, y);
        if row_lit(grid, x, y, byte, cols) {
            if row_lit(grid, x, y, byte, fewer) {
                let p = choose|p: int|
                    0 <= p < VIRTUAL_PIXELS && grid[p] && #[trigger] row_flips(
                        x,
                        y,
                        byte,
                        fewer,
                        p,
                    );
                assert(p != q);
                assert(row_flips(x, y, byte, cols, p));
            } else {
                assert(row_flips(x, y, byte, cols, q));
            }
        }
        if exists|p: int|
            0 <= p < VIRTUAL_PIXELS && grid[p] && #[trigger] row_flips(x, y, byte, cols, p) {
            let p = choose|p: int|
                0 <= p < VIRTUAL_PIXELS && grid[p] && #[trigger] row_flips(x, y, byte, cols, p);
            if p != q {
                assert(row_flips(x, y, byte, fewer, p));
            }
        }
    }
}

/// A sprite that does not lap itself would hit a lit pixel exactly when it
/// flips one.
proof fn lemma_lit_flips(grid: Seq<bool>, x: int, y: int, rows: Seq<u8>, count: nat, cols: nat)
    requires
        grid.len() == VIRTUAL_PIXELS,
        count <= 32,
        cols <= 8,
    ensures
        lit(grid, x, y, rows, count, cols) == exists|p: int|
            0 <= p < VIRTUAL_PIXELS && grid[p] && #[trigger] flips(x, y, rows, count, cols, p),
    decreases count,
{
    if count > 0 {
        let fewer = (count - 1) as nat;
        let byte = rows[fewer as int];
        lemma_lit_flips(grid, x, y, rows, fewer, cols);
        lemma_row_lit_flips(grid, x, y + fewer, byte, cols);
        if lit(grid, x, y, rows, count, cols) {
            if lit(grid, x, y, rows, fewer, cols) {
                let p = choose|p: int|
                    0 <= p < VIRTUAL_PIXELS && grid[p] && #[trigger] flips(
                        x,
                        y,
                        rows,
                        fewer,
                        cols,
                        p,
                    );
                if p / 64 == (y + fewer) % 32 {
                    lemma_rows_not_yet(x, y, rows, fewer, cols, fewer as int, p);
                } else {
                    lemma_row_stays_in_row(x, y + fewer, byte, cols, p);
                }
                assert(flips(x, y, rows, count, cols, p));
            } else {
                let p = choose|p: int|
                    0 <= p < VIRTUAL_PIXELS && grid[p] && #[trigger] row_flips(
                        x,
                        y + fewer,
                        byte,
                        cols,
                        p,
                    );
                if p / 64 == (y + fewer) % 32 {
                    lemma_rows_not_yet(x, y, rows, fewer, cols, fewer as int, p);
                } else {
                    lemma_row_stays_in_row(x, y + fewer, byte, cols, p);
                }
                assert(flips(x, y, rows, count, cols, p));
            }
        }
        if exists|p: int|
            0 <= p < VIRTUAL_PIXELS && grid[p] && #[trigger] flips(x, y, rows, count, cols, p) {
            let p = choose|p: int|
                0 <= p < VIRTUAL_PIXELS && grid[p] && #[trigger] flips(x, y, rows, count, cols, p);
            if flips(x, y, rows, fewer, cols, p) {
            } else {
                assert(row_flips(x, y + fewer, byte, cols, p));
            }
        }
    }
}

/// The number of sprite rows that `draw` draws.
pub open spec fn drawn_rows(y: int, num_rows: nat, pixels: Seq<u8>, clip: bool) -> nat {
    rows_drawn(
        y,
        if num_rows <= pixels.len() {
            num_rows
        } else {
            pixels.len()
        },
        clip,
    )
}

/// Drawing flips exactly the pixels on which an odd number of the sprite's
/// dots land, and no others.
pub proof fn law_draw_flips(
    grid: Seq<bool>,
    x: int,
    y: int,
    num_rows: nat,
    pixels: Seq<u8>,
    clip: bool,
)
    requires
        grid.len() == VIRTUAL_PIXELS,
    ensures
        draw(grid, x, y, num_rows, pixels, clip).0 == flipped(
            grid,
            x,
            y,
            pixels,
            drawn_rows(y, num_rows, pixels, clip),
            cols_drawn(x, clip),
        ),
{
    lemma_rows_flipped(
        grid,
        x,
        y,
        pixels,
        drawn_rows(y, num_rows, pixels, clip),
        cols_drawn(x, clip),
    );
}

/// Drawing the same sprite twice at the same place, with nothing drawn in
/// between, leaves the display as it was before the first draw.
pub proof fn law_draw_twice_restores(
    grid: Seq<bool>,
    x: int,
    y: int,
    num_rows: nat,
    pixels: Seq<u8>,
    clip: bool,
)
    requires
        grid.len() == VIRTUAL_PIXELS,
    ensures
        draw(draw(grid, x, y, num_rows, pixels, clip).0, x, y, num_rows, pixels, clip).0 == grid,
{
    let once = draw(grid, x, y, num_rows, pixels, clip).0;
    law_draw_flips(grid, x, y, num_rows, pixels, clip);
    law_draw_flips(once, x, y, num_rows, pixels, clip);
    assert(draw(once, x, y, num_rows, pixels, clip).0 =~= grid);
}

/// A sprite of at most 32 rows reports a collision exactly when drawing it
/// switched off some pixel that was lit.
pub proof fn law_collision_is_switch_off(
    grid: Seq<bool>,
    x: int,
    y: int,
    num_rows: nat,
    pixels: Seq<u8>,
    clip: bool,
)
    requires
        grid.len() == VIRTUAL_PIXELS,
        drawn_rows(y, num_rows, pixels, clip) <= 32,
    ensures
        ({
            let (after, collision) = draw(grid, x, y, num_rows, pixels, clip);
            collision == exists|p: int| 0 <= p < VIRTUAL_PIXELS && #[trigger] grid[p] && !after[p]
        }),
{
    let count = drawn_rows(y, num_rows, pixels, clip);
    let cols = cols_drawn(x, clip);
    let (after, collision) = draw(grid, x, y, num_rows, pixels, clip);
    lemma_rows_flipped(grid, x, y, pixels, count, cols);
    lemma_rows_collision(grid, x, y, pixels, count, cols);
    lemma_lit_flips(grid, x, y, pixels, count, cols);
    if collision {
        let p = choose|p: int|
            0 <= p < VIRTUAL_PIXELS && grid[p] && #[trigger] flips(x, y, pixels, count, cols, p);
        assert(grid[p] && !after[p]);
    }
    if exists|p: int| 0 <= p < VIRTUAL_PIXELS && #[trigger] grid[p] && !after[p] {
        let p = choose|p: int| 0 <= p < VIRTUAL_PIXELS && #[trigger] grid[p] && !after[p];
        assert(flips(x, y, pixels, count, cols, p));
    }
}

/// When a sprite of at most 32 rows is drawn twice at the same place, the
/// second draw reports a collision exactly when the first draw switched on
/// some pixel.
pub proof fn law_redraw_collision(
    grid: Seq<bool>,
    x: int,
    y: int,
    num_rows: nat,
    pixels: Seq<u8>,
    clip: bool,
)
    requires
        grid.len() == VIRTUAL_PIXELS,
        drawn_rows(y, num_rows, pixels, clip) <= 32,
    ensures
        ({
            let (once, first) = draw(grid, x, y, num_rows, pixels, clip);
            let (twice, second) = draw(once, x, y, num_rows, pixels, clip);
            &&& twice == grid
            &&& second == exists|p: int| 0 <= p < VIRTUAL_PIXELS && !#[trigger] grid[p] && once[p]
        }),
{
    let (once, first) = draw(grid, x, y, num_rows, pixels, clip);
    let (twice, second) = draw(once, x, y, num_rows, pixels, clip);
    law_draw_flips(grid, x, y, num_rows, pixels, clip);
    law_draw_twice_restores(grid, x, y, num_rows, pixels, clip);
    law_collision_is_switch_off(once, x, y, num_rows, pixels, clip);
    if second {
        let p = choose|p: int| 0 <= p < VIRTUAL_PIXELS && #[trigger] once[p] && !twice[p];
        assert(!grid[p] && once[p]);
    }
    if exists|p: int| 0 <= p < VIRTUAL_PIXELS && !#[trigger] grid[p] && once[p] {
        let p = choose|p: int| 0 <= p < VIRTUAL_PIXELS && !#[trigger] grid[p] && once[p];
        assert(once[p] && !twice[p]);
    }
}

} // verus!
