//! The 64x32 monochrome display, stored magnified: every logical pixel is
//! backed by a square block of identical real pixels.

use vstd::prelude::*;

verus! {

/// The width of the logical display in pixels.
pub const VIRTUAL_WIDTH: usize = 64;

/// The height of the logical display in pixels.
pub const VIRTUAL_HEIGHT: usize = 32;

/// The number of logical pixels.
pub const VIRTUAL_PIXELS: usize = 2048;

/// The RGBA value that a lit pixel is rendered with.
pub const PIXEL_ON: u32 = 0xFFFFFFFF;

/// The RGBA value that a dark pixel is rendered with.
pub const PIXEL_OFF: u32 = 0x1A1A1AFF;

/// Where the logical pixel `(x, y)` lies in a row-major grid. Coordinates
/// beyond the screen wrap around.
pub open spec fn pixel_index(x: int, y: int) -> int {
    (y % 32) * 64 + (x % 64)
}

/// The grid with every pixel off.
pub open spec fn blank() -> Seq<bool> {
    Seq::new(VIRTUAL_PIXELS as nat, |i: int| false)
}

/// The state of pixel `(x, y)` of `grid`.
pub open spec fn pixel_at(grid: Seq<bool>, x: int, y: int) -> bool {
    grid[pixel_index(x, y)]
}

/// `grid` after `state` was XORed into pixel `(x, y)`.
pub open spec fn xor_pixel(grid: Seq<bool>, x: int, y: int, state: bool) -> Seq<bool> {
    grid.update(pixel_index(x, y), grid[pixel_index(x, y)] != state)
}

/// Whether the sprite row `byte` has a dot in column `col`; column 0 is the
/// most significant bit.
pub open spec fn sprite_bit(byte: u8, col: usize) -> bool {
    byte & (0x80u8 >> col) != 0
}

/// How many columns of a sprite at `x` are drawn. With clipping, drawing
/// stops behind the screen's last column; a sprite that starts beyond the
/// screen is wrapped whole.
pub open spec fn cols_drawn(x: int, clip: bool) -> nat {
    if clip && x <= 63 && 64 - x < 8 {
        (64 - x) as nat
    } else {
        8
    }
}

/// How many of `total` sprite rows at `y` are drawn. With clipping, drawing
/// stops behind the screen's last row.
pub open spec fn rows_drawn(y: int, total: nat, clip: bool) -> nat {
    if clip && y <= 31 && 32 - y < total {
        (32 - y) as nat
    } else {
        total
    }
}

/// The grid after the first `cols` columns of the sprite row `byte` were
/// drawn at `(x, y)`, and whether a lit pixel was switched off on the way.
pub open spec fn draw_row(grid: Seq<bool>, x: int, y: int, byte: u8, cols: nat) -> (Seq<bool>, bool)
    decreases cols,
{
    if cols == 0 {
        (grid, false)
    } else {
        let (before, collision) = draw_row(grid, x, y, byte, (cols - 1) as nat);
        let col = (cols - 1) as usize;
        if sprite_bit(byte, col) {
            (xor_pixel(before, x + col, y, true), collision || pixel_at(before, x + col, y))
        } else {
            (before, collision)
        }
    }
}

/// The grid after the first `count` rows of `rows` were drawn from `(x, y)`
/// downwards, `cols` columns of each, and whether a lit pixel was switched
/// off on the way.
pub open spec fn draw_rows(
    grid: Seq<bool>,
    x: int,
    y: int,
    rows: Seq<u8>,
    count: nat,
    cols: nat,
) -> (Seq<bool>, bool)
    decreases count,
{
    if count == 0 {
        (grid, false)
    } else {
        let (before, collision) = draw_rows(grid, x, y, rows, (count - 1) as nat, cols);
        let (after, hit) = draw_row(before, x, y + count - 1, rows[count - 1], cols);
        (after, collision || hit)
    }
}

/// The grid after a sprite was drawn at `(x, y)`, and whether any lit pixel
/// was switched off. The sprite is the first `num_rows` bytes of `pixels`,
/// or all of them if there are fewer.
pub open spec fn draw(
    grid: Seq<bool>,
    x: int,
    y: int,
    num_rows: nat,
    pixels: Seq<u8>,
    clip: bool,
) -> (Seq<bool>, bool) {
    let total = if num_rows <= pixels.len() {
        num_rows
    } else {
        pixels.len()
    };
    draw_rows(grid, x, y, pixels, rows_drawn(y, total, clip), cols_drawn(x, clip))
}

/// Byte `k` of `rgba` in big-endian order.
pub open spec fn rgba_byte(rgba: u32, k: int) -> u8 {
    if k == 0 {
        (rgba / 0x100_0000) as u8
    } else if k == 1 {
        (rgba / 0x1_0000 % 0x100) as u8
    } else if k == 2 {
        (rgba / 0x100 % 0x100) as u8
    } else {
        (rgba % 0x100) as u8
    }
}

/// The four bytes of `rgba` in big-endian order.
fn be_bytes(rgba: u32) -> (bytes: [u8; 4])
    ensures
        forall|k: int| 0 <= k < 4 ==> bytes@[k] == rgba_byte(rgba, k),
{
    let b0 = rgba >> 24;
    let b1 = (rgba >> 16) & 0xff;
    let b2 = (rgba >> 8) & 0xff;
    let b3 = rgba & 0xff;
    assert(b0 == rgba / 0x100_0000 && b0 < 0x100) by (bit_vector)
        requires
            b0 == rgba >> 24,
    ;
    assert(b1 == rgba / 0x1_0000 % 0x100 && b1 < 0x100) by (bit_vector)
        requires
            b1 == (rgba >> 16) & 0xff,
    ;
    assert(b2 == rgba / 0x100 % 0x100 && b2 < 0x100) by (bit_vector)
        requires
            b2 == (rgba >> 8) & 0xff,
    ;
    assert(b3 == rgba % 0x100 && b3 < 0x100) by (bit_vector)
        requires
            b3 == rgba & 0xff,
    ;
    [b0 as u8, b1 as u8, b2 as u8, b3 as u8]
}

/// The colour that a real pixel is rendered with.
pub open spec fn colour_of(on: bool) -> u32 {
    if on {
        PIXEL_ON
    } else {
        PIXEL_OFF
    }
}

/// `frame` after the pixels of `buffer` were rendered into it, four bytes
/// to the pixel; what lies behind them is left as it was.
pub open spec fn rendered(frame: Seq<u8>, buffer: Seq<bool>) -> Seq<u8> {
    Seq::new(
        frame.len(),
        |i: int|
            if i < 4 * buffer.len() {
                rgba_byte(colour_of(buffer[i / 4]), i % 4)
            } else {
                frame[i]
            },
    )
}

/// The logical pixel that the real pixel at index `j` of the backing buffer
/// belongs to, at magnification `scale`.
pub open spec fn cell_of(j: int, scale: int) -> int {
    ((j / (64 * scale)) / scale) * 64 + (j % (64 * scale)) / scale
}

/// The index in the backing buffer of the top left real pixel of the logical
/// pixel `i`.
pub open spec fn anchor_of(i: int, scale: int) -> int {
    ((i / 64) * scale) * (64 * scale) + (i % 64) * scale
}

/// Every real pixel of `buffer` equals the top left one of its block.
pub open spec fn uniform(buffer: Seq<bool>, scale: int) -> bool {
    forall|j: int|
        0 <= j < buffer.len() ==> buffer[j] == buffer[anchor_of(cell_of(j, scale), scale)]
}

/// The logical grid that a uniform buffer shows.
pub open spec fn logical(buffer: Seq<bool>, scale: int) -> Seq<bool> {
    Seq::new(VIRTUAL_PIXELS as nat, |i: int| buffer[anchor_of(i, scale)])
}

/// A real pixel's row and column lie within the buffer and determine its index.
proof fn lemma_split(j: int, s: int)
    by (nonlinear_arith)
    requires
        s >= 1,
        0 <= j < (64 * s) * (32 * s),
    ensures
        0 <= j / (64 * s) < 32 * s,
        0 <= j % (64 * s) < 64 * s,
        j == (j / (64 * s)) * (64 * s) + j % (64 * s),
        0 <= (j / (64 * s)) / s < 32,
        0 <= (j % (64 * s)) / s < 64,
        0 <= cell_of(j, s) < 2048,
{
    let w = 64 * s;
    let r = j / w;
    let c = j % w;
    assert(j == w * r + c && 0 <= c < w) by {
        vstd::arithmetic::div_mod::lemma_fundamental_div_mod(j, w);
        vstd::arithmetic::div_mod::lemma_mod_bound(j, w);
    }
    assert(0 <= r < 32 * s) by {
        if r >= 32 * s {
            assert(w * r >= w * (32 * s));
        }
        if r < 0 {
            assert(w * r <= -w);
        }
    }
    assert(0 <= r / s < 32) by {
        vstd::arithmetic::div_mod::lemma_fundamental_div_mod(r, s);
        vstd::arithmetic::div_mod::lemma_mod_bound(r, s);
        if r / s >= 32 {
            assert(s * (r / s) >= s * 32);
        }
        if r / s < 0 {
            assert(s * (r / s) <= -s);
        }
    }
    assert(0 <= c / s < 64) by {
        vstd::arithmetic::div_mod::lemma_fundamental_div_mod(c, s);
        vstd::arithmetic::div_mod::lemma_mod_bound(c, s);
        if c / s >= 64 {
            assert(s * (c / s) >= s * 64);
        }
        if c / s < 0 {
            assert(s * (c / s) <= -s);
        }
    }
}

/// A row and a column within the buffer give an index within it, from which
/// both can be read back.
proof fn lemma_join(r: int, c: int, s: int)
    requires
        s >= 1,
        0 <= r < 32 * s,
        0 <= c < 64 * s,
    ensures
        0 <= r * (64 * s) + c < (64 * s) * (32 * s),
        (r * (64 * s) + c) / (64 * s) == r,
        (r * (64 * s) + c) % (64 * s) == c,
{
    let w = 64 * s;
    assert(0 <= r * w + c < w * (32 * s)) by (nonlinear_arith)
        requires
            0 <= r < 32 * s,
            0 <= c < w,
            w >= 1,
    {
        assert(r * w <= (32 * s - 1) * w);
    }
    vstd::arithmetic::div_mod::lemma_fundamental_div_mod_converse(r * w + c, w, r, c);
}

/// A coordinate lies in the block of the logical coordinate `a` exactly when
/// dividing it by the scale gives `a`.
proof fn lemma_block(c: int, a: int, s: int)
    by (nonlinear_arith)
    requires
        s >= 1,
        0 <= c,
    ensures
        (a * s <= c < (a + 1) * s) <==> c / s == a,
{
    vstd::arithmetic::div_mod::lemma_fundamental_div_mod(c, s);
    vstd::arithmetic::div_mod::lemma_mod_bound(c, s);
    let q = c / s;
    assert(c == s * q + c % s);
    if a * s <= c < (a + 1) * s {
        if q < a {
            assert(s * q <= s * (a - 1));
        }
        if q > a {
            assert(s * q >= s * (a + 1));
        }
    }
    if q == a {
        assert(a * s == s * q);
        assert((a + 1) * s == s * q + s);
    }
}

/// The anchor of a logical pixel lies within the buffer and belongs to that
/// pixel.
proof fn lemma_anchor(i: int, s: int)
    requires
        s >= 1,
        0 <= i < 2048,
    ensures
        0 <= anchor_of(i, s) < (64 * s) * (32 * s),
        cell_of(anchor_of(i, s), s) == i,
        anchor_of(i, s) / (64 * s) == (i / 64) * s,
        anchor_of(i, s) % (64 * s) == (i % 64) * s,
{
    let y = i / 64;
    let x = i % 64;
    assert(0 <= y * s < 32 * s && 0 <= x * s < 64 * s) by (nonlinear_arith)
        requires
            0 <= y < 32,
            0 <= x < 64,
            s >= 1,
    ;
    lemma_join(y * s, x * s, s);
    lemma_block(y * s, y, s);
    lemma_block(x * s, x, s);
    assert(y * s < (y + 1) * s && x * s < (x + 1) * s) by (nonlinear_arith)
        requires
            s >= 1,
    ;
}

/// XORs `state` into every real pixel of the block that backs the logical
/// pixel `(x, y)`.
fn xor_block(buffer: &mut Vec<bool>, scale: usize, x: usize, y: usize, state: bool)
    requires
        scale >= 1,
        old(buffer)@.len() == (64 * scale) * (32 * scale),
        uniform(old(buffer)@, scale as int),
        x < 64,
        y < 32,
    ensures
        final(buffer)@.len() == old(buffer)@.len(),
        uniform(final(buffer)@, scale as int),
        logical(final(buffer)@, scale as int) == xor_pixel(
            logical(old(buffer)@, scale as int),
            x as int,
            y as int,
            state,
        ),
    no_unwind
{
    let ghost s = scale as int;
    let ghost w = 64 * s;
    let ghost before = buffer@;
    let n = buffer.len();
    proof {
        assert((64 * s) * (32 * s) >= 64 * s && (x + 1) * s <= 64 * s && (y + 1) * s <= 32 * s
            && x * s <= (x + 1) * s && y * s <= (y + 1) * s) by (nonlinear_arith)
            requires
                s >= 1,
                0 <= x < 64,
                0 <= y < 32,
        ;
    }
    let width = 64 * scale;
    let start_x = x * scale;
    let start_y = y * scale;
    let end_x = (x + 1) * scale;
    let end_y = (y + 1) * scale;
    let mut ry = start_y;
    while ry < end_y
        invariant
            s == scale as int,
            w == 64 * s,
            width == w,
            s >= 1,
            x < 64,
            y < 32,
            start_x == x * s,
            start_y == y * s,
            end_x == (x + 1) * s,
            end_y == (y + 1) * s,
            end_x <= 64 * s,
            end_y <= 32 * s,
            start_x <= end_x,
            start_y <= ry <= end_y,
            buffer@.len() == w * (32 * s),
            before.len() == w * (32 * s),
            n == before.len(),
            forall|j: int|
                0 <= j < before.len() ==> buffer@[j] == (before[j] != (state && start_x <= j % w
                    < end_x && start_y <= j / w < ry)),
        decreases end_y - ry,
    {
        let mut rx = start_x;
        while rx < end_x
            invariant
                s == scale as int,
                w == 64 * s,
                width == w,
                s >= 1,
                start_y <= ry < end_y,
                end_x <= 64 * s,
                end_y <= 32 * s,
                start_x <= rx <= end_x,
                buffer@.len() == w * (32 * s),
                before.len() == w * (32 * s),
                n == before.len(),
                forall|j: int|
                    0 <= j < before.len() ==> buffer@[j] == (before[j] != (state && start_x <= j
                        % w < end_x && (start_y <= j / w < ry || (j / w == ry && j % w < rx)))),
            decreases end_x - rx,
        {
            proof {
                lemma_join(ry as int, rx as int, s);
                assert(0 <= ry * w <= ry * w + rx) by (nonlinear_arith)
                    requires
                        ry >= 0,
                        w >= 0,
                        rx >= 0,
                ;
            }
            let index = ry * width + rx;
            let ghost prev = buffer@;
            let current = buffer[index];
            buffer[index] = current != state;
            proof {
                assert forall|j: int| 0 <= j < before.len() implies buffer@[j] == (before[j] != (
                state && start_x <= j % w < end_x && (start_y <= j / w < ry || (j / w == ry && j
                    % w < rx + 1)))) by {
                    lemma_split(j, s);
                    if j != index {
                        assert(buffer@[j] == prev[j]);
                        assert(!(j / w == ry && j % w == rx));
                    }
                }
            }
            rx += 1;
        }
        ry += 1;
    }
    proof {
        assert forall|j: int| 0 <= j < before.len() implies buffer@[j] == (before[j] != (state
            && cell_of(j, s) == y * 64 + x)) by {
            lemma_split(j, s);
            lemma_block(j % w, x as int, s);
            lemma_block(j / w, y as int, s);
        }
        assert forall|j: int| 0 <= j < buffer@.len() implies buffer@[j] == buffer@[anchor_of(
            cell_of(j, s),
            s,
        )] by {
            lemma_split(j, s);
            lemma_anchor(cell_of(j, s), s);
        }
        assert forall|i: int| 0 <= i < 2048 implies logical(buffer@, s)[i] == xor_pixel(
            logical(before, s),
            x as int,
            y as int,
            state,
        )[i] by {
            lemma_anchor(i, s);
        }
        assert(logical(buffer@, s) =~= xor_pixel(logical(before, s), x as int, y as int, state));
    }
}

/// Switches every real pixel off.
fn fill_off(buffer: &mut Vec<bool>, scale: usize)
    requires
        scale >= 1,
        old(buffer)@.len() == (64 * scale) * (32 * scale),
    ensures
        final(buffer)@.len() == old(buffer)@.len(),
        uniform(final(buffer)@, scale as int),
        logical(final(buffer)@, scale as int) == blank(),
    no_unwind
{
    let n = buffer.len();
    let mut i: usize = 0;
    while i < n
        invariant
            i <= n,
            n == buffer@.len(),
            n == old(buffer)@.len(),
            forall|j: int| 0 <= j < i ==> !buffer@[j],
        decreases n - i,
    {
        buffer[i] = false;
        i += 1;
    }
    proof {
        let s = scale as int;
        assert forall|j: int| 0 <= j < buffer@.len() implies buffer@[j] == buffer@[anchor_of(
            cell_of(j, s),
            s,
        )] by {
            lemma_split(j, s);
            lemma_anchor(cell_of(j, s), s);
        }
        assert forall|i: int| 0 <= i < 2048 implies !logical(buffer@, s)[i] by {
            lemma_anchor(i, s);
        }
        assert(logical(buffer@, s) =~= blank());
    }
}

/// A virtual display: a grid of 64x32 logical pixels that are on or off,
/// stored at `scale_factor` real pixels per logical pixel in each direction.
///
/// Its view is the logical grid, row by row: 2048 booleans.
#[derive(Debug)]
pub struct VirtualDisplay {
    /// The real pixels, row by row.
    buffer: Vec<bool>,
    /// The width of the buffer in real pixels.
    scaled_width: usize,
    /// The height of the buffer in real pixels.
    scaled_height: usize,
    /// The number of real pixels per logical pixel, in each direction.
    scale_factor: usize,
}

impl View for VirtualDisplay {
    type V = Seq<bool>;

    closed spec fn view(&self) -> Seq<bool> {
        logical(self.buffer@, self.scale_factor as int)
    }
}

impl VirtualDisplay {
    /// The magnification: how many real pixels back one logical pixel, in
    /// each direction.
    pub closed spec fn scale(&self) -> nat {
        self.scale_factor as nat
    }

    /// The real pixels, row by row, `64 * scale` to the row.
    pub closed spec fn backing(&self) -> Seq<bool> {
        self.buffer@
    }

    /// Every real pixel shows the state of the logical pixel it belongs to.
    pub open spec fn magnified(&self) -> bool {
        &&& self.scale() >= 1
        &&& self@.len() == VIRTUAL_PIXELS
        &&& self.backing().len() == (64 * self.scale()) * (32 * self.scale())
        &&& forall|j: int|
            0 <= j < self.backing().len() ==> self.backing()[j] == self@[cell_of(
                j,
                self.scale() as int,
            )]
    }

    #[verifier::type_invariant]
    spec fn inv(&self) -> bool {
        &&& self.scale_factor >= 1
        &&& self.scaled_width == 64 * self.scale_factor
        &&& self.scaled_height == 32 * self.scale_factor
        &&& self.buffer@.len() == (64 * self.scale_factor) * (32 * self.scale_factor)
        &&& uniform(self.buffer@, self.scale_factor as int)
    }

    /// Constructs a dark display at the given magnification.
    pub fn new(scale_factor: usize) -> (d: Self)
        requires
            scale_factor >= 1,
            (64 * scale_factor) * (32 * scale_factor) <= usize::MAX,
        ensures
            d@ == blank(),
            d.scale() == scale_factor,
            d.magnified(),
    {
        proof {
            let s = scale_factor as int;
            assert(64 * s <= (64 * s) * (32 * s) && 32 * s <= (64 * s) * (32 * s))
                by (nonlinear_arith)
                requires
                    s >= 1,
            ;
        }
        let buffer = vec![false; (VIRTUAL_WIDTH * scale_factor) * (VIRTUAL_HEIGHT * scale_factor)];
        proof {
            assert forall|j: int| 0 <= j < buffer@.len() implies !buffer@[j] && !buffer@[anchor_of(
                cell_of(j, scale_factor as int),
                scale_factor as int,
            )] by {
                lemma_split(j, scale_factor as int);
                lemma_anchor(cell_of(j, scale_factor as int), scale_factor as int);
            }
        }
        let d = Self {
            buffer,
            scaled_width: VIRTUAL_WIDTH * scale_factor,
            scaled_height: VIRTUAL_HEIGHT * scale_factor,
            scale_factor,
        };
        proof {
            assert forall|i: int| 0 <= i < 2048 implies !d.buffer@[anchor_of(
                i,
                scale_factor as int,
            )] by {
                lemma_anchor(i, scale_factor as int);
            }
            assert(d@ =~= blank());
            d.lemma_magnified();
        }
        d
    }

    /// The width of the backing buffer in real pixels.
    pub fn scaled_width(&self) -> (w: usize)
        ensures
            w == 64 * self.scale(),
    {
        proof {
            use_type_invariant(self);
        }
        self.scaled_width
    }

    /// The height of the backing buffer in real pixels.
    pub fn scaled_height(&self) -> (h: usize)
        ensures
            h == 32 * self.scale(),
    {
        proof {
            use_type_invariant(self);
        }
        self.scaled_height
    }

    /// The real pixels, row by row, for a host to present.
    pub fn as_slice(&self) -> (pixels: &[bool])
        ensures
            pixels@ == self.backing(),
            self.magnified(),
    {
        proof {
            use_type_invariant(self);
            self.lemma_magnified();
        }
        self.buffer.as_slice()
    }

    /// Switches every pixel off.
    pub fn clear(&mut self)
        ensures
            final(self)@ == blank(),
            final(self).scale() == old(self).scale(),
            final(self).magnified(),
    {
        proof {
            use_type_invariant(&*self);
        }
        fill_off(&mut self.buffer, self.scale_factor);
        proof {
            use_type_invariant(&*self);
            self.lemma_magnified();
        }
    }

    /// The state of the logical pixel `(x, y)`. Coordinates beyond the screen
    /// wrap around.
    pub fn get_pixel(&self, x: usize, y: usize) -> (on: bool)
        ensures
            on == pixel_at(self@, x as int, y as int),
    {
        let x = x % VIRTUAL_WIDTH;
        let y = y % VIRTUAL_HEIGHT;
        proof {
            use_type_invariant(self);
            let s = self.scale_factor as int;
            assert(self.buffer.len() == self.buffer@.len());
            lemma_anchor(y * 64 + x, s);
            assert(0 <= y * s < 32 * s && 0 <= x * s < 64 * s) by (nonlinear_arith)
                requires
                    0 <= y < 32,
                    0 <= x < 64,
                    s >= 1,
            ;
            lemma_join(y * s, x * s, s);
            assert(0 <= (y * s) * (64 * s) <= (y * s) * (64 * s) + x * s) by (nonlinear_arith)
                requires
                    0 <= y,
                    0 <= x,
                    s >= 1,
            ;
        }
        let real_x = x * self.scale_factor;
        let real_y = y * self.scale_factor;
        let real_index = real_y * self.scaled_width + real_x;
        self.buffer[real_index]
    }

    /// XORs `state` into the logical pixel `(x, y)`, that is into every real
    /// pixel that backs it, and says whether that switched off a pixel that
    /// was lit. Coordinates beyond the screen wrap around.
    pub fn set_pixel(&mut self, x: usize, y: usize, state: bool) -> (collision: bool)
        ensures
            collision == (pixel_at(old(self)@, x as int, y as int) && state),
            final(self)@ == xor_pixel(old(self)@, x as int, y as int, state),
            final(self).scale() == old(self).scale(),
            final(self).magnified(),
    {
        let collision = self.get_pixel(x, y) && state;
        proof {
            use_type_invariant(&*self);
        }
        xor_block(&mut self.buffer, self.scale_factor, x % VIRTUAL_WIDTH, y % VIRTUAL_HEIGHT, state);
        proof {
            use_type_invariant(&*self);
            self.lemma_magnified();
            assert(pixel_index((x % 64) as int, (y % 32) as int) == pixel_index(
                x as int,
                y as int,
            ));
        }
        collision
    }

    /// Renders the backing buffer into an RGBA frame: four bytes to the real
    /// pixel, `PIXEL_ON` or `PIXEL_OFF` in big-endian order.
    pub fn render_to_buffer(&self, frame: &mut [u8])
        requires
            old(frame)@.len() >= 4 * self.backing().len(),
        ensures
            final(frame)@ == rendered(old(frame)@, self.backing()),
    {
        let n = self.buffer.len();
        let frame_len = frame.len();
        let mut index: usize = 0;
        while index < n
            invariant
                index <= n,
                n == self.buffer@.len(),
                frame@.len() == old(frame)@.len(),
                frame@.len() == frame_len,
                frame@.len() >= 4 * n,
                frame@ == rendered(old(frame)@, self.buffer@.subrange(0, index as int)),
            decreases n - index,
        {
            let rgba = if self.buffer[index] {
                PIXEL_ON
            } else {
                PIXEL_OFF
            };
            let bytes = be_bytes(rgba);
            let start = index * 4;
            frame[start] = bytes[0];
            frame[start + 1] = bytes[1];
            frame[start + 2] = bytes[2];
            frame[start + 3] = bytes[3];
            index += 1;
            assert(frame@ =~= rendered(old(frame)@, self.buffer@.subrange(0, index as int)));
        }
        assert(self.buffer@.subrange(0, n as int) =~= self.buffer@);
    }

    /// Draws a sprite with its top left corner at `(x, y)`: one byte per
    /// row, most significant bit first, each dot XORed into the display.
    /// The sprite is the first `num_rows` bytes of `pixels`. With
    /// `clip_sprite`, a sprite on the screen is cut off at the right and
    /// bottom edges; without it the sprite wraps around.
    ///
    /// Returns whether any lit pixel was switched off.
    pub fn draw_sprite(
        &mut self,
        x: usize,
        y: usize,
        num_rows: usize,
        pixels: &[u8],
        clip_sprite: bool,
    ) -> (collision: bool)
        ensures
            (final(self)@, collision) == draw(
                old(self)@,
                x as int,
                y as int,
                num_rows as nat,
                pixels@,
                clip_sprite,
            ),
            final(self).scale() == old(self).scale(),
            final(self).magnified(),
    {
        let total = if num_rows <= pixels.len() {
            num_rows
        } else {
            pixels.len()
        };
        let rows = if clip_sprite && y <= 31 && 32 - y < total {
            32 - y
        } else {
            total
        };
        let cols: usize = if clip_sprite && x <= 63 && 64 - x < 8 {
            64 - x
        } else {
            8
        };
        let base_x = x % VIRTUAL_WIDTH;
        let base_y = y % VIRTUAL_HEIGHT;
        let mut collision = false;
        proof {
            use_type_invariant(&*self);
            self.lemma_magnified();
        }
        let mut row: usize = 0;
        while row < rows
            invariant
                row <= rows <= pixels@.len(),
                cols <= 8,
                base_x == x % 64,
                base_y == y % 32,
                self.scale() == old(self).scale(),
                self.magnified(),
                (self@, collision) == draw_rows(
                    old(self)@,
                    x as int,
                    y as int,
                    pixels@,
                    row as nat,
                    cols as nat,
                ),
            decreases rows - row,
        {
            let byte = pixels[row];
            let pixel_y = (base_y + row % VIRTUAL_HEIGHT) % VIRTUAL_HEIGHT;
            let ghost row_start = self@;
            let ghost collision_before = collision;
            let mut col: usize = 0;
            while col < cols
                invariant
                    col <= cols <= 8,
                    base_x == x % 64,
                    pixel_y == (y + row) % 32,
                    self.scale() == old(self).scale(),
                    self.magnified(),
                    self@ == draw_row(row_start, x as int, y + row, byte, col as nat).0,
                    collision == (collision_before || draw_row(
                        row_start,
                        x as int,
                        y + row,
                        byte,
                        col as nat,
                    ).1),
                decreases cols - col,
            {
                assert(pixel_index(base_x + col, pixel_y as int) == pixel_index(
                    x + col,
                    y + row,
                ));
                if byte & (0x80u8 >> col) != 0 {
                    let hit = self.set_pixel(base_x + col, pixel_y, true);
                    collision = collision || hit;
                }
                col += 1;
            }
            row += 1;
        }
        collision
    }

    /// The logical grid always has 2048 pixels.
    pub proof fn lemma_len(&self)
        ensures
            self@.len() == VIRTUAL_PIXELS,
    {
    }

    /// The type's invariant, in the terms that callers can see.
    proof fn lemma_magnified(&self)
        requires
            self.inv(),
        ensures
            self.magnified(),
    {
        let s = self.scale_factor as int;
        assert forall|j: int| 0 <= j < self.backing().len() implies self.backing()[j]
            == self@[cell_of(j, s)] by {
            lemma_split(j, s);
        }
    }
}

} // verus!
