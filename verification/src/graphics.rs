//! The graphics state of the machine: a 64x32 monochrome pixel grid stored
//! as RGB cells, with XOR sprite drawing and collision detection.
use vstd::prelude::*;

verus! {

/// Width of the screen in pixels.
pub const WIDTH: usize = 64;

/// Height of the screen in pixels.
pub const HEIGHT: usize = 32;

/// Total number of pixels on the screen.
pub const PIXEL_COUNT: usize = WIDTH * HEIGHT;

/// An RGB color value, using 8 bits for each channel.
#[derive(Clone, Copy, PartialEq, Eq, Structural, Debug)]
pub struct RGB8 {
    pub r: u8,
    pub g: u8,
    pub b: u8,
}

/// The default foreground color: white.
pub open spec fn spec_default_foreground() -> RGB8 {
    RGB8 { r: 255, g: 255, b: 255 }
}

/// The default background color: black.
pub open spec fn spec_default_background() -> RGB8 {
    RGB8 { r: 0, g: 0, b: 0 }
}

/// How many of a sprite byte's 8 bits land on the screen when drawn at
/// column `x`: columns past the right edge are clipped, not wrapped.
pub open spec fn spec_bit_count(x: int) -> int {
    if x >= WIDTH {
        0
    } else if WIDTH - x >= 8 {
        8
    } else {
        WIDTH - x
    }
}

/// Whether bit `b` of a sprite byte is set, counting from the most
/// significant (leftmost drawn) bit.
pub open spec fn spec_bit_set(data: u8, b: int) -> bool {
    data & (0x80u8 >> (b as u8)) != 0
}

/// The cell index written by bit `b` of a sprite byte drawn at `(x, y)`.
/// Rows past the bottom of the screen wrap around the whole pixel grid.
pub open spec fn spec_draw_pos(x: int, y: int, b: int) -> int {
    ((WIDTH as int) * y + x + b) % (PIXEL_COUNT as int)
}

/// The pixel grid after drawing one sprite byte at `(x, y)`: each drawn
/// cell toggles between foreground and background according to whether the
/// sprite bit differs from the cell's current on/off state. A row starting
/// past the bottom of the screen is left untouched.
pub open spec fn spec_draw_byte(
    cells: Seq<RGB8>,
    fg: RGB8,
    bg: RGB8,
    x: int,
    y: int,
    data: u8,
) -> Seq<RGB8> {
    if y > HEIGHT {
        cells
    } else {
        Seq::new(
            cells.len(),
            |p: int|
                {
                    let off = (p - ((WIDTH as int) * y + x)) % (PIXEL_COUNT as int);
                    if 0 <= off < spec_bit_count(x) {
                        let was_on = cells[p] == fg;
                        if spec_bit_set(data, off) != was_on {
                            fg
                        } else {
                            bg
                        }
                    } else {
                        cells[p]
                    }
                },
        )
    }
}

/// Whether drawing one sprite byte at `(x, y)` collides: true when some
/// drawn sprite bit is set over a cell that currently shows the foreground.
pub open spec fn spec_draw_collision(cells: Seq<RGB8>, fg: RGB8, x: int, y: int, data: u8) -> bool {
    y <= HEIGHT && exists|b: int|
        0 <= b < spec_bit_count(x) && spec_bit_set(data, b) && cells[spec_draw_pos(x, y, b)] == fg
}

/// Handles the graphics state of the CHIP-8.
pub struct GraphicsBuffer {
    vram: Vec<RGB8>,
    foreground_rgb: RGB8,
    background_rgb: RGB8,
}

impl GraphicsBuffer {
    /// The pixel grid, row-major from the top-left corner.
    pub closed spec fn spec_cells(&self) -> Seq<RGB8> {
        self.vram@
    }

    /// The current foreground color.
    pub closed spec fn spec_fg(&self) -> RGB8 {
        self.foreground_rgb
    }

    /// The current background color.
    pub closed spec fn spec_bg(&self) -> RGB8 {
        self.background_rgb
    }

    /// The buffer always covers the whole screen and every cell shows
    /// exactly the foreground or the background color.
    pub open spec fn wf(&self) -> bool {
        &&& self.spec_cells().len() == PIXEL_COUNT
        &&& forall|p: int|
            0 <= p < PIXEL_COUNT ==> self.spec_cells()[p] == self.spec_fg()
                || self.spec_cells()[p] == self.spec_bg()
    }

    /// Create a new empty `GraphicsBuffer` with the default colors.
    pub fn new() -> (g: GraphicsBuffer)
        ensures
            g.wf(),
            g.spec_fg() == spec_default_foreground(),
            g.spec_bg() == spec_default_background(),
            g.spec_cells() == Seq::new(PIXEL_COUNT as nat, |p: int| spec_default_background()),
    {
        let background = RGB8 { r: 0, g: 0, b: 0 };
        let mut vram: Vec<RGB8> = Vec::new();
        let mut k: usize = 0;
        while k < PIXEL_COUNT
            invariant
                k <= PIXEL_COUNT,
                vram@.len() == k,
                background == spec_default_background(),
                forall|p: int| 0 <= p < k ==> vram@[p] == spec_default_background(),
            decreases PIXEL_COUNT - k,
        {
            vram.push(background);
            k += 1;
        }
        let g = GraphicsBuffer {
            vram,
            foreground_rgb: RGB8 { r: 255, g: 255, b: 255 },
            background_rgb: background,
        };
        proof {
            assert(g.spec_cells() =~= Seq::new(PIXEL_COUNT as nat, |p: int| spec_default_background()));
        }
        g
    }

    /// The current foreground color.
    pub fn foreground_color(&self) -> (c: RGB8)
        ensures
            c == self.spec_fg(),
    {
        self.foreground_rgb
    }

    /// The current background color.
    pub fn background_color(&self) -> (c: RGB8)
        ensures
            c == self.spec_bg(),
    {
        self.background_rgb
    }

    /// Draw one byte of a sprite at the given coordinates: the byte's set
    /// bits toggle the cells they land on. Returns whether a collision
    /// happened, that is whether a previously lit cell was toggled off.
    pub fn draw_byte(&mut self, x: usize, y: usize, data: u8) -> (collision: bool)
        requires
            old(self).wf(),
        ensures
            final(self).wf(),
            final(self).spec_fg() == old(self).spec_fg(),
            final(self).spec_bg() == old(self).spec_bg(),
            final(self).spec_cells() == spec_draw_byte(
                old(self).spec_cells(),
                old(self).spec_fg(),
                old(self).spec_bg(),
                x as int,
                y as int,
                data,
            ),
            collision == spec_draw_collision(
                old(self).spec_cells(),
                old(self).spec_fg(),
                x as int,
                y as int,
                data,
            ),
    {
        if y > HEIGHT {
            proof {
                assert(final(self).spec_cells() =~= spec_draw_byte(
                    old(self).spec_cells(),
                    old(self).spec_fg(),
                    old(self).spec_bg(),
                    x as int,
                    y as int,
                    data,
                ));
            }
            return false;
        }
        let max_x: usize = if x >= WIDTH {
            0
        } else if WIDTH - x >= 8 {
            8
        } else {
            WIDTH - x
        };
        let ghost orig = old(self).spec_cells();
        let ghost fg = old(self).spec_fg();
        let ghost bg = old(self).spec_bg();
        let ghost base = (WIDTH as int) * (y as int) + (x as int);
        let mut collision = false;
        let mut b: usize = 0;
        while b < max_x
            invariant
                old(self).wf(),
                y <= HEIGHT,
                max_x == spec_bit_count(x as int),
                b <= max_x,
                orig == old(self).spec_cells(),
                fg == old(self).spec_fg(),
                bg == old(self).spec_bg(),
                base == (WIDTH as int) * (y as int) + (x as int),
                self.spec_fg() == fg,
                self.spec_bg() == bg,
                self.spec_cells().len() == PIXEL_COUNT,
                forall|p: int|
                    #![trigger self.spec_cells()[p]]
                    0 <= p < PIXEL_COUNT ==> {
                        let off = (p - base) % (PIXEL_COUNT as int);
                        if 0 <= off < b {
                            self.spec_cells()[p] == (if spec_bit_set(data, off) != (orig[p] == fg) {
                                fg
                            } else {
                                bg
                            })
                        } else {
                            self.spec_cells()[p] == orig[p]
                        }
                    },
                collision == exists|j: int|
                    0 <= j < b && spec_bit_set(data, j) && orig[spec_draw_pos(
                        x as int,
                        y as int,
                        j,
                    )] == fg,
            decreases max_x - b,
        {
            let pos = (WIDTH * y + x + b) % PIXEL_COUNT;
            proof {
                assert(pos == spec_draw_pos(x as int, y as int, b as int));
                assert((pos - base) % (PIXEL_COUNT as int) == b as int) by {
                    assert(base + b < 2 * (PIXEL_COUNT as int));
                    if base + b < PIXEL_COUNT {
                        assert(pos == base + b);
                    } else {
                        assert(pos == base + b - (PIXEL_COUNT as int));
                    }
                };
            }
            let new_pixel_active = data & (0x80u8 >> (b as u8)) != 0;
            let old_pixel_active = rgb_eq(self.vram[pos], self.foreground_rgb);
            proof {
                assert(self.spec_cells()[pos as int] == orig[pos as int]);
                assert(new_pixel_active == spec_bit_set(data, b as int));
            }
            if new_pixel_active && old_pixel_active {
                collision = true;
            }
            let new_pixel_state = new_pixel_active != old_pixel_active;
            if new_pixel_state {
                let c = self.foreground_rgb;
                self.vram[pos] = c;
            } else {
                let c = self.background_rgb;
                self.vram[pos] = c;
            }
            proof {
                assert forall|p: int| #![trigger self.spec_cells()[p]] 0 <= p < PIXEL_COUNT implies {
                    let off = (p - base) % (PIXEL_COUNT as int);
                    if 0 <= off < b + 1 {
                        self.spec_cells()[p] == (if spec_bit_set(data, off) != (orig[p] == fg) {
                            fg
                        } else {
                            bg
                        })
                    } else {
                        self.spec_cells()[p] == orig[p]
                    }
                } by {
                    let off = (p - base) % (PIXEL_COUNT as int);
                    if p != pos as int {
                        assert(off != b as int) by {
                            if (p - base) % (PIXEL_COUNT as int) == b as int {
                                lemma_mod_range_unique(p, pos as int, base, b as int);
                            }
                        };
                    }
                };
            }
            b += 1;
        }
        proof {
            assert(final(self).spec_cells() =~= spec_draw_byte(orig, fg, bg, x as int, y as int, data));
        }
        collision
    }

    /// Produce the pixel grid as one byte per color channel, three bytes
    /// per pixel, row-major from the top-left corner.
    pub fn as_rgb8(&self) -> (out: Vec<u8>)
        requires
            self.wf(),
        ensures
            out@.len() == PIXEL_COUNT * 3,
            forall|p: int|
                0 <= p < PIXEL_COUNT ==> out@[3 * p] == self.spec_cells()[p].r && out@[3 * p + 1]
                    == self.spec_cells()[p].g && out@[3 * p + 2] == self.spec_cells()[p].b,
    {
        let mut out: Vec<u8> = Vec::new();
        let mut k: usize = 0;
        while k < PIXEL_COUNT
            invariant
                self.wf(),
                k <= PIXEL_COUNT,
                out@.len() == 3 * k,
                forall|p: int|
                    0 <= p < k ==> out@[3 * p] == self.spec_cells()[p].r && out@[3 * p + 1]
                        == self.spec_cells()[p].g && out@[3 * p + 2] == self.spec_cells()[p].b,
            decreases PIXEL_COUNT - k,
        {
            let cell = self.vram[k];
            out.push(cell.r);
            out.push(cell.g);
            out.push(cell.b);
            k += 1;
        }
        out
    }

    /// Set the foreground color, repainting every cell currently showing
    /// the old foreground so the on/off pattern is preserved.
    pub fn set_foreground_color(&mut self, foreground: RGB8)
        requires
            old(self).wf(),
        ensures
            final(self).wf(),
            final(self).spec_fg() == foreground,
            final(self).spec_bg() == old(self).spec_bg(),
            final(self).spec_cells() == Seq::new(
                old(self).spec_cells().len(),
                |p: int|
                    if old(self).spec_cells()[p] == old(self).spec_fg() {
                        foreground
                    } else {
                        old(self).spec_cells()[p]
                    },
            ),
    {
        let mut k: usize = 0;
        while k < PIXEL_COUNT
            invariant
                old(self).wf(),
                k <= PIXEL_COUNT,
                self.spec_fg() == old(self).spec_fg(),
                self.spec_bg() == old(self).spec_bg(),
                self.spec_cells().len() == PIXEL_COUNT,
                forall|p: int|
                    0 <= p < k ==> self.spec_cells()[p] == (if old(self).spec_cells()[p] == old(
                        self,
                    ).spec_fg() {
                        foreground
                    } else {
                        old(self).spec_cells()[p]
                    }),
                forall|p: int| k <= p < PIXEL_COUNT ==> self.spec_cells()[p] == old(self).spec_cells()[p],
            decreases PIXEL_COUNT - k,
        {
            if rgb_eq(self.vram[k], self.foreground_rgb) {
                self.vram[k] = foreground;
            }
            k += 1;
        }
        self.foreground_rgb = foreground;
        proof {
            assert(final(self).spec_cells() =~= Seq::new(
                old(self).spec_cells().len(),
                |p: int|
                    if old(self).spec_cells()[p] == old(self).spec_fg() {
                        foreground
                    } else {
                        old(self).spec_cells()[p]
                    },
            ));
        }
    }

    /// Set the background color, repainting every cell currently showing
    /// the old background so the on/off pattern is preserved.
    pub fn set_background_color(&mut self, background: RGB8)
        requires
            old(self).wf(),
        ensures
            final(self).wf(),
            final(self).spec_bg() == background,
            final(self).spec_fg() == old(self).spec_fg(),
            final(self).spec_cells() == Seq::new(
                old(self).spec_cells().len(),
                |p: int|
                    if old(self).spec_cells()[p] == old(self).spec_bg() {
                        background
                    } else {
                        old(self).spec_cells()[p]
                    },
            ),
    {
        let mut k: usize = 0;
        while k < PIXEL_COUNT
            invariant
                old(self).wf(),
                k <= PIXEL_COUNT,
                self.spec_fg() == old(self).spec_fg(),
                self.spec_bg() == old(self).spec_bg(),
                self.spec_cells().len() == PIXEL_COUNT,
                forall|p: int|
                    0 <= p < k ==> self.spec_cells()[p] == (if old(self).spec_cells()[p] == old(
                        self,
                    ).spec_bg() {
                        background
                    } else {
                        old(self).spec_cells()[p]
                    }),
                forall|p: int| k <= p < PIXEL_COUNT ==> self.spec_cells()[p] == old(self).spec_cells()[p],
            decreases PIXEL_COUNT - k,
        {
            if rgb_eq(self.vram[k], self.background_rgb) {
                self.vram[k] = background;
            }
            k += 1;
        }
        self.background_rgb = background;
        proof {
            assert(final(self).spec_cells() =~= Seq::new(
                old(self).spec_cells().len(),
                |p: int|
                    if old(self).spec_cells()[p] == old(self).spec_bg() {
                        background
                    } else {
                        old(self).spec_cells()[p]
                    },
            ));
        }
    }

    /// Clear the whole screen to the background color.
    pub fn clear(&mut self)
        requires
            old(self).wf(),
        ensures
            final(self).wf(),
            final(self).spec_fg() == old(self).spec_fg(),
            final(self).spec_bg() == old(self).spec_bg(),
            final(self).spec_cells() == Seq::new(
                PIXEL_COUNT as nat,
                |p: int| old(self).spec_bg(),
            ),
    {
        let mut k: usize = 0;
        while k < PIXEL_COUNT
            invariant
                old(self).wf(),
                k <= PIXEL_COUNT,
                self.spec_fg() == old(self).spec_fg(),
                self.spec_bg() == old(self).spec_bg(),
                self.spec_cells().len() == PIXEL_COUNT,
                forall|p: int| 0 <= p < k ==> self.spec_cells()[p] == old(self).spec_bg(),
                forall|p: int| k <= p < PIXEL_COUNT ==> self.spec_cells()[p] == old(self).spec_cells()[p],
            decreases PIXEL_COUNT - k,
        {
            let c = self.background_rgb;
            self.vram[k] = c;
            k += 1;
        }
        proof {
            assert(final(self).spec_cells() =~= Seq::new(
                PIXEL_COUNT as nat,
                |p: int| old(self).spec_bg(),
            ));
        }
    }
}

/// Whether two colors are equal, stated over their channels.
fn rgb_eq(a: RGB8, c: RGB8) -> (r: bool)
    ensures
        r == (a == c),
{
    a.r == c.r && a.g == c.g && a.b == c.b
}

/// Two distinct cell indices on the screen cannot be the same sprite bit
/// offset from the same base cell.
proof fn lemma_mod_range_unique(p: int, q: int, base: int, b: int)
    requires
        0 <= p < PIXEL_COUNT,
        0 <= q < PIXEL_COUNT,
        (p - base) % (PIXEL_COUNT as int) == b,
        (q - base) % (PIXEL_COUNT as int) == b,
    ensures
        p == q,
{
    let m = PIXEL_COUNT as int;
    vstd::arithmetic::div_mod::lemma_mod_equivalence(p - base, q - base, m);
    assert(((p - base) - (q - base)) % m == 0);
    if p > q {
        vstd::arithmetic::div_mod::lemma_small_mod((p - q) as nat, m as nat);
    } else if p < q {
        vstd::arithmetic::div_mod::lemma_mod_equivalence(q - base, p - base, m);
        vstd::arithmetic::div_mod::lemma_small_mod((q - p) as nat, m as nat);
    }
}

} // verus!
