//! The e-paper panel of the Raspberry Pi Zero demo: its framebuffer, and the QR
//! code that is drawn on it.

use vstd::prelude::*;
use vstd::string::*;

use crate::qr;
use crate::qr::QrModules;

verus! {

/// Pixels across the panel.
pub const WIDTH: u32 = 122;

/// Pixels down the panel.
pub const HEIGHT: u32 = 250;

/// Bytes to a row of the framebuffer.
pub const LINE_BYTES: usize = 16;

/// Bytes of the framebuffer.
pub const BUF_LEN: usize = 4000;

/// Pixels left clear on each side of the QR code.
pub const QR_MARGIN: u32 = 5;

/// Pixels reserved below the QR code for the label.
pub const LABEL_HEIGHT: usize = 14;

/// Pixels between the bottom of the QR code and the baseline of the label.
pub const LABEL_DROP: usize = 8;

/// Pixels to the side of a cell of the test pattern.
pub const CELL: u32 = 20;

/// The bit of a pixel within its byte.
pub open spec fn bit_of(x: int) -> u8 {
    0x80u8 >> ((x % 8) as u8)
}

/// Whether the pixel of a framebuffer is black: its bit is cleared.
pub open spec fn is_black(buf: Seq<u8>, x: int, y: int) -> bool {
    buf[y * LINE_BYTES + x / 8] & bit_of(x) == 0
}

/// Whether a point lies on the panel.
pub open spec fn on_panel(x: int, y: int) -> bool {
    0 <= x < WIDTH && 0 <= y < HEIGHT
}

/// Whether a point has a bit in the framebuffer: on the panel, or in the padding
/// that fills each row up to whole bytes.
pub open spec fn in_buffer(x: int, y: int) -> bool {
    0 <= x < 8 * LINE_BYTES && 0 <= y < HEIGHT
}

/// A 1-bit framebuffer matching the panel: a set bit is white and a cleared one
/// black.
#[derive(Debug)]
pub struct DisplayBuffer {
    buf: Vec<u8>,
}

proof fn lemma_bits(byte: u8, i: u8, j: u8)
    requires
        i < 8,
        j < 8,
    ensures
        i == j ==> (byte | (0x80u8 >> i)) & (0x80u8 >> j) != 0,
        i == j ==> (byte & !(0x80u8 >> i)) & (0x80u8 >> j) == 0,
        i != j ==> (byte | (0x80u8 >> i)) & (0x80u8 >> j) == byte & (0x80u8 >> j),
        i != j ==> (byte & !(0x80u8 >> i)) & (0x80u8 >> j) == byte & (0x80u8 >> j),
{
    assert((i == j ==> (byte | (0x80u8 >> i)) & (0x80u8 >> j) != 0) && (i == j ==> (byte & !(0x80u8
        >> i)) & (0x80u8 >> j) == 0) && (i != j ==> (byte | (0x80u8 >> i)) & (0x80u8 >> j) == byte
        & (0x80u8 >> j)) && (i != j ==> (byte & !(0x80u8 >> i)) & (0x80u8 >> j) == byte & (0x80u8
        >> j))) by (bit_vector)
        requires
            i < 8,
            j < 8,
    ;
}

impl DisplayBuffer {
    /// The bytes that the panel takes.
    pub closed spec fn bytes(self) -> Seq<u8> {
        self.buf@
    }

    /// Whether the bit at this point is that of a black pixel.
    pub open spec fn black(self, x: int, y: int) -> bool {
        is_black(self.bytes(), x, y)
    }

    #[verifier::type_invariant]
    spec fn sized(self) -> bool {
        self.buf@.len() == BUF_LEN
    }

    /// A panel without anything on it: every bit is set, those of the padding too.
    pub fn new_white() -> (r: DisplayBuffer)
        ensures
            r.bytes() == Seq::new(BUF_LEN as nat, |i: int| 0xffu8),
            forall|x: int, y: int| in_buffer(x, y) ==> !#[trigger] r.black(x, y),
    {
        let mut buf: Vec<u8> = Vec::new();
        let mut i: usize = 0;
        while i < BUF_LEN
            invariant
                i <= BUF_LEN,
                buf@.len() == i,
                forall|j: int| 0 <= j < i ==> buf@[j] == 0xff,
            decreases BUF_LEN - i,
        {
            buf.push(0xff);
            i = i + 1;
        }
        let r = DisplayBuffer { buf };
        proof {
            assert(r.bytes() =~= Seq::new(BUF_LEN as nat, |i: int| 0xffu8));
            assert forall|x: int, y: int| in_buffer(x, y) implies !#[trigger] r.black(x, y) by {
                let bit = (x % 8) as u8;
                assert(0xffu8 & (0x80u8 >> bit) != 0) by (bit_vector)
                    requires
                        bit < 8,
                ;
            }
        }
        r
    }

    /// The bytes that the panel takes: row by row, 16 bytes to a row, a set bit
    /// for a white pixel and the most significant bit for the leftmost one.
    pub fn buffer(&self) -> (r: &Vec<u8>)
        ensures
            r@ == self.bytes(),
            r@.len() == BUF_LEN,
            r@.len() == 4000,
    {
        proof {
            use_type_invariant(self);
        }
        &self.buf
    }

    /// Whether the pixel at this point is black.
    pub fn is_black_at(&self, x: u32, y: u32) -> (r: bool)
        requires
            on_panel(x as int, y as int),
        ensures
            r == self.black(x as int, y as int),
    {
        proof {
            use_type_invariant(self);
        }
        let byte: u8 = self.buf[y as usize * LINE_BYTES + x as usize / 8];
        byte & (0x80u8 >> ((x % 8) as u8)) == 0
    }

    /// Sets one pixel. A point off the panel is left out, and the padding stays as
    /// it is.
    pub fn set_pixel(&mut self, x: i32, y: i32, black: bool)
        ensures
            forall|px: int, py: int|
                in_buffer(px, py) ==> #[trigger] final(self).black(px, py) == (if on_panel(px, py)
                    && px == x && py == y {
                    black
                } else {
                    old(self).black(px, py)
                }),
    {
        proof {
            use_type_invariant(&*self);
        }
        if x < 0 || y < 0 || x >= WIDTH as i32 || y >= HEIGHT as i32 {
            return;
        }
        let column: usize = x as usize;
        let row: usize = y as usize;
        let index: usize = row * LINE_BYTES + column / 8;
        let mask: u8 = 0x80u8 >> ((column % 8) as u8);
        let ghost before = self.buf@;
        let byte: u8 = self.buf[index];
        let changed: u8 = if black {
            byte & !mask
        } else {
            byte | mask
        };
        self.buf[index] = changed;
        proof {
            let after = self.buf@;
            assert(after =~= before.update(index as int, changed));
            assert forall|px: int, py: int| in_buffer(px, py) implies #[trigger] self.black(px, py)
                == (if on_panel(px, py) && px == x && py == y {
                black
            } else {
                is_black(before, px, py)
            }) by {
                let k = py * LINE_BYTES + px / 8;
                if k == index {
                    assert(py == y && px / 8 == column as int / 8);
                    lemma_bits(byte, (column % 8) as u8, (px % 8) as u8);
                }
            }
        }
    }

    /// Fills a square with its top left corner at this point, as far as it lies
    /// on the panel.
    pub fn fill_square(&mut self, left: u32, top: u32, side: u32, black: bool)
        ensures
            forall|px: int, py: int|
                in_buffer(px, py) ==> #[trigger] final(self).black(px, py) == (if on_panel(px, py)
                    && left <= px < left + side && top <= py < top + side {
                    black
                } else {
                    old(self).black(px, py)
                }),
    {
        let ghost start = *self;
        let right: u32 = if left < WIDTH && side < WIDTH - left {
            left + side
        } else {
            WIDTH
        };
        let bottom: u32 = if top < HEIGHT && side < HEIGHT - top {
            top + side
        } else {
            HEIGHT
        };
        let mut y: u32 = top;
        while y < bottom
            invariant
                right <= WIDTH,
                bottom <= HEIGHT,
                top <= y,
                y <= bottom || y == top,
                forall|px: int, py: int|
                    in_buffer(px, py) ==> #[trigger] self.black(px, py) == (if left <= px < right
                        && top <= py < y && py < bottom {
                        black
                    } else {
                        start.black(px, py)
                    }),
            decreases bottom - y,
        {
            let ghost row_start = *self;
            let mut x: u32 = left;
            while x < right
                invariant
                    right <= WIDTH,
                    y < bottom <= HEIGHT,
                    left <= x,
                    x <= right || x == left,
                    forall|px: int, py: int|
                        in_buffer(px, py) ==> #[trigger] self.black(px, py) == (if left <= px < x
                            && px < right && py == y {
                            black
                        } else {
                            row_start.black(px, py)
                        }),
                decreases right - x,
            {
                self.set_pixel(x as i32, y as i32, black);
                x = x + 1;
            }
            y = y + 1;
        }
    }

    /// Draws the dark modules of a code, each as a square of the layout's scale.
    pub fn draw_code(&mut self, code: &QrModules, layout: QrLayout)
        requires
            code.wf(),
            layout == QrLayout::layout_of(code.width as int),
        ensures
            forall|px: int, py: int|
                in_buffer(px, py) ==> #[trigger] final(self).black(px, py) == (old(self).black(
                    px,
                    py,
                ) || on_panel(px, py) && layout.dark_under(*code, px, py)),
    {
        let ghost start = *self;
        let modules: usize = code.width;
        proof {
            assert(modules * modules <= 177 * 177) by (nonlinear_arith)
                requires
                    0 <= modules <= 177,
            ;
        }
        let mut row: usize = 0;
        while row < modules
            invariant
                code.wf(),
                modules == code.width,
                modules * modules <= 177 * 177,
                layout == QrLayout::layout_of(modules as int),
                row <= modules,
                forall|px: int, py: int|
                    in_buffer(px, py) ==> #[trigger] self.black(px, py) == (start.black(px, py)
                        || on_panel(px, py) && layout.dark_under(*code, px, py) && layout.cell_row(py) < row),
            decreases modules - row,
        {
            let ghost row_start = *self;
            let mut column: usize = 0;
            while column < modules
                invariant
                    code.wf(),
                    modules == code.width,
                    modules * modules <= 177 * 177,
                    layout == QrLayout::layout_of(modules as int),
                    row < modules,
                    column <= modules,
                    forall|px: int, py: int|
                        in_buffer(px, py) ==> #[trigger] self.black(px, py) == (row_start.black(
                            px,
                            py,
                        ) || on_panel(px, py) && layout.dark_under(*code, px, py) && layout.cell_row(py) == row
                            && layout.cell_column(px) < column),
                decreases modules - column,
            {
                proof {
                    assert(0 <= row * modules + column < modules * modules) by (nonlinear_arith)
                        requires
                            0 <= row < modules,
                            0 <= column < modules,
                    ;
                    assert(0 <= row * modules <= modules * modules) by (nonlinear_arith)
                        requires
                            0 <= row < modules,
                    ;
                    QrLayout::lemma_bounds(modules as int);
                    let s = layout.scale as int;
                    assert(0 <= column * s <= 177 * 5) by (nonlinear_arith)
                        requires
                            0 <= column <= 177,
                            1 <= s <= 5,
                    ;
                    assert(0 <= row * s <= 177 * 5) by (nonlinear_arith)
                        requires
                            0 <= row <= 177,
                            1 <= s <= 5,
                    ;
                }
                let ghost before = *self;
                if code.dark[row * modules + column] {
                    let left: u32 = (layout.x_offset + column * layout.scale) as u32;
                    let top: u32 = (layout.y_offset + row * layout.scale) as u32;
                    self.fill_square(left, top, layout.scale as u32, true);
                }
                proof {
                    let s = layout.scale as int;
                    assert forall|px: int, py: int| in_buffer(px, py) implies #[trigger] self.black(
                        px,
                        py,
                    ) == (row_start.black(px, py) || on_panel(px, py) && layout.dark_under(*code, px, py) && layout.cell_row(py) == row
                        && layout.cell_column(px) < column + 1) by {
                        assert(before.black(px, py) == (row_start.black(px, py)
                            || on_panel(px, py) && layout.dark_under(*code, px, py) && layout.cell_row(py) == row
                            && layout.cell_column(px) < column));
                        lemma_cell(px - layout.x_offset, s, column as int);
                        lemma_cell(py - layout.y_offset, s, row as int);
                    }
                }
                column = column + 1;
            }
            proof {
                let s = layout.scale as int;
                assert forall|px: int, py: int| in_buffer(px, py) implies #[trigger] self.black(
                    px,
                    py,
                ) == (start.black(px, py) || on_panel(px, py) && layout.dark_under(*code, px, py) && layout.cell_row(py)
                    < row + 1) by {
                    assert(row_start.black(px, py) == (start.black(px, py) || on_panel(px, py) && layout.dark_under(
                        *code,
                        px,
                        py,
                    ) && layout.cell_row(py) < row));
                }
            }
            row = row + 1;
        }
    }
}

/// A point lies in cell `k` of cells of size `s` exactly when it is between that
/// cell's edges.
proof fn lemma_cell(p: int, s: int, k: int)
    requires
        s > 0,
    ensures
        p / s == k <==> k * s <= p < k * s + s,
{
    assert(p / s == k <==> k * s <= p < k * s + s) by (nonlinear_arith)
        requires
            s > 0,
    ;
}

/// Where a QR code of a given module count is drawn on the panel, and how many
/// pixels each of its modules gets.
///
/// The scale is what decides whether a phone can read the panel at arm's length,
/// and it falls straight out of the payload: a shorter ticket needs fewer
/// modules, and fewer modules leave more pixels for each one.
#[derive(Debug, Clone, Copy, PartialEq, Eq, Structural)]
pub struct QrLayout {
    /// Panel pixels per QR module.
    pub scale: usize,
    /// The drawn code's edge length in pixels.
    pub size_px: usize,
    /// Pixels to the left of the code.
    pub x_offset: usize,
    /// Pixels above the code.
    pub y_offset: usize,
}

/// Half of what is left of `whole` beside `part`.
pub open spec fn centred_in(whole: int, part: int) -> int {
    if whole >= part {
        (whole - part) / 2
    } else {
        0
    }
}

impl QrLayout {
    /// The layout of a code `modules` wide: as large as the panel's width less
    /// the margins allows, and never below one pixel per module.
    pub open spec fn layout_of(modules: int) -> QrLayout {
        let fits = (WIDTH - 2 * QR_MARGIN) / modules;
        let scale = if fits >= 1 {
            fits
        } else {
            1
        };
        QrLayout {
            scale: scale as usize,
            size_px: (modules * scale) as usize,
            x_offset: centred_in(WIDTH as int, modules * scale) as usize,
            y_offset: centred_in(HEIGHT - LABEL_HEIGHT, modules * scale) as usize,
        }
    }

    /// The column of modules that a point of the panel lies in.
    pub open spec fn cell_column(self, x: int) -> int {
        (x - self.x_offset) / (self.scale as int)
    }

    /// The row of modules that a point of the panel lies in.
    pub open spec fn cell_row(self, y: int) -> int {
        (y - self.y_offset) / (self.scale as int)
    }

    /// Whether the module of the code under a point of the panel is dark.
    pub open spec fn dark_under(self, code: QrModules, x: int, y: int) -> bool {
        let column = self.cell_column(x);
        let row = self.cell_row(y);
        0 <= column < code.width && 0 <= row < code.width && code.dark_at(row, column)
    }

    /// What is known of the layout of a real code.
    proof fn lemma_bounds(modules: int)
        requires
            21 <= modules <= 177,
        ensures
            ({
                let layout = QrLayout::layout_of(modules);
                &&& 1 <= layout.scale <= 5
                &&& layout.size_px == modules * layout.scale
                &&& layout.size_px <= 177
                &&& layout.x_offset <= WIDTH
                &&& layout.y_offset <= HEIGHT
            }),
    {
        let fits = (WIDTH - 2 * QR_MARGIN) / modules;
        assert(0 <= fits <= 5 && fits * modules <= 112) by (nonlinear_arith)
            requires
                fits == 112int / modules,
                21 <= modules <= 177,
        ;
        if fits >= 1 {
            assert(modules * fits == fits * modules) by (nonlinear_arith);
        }
    }

    /// Returns the layout for a code `modules` wide, centred above the label.
    ///
    /// A payload too long to fit is still worth drawing: a code that overruns
    /// the panel is easier to diagnose than a blank one.
    pub fn centred(modules: usize) -> (r: QrLayout)
        requires
            modules > 0,
        ensures
            r == QrLayout::layout_of(modules as int),
            r.size_px == modules * r.scale,
            modules <= 112 ==> modules * r.scale <= 112 < modules * (r.scale + 1),
            modules > 112 ==> r.scale == 1,
            r.size_px <= 122 ==> r.x_offset == (122 - r.size_px) / 2,
            r.size_px > 122 ==> r.x_offset == 0,
            r.size_px <= 236 ==> r.y_offset == (236 - r.size_px) / 2,
            r.size_px > 236 ==> r.y_offset == 0,
    {
        let max_qr_px: usize = (WIDTH - 2 * QR_MARGIN) as usize;
        let fits: usize = max_qr_px / modules;
        let scale: usize = if fits >= 1 {
            fits
        } else {
            1
        };
        proof {
            if fits >= 1 {
                assert(modules * fits <= 112) by (nonlinear_arith)
                    requires
                        fits == 112int / modules as int,
                        modules > 0,
                ;
            }
            assert(modules * 1 == modules);
            assert(modules <= 112 ==> fits >= 1 && 112 < modules * (fits + 1)) by (nonlinear_arith)
                requires
                    fits == 112int / modules as int,
                    modules > 0,
            ;
            assert(modules > 112 ==> fits == 0) by (nonlinear_arith)
                requires
                    fits == 112int / modules as int,
                    modules > 0,
            ;
        }
        let size_px: usize = modules * scale;
        let width: usize = WIDTH as usize;
        let height: usize = HEIGHT as usize - LABEL_HEIGHT;
        let x_offset: usize = if width >= size_px {
            (width - size_px) / 2
        } else {
            0
        };
        let y_offset: usize = if height >= size_px {
            (height - size_px) / 2
        } else {
            0
        };
        QrLayout { scale, size_px, x_offset, y_offset }
    }

    /// Where the baseline of the label below the code starts.
    pub fn label_at(&self) -> (r: (usize, usize))
        requires
            self.y_offset + self.size_px + LABEL_DROP <= usize::MAX,
        ensures
            r.0 == self.x_offset,
            r.1 == self.y_offset + self.size_px + LABEL_DROP,
            r.1 == self.y_offset + self.size_px + 8,
    {
        (self.x_offset, self.y_offset + self.size_px + LABEL_DROP)
    }
}

/// A code that fits the width less the margins stays on the panel, above the
/// label, and its modules are as large as they can be.
pub proof fn codes_stay_on_the_panel(modules: int)
    requires
        1 <= modules <= WIDTH - 2 * QR_MARGIN,
    ensures
        ({
            let layout = QrLayout::layout_of(modules);
            &&& layout.size_px == modules * layout.scale
            &&& layout.size_px <= WIDTH - 2 * QR_MARGIN
            &&& layout.x_offset >= QR_MARGIN
            &&& layout.x_offset + layout.size_px <= WIDTH
            &&& layout.y_offset + layout.size_px + LABEL_HEIGHT <= HEIGHT
            &&& modules * (layout.scale + 1) > WIDTH - 2 * QR_MARGIN
        }),
{
    let fits = (WIDTH - 2 * QR_MARGIN) / modules;
    assert(1 <= fits <= 112 && modules * fits <= 112 && modules * (fits + 1) > 112)
        by (nonlinear_arith)
        requires
            fits == 112int / modules,
            1 <= modules <= 112,
    ;
}

/// Draws the QR code of `data` on an empty panel, or nothing if it does not fit
/// in one. The label goes where the returned layout says, and the padding stays
/// white.
pub fn qr_frame(data: &str) -> (r: Option<(DisplayBuffer, QrLayout)>)
    ensures
        match (r, qr::qr_code(data@)) {
            (Some((display, layout)), Some((width, dark))) => {
                &&& layout == QrLayout::layout_of(width as int)
                &&& forall|x: int, y: int|
                    in_buffer(x, y) ==> #[trigger] display.black(x, y) == ({
                        let column = layout.cell_column(x);
                        let row = layout.cell_row(y);
                        on_panel(x, y) && 0 <= column < width && 0 <= row < width && dark[row * width + column]
                    })
            },
            (None, None) => true,
            _ => false,
        },
{
    match qr::code(data) {
        None => None,
        Some(code) => {
            let mut display = DisplayBuffer::new_white();
            let layout = QrLayout::centred(code.width);
            display.draw_code(&code, layout);
            Some((display, layout))
        },
    }
}

/// Draws a checkerboard over the whole panel, with a white cell in its top left
/// corner. The padding stays white.
pub fn test_pattern() -> (r: DisplayBuffer)
    ensures
        forall|x: int, y: int|
            in_buffer(x, y) ==> #[trigger] r.black(x, y) == (on_panel(x, y) && (x / CELL as int) % 2
                != (y / CELL as int) % 2),
        forall|x: int, y: int|
            0 <= x < 122 && 0 <= y < 250 ==> #[trigger] r.black(x, y) == ((x / 20) % 2 != (y / 20)
                % 2),
{
    let mut display = DisplayBuffer::new_white();
    let mut y: u32 = 0;
    while y < HEIGHT
        invariant
            y <= HEIGHT,
            forall|px: int, py: int|
                in_buffer(px, py) ==> #[trigger] display.black(px, py) == (on_panel(px, py) && py < y
                    && (px / CELL as int) % 2 != (py / CELL as int) % 2),
        decreases HEIGHT - y,
    {
        let mut x: u32 = 0;
        while x < WIDTH
            invariant
                y < HEIGHT,
                x <= WIDTH,
                forall|px: int, py: int|
                    in_buffer(px, py) ==> #[trigger] display.black(px, py) == (on_panel(px, py) && (py
                        < y || py == y && px < x) && (px / CELL as int) % 2 != (py / CELL as int) % 2),
            decreases WIDTH - x,
        {
            display.set_pixel(x as i32, y as i32, (x / CELL) % 2 != (y / CELL) % 2);
            x = x + 1;
        }
        y = y + 1;
    }
    display
}

/// A row of the framebuffer is sixteen bytes, a pixel is a bit of it, the leftmost in
/// the most significant place, and a cleared bit is black. The panel is 122 by 250, and
/// its rows are filled up to 128.
pub proof fn pixels_are_bits(buf: Seq<u8>, x: int, y: int)
    ensures
        on_panel(x, y) <==> 0 <= x < 122 && 0 <= y < 250,
        in_buffer(x, y) <==> 0 <= x < 128 && 0 <= y < 250,
        in_buffer(x, y) ==> (is_black(buf, x, y) <==> (buf[y * 16 + x / 8] >> ((7 - x % 8) as u8))
            & 1u8 == 0),
{
    let byte = buf[y * 16 + x / 8];
    let i = (x % 8) as u8;
    assert(i < 8 ==> ((byte & (0x80u8 >> i) == 0) <==> ((byte >> ((7 - i) as u8)) & 1u8 == 0)))
        by (bit_vector);
}

/// A module of a code covers a square of the layout's scale, in its row and column from
/// the layout's corner, and nothing is drawn beside the code.
pub proof fn modules_are_squares(layout: QrLayout, code: QrModules, x: int, y: int, row: int, column: int)
    requires
        layout.scale > 0,
        code.wf(),
    ensures
        layout.cell_column(x) == column <==> layout.x_offset + column * layout.scale <= x
            < layout.x_offset + column * layout.scale + layout.scale,
        layout.cell_row(y) == row <==> layout.y_offset + row * layout.scale <= y < layout.y_offset
            + row * layout.scale + layout.scale,
        layout.x_offset + column * layout.scale <= x < layout.x_offset + column * layout.scale
            + layout.scale && layout.y_offset + row * layout.scale <= y < layout.y_offset + row
            * layout.scale + layout.scale ==> (layout.dark_under(code, x, y) <==> 0 <= row
            < code.width && 0 <= column < code.width && code.dark@[row * code.width + column]),
{
    lemma_cell(x - layout.x_offset, layout.scale as int, column);
    lemma_cell(y - layout.y_offset, layout.scale as int, row);
}

} // verus!
