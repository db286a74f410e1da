//! QR codes: the modules of a text, and the picture a window shows of them.

use vstd::prelude::*;
use vstd::string::*;

verus! {

/// The quiet zone around a rendered code, in modules. A decoder is entitled to
/// rely on it.
pub const QR_QUIET: usize = 4;

/// The QR code of a text: how many modules wide it is, and which of them are
/// dark, row by row. There is none for a text that is too long.
pub uninterp spec fn qr_code(text: Seq<char>) -> Option<(nat, Seq<bool>)>;

/// A QR code.
#[derive(Debug)]
pub struct QrModules {
    /// Modules to a side.
    pub width: usize,
    /// Which modules are dark, row by row.
    pub dark: Vec<bool>,
}

impl QrModules {
    /// Whether this is a square of a size that QR codes have.
    pub open spec fn wf(self) -> bool {
        &&& 21 <= self.width <= 177
        &&& self.dark@.len() == self.width * self.width
    }

    /// Whether the module in this row and column is dark.
    pub open spec fn dark_at(self, row: int, column: int) -> bool {
        self.dark@[row * self.width + column]
    }
}

/// Makes a code with `qrcode::QrCode::new`, and reads its `width` and
/// `to_colors`.
///
/// Whether there is a code, and which, follows from the text: it is of medium
/// error correction and of the smallest of the forty versions that the text fits
/// in, which run from 21 to 177 modules to a side.
#[verifier::external_body]
fn make_code(text: &str) -> (r: Option<QrModules>)
    ensures
        match r {
            Some(code) => qr_code(text@) == Some((code.width as nat, code.dark@)) && code.wf(),
            None => qr_code(text@) is None,
        },
{
    let code = qrcode::QrCode::new(text).ok()?;
    let dark = code.to_colors().into_iter().map(|c| matches!(c, qrcode::Color::Dark)).collect();
    Some(QrModules { width: code.width(), dark })
}

/// The QR code of a text, or nothing if the text is longer than the largest code
/// holds.
pub fn code(text: &str) -> (r: Option<QrModules>)
    ensures
        match r {
            Some(code) => qr_code(text@) == Some((code.width as nat, code.dark@)) && code.wf(),
            None => qr_code(text@) is None,
        },
{
    make_code(text)
}

/// A QR code as grayscale pixels: `side` by `side`, one byte per pixel, rows
/// tightly packed.
///
/// One pixel per module, because that is all the information there is.
#[derive(Debug)]
pub struct QrPixels {
    /// Pixels to a side.
    pub side: usize,
    /// The pixels, row by row: black is zero and white is the largest byte.
    pub gray: Vec<u8>,
}

impl QrPixels {
    /// Whether this is the picture of a code with the quiet zone around it: a
    /// pixel is black where the module under it is dark, and white everywhere
    /// else.
    pub open spec fn shows(self, width: int, dark: Seq<bool>) -> bool {
        &&& self.side == width + 2 * QR_QUIET
        &&& self.gray@.len() == self.side * self.side
        &&& forall|row: int, column: int|
            #![trigger self.gray@[row * self.side + column]]
            0 <= row < self.side && 0 <= column < self.side ==> self.gray@[row * self.side + column]
                == (if QR_QUIET <= row < QR_QUIET + width && QR_QUIET <= column < QR_QUIET + width
                && dark[(row - QR_QUIET) * width + (column - QR_QUIET)] {
                0u8
            } else {
                255u8
            })
    }

    /// Renders `text` as a QR code with the standard quiet zone around it, or
    /// nothing if it does not fit in one.
    pub fn render(text: &str) -> (r: Option<QrPixels>)
        ensures
            match (r, qr_code(text@)) {
                (Some(pixels), Some((width, dark))) => pixels.shows(width as int, dark),
                (None, None) => true,
                _ => false,
            },
    {
        match make_code(text) {
            Some(code) => Some(QrPixels::of(&code)),
            None => None,
        }
    }

    /// The picture of a code.
    pub fn of(code: &QrModules) -> (r: QrPixels)
        requires
            code.wf(),
        ensures
            r.shows(code.width as int, code.dark@),
    {
        let side: usize = code.width + 2 * QR_QUIET;
        let mut gray: Vec<u8> = Vec::new();
        let mut row: usize = 0;
        let ghost shown = |r: int, c: int|
            if QR_QUIET <= r < QR_QUIET + code.width && QR_QUIET <= c < QR_QUIET + code.width
                && code.dark@[(r - QR_QUIET) * code.width + (c - QR_QUIET)] {
                0u8
            } else {
                255u8
            };
        while row < side
            invariant
                code.wf(),
                side == code.width + 2 * QR_QUIET,
                row <= side,
                gray@.len() == row * side,
                shown == (|r: int, c: int|
                    if QR_QUIET <= r < QR_QUIET + code.width && QR_QUIET <= c < QR_QUIET
                        + code.width && code.dark@[(r - QR_QUIET) * code.width + (c - QR_QUIET)] {
                        0u8
                    } else {
                        255u8
                    }),
                forall|r: int, c: int|
                    #![trigger gray@[r * side + c]]
                    0 <= r < row && 0 <= c < side ==> gray@[r * side + c] == shown(r, c),
            decreases side - row,
        {
            let ghost before = gray@;
            let mut column: usize = 0;
            while column < side
                invariant
                    code.wf(),
                    side == code.width + 2 * QR_QUIET,
                    row < side,
                    column <= side,
                    before.len() == row * side,
                    gray@.len() == row * side + column,
                    shown == (|r: int, c: int|
                        if QR_QUIET <= r < QR_QUIET + code.width && QR_QUIET <= c < QR_QUIET
                            + code.width && code.dark@[(r - QR_QUIET) * code.width + (c
                            - QR_QUIET)] {
                            0u8
                        } else {
                            255u8
                        }),
                    forall|i: int| 0 <= i < before.len() ==> gray@[i] == before[i],
                    forall|c: int|
                        #![trigger gray@[row * side + c]]
                        0 <= c < column ==> gray@[row * side + c] == shown(row as int, c),
                decreases side - column,
            {
                let inside = QR_QUIET <= row && row < QR_QUIET + code.width && QR_QUIET <= column
                    && column < QR_QUIET + code.width;
                let value: u8 = if inside {
                    proof {
                        let r = row - QR_QUIET;
                        let c = column - QR_QUIET;
                        let w = code.width as int;
                        assert(0 <= r * w + c < w * w) by (nonlinear_arith)
                            requires
                                0 <= r < w,
                                0 <= c < w,
                        ;
                        assert(w * w <= 177 * 177) by (nonlinear_arith)
                            requires
                                0 <= w <= 177,
                        ;
                        assert(0 <= r * w <= w * w) by (nonlinear_arith)
                            requires
                                0 <= r < w,
                        ;
                    }
                    if code.dark[(row - QR_QUIET) * code.width + (column - QR_QUIET)] {
                        0
                    } else {
                        255
                    }
                } else {
                    255
                };
                gray.push(value);
                column = column + 1;
            }
            proof {
                assert forall|r: int, c: int|
                    #![trigger gray@[r * side + c]]
                    0 <= r < row + 1 && 0 <= c < side implies gray@[r * side + c] == shown(r, c) by {
                    if r < row {
                        assert(r * side + c < row * side) by (nonlinear_arith)
                            requires
                                0 <= r < row,
                                0 <= c < side,
                        ;
                        assert(0 <= r * side + c) by (nonlinear_arith)
                            requires
                                0 <= r,
                                0 <= c < side,
                        ;
                        assert(before[r * side + c] == shown(r, c));
                    } else {
                        assert(r == row);
                    }
                }
                assert((row + 1) * side == row * side + side) by (nonlinear_arith);
            }
            row = row + 1;
        }
        QrPixels { side, gray }
    }
}

/// The quiet zone of a rendered code is white all round.
pub proof fn quiet_zone_is_white(pixels: QrPixels, width: int, dark: Seq<bool>, row: int, column: int)
    requires
        pixels.shows(width, dark),
        0 <= row < pixels.side,
        0 <= column < pixels.side,
        !(QR_QUIET <= row < pixels.side - QR_QUIET && QR_QUIET <= column < pixels.side - QR_QUIET),
    ensures
        pixels.gray@[row * pixels.side + column] == 255,
{
}

/// A picture of a code has a pixel to a module and four more on every side: black where
/// the module is dark, white where it is light, and white all round.
pub proof fn pictures_show_the_modules(
    pixels: QrPixels,
    width: int,
    dark: Seq<bool>,
    row: int,
    column: int,
)
    requires
        pixels.shows(width, dark),
        0 <= row < width + 8,
        0 <= column < width + 8,
    ensures
        pixels.side == width + 8,
        pixels.gray@.len() == (width + 8) * (width + 8),
        4 <= row < width + 4 && 4 <= column < width + 4 ==> pixels.gray@[row * (width + 8) + column]
            == (if dark[(row - 4) * width + (column - 4)] {
            0u8
        } else {
            255u8
        }),
        !(4 <= row < width + 4 && 4 <= column < width + 4) ==> pixels.gray@[row * (width + 8)
            + column] == 255u8,
{
    assert(pixels.gray@[row * pixels.side + column] == pixels.gray@[row * (width + 8) + column]);
}

} // verus!
