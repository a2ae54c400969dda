//! Glyph and sprite placement. Scenes describe text and sprites as blit
//! operations — a source rectangle in a named asset and a destination
//! rectangle on the display — and the process boundary that owns the real
//! pixel assets copies them. All placement arithmetic lives here, verified.

use vstd::prelude::*;
use crate::geom::{Rect, Vec2};

verus! {

/// The pixel asset a blit reads from.
#[derive(Clone, Copy, PartialEq, Eq, Structural, Debug)]
pub enum AssetId {
    /// The 3x5 glyph atlas.
    FontSmall,
    /// The 7x12 glyph atlas.
    FontLarge,
    /// The spinner frame strip.
    Spinner,
    /// The playback-state icon strip.
    StateIcons,
}

/// One copy of a rectangle out of an asset onto the display surface.
#[derive(Clone, Copy, PartialEq, Eq, Structural, Debug)]
pub struct BlitOp {
    pub asset: AssetId,
    pub src: Rect,
    pub dest: Rect,
}

/// Source rectangle of a byte's glyph in an atlas laid out 16 glyphs per row.
pub open spec fn glyph_src(width: int, height: int, code: u8) -> Rect {
    Rect {
        x: ((code as int % 16) * width) as i32,
        y: ((code as int / 16) * height) as i32,
        w: width as u32,
        h: height as u32,
    }
}

/// The blit operations that draw `text` left to right from `start`, one
/// glyph-width plus one cell of spacing apart.
pub open spec fn text_ops(
    asset: AssetId,
    width: int,
    height: int,
    start: Vec2,
    text: Seq<u8>,
) -> Seq<BlitOp> {
    Seq::new(
        text.len(),
        |i: int| BlitOp {
            asset,
            src: glyph_src(width, height, text[i]),
            dest: Rect {
                x: (start.x + i * (width + 1)) as i32,
                y: start.y,
                w: width as u32,
                h: height as u32,
            },
        },
    )
}

/// Horizontal shift of a marquee at millisecond `ms`: the text enters at the
/// right edge and wraps after its full width plus the display width.
pub open spec fn marquee_shift(width: int, len: int, ms: int) -> int {
    32 - ((ms / 50) % ((width + 1) * len + 32))
}

/// Placement engine for one glyph atlas: glyph extent plus the asset the
/// glyphs are copied from.
pub struct FontRenderer {
    pub width: u32,
    pub height: u32,
    pub asset: AssetId,
}

impl FontRenderer {
    /// Glyph sizes small enough that every placement fits the coordinate
    /// range.
    pub open spec fn wf(&self) -> bool {
        &&& 1 <= self.width <= 0x0100_0000
        &&& 1 <= self.height <= 0x0100_0000
    }

    pub fn new(width: u32, height: u32, asset: AssetId) -> (r: FontRenderer)
        requires
            1 <= width <= 0x0100_0000,
            1 <= height <= 0x0100_0000,
        ensures
            r == (FontRenderer { width, height, asset }),
            r.wf(),
    {
        FontRenderer { width, height, asset }
    }

    /// The blits that draw `text` starting at `start`.
    pub fn text(&self, start: Vec2, text: &Vec<u8>) -> (r: Vec<BlitOp>)
        requires
            self.wf(),
            start.x + (text@.len() as int) * (self.width + 1) <= i32::MAX,
        ensures
            r@ == text_ops(self.asset, self.width as int, self.height as int, start, text@),
    {
        let mut ops: Vec<BlitOp> = Vec::new();
        let mut i: usize = 0;
        while i < text.len()
            invariant
                self.wf(),
                start.x + (text@.len() as int) * (self.width + 1) <= i32::MAX,
                i <= text@.len(),
                ops@ == text_ops(
                    self.asset, self.width as int, self.height as int, start, text@,
                ).take(i as int),
            decreases text@.len() - i,
        {
            let code = text[i];
            proof {
                assert(0 <= (code as int % 16) * (self.width as int) <= 15 * 0x0100_0000)
                    by (nonlinear_arith)
                    requires 1 <= self.width <= 0x0100_0000;
                assert(0 <= (code as int / 16) * (self.height as int) <= 15 * 0x0100_0000)
                    by (nonlinear_arith)
                    requires 1 <= self.height <= 0x0100_0000, 0 <= code as int / 16 <= 15;
                assert(0 <= (i as int) * (self.width as int + 1)
                    && (i as int) * (self.width as int + 1)
                        <= (text@.len() as int) * (self.width as int + 1))
                    by (nonlinear_arith)
                    requires 0 <= i < text@.len(), self.width >= 1;
                assert(text@.len() <= 0x8000_0000) by (nonlinear_arith)
                    requires
                        start.x + (text@.len() as int) * (self.width as int + 1) <= i32::MAX,
                        self.width >= 1,
                        start.x >= i32::MIN;
            }
            let src_x = (code as i64 % 16) * (self.width as i64);
            let src_y = (code as i64 / 16) * (self.height as i64);
            let dest_x = (start.x as i64) + (i as i64) * (self.width as i64 + 1);
            let op = BlitOp {
                asset: self.asset,
                src: Rect {
                    x: src_x as i32,
                    y: src_y as i32,
                    w: self.width,
                    h: self.height,
                },
                dest: Rect {
                    x: dest_x as i32,
                    y: start.y,
                    w: self.width,
                    h: self.height,
                },
            };
            ops.push(op);
            proof {
                assert(ops@ =~= text_ops(
                    self.asset, self.width as int, self.height as int, start, text@,
                ).take(i + 1));
            }
            i = i + 1;
        }
        proof {
            assert(text_ops(self.asset, self.width as int, self.height as int, start, text@)
                .take(text@.len() as int)
                =~= text_ops(self.asset, self.width as int, self.height as int, start, text@));
        }
        ops
    }

    /// The blits that draw `text` scrolling right to left: the text's start
    /// is shifted by the marquee position for `ms`.
    pub fn marquee(&self, text: &Vec<u8>, start: &Vec2, ms: u64) -> (r: Vec<BlitOp>)
        requires
            self.wf(),
            (self.width + 1) * (text@.len() as int) + 32 <= i32::MAX,
            start.x + (self.width + 1) * (text@.len() as int) + 32 <= i32::MAX,
            i32::MIN + (self.width + 1) * (text@.len() as int) + 32 <= start.x,
        ensures
            r@ == text_ops(
                self.asset,
                self.width as int,
                self.height as int,
                Vec2 {
                    x: (start.x + marquee_shift(
                        self.width as int, text@.len() as int, ms as int,
                    )) as i32,
                    y: start.y,
                },
                text@,
            ),
    {
        proof {
            assert(text@.len() < 0x4000_0000
                && 0 <= (self.width as int + 1) * (text@.len() as int)) by (nonlinear_arith)
                requires
                    (self.width + 1) * (text@.len() as int) + 32 <= i32::MAX,
                    1 <= self.width;
        }
        let full_width: i64 = (self.width as i64 + 1) * (text.len() as i64);
        let time_index: u64 = ms / 50;
        let wrap: u64 = (full_width + 32) as u64;
        let x: i64 = 32 - (time_index % wrap) as i64;
        let point = Vec2 { x: ((start.x as i64) + x) as i32, y: start.y };
        proof {
            assert(point.x == start.x + marquee_shift(
                self.width as int, text@.len() as int, ms as int));
            assert((text@.len() as int) * (self.width as int + 1)
                == (self.width + 1) * (text@.len() as int)) by (nonlinear_arith);
            assert(point.x + (text@.len() as int) * (self.width + 1) <= i32::MAX);
        }
        self.text(point, text)
    }
}

} // verus!
