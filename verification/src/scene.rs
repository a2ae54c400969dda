//! The four scenes: clock, media info, audio spectrum and audio amplitude.
//! Each scene draws its lit-pixel content into the shared surface and
//! describes its glyph and sprite content as blit operations for the asset
//! renderer at the process boundary.

use vstd::prelude::*;
use crate::bitmap::{Bitmap, GRID_WIDTH, GRID_HEIGHT, on_grid, cell_index};
use crate::geom::{Rect, Vec2};
use crate::font::{AssetId, BlitOp, FontRenderer, marquee_shift, text_ops};
use crate::info::{ColumnPair, Info, PlaybackState, SpectrumResult};

verus! {

/// The closed set of scenes the pool rotates through.
#[derive(Clone, Copy, PartialEq, Eq, Structural, Debug)]
pub enum SceneKind {
    Time,
    Media,
    Spectrum,
    Amplitude,
}

/// A scene's activation predicate over the latest media snapshot: the clock
/// is always eligible, media needs the player not to be stopped, the two
/// audio scenes need it to be playing.
pub open spec fn spec_scene_condition(kind: SceneKind, state: PlaybackState) -> bool {
    match kind {
        SceneKind::Time => true,
        SceneKind::Media => state != PlaybackState::Stop,
        SceneKind::Spectrum => state == PlaybackState::Play,
        SceneKind::Amplitude => state == PlaybackState::Play,
    }
}

/// Evaluate a scene's activation predicate.
pub fn scene_condition(kind: SceneKind, info: &Info) -> (r: bool)
    ensures
        r == spec_scene_condition(kind, info.state),
{
    match kind {
        SceneKind::Time => true,
        SceneKind::Media => !matches!(info.state, PlaybackState::Stop),
        SceneKind::Spectrum => matches!(info.state, PlaybackState::Play),
        SceneKind::Amplitude => matches!(info.state, PlaybackState::Play),
    }
}

/// `(x, y)` lies in one of the column bars: column `x`'s bar rises from the
/// bottom edge to its height.
pub open spec fn column_lit(cols: Seq<ColumnPair>, x: int, y: int) -> bool {
    0 <= x < cols.len() && y >= 16 - cols[x].1
}

/// Draw one one-cell-wide bar per column, rising from the bottom edge.
fn draw_columns(surface: &mut Bitmap, cols: &Vec<ColumnPair>) -> (r: ())
    requires
        old(surface).wf(),
        cols@.len() <= GRID_WIDTH,
        forall|i: int| 0 <= i < cols@.len() ==> (#[trigger] cols@[i]).1 <= 15,
    ensures
        final(surface).wf(),
        forall|x: int, y: int| on_grid(x, y)
            ==> final(surface)@[#[trigger] cell_index(x, y)]
                == (old(surface)@[cell_index(x, y)] || column_lit(cols@, x, y)),
{
    let mut i: usize = 0;
    while i < cols.len()
        invariant
            surface.wf(),
            i <= cols@.len(),
            cols@.len() <= GRID_WIDTH,
            forall|k: int| 0 <= k < cols@.len() ==> (#[trigger] cols@[k]).1 <= 15,
            forall|x: int, y: int| on_grid(x, y)
                ==> surface@[#[trigger] cell_index(x, y)]
                    == (old(surface)@[cell_index(x, y)]
                        || (column_lit(cols@, x, y) && x < i)),
        decreases cols@.len() - i,
    {
        let h = cols[i].1;
        if h > 0 {
            surface.fill_rect(Rect {
                x: i as i32,
                y: 16 - h as i32,
                w: 1,
                h: h as u32,
            });
        }
        i = i + 1;
    }
}

/// The audio-spectrum scene: one bar per column at the column's peak height.
pub struct SceneSpectrum {}

impl SceneSpectrum {
    pub fn new() -> SceneSpectrum {
        SceneSpectrum {  }
    }

    /// Draw the spectrum columns into the surface.
    pub fn draw(&self, surface: &mut Bitmap, spectrum: &SpectrumResult) -> (r: ())
        requires
            old(surface).wf(),
            spectrum.wf(),
        ensures
            final(surface).wf(),
            forall|x: int, y: int| on_grid(x, y)
                ==> final(surface)@[#[trigger] cell_index(x, y)]
                    == (old(surface)@[cell_index(x, y)]
                        || column_lit(spectrum.spectrum@, x, y)),
    {
        draw_columns(surface, &spectrum.spectrum)
    }
}

/// The audio-amplitude scene: a scrolling waveform, one bar per column at the
/// column's peak amplitude.
pub struct SceneAmplitude {}

impl SceneAmplitude {
    pub fn new() -> SceneAmplitude {
        SceneAmplitude {  }
    }

    /// Draw the amplitude columns into the surface.
    pub fn draw(&self, surface: &mut Bitmap, spectrum: &SpectrumResult) -> (r: ())
        requires
            old(surface).wf(),
            spectrum.wf(),
        ensures
            final(surface).wf(),
            forall|x: int, y: int| on_grid(x, y)
                ==> final(surface)@[#[trigger] cell_index(x, y)]
                    == (old(surface)@[cell_index(x, y)]
                        || column_lit(spectrum.amplitude@, x, y)),
    {
        draw_columns(surface, &spectrum.amplitude)
    }
}

/// Width of a seconds bar: one cell per second past `base`, capped at 15.
pub open spec fn bar_width(second: int, base: int) -> int {
    let d = second - base;
    if d < 0 {
        0
    } else if d > 15 {
        15
    } else {
        d
    }
}

/// `(x, y)` lies on the zig-zag bar of width `w` starting at column `x_off`
/// on rows `y_base` and `y_base + 1`, alternating with parity `par`.
pub open spec fn bar_lit(x_off: int, y_base: int, par: int, w: int, x: int, y: int) -> bool {
    x_off <= x < x_off + w && y == y_base + ((x - x_off + par) % 2)
}

/// `(x, y)` lies on one of the clock scene's four seconds bars.
pub open spec fn time_bars_lit(second: int, x: int, y: int) -> bool {
    ||| bar_lit(0, 14, 0, bar_width(second, 0), x, y)
    ||| bar_lit(17, 0, 0, bar_width(second, 15), x, y)
    ||| bar_lit(0, 14, 1, bar_width(second, 30), x, y)
    ||| bar_lit(17, 0, 1, bar_width(second, 45), x, y)
}

/// Draw a zig-zag bar of `w` cells from column `x_off`, alternating between
/// rows `y_base` and `y_base + 1` with parity `par`.
fn draw_bar(surface: &mut Bitmap, x_off: usize, y_base: usize, par: usize, w: u8) -> (r: ())
    requires
        old(surface).wf(),
        w <= 15,
        par <= 1,
        x_off + w <= GRID_WIDTH,
        y_base + 1 < GRID_HEIGHT,
    ensures
        final(surface).wf(),
        forall|x: int, y: int| on_grid(x, y)
            ==> final(surface)@[#[trigger] cell_index(x, y)]
                == (old(surface)@[cell_index(x, y)]
                    || bar_lit(x_off as int, y_base as int, par as int, w as int, x, y)),
{
    let mut k: usize = 0;
    while k < w as usize
        invariant
            surface.wf(),
            k <= w,
            w <= 15,
            par <= 1,
            x_off + w <= GRID_WIDTH,
            y_base + 1 < GRID_HEIGHT,
            forall|x: int, y: int| on_grid(x, y)
                ==> surface@[#[trigger] cell_index(x, y)]
                    == (old(surface)@[cell_index(x, y)]
                        || (bar_lit(x_off as int, y_base as int, par as int, w as int, x, y)
                            && x < x_off + k)),
        decreases w - k,
    {
        let y = y_base + (k + par) % 2;
        surface.draw_point(x_off + k, y);
        proof {
            assert forall|x: int, y2: int| on_grid(x, y2)
                implies surface@[#[trigger] cell_index(x, y2)]
                    == (old(surface)@[cell_index(x, y2)]
                        || (bar_lit(x_off as int, y_base as int, par as int, w as int, x, y2)
                            && x < x_off + k + 1)) by {
                if x == x_off + k {
                    assert((x - x_off + par) % 2 == (k + par) % 2);
                } else {
                    assert(cell_index(x, y2) != cell_index(x_off + k, y as int));
                }
            }
        }
        k = k + 1;
    }
}

/// The two-digit decimal rendering of a value below 100.
pub open spec fn two_digits(v: u8) -> Seq<u8> {
    seq![(0x30 + v / 10) as u8, (0x30 + v % 10) as u8]
}

/// The clock scene's glyph content: the hour at the top left, the minute at
/// the lower right, both in the large font.
pub open spec fn time_blits(hour: u8, minute: u8) -> Seq<BlitOp> {
    text_ops(AssetId::FontLarge, 7, 12, Vec2 { x: 0, y: 0 }, two_digits(hour))
        + text_ops(AssetId::FontLarge, 7, 12, Vec2 { x: 17, y: 4 }, two_digits(minute))
}

/// The clock scene: hour and minute digits plus four zig-zag bars that grow
/// with the seconds, one per quarter minute.
pub struct SceneTime {
    pub font_7x12: FontRenderer,
}

impl SceneTime {
    pub fn new() -> (r: SceneTime)
        ensures
            r.wf(),
    {
        SceneTime { font_7x12: FontRenderer::new(7, 12, AssetId::FontLarge) }
    }

    pub open spec fn wf(&self) -> bool {
        self.font_7x12 == (FontRenderer { width: 7, height: 12, asset: AssetId::FontLarge })
    }

    /// Draw the seconds bars into the surface and return the digit blits.
    pub fn draw(&self, surface: &mut Bitmap, info: &Info) -> (r: Vec<BlitOp>)
        requires
            self.wf(),
            old(surface).wf(),
            info.wf(),
        ensures
            final(surface).wf(),
            forall|x: int, y: int| on_grid(x, y)
                ==> final(surface)@[#[trigger] cell_index(x, y)]
                    == (old(surface)@[cell_index(x, y)]
                        || time_bars_lit(info.second as int, x, y)),
            r@ == time_blits(info.hour, info.minute),
    {
        let s = info.second;
        let w1 = if s > 15 { 15 } else { s };
        let w2 = if s <= 15 { 0 } else if s > 30 { 15 } else { s - 15 };
        let w3 = if s <= 30 { 0 } else if s > 45 { 15 } else { s - 30 };
        let w4 = if s <= 45 { 0 } else { s - 45 };
        draw_bar(surface, 0, 14, 0, w1);
        draw_bar(surface, 17, 0, 0, w2);
        draw_bar(surface, 0, 14, 1, w3);
        draw_bar(surface, 17, 0, 1, w4);

        let mut hours: Vec<u8> = Vec::new();
        hours.push(0x30 + info.hour / 10);
        hours.push(0x30 + info.hour % 10);
        let mut minutes: Vec<u8> = Vec::new();
        minutes.push(0x30 + info.minute / 10);
        minutes.push(0x30 + info.minute % 10);
        proof {
            assert(hours@ =~= two_digits(info.hour));
            assert(minutes@ =~= two_digits(info.minute));
        }
        let mut ops = self.font_7x12.text(Vec2 { x: 0, y: 0 }, &hours);
        let mut minute_ops = self.font_7x12.text(Vec2 { x: 17, y: 4 }, &minutes);
        let mut i: usize = 0;
        while i < minute_ops.len()
            invariant
                i <= minute_ops@.len(),
                ops@ == text_ops(
                    AssetId::FontLarge, 7, 12, Vec2 { x: 0, y: 0 }, two_digits(info.hour),
                ) + minute_ops@.take(i as int),
            decreases minute_ops@.len() - i,
        {
            ops.push(minute_ops[i]);
            proof {
                assert(minute_ops@.take(i + 1) =~= minute_ops@.take(i as int).push(
                    minute_ops@[i as int]));
            }
            i = i + 1;
        }
        proof {
            assert(minute_ops@.take(minute_ops@.len() as int) =~= minute_ops@);
        }
        ops
    }
}

/// Index of a playback state's icon in the state-icon strip.
pub open spec fn state_icon_index(state: PlaybackState) -> int {
    match state {
        PlaybackState::Play => 0,
        PlaybackState::Pause => 1,
        PlaybackState::Stop => 2,
    }
}

/// The marquee text of the media scene: artist and song joined by a dash.
pub open spec fn media_text(artist: Seq<u8>, song: Seq<u8>) -> Seq<u8> {
    artist + seq![0x20u8, 0x2Du8, 0x20u8] + song
}

/// How many spinner frames of track progress to draw: the elapsed fraction
/// of the track, in tenth-second resolution, scaled to the spinner's frame
/// count. Zero when the track length reads as zero.
pub open spec fn spinner_count(elapsed: u64, duration: u64) -> int {
    if duration as int / 100 == 0 {
        0
    } else {
        ((elapsed as int / 100) * 32) / (duration as int / 100)
    }
}

/// The media scene's sprite content: the scrolling title marquee, the
/// progress spinner frames and the playback-state icon.
pub open spec fn media_blits(
    artist: Seq<u8>,
    song: Seq<u8>,
    elapsed: u64,
    duration: u64,
    state: PlaybackState,
    time: u64,
) -> Seq<BlitOp> {
    let text = media_text(artist, song);
    let title = text_ops(
        AssetId::FontSmall,
        3,
        5,
        Vec2 { x: (0 + marquee_shift(3, text.len() as int, time as int)) as i32, y: 11 },
        text,
    );
    let spinner = Seq::new(
        spinner_count(elapsed, duration) as nat,
        |i: int| BlitOp {
            asset: AssetId::Spinner,
            src: Rect {
                x: ((((time / 100) % 32) + i) % 32 * 9) as i32,
                y: 0,
                w: 9,
                h: 9,
            },
            dest: Rect { x: 11, y: 0, w: 9, h: 9 },
        },
    );
    let state_op = BlitOp {
        asset: AssetId::StateIcons,
        src: Rect { x: (state_icon_index(state) * 5) as i32, y: 0, w: 5, h: 5 },
        dest: Rect { x: 13, y: 2, w: 5, h: 5 },
    };
    title + spinner + seq![state_op]
}

/// The media scene: scrolling "artist - song" marquee, a spinner that fills
/// with track progress, and a playback-state icon. Draws no direct pixels;
/// all its content is blitted from assets.
pub struct SceneMedia {
    pub font_3x5: FontRenderer,
}

impl SceneMedia {
    pub fn new() -> (r: SceneMedia)
        ensures
            r.wf(),
    {
        SceneMedia { font_3x5: FontRenderer::new(3, 5, AssetId::FontSmall) }
    }

    pub open spec fn wf(&self) -> bool {
        self.font_3x5 == (FontRenderer { width: 3, height: 5, asset: AssetId::FontSmall })
    }

    /// The blits of the media scene for the given snapshot at scene time
    /// `time`.
    pub fn draw(&self, info: &Info, time: u64) -> (r: Vec<BlitOp>)
        requires
            self.wf(),
            info.wf(),
        ensures
            r@ == media_blits(
                info.artist@, info.song@, info.elapsed, info.duration, info.state, time,
            ),
    {
        let mut text: Vec<u8> = Vec::new();
        let mut i: usize = 0;
        while i < info.artist.len()
            invariant
                i <= info.artist@.len(),
                text@ == info.artist@.take(i as int),
            decreases info.artist@.len() - i,
        {
            text.push(info.artist[i]);
            proof {
                assert(text@ =~= info.artist@.take(i + 1));
            }
            i = i + 1;
        }
        proof {
            assert(info.artist@.take(info.artist@.len() as int) =~= info.artist@);
        }
        text.push(0x20);
        text.push(0x2D);
        text.push(0x20);
        let mut j: usize = 0;
        while j < info.song.len()
            invariant
                j <= info.song@.len(),
                text@ == info.artist@ + seq![0x20u8, 0x2Du8, 0x20u8] + info.song@.take(j as int),
            decreases info.song@.len() - j,
        {
            text.push(info.song[j]);
            proof {
                assert(text@ =~= info.artist@ + seq![0x20u8, 0x2Du8, 0x20u8]
                    + info.song@.take(j + 1));
            }
            j = j + 1;
        }
        proof {
            assert(info.song@.take(info.song@.len() as int) =~= info.song@);
            assert(text@ == media_text(info.artist@, info.song@));
        }

        let mut ops = self.font_3x5.marquee(&text, &Vec2 { x: 0, y: 11 }, time);

        let elapsed_ds = info.elapsed / 100;
        let duration_ds = info.duration / 100;
        let ghost title_ops = ops@;
        if duration_ds > 0 {
            proof {
                assert(elapsed_ds <= duration_ds) by (nonlinear_arith)
                    requires
                        info.elapsed <= info.duration,
                        elapsed_ds == info.elapsed as int / 100,
                        duration_ds == info.duration as int / 100;
                assert((elapsed_ds as int * 32) / (duration_ds as int) <= 32)
                    by (nonlinear_arith)
                    requires 0 < duration_ds, 0 <= elapsed_ds <= duration_ds;
                assert(elapsed_ds * 32 <= 0xFFFF_FFFF_FFFF_FFFF) by (nonlinear_arith)
                    requires 0 <= elapsed_ds <= 0x028F_5C28_F5C2_8F5C;
            }
            let pixels = (elapsed_ds * 32) / duration_ds;
            let start = (time / 100) % 32;
            let mut k: u64 = 0;
            while k < pixels
                invariant
                    k <= pixels,
                    start == (time / 100) % 32,
                    pixels == spinner_count(info.elapsed, info.duration),
                    pixels <= 32,
                    ops@ == title_ops + Seq::new(
                        k as nat,
                        |i: int| BlitOp {
                            asset: AssetId::Spinner,
                            src: Rect {
                                x: ((((time / 100) % 32) + i) % 32 * 9) as i32,
                                y: 0,
                                w: 9,
                                h: 9,
                            },
                            dest: Rect { x: 11, y: 0, w: 9, h: 9 },
                        },
                    ),
                decreases pixels - k,
            {
                let frame = (start + k) % 32;
                ops.push(BlitOp {
                    asset: AssetId::Spinner,
                    src: Rect { x: (frame * 9) as i32, y: 0, w: 9, h: 9 },
                    dest: Rect { x: 11, y: 0, w: 9, h: 9 },
                });
                proof {
                    assert(ops@ =~= title_ops + Seq::new(
                        (k + 1) as nat,
                        |i: int| BlitOp {
                            asset: AssetId::Spinner,
                            src: Rect {
                                x: ((((time / 100) % 32) + i) % 32 * 9) as i32,
                                y: 0,
                                w: 9,
                                h: 9,
                            },
                            dest: Rect { x: 11, y: 0, w: 9, h: 9 },
                        },
                    ));
                }
                k = k + 1;
            }
        }
        let state_index: i32 = match info.state {
            PlaybackState::Play => 0,
            PlaybackState::Pause => 1,
            PlaybackState::Stop => 2,
        };
        ops.push(BlitOp {
            asset: AssetId::StateIcons,
            src: Rect { x: state_index * 5, y: 0, w: 5, h: 5 },
            dest: Rect { x: 13, y: 2, w: 5, h: 5 },
        });
        proof {
            assert(ops@ =~= media_blits(
                info.artist@, info.song@, info.elapsed, info.duration, info.state, time,
            ));
        }
        ops
    }
}

} // verus!
