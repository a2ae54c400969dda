use musicpi_display::bitmap::Bitmap;
use musicpi_display::font::{AssetId, FontRenderer};
use musicpi_display::geom::{Rect, Vec2};
use musicpi_display::info::{Info, PlaybackState, SpectrumResult};
use musicpi_display::scene::{
    SceneAmplitude, SceneKind, SceneMedia, SceneSpectrum, SceneTime, scene_condition,
};

fn sample_info(state: PlaybackState) -> Info {
    Info {
        volume: 50,
        ms: 5000,
        hour: 13,
        minute: 37,
        second: 20,
        artist: b"Artist".to_vec(),
        song: b"Song".to_vec(),
        duration: 200_000,
        elapsed: 50_000,
        state,
    }
}

fn sample_spectrum() -> SpectrumResult {
    let mut spectrum = vec![(0u8, 0u8); 32];
    let mut amplitude = vec![(0u8, 0u8); 32];
    spectrum[3] = (1, 5);
    amplitude[7] = (2, 15);
    SpectrumResult { spectrum, amplitude }
}

#[test]
fn clock_is_always_eligible() {
    for state in [PlaybackState::Play, PlaybackState::Pause, PlaybackState::Stop] {
        let info = sample_info(state);
        assert!(scene_condition(SceneKind::Time, &info));
    }
}

#[test]
fn media_needs_playback_not_stopped() {
    assert!(scene_condition(SceneKind::Media, &sample_info(PlaybackState::Play)));
    assert!(scene_condition(SceneKind::Media, &sample_info(PlaybackState::Pause)));
    assert!(!scene_condition(SceneKind::Media, &sample_info(PlaybackState::Stop)));
}

#[test]
fn audio_scenes_need_active_playback() {
    for kind in [SceneKind::Spectrum, SceneKind::Amplitude] {
        assert!(scene_condition(kind, &sample_info(PlaybackState::Play)));
        assert!(!scene_condition(kind, &sample_info(PlaybackState::Pause)));
        assert!(!scene_condition(kind, &sample_info(PlaybackState::Stop)));
    }
}

#[test]
fn spectrum_scene_draws_column_bars() {
    let mut surface = Bitmap::new();
    let scene = SceneSpectrum::new();
    scene.draw(&mut surface, &sample_spectrum());
    // Column 3 has peak height 5: rows 11..16 lit, row 10 dark.
    for y in 11..16 {
        assert!(surface.get(3, y));
    }
    assert!(!surface.get(3, 10));
    assert!(!surface.get(2, 15));
}

#[test]
fn amplitude_scene_draws_column_bars() {
    let mut surface = Bitmap::new();
    let scene = SceneAmplitude::new();
    scene.draw(&mut surface, &sample_spectrum());
    // Column 7 has peak height 15: rows 1..16 lit, row 0 dark.
    for y in 1..16 {
        assert!(surface.get(7, y));
    }
    assert!(!surface.get(7, 0));
    assert!(!surface.get(6, 15));
}

#[test]
fn time_scene_grows_second_bars_and_places_digits() {
    let mut surface = Bitmap::new();
    let scene = SceneTime::new();
    // 20 seconds: first bar full (15 cells), second bar 5 cells, rest empty.
    let blits = scene.draw(&mut surface, &sample_info(PlaybackState::Stop));
    for x in 0..15 {
        let y = 14 + (x % 2) as usize;
        assert!(surface.get(x as usize, y));
    }
    for x in 17..22 {
        let y = ((x - 17) % 2) as usize;
        assert!(surface.get(x as usize, y));
    }
    assert!(!surface.get(22, 0));
    assert!(!surface.get(22, 1));
    // Two digits of the hour, two of the minute, in the large font.
    assert_eq!(4, blits.len());
    assert_eq!(AssetId::FontLarge, blits[0].asset);
    // '1' is glyph 0x31: column 1 of the atlas' fourth row.
    assert_eq!(Rect::new(7, 36, 7, 12), blits[0].src);
    assert_eq!(Rect::new(0, 0, 7, 12), blits[0].dest);
    // '3' of the hour lands one glyph width plus a space to the right.
    assert_eq!(Rect::new(8, 0, 7, 12), blits[1].dest);
    // The minute digits start at (17, 4).
    assert_eq!(Rect::new(17, 4, 7, 12), blits[2].dest);
}

#[test]
fn media_scene_emits_marquee_spinner_and_state_icon() {
    let info = sample_info(PlaybackState::Pause);
    let scene = SceneMedia::new();
    let blits = scene.draw(&info, 0);
    // "Artist - Song" is 13 glyphs; a quarter of the track gives 8 of the 32
    // spinner frames; one state icon closes the list.
    assert_eq!(13 + 8 + 1, blits.len());
    for b in &blits[0..13] {
        assert_eq!(AssetId::FontSmall, b.asset);
        assert_eq!(11, b.dest.y);
    }
    // At time 0 the marquee shift is 32: the first glyph starts off-screen
    // right.
    assert_eq!(32, blits[0].dest.x);
    for b in &blits[13..21] {
        assert_eq!(AssetId::Spinner, b.asset);
        assert_eq!(Rect::new(11, 0, 9, 9), b.dest);
    }
    // At time 0 the spinner starts at frame 0.
    assert_eq!(Rect::new(0, 0, 9, 9), blits[13].src);
    assert_eq!(Rect::new(9, 0, 9, 9), blits[14].src);
    let state = blits[21];
    assert_eq!(AssetId::StateIcons, state.asset);
    // The pause icon is the strip's second 5x5 cell.
    assert_eq!(Rect::new(5, 0, 5, 5), state.src);
    assert_eq!(Rect::new(13, 2, 5, 5), state.dest);
}

#[test]
fn media_scene_with_zero_duration_draws_no_spinner() {
    let mut info = sample_info(PlaybackState::Play);
    info.duration = 0;
    info.elapsed = 0;
    let scene = SceneMedia::new();
    let blits = scene.draw(&info, 0);
    assert_eq!(13 + 1, blits.len());
}

#[test]
fn text_places_one_glyph_per_byte() {
    let font = FontRenderer::new(3, 5, AssetId::FontSmall);
    let ops = font.text(Vec2::new(2, 7), &b"AB".to_vec());
    assert_eq!(2, ops.len());
    // 'A' is 0x41: column 1, row 4 of the atlas.
    assert_eq!(Rect::new(3, 20, 3, 5), ops[0].src);
    assert_eq!(Rect::new(2, 7, 3, 5), ops[0].dest);
    // 'B' sits one glyph width plus one cell further right.
    assert_eq!(Rect::new(6, 20, 3, 5), ops[1].src);
    assert_eq!(Rect::new(6, 7, 3, 5), ops[1].dest);
}

#[test]
fn marquee_scrolls_one_cell_per_fifty_milliseconds() {
    let font = FontRenderer::new(3, 5, AssetId::FontSmall);
    let text = b"AB".to_vec();
    let at_start = font.marquee(&text, &Vec2::new(0, 11), 0);
    let later = font.marquee(&text, &Vec2::new(0, 11), 150);
    assert_eq!(32, at_start[0].dest.x);
    assert_eq!(29, later[0].dest.x);
}
