use musicpi_display::bitmap::Bitmap;
use musicpi_display::graphics::Graphics;
use musicpi_display::info::{Info, PlaybackState, SpectrumResult};
use musicpi_display::scene::SceneKind;

fn info_at(ms: u64, state: PlaybackState) -> Info {
    Info {
        volume: 50,
        ms,
        hour: 13,
        minute: 37,
        second: 20,
        artist: b"Artist".to_vec(),
        song: b"Song".to_vec(),
        duration: 200_000,
        elapsed: 50_000,
        state,
    }
}

fn quiet_spectrum() -> SpectrumResult {
    SpectrumResult { spectrum: vec![(0, 0); 32], amplitude: vec![(0, 0); 32] }
}

#[test]
fn new_pool_holds_the_four_scenes_in_order() {
    let graphics = Graphics::new(0);
    assert_eq!(
        vec![SceneKind::Time, SceneKind::Media, SceneKind::Spectrum, SceneKind::Amplitude],
        graphics.pool_kinds()
    );
    assert_eq!(None, graphics.current_kind());
}

#[test]
fn stopped_playback_always_selects_the_clock() {
    let mut graphics = Graphics::new(0);
    let info = info_at(100, PlaybackState::Stop);
    let spectrum = quiet_spectrum();
    graphics.next_scene(&info, &spectrum);
    // Media, spectrum and amplitude are all ineligible while stopped.
    assert_eq!(Some(SceneKind::Time), graphics.current_kind());
    // The scanned-over scenes keep their rotation order in front.
    assert_eq!(
        vec![SceneKind::Media, SceneKind::Spectrum, SceneKind::Amplitude],
        graphics.pool_kinds()
    );
}

#[test]
fn active_playback_selects_the_rearmost_scene() {
    let mut graphics = Graphics::new(0);
    let info = info_at(100, PlaybackState::Play);
    let spectrum = quiet_spectrum();
    graphics.next_scene(&info, &spectrum);
    assert_eq!(Some(SceneKind::Amplitude), graphics.current_kind());
    assert_eq!(
        vec![SceneKind::Time, SceneKind::Media, SceneKind::Spectrum],
        graphics.pool_kinds()
    );
}

#[test]
fn rotation_cycles_through_eligible_scenes() {
    let mut graphics = Graphics::new(0);
    let spectrum = quiet_spectrum();
    let info = info_at(100, PlaybackState::Play);
    graphics.next_scene(&info, &spectrum);
    graphics.next_scene(&info, &spectrum);
    assert_eq!(Some(SceneKind::Spectrum), graphics.current_kind());
    // The outgoing amplitude scene went back to the front of the pool.
    assert_eq!(
        vec![SceneKind::Amplitude, SceneKind::Time, SceneKind::Media],
        graphics.pool_kinds()
    );
}

#[test]
fn startup_switch_migrates_from_an_empty_pixel_set() {
    let mut graphics = Graphics::new(0);
    let info = info_at(100, PlaybackState::Stop);
    let spectrum = quiet_spectrum();
    graphics.next_scene(&info, &spectrum);
    // With no outgoing scene, every pair is a target paired with itself:
    // the clock at second 20 lights 20 bar cells.
    assert_eq!(Some(20), graphics.transition_len());
}

#[test]
fn first_tick_renders_the_scene_into_the_frame() {
    let mut graphics = Graphics::new(0);
    let mut frame = Bitmap::new();
    let info = info_at(10, PlaybackState::Stop);
    let spectrum = quiet_spectrum();
    let blits = graphics.draw(&mut frame, &info, &spectrum);
    // The startup tick activates the clock and draws its bars.
    assert_eq!(Some(SceneKind::Time), graphics.current_kind());
    assert!(frame.get(0, 14));
    assert!(frame.get(13, 15));
    assert!(frame.get(14, 14));
    assert!(!frame.get(16, 14));
    // Hour and minute digits come back as blits.
    assert_eq!(4, blits.len());
}

#[test]
fn period_boundary_starts_a_transition_tick() {
    let mut graphics = Graphics::new(0);
    let mut frame = Bitmap::new();
    let spectrum = quiet_spectrum();
    let first = info_at(10, PlaybackState::Stop);
    graphics.draw(&mut frame, &first, &spectrum);
    // Crossing the 20 s boundary switches scenes and animates the migration.
    let crossed = info_at(20_001, PlaybackState::Stop);
    let blits = graphics.draw(&mut frame, &crossed, &spectrum);
    assert!(blits.is_empty());
    assert!(graphics.transition_len().is_some());
    // The frame shows the migrating origin points, here the clock's own
    // pixels (a self-transition), among them the first bar cell.
    assert!(frame.get(0, 14));
}
