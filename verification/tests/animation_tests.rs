use smart_garland::animation::{
    Animation, HUE_STEP, OFF_BRIGHTNESS, OFF_FRAME_MS, ON_BRIGHTNESS, ON_FRAME_MS, SATURATION,
};
use smart_garland::color::hsv_to_rgb;
use smart_garland::encoder::rgb_to_pulses;
use smart_garland::light::LightState;
use smart_garland::pulse::{Level, PulseCode};

fn train_of(color: (u8, u8, u8)) -> [PulseCode; 25] {
    let mut pulses = [PulseCode::end_marker(); 25];
    rgb_to_pulses(color.0, color.1, color.2, &mut pulses);
    pulses
}

fn decode(pulses: &[PulseCode; 25]) -> (u8, u8, u8) {
    let one = PulseCode { level1: Level::High, length1: 64, level2: Level::Low, length2: 36 };
    let mut word: u32 = 0;
    for code in pulses.iter().take(24) {
        word = (word << 1) | u32::from(*code == one);
    }
    ((word >> 8) as u8, (word >> 16) as u8, word as u8)
}

#[test]
fn tuning_constants() {
    assert_eq!(ON_BRIGHTNESS, 200);
    assert_eq!(OFF_BRIGHTNESS, 20);
    assert_eq!(ON_FRAME_MS, 20);
    assert_eq!(OFF_FRAME_MS, 100);
    assert_eq!(SATURATION, 255);
    assert_eq!(HUE_STEP, 1);
}

#[test]
fn animation_starts_at_hue_zero() {
    assert_eq!(Animation::new().hue(), 0);
}

#[test]
fn first_frame_of_an_off_light_is_dim_red_and_reports_no_change() {
    let mut animation = Animation::new();
    let mut pulses = [PulseCode::end_marker(); 25];
    let changed = animation.begin_frame(false, &mut pulses);
    assert!(!changed);
    assert_eq!(decode(&pulses), (20, 0, 0));
    assert_eq!(pulses, train_of(hsv_to_rgb(0, 255, 20)));
    assert_eq!(animation.end_frame(true), Some(100));
    assert_eq!(animation.hue(), 1);
}

#[test]
fn switching_on_selects_the_bright_fast_frame() {
    let mut state = LightState::new();
    let mut animation = Animation::new();
    let mut pulses = [PulseCode::end_marker(); 25];
    assert!(!state.is_on());
    assert_eq!(animation.hue(), 0);

    state.set_on(true);

    let changed = animation.begin_frame(state.is_on(), &mut pulses);
    assert!(changed);
    assert_eq!(decode(&pulses), (200, 0, 0));
    assert_eq!(decode(&pulses), hsv_to_rgb(0, 255, 200));
    assert_ne!(decode(&pulses), hsv_to_rgb(0, 255, 20));
    assert_eq!(pulses, train_of((200, 0, 0)));
    assert!(pulses[24].is_end_marker());
    assert_eq!(animation.end_frame(true), Some(20));
}

#[test]
fn a_change_is_reported_once() {
    let mut animation = Animation::new();
    let mut pulses = [PulseCode::end_marker(); 25];
    assert!(animation.begin_frame(true, &mut pulses));
    assert_eq!(animation.end_frame(true), Some(20));
    assert!(!animation.begin_frame(true, &mut pulses));
    assert_eq!(animation.end_frame(true), Some(20));
    assert!(animation.begin_frame(false, &mut pulses));
    assert_eq!(animation.end_frame(true), Some(100));
    assert!(!animation.begin_frame(false, &mut pulses));
    assert_eq!(animation.end_frame(true), Some(100));
}

#[test]
fn hue_advances_one_degree_per_frame_in_both_states() {
    let mut animation = Animation::new();
    let mut pulses = [PulseCode::end_marker(); 25];
    for frame in 0..50u16 {
        assert_eq!(animation.hue(), frame);
        animation.begin_frame(frame % 2 == 0, &mut pulses);
        assert_eq!(animation.hue(), frame);
        assert!(animation.end_frame(true).is_some());
    }
    assert_eq!(animation.hue(), 50);
}

#[test]
fn hue_wraps_after_359() {
    let mut animation = Animation::new();
    let mut pulses = [PulseCode::end_marker(); 25];
    for _ in 0..359 {
        animation.begin_frame(true, &mut pulses);
        animation.end_frame(true);
    }
    assert_eq!(animation.hue(), 359);
    animation.begin_frame(true, &mut pulses);
    assert_eq!(decode(&pulses), hsv_to_rgb(359, 255, 200));
    animation.end_frame(true);
    assert_eq!(animation.hue(), 0);
    animation.begin_frame(true, &mut pulses);
    assert_eq!(decode(&pulses), (200, 0, 0));
}

#[test]
fn every_frame_is_the_train_of_the_color_at_its_hue() {
    let mut animation = Animation::new();
    let mut pulses = [PulseCode::end_marker(); 25];
    for hue in 0..360u16 {
        let on = hue % 3 != 0;
        animation.begin_frame(on, &mut pulses);
        let brightness = if on { 200 } else { 20 };
        assert_eq!(pulses, train_of(hsv_to_rgb(hue, 255, brightness)), "hue {}", hue);
        assert_eq!(animation.end_frame(true), Some(if on { 20 } else { 100 }));
    }
    assert_eq!(animation.hue(), 0);
}

#[test]
fn a_failed_transmission_stops_the_animation_where_it_is() {
    let mut animation = Animation::new();
    let mut pulses = [PulseCode::end_marker(); 25];
    animation.begin_frame(true, &mut pulses);
    assert_eq!(animation.end_frame(true), Some(20));
    animation.begin_frame(true, &mut pulses);
    assert_eq!(animation.end_frame(false), None);
    assert_eq!(animation.hue(), 1);
    // the state seen by the frame that failed is still the cached one
    assert!(!animation.begin_frame(true, &mut pulses));
}

#[test]
fn on_frames_are_brighter_than_off_frames_at_every_hue() {
    for hue in 0..360u16 {
        let on = hsv_to_rgb(hue, SATURATION, ON_BRIGHTNESS);
        let off = hsv_to_rgb(hue, SATURATION, OFF_BRIGHTNESS);
        assert_eq!(on.0.max(on.1).max(on.2), 200);
        assert_eq!(off.0.max(off.1).max(off.2), 20);
    }
}
