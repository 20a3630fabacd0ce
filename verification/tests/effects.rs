use gator::config::EffectsConfig;
use gator::effects::{
    Ages, EffectsState, AGE_CAP_MS, ENTERING, FX_BELL, FX_CRT, FX_CUBE, FX_KEYSTROKE, LEAVING, NEVER,
};
use std::time::{Duration, Instant};

fn cfg_all() -> EffectsConfig {
    EffectsConfig { crt: true, keystroke: true, wobble: true, cube: true }
}

fn age(now: Instant, t: Option<Instant>) -> u32 {
    match t {
        Some(t) => (now.saturating_duration_since(t).as_secs_f32() * 1000.0).to_bits(),
        None => NEVER,
    }
}

fn xy(x: f32, y: f32) -> (u32, u32) {
    (x.to_bits(), y.to_bits())
}

fn mask(s: &EffectsState<Instant>, now: Instant) -> u32 {
    s.build_uniform(0, ages(s, now), xy(100.0, 100.0)).effect_mask
}

fn ages(s: &EffectsState<Instant>, now: Instant) -> Ages {
    Ages {
        keystroke: age(now, s.last_keystroke.map(|k| k.0)),
        wobble: age(now, s.last_resize),
        cube: age(now, s.last_alt_toggle.map(|k| k.0)),
        bell: age(now, s.last_bell),
    }
}

#[test]
fn animation_active_only_while_recent() {
    let mut s = EffectsState::new(cfg_all(), false);
    let t0 = Instant::now();
    s.record_keystroke(t0, xy(10.0, 10.0));
    assert!(s.animation_active(ages(&s, t0)));
    // Long after the window, it settles.
    assert!(!s.animation_active(ages(&s, t0 + Duration::from_millis(500))));
}

#[test]
fn mask_drops_bits_after_decay() {
    let mut s = EffectsState::new(cfg_all(), false);
    let t0 = Instant::now();
    s.record_keystroke(t0, xy(0.0, 0.0));
    let u_now = s.build_uniform(0, ages(&s, t0), xy(100.0, 100.0));
    assert!(u_now.effect_mask & FX_KEYSTROKE != 0);
    let late = t0 + Duration::from_secs(1);
    let u_late = s.build_uniform(1000f32.to_bits(), ages(&s, late), xy(100.0, 100.0));
    assert!(u_late.effect_mask & FX_KEYSTROKE == 0);
    // CRT is persistent.
    assert!(u_late.effect_mask & FX_CRT != 0);
}

#[test]
fn windows_are_the_documented_ones() {
    assert_eq!(f32::from_bits(gator::effects::KEYSTROKE_MS), 400.0);
    assert_eq!(f32::from_bits(gator::effects::WOBBLE_MS), 600.0);
    assert_eq!(f32::from_bits(gator::effects::CUBE_MS), 300.0);
    assert_eq!(f32::from_bits(gator::effects::BELL_MS), 120.0);
    assert_eq!(f32::from_bits(NEVER), f32::INFINITY);
    assert_eq!(f32::from_bits(AGE_CAP_MS), 1e6);
    assert_eq!(f32::from_bits(ENTERING), 1.0);
    assert_eq!(f32::from_bits(LEAVING), -1.0);
}

#[test]
fn only_enabled_effects_are_recorded() {
    let t0 = Instant::now();
    let mut off = EffectsState::new(EffectsConfig::default(), false);
    off.record_keystroke(t0, xy(1.0, 2.0));
    off.record_resize(t0);
    off.record_alt_toggle(t0, true);
    off.record_bell(t0);
    assert!(off.last_keystroke.is_none() && off.last_resize.is_none());
    assert!(off.last_alt_toggle.is_none() && off.last_bell.is_none());
    assert_eq!(mask(&off, t0), 0);
    assert!(!off.animation_active(ages(&off, t0)));

    let mut on = EffectsState::new(cfg_all(), true);
    on.record_bell(t0);
    on.record_alt_toggle(t0, false);
    on.record_resize(t0);
    on.record_keystroke(t0, xy(1.0, 2.0));
    assert_eq!(on.last_keystroke, Some((t0, xy(1.0, 2.0))));
    assert_eq!(on.last_alt_toggle, Some((t0, false)));
    assert_eq!(mask(&on, t0), 31);
    let later = t0 + Duration::from_millis(200);
    let late = mask(&on, later);
    assert!(late & FX_BELL == 0 && late & FX_CUBE != 0);
}

#[test]
fn ages_are_capped() {
    let t0 = Instant::now();
    let mut s = EffectsState::new(cfg_all(), true);
    let nothing = s.build_uniform(5, ages(&s, t0), xy(640.0, 480.0));
    assert_eq!(nothing.surface, xy(640.0, 480.0));
    assert_eq!(nothing.time_ms, 5);
    assert_eq!(nothing.effect_mask, FX_CRT);
    assert_eq!(nothing.keystroke_xy, xy(0.0, 0.0));
    assert_eq!(nothing.cube_direction, 0f32.to_bits());
    assert_eq!(nothing.cursor_vel, xy(0.0, 0.0));
    for age in [
        nothing.keystroke_age_ms,
        nothing.wobble_age_ms,
        nothing.cube_age_ms,
        nothing.bell_age_ms,
    ] {
        assert_eq!(f32::from_bits(age), 1e6);
    }

    // A small age given for something that was never recorded plays no part.
    let young = Ages { keystroke: 0, wobble: 0, cube: 0, bell: 0 };
    assert_eq!(s.build_uniform(5, young, xy(640.0, 480.0)), nothing);
    assert!(!s.animation_active(young));

    s.record_keystroke(t0, xy(3.0, 4.0));
    s.record_alt_toggle(t0, false);
    s.record_bell(t0);
    s.cursor_vel = xy(7.0, -8.0);
    let soon = s.build_uniform(0, ages(&s, t0 + Duration::from_millis(250)), xy(1.0, 1.0));
    assert_eq!(soon.keystroke_xy, xy(3.0, 4.0));
    assert_eq!(f32::from_bits(soon.keystroke_age_ms), 250.0);
    assert_eq!(f32::from_bits(soon.cube_direction), -1.0);
    assert_eq!(soon.cursor_vel, xy(7.0, -8.0));
    assert_eq!(f32::from_bits(soon.wobble_age_ms), 1e6);
    assert_eq!(soon.effect_mask, FX_CRT | FX_KEYSTROKE | FX_CUBE);
    let late = s.build_uniform(0, ages(&s, t0 + Duration::from_secs(5000)), xy(1.0, 1.0));
    assert_eq!(f32::from_bits(late.bell_age_ms), 1e6);
    assert_eq!(late.effect_mask, FX_CRT);
}
