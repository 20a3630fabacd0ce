//! Post-process effects: which are recorded, which are alive, and what the
//! shader is told.
//!
//! Numbers for the shader are `f32` bit patterns. Ages are milliseconds and
//! never negative; the patterns of such numbers order as the numbers do, so
//! ages are compared and capped without arithmetic on them.

use vstd::prelude::*;

use crate::config::EffectsConfig;

verus! {

/// Decay windows for each animated effect, as `f32` bit patterns: 400, 600,
/// 300 and 120 ms (kept short so settling is obvious).
pub const KEYSTROKE_MS: u32 = 0x43C8_0000;

pub const WOBBLE_MS: u32 = 0x4416_0000;

pub const CUBE_MS: u32 = 0x4396_0000;

pub const BELL_MS: u32 = 0x42F0_0000;

/// The greatest age that the shader is told, 1e6 ms.
pub const AGE_CAP_MS: u32 = 0x4974_2400;

/// Age of an event that never happened: infinity.
pub const NEVER: u32 = 0x7F80_0000;

/// Direction of the cube: 1 on entering the alternate screen, -1 on leaving.
pub const ENTERING: u32 = 0x3F80_0000;

pub const LEAVING: u32 = 0xBF80_0000;

/// Effect-mask bits shared with the shader.
pub const FX_CRT: u32 = 1;

pub const FX_KEYSTROKE: u32 = 2;

pub const FX_WOBBLE: u32 = 4;

pub const FX_CUBE: u32 = 8;

pub const FX_BELL: u32 = 16;

/// How long ago each animated event last happened. Where nothing has been
/// recorded, the number given for it plays no part.
#[derive(Debug, Clone, Copy, PartialEq, Eq, Structural)]
pub struct Ages {
    pub keystroke: u32,
    pub wobble: u32,
    pub cube: u32,
    pub bell: u32,
}

/// What the shader is told for a frame.
#[derive(Debug, Clone, Copy, PartialEq, Eq)]
pub struct EffectsUniformData {
    pub surface: (u32, u32),
    pub time_ms: u32,
    pub effect_mask: u32,
    pub keystroke_xy: (u32, u32),
    pub keystroke_age_ms: u32,
    pub wobble_age_ms: u32,
    pub cube_age_ms: u32,
    pub cube_direction: u32,
    pub cursor_vel: (u32, u32),
    pub bell_age_ms: u32,
}

/// What has been recorded, in time stamps `T`.
#[derive(Debug)]
pub struct EffectsState<T> {
    pub config: EffectsConfig,
    /// Whether the visual bell chrome is enabled (separate from [effects]).
    pub bell_enabled: bool,
    pub last_keystroke: Option<(T, (u32, u32))>,
    pub last_resize: Option<T>,
    /// Whether the alternate screen was entered (or else left).
    pub last_alt_toggle: Option<(T, bool)>,
    pub last_bell: Option<T>,
    /// Pointer velocity in pixels per second.
    pub cursor_vel: (u32, u32),
}

/// Age of an event, `age` if it was recorded at all.
pub open spec fn age_if<X>(recorded: Option<X>, age: u32) -> u32 {
    if recorded is Some {
        age
    } else {
        NEVER
    }
}

/// An age as the shader is told it.
pub open spec fn capped(age: u32) -> u32 {
    if age < AGE_CAP_MS {
        age
    } else {
        AGE_CAP_MS
    }
}

fn age_of<X>(recorded: &Option<X>, age: u32) -> (a: u32)
    ensures
        a == age_if(*recorded, age),
{
    if recorded.is_some() {
        age
    } else {
        NEVER
    }
}

fn cap(age: u32) -> (a: u32)
    ensures
        a == capped(age),
{
    if age < AGE_CAP_MS {
        age
    } else {
        AGE_CAP_MS
    }
}

impl<T> EffectsState<T> {
    /// Nothing recorded yet.
    pub open spec fn fresh(config: EffectsConfig, bell_enabled: bool) -> EffectsState<T> {
        EffectsState {
            config,
            bell_enabled,
            last_keystroke: None,
            last_resize: None,
            last_alt_toggle: None,
            last_bell: None,
            cursor_vel: (0, 0),
        }
    }

    pub fn new(config: EffectsConfig, bell_enabled: bool) -> (state: Self)
        ensures
            state == EffectsState::<T>::fresh(config, bell_enabled),
    {
        EffectsState {
            config,
            bell_enabled,
            last_keystroke: None,
            last_resize: None,
            last_alt_toggle: None,
            last_bell: None,
            cursor_vel: (0, 0),
        }
    }

    pub fn record_bell(&mut self, at: T)
        ensures
            *final(self) == if old(self).bell_enabled {
                (EffectsState { last_bell: Some(at), ..*old(self) })
            } else {
                *old(self)
            },
    {
        if self.bell_enabled {
            self.last_bell = Some(at);
        }
    }

    pub fn record_keystroke(&mut self, at: T, xy_px: (u32, u32))
        ensures
            *final(self) == if old(self).config.keystroke {
                (EffectsState { last_keystroke: Some((at, xy_px)), ..*old(self) })
            } else {
                *old(self)
            },
    {
        if self.config.keystroke {
            self.last_keystroke = Some((at, xy_px));
        }
    }

    pub fn record_resize(&mut self, at: T)
        ensures
            *final(self) == if old(self).config.wobble {
                (EffectsState { last_resize: Some(at), ..*old(self) })
            } else {
                *old(self)
            },
    {
        if self.config.wobble {
            self.last_resize = Some(at);
        }
    }

    pub fn record_alt_toggle(&mut self, at: T, entering: bool)
        ensures
            *final(self) == if old(self).config.cube {
                (EffectsState { last_alt_toggle: Some((at, entering)), ..*old(self) })
            } else {
                *old(self)
            },
    {
        if self.config.cube {
            self.last_alt_toggle = Some((at, entering));
        }
    }

    /// Is the animation of the bell running?
    pub open spec fn bell_alive(self, ages: Ages) -> bool {
        self.bell_enabled && self.last_bell is Some && ages.bell < BELL_MS
    }

    pub open spec fn keystroke_alive(self, ages: Ages) -> bool {
        self.config.keystroke && self.last_keystroke is Some && ages.keystroke < KEYSTROKE_MS
    }

    pub open spec fn wobble_alive(self, ages: Ages) -> bool {
        self.config.wobble && self.last_resize is Some && ages.wobble < WOBBLE_MS
    }

    pub open spec fn cube_alive(self, ages: Ages) -> bool {
        self.config.cube && self.last_alt_toggle is Some && ages.cube < CUBE_MS
    }

    /// Is any animation running?
    pub open spec fn animating(self, ages: Ages) -> bool {
        self.bell_alive(ages) || self.keystroke_alive(ages) || self.wobble_alive(ages)
            || self.cube_alive(ages)
    }

    /// Should the orchestrator request a redraw every frame right now?
    pub fn animation_active(&self, ages: Ages) -> (active: bool)
        ensures
            active == self.animating(ages),
    {
        if self.bell_enabled && self.last_bell.is_some() && ages.bell < BELL_MS {
            return true;
        }
        if !self.config.any() {
            return false;
        }
        if self.config.keystroke && self.last_keystroke.is_some() && ages.keystroke
            < KEYSTROKE_MS {
            return true;
        }
        if self.config.wobble && self.last_resize.is_some() && ages.wobble < WOBBLE_MS {
            return true;
        }
        self.config.cube && self.last_alt_toggle.is_some() && ages.cube < CUBE_MS
    }

    /// The bits of the effects that are on: the CRT look always, the animated
    /// ones until they have decayed.
    pub open spec fn mask(self, ages: Ages) -> int {
        bit(self.config.crt, FX_CRT as int) + bit(self.keystroke_alive(ages), FX_KEYSTROKE as int)
            + bit(self.wobble_alive(ages), FX_WOBBLE as int) + bit(
            self.cube_alive(ages),
            FX_CUBE as int,
        ) + bit(self.bell_alive(ages), FX_BELL as int)
    }

    /// What the shader is told: the mask, and of each animated event what was
    /// recorded and its capped age.
    pub open spec fn uniform(
        self,
        time_ms: u32,
        ages: Ages,
        surface: (u32, u32),
    ) -> EffectsUniformData {
        EffectsUniformData {
            surface,
            time_ms,
            effect_mask: self.mask(ages) as u32,
            keystroke_xy: match self.last_keystroke {
                Some((_, xy)) => xy,
                None => (0, 0),
            },
            keystroke_age_ms: capped(age_if(self.last_keystroke, ages.keystroke)),
            wobble_age_ms: capped(age_if(self.last_resize, ages.wobble)),
            cube_age_ms: capped(age_if(self.last_alt_toggle, ages.cube)),
            cube_direction: match self.last_alt_toggle {
                Some((_, entering)) => if entering {
                    ENTERING
                } else {
                    LEAVING
                },
                None => 0,
            },
            cursor_vel: self.cursor_vel,
            bell_age_ms: capped(age_if(self.last_bell, ages.bell)),
        }
    }

    pub fn build_uniform(
        &self,
        time_ms: u32,
        ages: Ages,
        surface: (u32, u32),
    ) -> (data: EffectsUniformData)
        ensures
            data == self.uniform(time_ms, ages, surface),
    {
        let keystroke_age = age_of(&self.last_keystroke, ages.keystroke);
        let wobble_age = age_of(&self.last_resize, ages.wobble);
        let cube_age = age_of(&self.last_alt_toggle, ages.cube);
        let bell_age = age_of(&self.last_bell, ages.bell);
        let effect_mask = bit_of(self.config.crt, FX_CRT) + bit_of(
            self.config.keystroke && keystroke_age < KEYSTROKE_MS,
            FX_KEYSTROKE,
        ) + bit_of(self.config.wobble && wobble_age < WOBBLE_MS, FX_WOBBLE) + bit_of(
            self.config.cube && cube_age < CUBE_MS,
            FX_CUBE,
        ) + bit_of(self.bell_enabled && bell_age < BELL_MS, FX_BELL);
        EffectsUniformData {
            surface,
            time_ms,
            effect_mask,
            keystroke_xy: match &self.last_keystroke {
                Some((_, xy)) => *xy,
                None => (0, 0),
            },
            keystroke_age_ms: cap(keystroke_age),
            wobble_age_ms: cap(wobble_age),
            cube_age_ms: cap(cube_age),
            cube_direction: match &self.last_alt_toggle {
                Some((_, entering)) => if *entering {
                    ENTERING
                } else {
                    LEAVING
                },
                None => 0,
            },
            cursor_vel: self.cursor_vel,
            bell_age_ms: cap(bell_age),
        }
    }
}

pub open spec fn bit(on: bool, value: int) -> int {
    if on {
        value
    } else {
        0
    }
}

fn bit_of(on: bool, value: u32) -> (n: u32)
    ensures
        n == bit(on, value as int),
{
    if on {
        value
    } else {
        0
    }
}

// ---- What holds of every frame ----

/// Each bit of the mask is set exactly while its effect is on. The CRT bit
/// never decays, and a redraw is due every frame exactly while any other bit
/// is set.
pub proof fn law_mask_bits<T>(
    state: EffectsState<T>,
    time_ms: u32,
    ages: Ages,
    surface: (u32, u32),
)
    ensures
        ({
            let mask = state.uniform(time_ms, ages, surface).effect_mask;
            &&& (mask & FX_CRT != 0) == state.config.crt
            &&& (mask & FX_KEYSTROKE != 0) == state.keystroke_alive(ages)
            &&& (mask & FX_WOBBLE != 0) == state.wobble_alive(ages)
            &&& (mask & FX_CUBE != 0) == state.cube_alive(ages)
            &&& (mask & FX_BELL != 0) == state.bell_alive(ages)
            &&& (mask & !FX_CRT != 0) == state.animating(ages)
        }),
{
    let mask = state.uniform(time_ms, ages, surface).effect_mask;
    let a: u32 = if state.config.crt { 1 } else { 0 };
    let b: u32 = if state.keystroke_alive(ages) { 2 } else { 0 };
    let c: u32 = if state.wobble_alive(ages) { 4 } else { 0 };
    let d: u32 = if state.cube_alive(ages) { 8 } else { 0 };
    let e: u32 = if state.bell_alive(ages) { 16 } else { 0 };
    assert((mask & 1 != 0) == (a == 1) && (mask & 2 != 0) == (b == 2) && (mask & 4 != 0) == (c == 4)
        && (mask & 8 != 0) == (d == 8) && (mask & 16 != 0) == (e == 16) && (mask & !1u32 != 0) == (b
        != 0 || c != 0 || d != 0 || e != 0)) by (bit_vector)
        requires
            mask == a + b + c + d + e,
            a == 0 || a == 1,
            b == 0 || b == 2,
            c == 0 || c == 4,
            d == 0 || d == 8,
            e == 0 || e == 16,
    ;
}

/// No age that the shader is told exceeds the cap, and what was never recorded
/// has the cap for its age, whatever else is given.
pub proof fn law_ages_are_capped<T>(
    state: EffectsState<T>,
    time_ms: u32,
    ages: Ages,
    surface: (u32, u32),
)
    ensures
        ({
            let u = state.uniform(time_ms, ages, surface);
            &&& u.keystroke_age_ms <= AGE_CAP_MS
            &&& u.wobble_age_ms <= AGE_CAP_MS
            &&& u.cube_age_ms <= AGE_CAP_MS
            &&& u.bell_age_ms <= AGE_CAP_MS
            &&& state.last_keystroke is None ==> u.keystroke_age_ms == AGE_CAP_MS
            &&& state.last_resize is None ==> u.wobble_age_ms == AGE_CAP_MS
            &&& state.last_alt_toggle is None ==> u.cube_age_ms == AGE_CAP_MS
            &&& state.last_bell is None ==> u.bell_age_ms == AGE_CAP_MS
        }),
{
}

/// What never happened is not animated.
pub proof fn law_never_is_not_alive<T>(config: EffectsConfig, bell_enabled: bool, ages: Ages)
    ensures
        ({
            let state = EffectsState::<T>::fresh(config, bell_enabled);
            &&& !state.animating(ages)
            &&& state.mask(ages) == bit(config.crt, FX_CRT as int)
        }),
{
}

/// What was recorded is told as it was: place of the keystroke, direction of
/// the switch, ages below the cap, and what is handed through.
pub proof fn law_uniform_tells<T>(
    state: EffectsState<T>,
    time_ms: u32,
    ages: Ages,
    surface: (u32, u32),
)
    ensures
        ({
            let u = state.uniform(time_ms, ages, surface);
            &&& u.surface == surface && u.time_ms == time_ms && u.cursor_vel == state.cursor_vel
            &&& state.last_keystroke is Some ==> u.keystroke_xy == (state.last_keystroke->0).1
            &&& state.last_keystroke is None ==> u.keystroke_xy == (0u32, 0u32)
            &&& state.last_alt_toggle is Some ==> u.cube_direction == if (
            state.last_alt_toggle->0).1 {
                0x3F80_0000u32
            } else {
                0xBF80_0000u32
            }
            &&& state.last_alt_toggle is None ==> u.cube_direction == 0
            &&& state.last_keystroke is Some && ages.keystroke < AGE_CAP_MS ==> u.keystroke_age_ms
                == ages.keystroke
            &&& state.last_resize is Some && ages.wobble < AGE_CAP_MS ==> u.wobble_age_ms
                == ages.wobble
            &&& state.last_alt_toggle is Some && ages.cube < AGE_CAP_MS ==> u.cube_age_ms
                == ages.cube
            &&& state.last_bell is Some && ages.bell < AGE_CAP_MS ==> u.bell_age_ms == ages.bell
        }),
        state.keystroke_alive(ages) <==> state.config.keystroke && state.last_keystroke is Some
            && ages.keystroke < 0x43C8_0000,
        state.wobble_alive(ages) <==> state.config.wobble && state.last_resize is Some
            && ages.wobble < 0x4416_0000,
        state.cube_alive(ages) <==> state.config.cube && state.last_alt_toggle is Some && ages.cube
            < 0x4396_0000,
        state.bell_alive(ages) <==> state.bell_enabled && state.last_bell is Some && ages.bell
            < 0x42F0_0000,
{
}

} // verus!
