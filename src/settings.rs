//! Difficulty settings: bounded, steppable values and the physical
//! quantities derived from them.
use vstd::prelude::*;

verus! {

/// Lowest step of a setting.
pub const MIN_POINTS: u8 = 0;
/// Highest step of a setting.
pub const MAX_POINTS: u8 = 10;
/// Step of a setting at the start of a session.
pub const DEFAULT_POINTS: u8 = 5;

/// A value stepped by one at a time within `MIN_POINTS..=MAX_POINTS`.
#[derive(Clone, Copy, Debug, PartialEq, Eq, Structural)]
pub struct Steps {
    pub points: u8,
}

pub open spec fn clamp_points(p: int) -> int {
    if p < MIN_POINTS {
        MIN_POINTS as int
    } else if p > MAX_POINTS {
        MAX_POINTS as int
    } else {
        p
    }
}

impl Steps {
    pub open spec fn wf(self) -> bool {
        MIN_POINTS <= self.points <= MAX_POINTS
    }

    pub fn new() -> (r: Steps)
        ensures
            r.points == DEFAULT_POINTS,
            r.wf(),
    {
        Steps { points: DEFAULT_POINTS }
    }

    /// Moves the step by `delta`, clamped to the range; out-of-range moves
    /// are not errors.
    pub fn change_points(&mut self, delta: i32)
        requires
            old(self).wf(),
        ensures
            final(self).points == clamp_points(old(self).points + delta),
            final(self).wf(),
    {
        let p: i64 = self.points as i64 + delta as i64;
        self.points = if p < MIN_POINTS as i64 {
            MIN_POINTS
        } else if p > MAX_POINTS as i64 {
            MAX_POINTS
        } else {
            p as u8
        };
    }
}

/// All settings of a session.
#[derive(Clone, Copy, Debug, PartialEq, Eq, Structural)]
pub struct Settings {
    pub paddle_size: Steps,
    pub paddle_speed: Steps,
    pub ball_size: Steps,
    pub ball_speed: Steps,
    pub brick_ghost: bool,
}

/// Ball radius for a step, in thousandths of a pixel.
pub open spec fn ball_radius_at(p: int) -> int {
    6000 + 1000 * p
}

/// Ball speed for a step, in pixels per second.
pub open spec fn ball_speed_at(p: int) -> int {
    250 + 50 * p
}

/// Half of the paddle's width for a step, in thousandths of a pixel.
pub open spec fn paddle_half_width_at(p: int) -> int {
    20000 + 4000 * p
}

/// Paddle speed for a step, in pixels per second.
pub open spec fn paddle_speed_at(p: int) -> int {
    250 + 50 * p
}

pub open spec fn default_settings() -> Settings {
    Settings {
        paddle_size: Steps { points: DEFAULT_POINTS },
        paddle_speed: Steps { points: DEFAULT_POINTS },
        ball_size: Steps { points: DEFAULT_POINTS },
        ball_speed: Steps { points: DEFAULT_POINTS },
        brick_ghost: false,
    }
}

/// Keys that drive the settings in one tick: lower or raise just pressed, and
/// which of the five settings are selected (held).
#[derive(Clone, Copy, Debug, PartialEq, Eq, Structural)]
pub struct SettingsInput {
    pub lower: bool,
    pub raise: bool,
    pub paddle_size: bool,
    pub paddle_speed: bool,
    pub ball_size: bool,
    pub ball_speed: bool,
    pub brick_ghost: bool,
}

/// The step change asked for: lowering wins over raising.
pub open spec fn input_delta(input: SettingsInput) -> int {
    if input.lower {
        -1
    } else if input.raise {
        1
    } else {
        0
    }
}

pub open spec fn stepped_if(s: Steps, selected: bool, delta: int) -> Steps {
    if selected {
        Steps { points: clamp_points(s.points + delta) as u8 }
    } else {
        s
    }
}

/// The settings after one tick of input.
pub open spec fn settings_after(s: Settings, input: SettingsInput) -> Settings {
    let d = input_delta(input);
    if d == 0 {
        s
    } else {
        Settings {
            paddle_size: stepped_if(s.paddle_size, input.paddle_size, d),
            paddle_speed: stepped_if(s.paddle_speed, input.paddle_speed, d),
            ball_size: stepped_if(s.ball_size, input.ball_size, d),
            ball_speed: stepped_if(s.ball_speed, input.ball_speed, d),
            brick_ghost: if input.brick_ghost {
                d > 0
            } else {
                s.brick_ghost
            },
        }
    }
}

impl Settings {
    pub open spec fn wf(self) -> bool {
        &&& self.paddle_size.wf()
        &&& self.paddle_speed.wf()
        &&& self.ball_size.wf()
        &&& self.ball_speed.wf()
    }

    /// The settings a session starts with.
    pub fn new() -> (r: Settings)
        ensures
            r == default_settings(),
            r.wf(),
    {
        Settings {
            paddle_size: Steps::new(),
            paddle_speed: Steps::new(),
            ball_size: Steps::new(),
            ball_speed: Steps::new(),
            brick_ghost: false,
        }
    }

    pub fn set_brick_ghost(&mut self, enabled: bool)
        ensures
            *final(self) == (Settings { brick_ghost: enabled, ..*old(self) }),
    {
        self.brick_ghost = enabled;
    }

    pub fn ball_radius(&self) -> (r: i64)
        requires
            self.wf(),
        ensures
            r == ball_radius_at(self.ball_size.points as int),
            r > 0,
    {
        6000 + 1000 * self.ball_size.points as i64
    }

    pub fn ball_speed(&self) -> (r: i64)
        requires
            self.wf(),
        ensures
            r == ball_speed_at(self.ball_speed.points as int),
            r > 0,
    {
        250 + 50 * self.ball_speed.points as i64
    }

    pub fn paddle_half_width(&self) -> (r: i64)
        requires
            self.wf(),
        ensures
            r == paddle_half_width_at(self.paddle_size.points as int),
            r > 0,
    {
        20000 + 4000 * self.paddle_size.points as i64
    }

    pub fn paddle_speed(&self) -> (r: i64)
        requires
            self.wf(),
        ensures
            r == paddle_speed_at(self.paddle_speed.points as int),
            r > 0,
    {
        250 + 50 * self.paddle_speed.points as i64
    }
}

/// Applies one tick of settings keys: lower or raise moves each selected
/// setting by one step; the ghost setting is switched on by raise and off by
/// lower.
pub fn test_settings(settings: &mut Settings, input: &SettingsInput)
    requires
        old(settings).wf(),
    ensures
        *final(settings) == settings_after(*old(settings), *input),
        final(settings).wf(),
{
    let value: i32 = if input.lower {
        -1
    } else if input.raise {
        1
    } else {
        0
    };
    if value == 0 {
        return;
    }
    if input.paddle_size {
        settings.paddle_size.change_points(value);
    }
    if input.paddle_speed {
        settings.paddle_speed.change_points(value);
    }
    if input.ball_size {
        settings.ball_size.change_points(value);
    }
    if input.ball_speed {
        settings.ball_speed.change_points(value);
    }
    if input.brick_ghost {
        settings.set_brick_ghost(value > 0);
    }
}

} // verus!
