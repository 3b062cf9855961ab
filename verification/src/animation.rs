//! The animation of the light, one frame at a time.
//!
//! The hue walks round the color wheel one degree per frame, whether the
//! light is on or off: on, the frames are bright and follow each other
//! quickly; off, they are dim and slow, a heartbeat rather than darkness.
//!
//! The caller owns the clock and the transmitter. It begins a frame with
//! the on/off state it has just read, transmits the pulse train it is
//! given, ends the frame with the outcome, and sleeps for the pause it is
//! told.

use vstd::prelude::*;
use crate::color::HUE_DEGREES;
use crate::color::brightest;
use crate::color::hsv_color;
use crate::color::hsv_to_rgb;
use crate::color::lemma_value_is_brightest;
use crate::color::levels_of;
use crate::encoder::pulse_train;
use crate::encoder::rgb_to_pulses;
use crate::pulse::PulseCode;

verus! {

/// Value channel of a frame while the light is on.
pub const ON_BRIGHTNESS: u8 = 200;

/// Value channel of a frame while the light is off.
pub const OFF_BRIGHTNESS: u8 = 20;

/// Milliseconds between frames while the light is on.
pub const ON_FRAME_MS: u64 = 20;

/// Milliseconds between frames while the light is off.
pub const OFF_FRAME_MS: u64 = 100;

/// Saturation of every frame: full.
pub const SATURATION: u8 = 255;

/// Degrees that the hue moves from one frame to the next.
pub const HUE_STEP: u16 = 1;

/// The value channel of a frame.
pub open spec fn frame_brightness(on: bool) -> u8 {
    if on {
        ON_BRIGHTNESS
    } else {
        OFF_BRIGHTNESS
    }
}

/// The pause that follows a frame, in milliseconds.
pub open spec fn frame_period_ms(on: bool) -> u64 {
    if on {
        ON_FRAME_MS
    } else {
        OFF_FRAME_MS
    }
}

/// The color of the frame at a hue.
pub open spec fn frame_color(hue: u16, on: bool) -> (u8, u8, u8) {
    hsv_color(hue, SATURATION, frame_brightness(on))
}

/// The pulse train of the frame at a hue.
pub open spec fn frame_train(hue: u16, on: bool) -> Seq<PulseCode> {
    let c = frame_color(hue, on);
    pulse_train(c.0, c.1, c.2)
}

/// The hue of the frame after the one at `hue`.
pub open spec fn next_hue(hue: u16) -> u16 {
    ((hue + HUE_STEP) % (HUE_DEGREES as int)) as u16
}

/// What an animation holds.
pub ghost struct AnimationView {
    /// The hue of the frame in progress, in degrees.
    pub hue: u16,
    /// The on/off state that the latest frame was drawn for.
    pub on: bool,
}

/// The phase of the animation: the hue of the frame in progress and the
/// on/off state seen when the latest frame began.
#[derive(Debug)]
pub struct Animation {
    hue: u16,
    last_on: bool,
}

impl View for Animation {
    type V = AnimationView;

    closed spec fn view(&self) -> AnimationView {
        AnimationView { hue: self.hue, on: self.last_on }
    }
}

impl Animation {
    #[verifier::type_invariant]
    spec fn hue_on_wheel(self) -> bool {
        self.hue < HUE_DEGREES
    }

    /// The animation at start: at hue 0, the light taken to be off.
    pub fn new() -> (animation: Animation)
        ensures
            animation@ == (AnimationView { hue: 0, on: false }),
    {
        Animation { hue: 0, last_on: false }
    }

    /// The hue of the frame in progress, in degrees below 360.
    pub fn hue(&self) -> (hue: u16)
        ensures
            hue == self@.hue,
            hue < HUE_DEGREES,
    {
        proof {
            use_type_invariant(&*self);
        }
        self.hue
    }

    /// Begins a frame with the on/off state just read: writes the frame's
    /// pulse train into `pulses` and says whether the state differs from
    /// the one the previous frame was drawn for. The hue stays where it
    /// is until the frame ends.
    pub fn begin_frame(&mut self, is_on: bool, pulses: &mut [PulseCode; 25]) -> (changed: bool)
        ensures
            changed == (is_on != old(self)@.on),
            final(self)@ == (AnimationView { hue: old(self)@.hue, on: is_on }),
            final(pulses)@ == frame_train(old(self)@.hue, is_on),
    {
        proof {
            use_type_invariant(&*self);
        }
        let changed = is_on != self.last_on;
        if changed {
            self.last_on = is_on;
        }
        let brightness: u8 = if is_on {
            ON_BRIGHTNESS
        } else {
            OFF_BRIGHTNESS
        };
        let (r, g, b) = hsv_to_rgb(self.hue, SATURATION, brightness);
        rgb_to_pulses(r, g, b, pulses);
        changed
    }

    /// Ends a frame with the outcome of its transmission. After a
    /// transmission that succeeded the hue moves on by one degree, back to
    /// 0 after 359, and the result is the pause before the next frame, in
    /// milliseconds. After one that failed nothing changes and there is no
    /// next frame: the result is `None`.
    pub fn end_frame(&mut self, transmitted: bool) -> (pause: Option<u64>)
        ensures
            transmitted ==> final(self)@ == (AnimationView {
                hue: next_hue(old(self)@.hue),
                on: old(self)@.on,
            }),
            transmitted ==> pause == Some(frame_period_ms(old(self)@.on)),
            !transmitted ==> final(self)@ == old(self)@,
            !transmitted ==> pause is None,
    {
        proof {
            use_type_invariant(&*self);
        }
        if !transmitted {
            return None;
        }
        self.hue = (self.hue + HUE_STEP) % HUE_DEGREES;
        Some(
            if self.last_on {
                ON_FRAME_MS
            } else {
                OFF_FRAME_MS
            },
        )
    }
}

/// The hue stays on the wheel: one degree further, and from 359 back to 0.
pub proof fn lemma_next_hue(hue: u16)
    requires
        hue < HUE_DEGREES,
    ensures
        next_hue(hue) < HUE_DEGREES,
        hue < 359 ==> next_hue(hue) == hue + 1,
        hue == 359 ==> next_hue(hue) == 0,
{
}

/// Whatever the hue, a frame drawn for the light on is brighter than one
/// drawn for it off, and the next frame follows sooner.
pub proof fn lemma_on_is_brighter_and_faster(hue: u16, other_hue: u16)
    ensures
        brightest(levels_of(frame_color(hue, true))) == ON_BRIGHTNESS,
        brightest(levels_of(frame_color(other_hue, false))) == OFF_BRIGHTNESS,
        brightest(levels_of(frame_color(hue, true))) > brightest(
            levels_of(frame_color(other_hue, false)),
        ),
        frame_period_ms(true) < frame_period_ms(false),
{
    lemma_value_is_brightest(hue as int, SATURATION as int, ON_BRIGHTNESS as int);
    lemma_value_is_brightest(other_hue as int, SATURATION as int, OFF_BRIGHTNESS as int);
}

} // verus!
