//! The state of the light as the command source sees it: whether it is on,
//! and what it should do when power returns.
//!
//! There is one such state per device. The command path writes it, the
//! animation reads it once per frame; a write is visible to every read that
//! follows it.

use vstd::prelude::*;

verus! {

/// What the light does with its on/off state when power returns.
#[derive(Clone, Copy, Debug, PartialEq, Eq, Structural)]
pub enum StartUpBehavior {
    /// Start switched off.
    Off,
    /// Start switched on.
    On,
    /// Start in the opposite of the state before power was lost.
    Toggle,
}

/// What a light state holds.
pub ghost struct LightView {
    pub on: bool,
    pub start_up: Option<StartUpBehavior>,
}

/// The on/off state of the light and its power-on default.
#[derive(Debug)]
pub struct LightState {
    on: bool,
    start_up: Option<StartUpBehavior>,
}

impl View for LightState {
    type V = LightView;

    closed spec fn view(&self) -> LightView {
        LightView { on: self.on, start_up: self.start_up }
    }
}

impl LightState {
    /// The state at start: off, with no power-on default set.
    pub fn new() -> (state: LightState)
        ensures
            state@ == (LightView { on: false, start_up: None }),
    {
        LightState { on: false, start_up: None }
    }

    /// Whether the light is on: the value most recently written by
    /// `set_on`, or `false` if none was.
    pub fn is_on(&self) -> (on: bool)
        ensures
            on == self@.on,
    {
        self.on
    }

    /// Switches the light on or off. The last write wins; the power-on
    /// default is untouched.
    pub fn set_on(&mut self, on: bool)
        ensures
            final(self)@ == (LightView { on, start_up: old(self)@.start_up }),
    {
        self.on = on;
    }

    /// The power-on default, `None` while unset.
    pub fn start_up_behavior(&self) -> (behavior: Option<StartUpBehavior>)
        ensures
            behavior == self@.start_up,
    {
        self.start_up
    }

    /// Sets or clears the power-on default. The on/off state is untouched.
    pub fn set_start_up_behavior(&mut self, behavior: Option<StartUpBehavior>)
        ensures
            final(self)@ == (LightView { on: old(self)@.on, start_up: behavior }),
    {
        self.start_up = behavior;
    }
}

} // verus!
