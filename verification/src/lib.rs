//! Control logic for a WS2812B light that a smart-home stack switches on
//! and off: color arithmetic, the pulse train encoder, the shared light
//! state and the frame-by-frame animation.

pub mod animation;
pub mod color;
pub mod encoder;
pub mod light;
pub mod pulse;
pub mod thread;
