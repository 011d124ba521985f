//! Driver logic for a 32x16 HUB75-style RGB LED matrix panel.
//!
//! The library computes what must happen on the GPIO bus (as sequences of
//! register operations), how long each bitplane is shown, how the frame
//! scrolls over a wider image, and how a binary PPM image is decoded. Performing
//! the register accesses on mapped device memory is left to the caller.
pub mod pins;
pub mod pixel;
pub mod bus;
pub mod panel;
pub mod image;
pub mod frame;
pub mod gpio;
pub mod timer;
pub mod render;
pub mod ppm;
pub mod snake;
pub mod game;
