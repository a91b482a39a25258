pub mod decode;
pub mod display;
pub mod events;
pub mod font;
pub mod interp;
pub mod rng;
pub mod timer;
