pub mod controller;
pub mod keyboard;
pub mod mouse;
