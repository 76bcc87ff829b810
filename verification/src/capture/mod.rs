pub mod config;
pub mod encoding;
pub mod frames;
pub mod layout;
pub mod metadata;
pub mod scale;
pub mod timing;
