pub mod applications;
pub mod capture;
pub mod gui;
pub mod local_participant_config;
pub mod log_directory;
pub mod logger;
pub mod name_set;
pub mod release_package;
pub mod session_metadata;
pub mod text;
pub mod timestamp;
pub mod uuid_text;
