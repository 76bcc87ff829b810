pub mod csv_rows;
pub mod hook_events;
pub mod model;
pub mod target_resolver;
