pub mod csv_rows;
pub mod filter;
pub mod foreground;
pub mod hook_events;
pub mod model;
