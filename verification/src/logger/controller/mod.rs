pub mod csv_rows;
pub mod device_registry;
pub mod hid_mapper;
pub mod model;
pub mod raw_report;
pub mod worker;
