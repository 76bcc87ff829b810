pub mod app_model;
