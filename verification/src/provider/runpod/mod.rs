pub mod api;
pub mod invoke;
