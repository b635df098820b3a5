pub mod api_types;
