pub mod unique_resource;
