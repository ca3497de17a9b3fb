//! The catalog's entities.
pub mod color_palette;
pub mod county;
pub mod data;
pub mod data_category;
pub mod data_source;
pub mod dataset;
pub mod date;
pub mod geo_id;
pub mod geography_type;
pub mod map_visualization;
pub mod map_visualization_collection;
pub mod scale_type;
pub mod state;
pub mod subcategory;
pub mod upload_metadata;
