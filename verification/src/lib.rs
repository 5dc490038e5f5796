//! Synthetic data generation for YOLO oriented-bounding-box datasets: the dataset
//! layout, the generation plans and the text formats, with their contracts.
pub mod infrastructure;
pub mod models;
pub mod services;
pub mod utils;
