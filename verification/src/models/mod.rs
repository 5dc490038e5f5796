pub mod dataset_config;
