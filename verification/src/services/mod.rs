pub mod dataset_directory_structure_generator;
pub mod dataset_yaml_generator;
pub mod data_generator_orchestrator;
pub mod label_generator;
pub mod image_generator;
pub mod image_recipe_generator;
