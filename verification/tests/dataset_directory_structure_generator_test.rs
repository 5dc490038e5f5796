use std::cell::RefCell;
use std::collections::HashMap;
use synthetic_data_generator_for_yolo::infrastructure::filesystem::FileSystem;
use synthetic_data_generator_for_yolo::models::dataset_config::YOLOObbDatasetConfig;
use synthetic_data_generator_for_yolo::services::dataset_directory_structure_generator::{
    DatasetDirectoryStructureGenerator, DatasetDirectoryStructureGeneratorImpl,
};

/// Answers `create_dir` from a table and records every call; any other call fails the test.
struct DirFs {
    answers: HashMap<String, Result<(), String>>,
    created: RefCell<Vec<String>>,
}

impl DirFs {
    fn new(answers: Vec<(&str, Result<(), String>)>) -> Self {
        DirFs {
            answers: answers.into_iter().map(|(p, r)| (p.to_string(), r)).collect(),
            created: RefCell::new(Vec::new()),
        }
    }
}

impl FileSystem for DirFs {
    fn list_files(&self, _directory: &str) -> Result<Vec<String>, String> {
        panic!("unexpected list_files")
    }
    fn list_subdirectories(&self, _directory: &str) -> Result<Vec<String>, String> {
        panic!("unexpected list_subdirectories")
    }
    fn is_dir(&self, _directory: &str) -> bool {
        panic!("unexpected is_dir")
    }
    fn write_text(&self, _output_path: &str, _content: &str) -> Result<(), String> {
        panic!("unexpected write_text")
    }
    fn create_dir(&self, directory: &str) -> Result<(), String> {
        self.created.borrow_mut().push(directory.to_string());
        self.answers
            .get(directory)
            .cloned()
            .unwrap_or_else(|| panic!("unexpected create_dir({directory})"))
    }
    fn get_image_size(&self, _image_path: &str) -> Result<(u32, u32), String> {
        panic!("unexpected get_image_size")
    }
}

const ALL_DIRS: [&str; 9] = [
    "/dataset",
    "/dataset/images",
    "/dataset/labels",
    "/dataset/images/train",
    "/dataset/images/val",
    "/dataset/images/test",
    "/dataset/labels/train",
    "/dataset/labels/val",
    "/dataset/labels/test",
];

#[test]
fn test_generate_structure_creates_all_directories() {
    let config = YOLOObbDatasetConfig::new("/dataset".to_string());
    let fs = DirFs::new(ALL_DIRS.iter().map(|p| (*p, Ok(()))).collect());

    let generator = DatasetDirectoryStructureGeneratorImpl::new(&config, &fs);
    assert!(generator.generate_structure().is_ok());
    assert_eq!(*fs.created.borrow(), ALL_DIRS.to_vec());
}

#[test]
fn test_generate_structure_returns_error_when_base_dir_creation_fails() {
    let config = YOLOObbDatasetConfig::new("/dataset".to_string());
    let fs = DirFs::new(vec![("/dataset", Err("permission denied".to_string()))]);

    let generator = DatasetDirectoryStructureGeneratorImpl::new(&config, &fs);
    let result = generator.generate_structure();

    assert!(result.is_err());
    assert_eq!(result.unwrap_err(), "Failed to create base directory: permission denied");
    assert_eq!(*fs.created.borrow(), vec!["/dataset".to_string()]);
}

#[test]
fn test_generate_structure_returns_error_when_images_dir_creation_fails() {
    let config = YOLOObbDatasetConfig::new("/dataset".to_string());
    let fs = DirFs::new(vec![
        ("/dataset", Ok(())),
        ("/dataset/images", Err("disk full".to_string())),
    ]);

    let generator = DatasetDirectoryStructureGeneratorImpl::new(&config, &fs);
    let result = generator.generate_structure();

    assert!(result.is_err());
    assert_eq!(result.unwrap_err(), "Failed to create images directory: disk full");
    assert_eq!(fs.created.borrow().len(), 2);
}

#[test]
fn test_generate_structure_returns_error_when_last_dir_creation_fails() {
    let config = YOLOObbDatasetConfig::new("/dataset".to_string());
    let mut answers: Vec<(&str, Result<(), String>)> = ALL_DIRS[..8].iter().map(|p| (*p, Ok(()))).collect();
    answers.push(("/dataset/labels/test", Err("no space left".to_string())));
    let fs = DirFs::new(answers);

    let generator = DatasetDirectoryStructureGeneratorImpl::new(&config, &fs);
    let result = generator.generate_structure();

    assert!(result.is_err());
    assert_eq!(result.unwrap_err(), "Failed to create labels test directory: no space left");
    assert_eq!(*fs.created.borrow(), ALL_DIRS.to_vec());
}

#[test]
fn labels_dir_failure_names_the_labels_directory() {
    let config = YOLOObbDatasetConfig::new("/dataset".to_string());
    let fs = DirFs::new(vec![
        ("/dataset", Ok(())),
        ("/dataset/images", Ok(())),
        ("/dataset/labels", Err("read-only".to_string())),
    ]);

    let generator = DatasetDirectoryStructureGeneratorImpl::new(&config, &fs);
    assert_eq!(
        generator.generate_structure().unwrap_err(),
        "Failed to create labels directory: read-only"
    );
}

#[test]
fn directory_plan_lists_parents_before_children() {
    let config = YOLOObbDatasetConfig::new("/dataset".to_string());
    let fs = DirFs::new(vec![]);
    let generator = DatasetDirectoryStructureGeneratorImpl::new(&config, &fs);

    let plan = generator.directory_plan();
    let paths: Vec<String> = plan.iter().map(|(p, _)| p.clone()).collect();
    assert_eq!(paths, ALL_DIRS.to_vec());
    for (k, path) in paths.iter().enumerate().skip(1) {
        let parent = &path[..path.rfind('/').unwrap()];
        assert!(paths[..k].iter().any(|p| p == parent), "{path} created before its parent");
    }
    assert_eq!(plan[3].1, "images train");
}
