use std::cell::RefCell;
use synthetic_data_generator_for_yolo::infrastructure::filesystem::FileSystem;
use synthetic_data_generator_for_yolo::services::dataset_yaml_generator::{
    base_name_of, class_names, DatasetYamlGenerator, DatasetYamlGeneratorImpl,
};

/// Answers every `write_text` with the same result and records what was written.
struct WriteFs {
    answer: Result<(), String>,
    written: RefCell<Vec<(String, String)>>,
}

impl WriteFs {
    fn new(answer: Result<(), String>) -> Self {
        WriteFs { answer, written: RefCell::new(Vec::new()) }
    }
}

impl FileSystem for WriteFs {
    fn list_files(&self, _directory: &str) -> Result<Vec<String>, String> {
        panic!("unexpected list_files")
    }
    fn list_subdirectories(&self, _directory: &str) -> Result<Vec<String>, String> {
        panic!("unexpected list_subdirectories")
    }
    fn is_dir(&self, _directory: &str) -> bool {
        panic!("unexpected is_dir")
    }
    fn write_text(&self, output_path: &str, content: &str) -> Result<(), String> {
        self.written.borrow_mut().push((output_path.to_string(), content.to_string()));
        self.answer.clone()
    }
    fn create_dir(&self, _directory: &str) -> Result<(), String> {
        panic!("unexpected create_dir")
    }
    fn get_image_size(&self, _image_path: &str) -> Result<(u32, u32), String> {
        panic!("unexpected get_image_size")
    }
}

#[test]
fn test_generate_yaml_returns_correct_filepath() {
    let fs = WriteFs::new(Ok(()));

    let generator = DatasetYamlGeneratorImpl::new("/output".to_string(), &fs);
    let result = generator.generate_yaml();

    assert!(result.is_ok());
    assert_eq!(result.unwrap(), "/output/dataset.yaml");
    let written = fs.written.borrow();
    assert_eq!(written.len(), 1);
    assert_eq!(written[0].0, "/output/dataset.yaml");
}

#[test]
fn test_generate_yaml_content_has_correct_paths() {
    let fs = WriteFs::new(Ok(()));

    let generator = DatasetYamlGeneratorImpl::new("/data".to_string(), &fs);
    let result = generator.generate_yaml();

    assert!(result.is_ok());
    let written = fs.written.borrow();
    assert_eq!(written.len(), 1);
    let (path, content) = &written[0];
    assert_eq!(path, "/data/dataset.yaml");
    assert!(content.contains("path: /data"));
    assert!(content.contains("train: /data/train"));
    assert!(content.contains("test: /data/test"));
    assert!(content.contains("val: /data/val"));
}

#[test]
fn test_generate_yaml_propagates_filesystem_error() {
    let fs = WriteFs::new(Err("permission denied".to_string()));

    let generator = DatasetYamlGeneratorImpl::new("/output".to_string(), &fs);
    let result = generator.generate_yaml();

    assert!(result.is_err());
    assert_eq!(result.unwrap_err(), "permission denied");
    assert_eq!(fs.written.borrow().len(), 1);
}

#[test]
fn yaml_content_without_known_classes_has_an_empty_names_mapping() {
    let fs = WriteFs::new(Ok(()));
    DatasetYamlGeneratorImpl::new("/d".to_string(), &fs).generate_yaml().unwrap();
    assert_eq!(
        fs.written.borrow()[0].1,
        "path: /d\ntrain: /d/train\ntest: /d/test\nval: /d/val\nnames: {}"
    );
}

#[test]
fn yaml_content_names_each_class_by_its_id() {
    let fs = WriteFs::new(Ok(()));
    let names = vec!["vehicle".to_string(), "person".to_string()];
    DatasetYamlGeneratorImpl::with_class_names("/d".to_string(), &fs, names).generate_yaml().unwrap();
    assert_eq!(
        fs.written.borrow()[0].1,
        "path: /d\ntrain: /d/train\ntest: /d/test\nval: /d/val\nnames:\n  0: vehicle\n  1: person"
    );
}

#[test]
fn class_names_come_from_the_class_subfolders() {
    let subdirs = vec!["objects/vehicle".to_string(), "objects/person".to_string()];
    assert_eq!(class_names("objects", &subdirs), vec!["vehicle".to_string(), "person".to_string()]);
    assert_eq!(class_names("data/objects", &vec![]), vec!["objects".to_string()]);
    assert_eq!(base_name_of("a/b/c.png"), "c.png");
    assert_eq!(base_name_of("plain"), "plain");
    assert_eq!(base_name_of("dir/"), "");
}

#[test]
fn yaml_result_maps_the_write_answer() {
    type G<'a> = DatasetYamlGeneratorImpl<'a, WriteFs>;
    assert_eq!(G::yaml_result("/p/dataset.yaml".to_string(), Ok(())), Ok("/p/dataset.yaml".to_string()));
    assert_eq!(G::yaml_result("/p/dataset.yaml".to_string(), Err("e".to_string())), Err("e".to_string()));
}
