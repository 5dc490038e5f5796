use synthetic_data_generator_for_yolo::infrastructure::filesystem::FileSystem;
use synthetic_data_generator_for_yolo::services::image_recipe_generator::{ElementDraft, ImageRecipeGeneratorImpl};
use synthetic_data_generator_for_yolo::utils::decimal::decimal_string;

struct NoFs;

impl FileSystem for NoFs {
    fn list_files(&self, _directory: &str) -> Result<Vec<String>, String> {
        panic!("unexpected list_files")
    }
    fn list_subdirectories(&self, _directory: &str) -> Result<Vec<String>, String> {
        panic!("unexpected list_subdirectories")
    }
    fn is_dir(&self, _directory: &str) -> bool {
        panic!("unexpected is_dir")
    }
    fn write_text(&self, _output_path: &str, _content: &str) -> Result<(), String> {
        panic!("unexpected write_text")
    }
    fn create_dir(&self, _directory: &str) -> Result<(), String> {
        panic!("unexpected create_dir")
    }
    fn get_image_size(&self, _image_path: &str) -> Result<(u32, u32), String> {
        panic!("unexpected get_image_size")
    }
}

type G<'a> = ImageRecipeGeneratorImpl<'a, NoFs>;

#[test]
fn decimal_matches_integer_formatting() {
    for n in [0u32, 7, 9, 10, 11, 99, 100, 101, 1000000, 4294967295] {
        assert_eq!(decimal_string(n), n.to_string());
    }
}

#[test]
fn listing_choice_outcomes() {
    let listing = Ok(vec!["a".to_string(), "b".to_string(), "c".to_string()]);
    assert_eq!(G::choose_entry(listing, "empty".to_string(), 2), Ok("c".to_string()));
    assert_eq!(G::choose_entry(Ok(vec![]), "empty".to_string(), 0), Err("empty".to_string()));
    assert_eq!(G::choose_entry(Err("io".to_string()), "empty".to_string(), 0), Err("io".to_string()));
}

#[test]
fn element_outcomes_and_messages() {
    let built = G::element_from_size("p.png".to_string(), Ok((3, 4))).unwrap();
    assert_eq!(built, ElementDraft { path: "p.png".to_string(), class: 0, source_width: 3, source_height: 4 });
    assert_eq!(
        G::element_from_size("p.png".to_string(), Err("bad".to_string())).unwrap_err(),
        "Failed to get image size for p.png: bad"
    );
    let classed = G::object_outcome(7, Ok(built)).unwrap();
    assert_eq!(classed.class, 7);
    assert_eq!(G::object_outcome(7, Err("x".to_string())).unwrap_err(), "Failed to build object recipe: x");
    assert_eq!(
        G::distraction_outcome(Err("x".to_string())).unwrap_err(),
        "Failed to build distraction recipe: x"
    );
    assert_eq!(G::no_background_message("bg"), "No background images found in bg");
    assert_eq!(G::no_object_message(12, "obj"), "No object images found for class 12 in obj");
    assert_eq!(G::no_distraction_message("d"), "No distraction images found in d");
    assert_eq!(G::class_check(3, false).unwrap_err(), "Class directory 3 not found");
    assert!(G::class_check(3, true).is_ok());
}

#[test]
fn distractions_are_used_only_when_configured() {
    let fs = NoFs;
    let generator = ImageRecipeGeneratorImpl::new(&fs, "b".to_string(), "objects".to_string(), None, 1, 1);
    assert!(!generator.uses_distractions());
    let generator =
        ImageRecipeGeneratorImpl::new(&fs, "b".to_string(), "objects".to_string(), Some("d".to_string()), 1, 1);
    assert!(generator.uses_distractions());
}
