use synthetic_data_generator_for_yolo::infrastructure::filesystem::FileSystem;
use synthetic_data_generator_for_yolo::models::dataset_config::YOLOObbDatasetConfig;
use synthetic_data_generator_for_yolo::services::image_generator::image_path;
use synthetic_data_generator_for_yolo::services::label_generator::ObbYoloV11LabelGenerator;
use synthetic_data_generator_for_yolo::services::data_generator_orchestrator::{
    build_pool_of_recipes, check_generation_request, output_dirs_for, recipes_outcome, split_pool_for_threads, split_recipes,
    DataType,
};

/// The size of a subset of `len` items for a percentage, as the orchestrator computes it.
fn subset_size(len: usize, ratio: usize) -> usize {
    (len as f32 * ratio as f32 / 100.0) as usize
}

/// A file system that is never called.
struct NoWrites;

impl FileSystem for NoWrites {
    fn list_files(&self, _directory: &str) -> Result<Vec<String>, String> {
        unreachable!()
    }
    fn list_subdirectories(&self, _directory: &str) -> Result<Vec<String>, String> {
        unreachable!()
    }
    fn is_dir(&self, _directory: &str) -> bool {
        unreachable!()
    }
    fn write_text(&self, _output_path: &str, _content: &str) -> Result<(), String> {
        unreachable!()
    }
    fn create_dir(&self, _directory: &str) -> Result<(), String> {
        unreachable!()
    }
    fn get_image_size(&self, _image_path: &str) -> Result<(u32, u32), String> {
        unreachable!()
    }
}

fn make_recipes(n: usize) -> Vec<usize> {
    (0..n).collect()
}

fn split(
    recipes: Vec<usize>,
    train_ratio: usize,
    val_ratio: usize,
) -> Result<(Vec<usize>, Vec<usize>, Vec<usize>), String> {
    let len = recipes.len();
    let train_size = subset_size(len, train_ratio);
    let val_size = subset_size(len, val_ratio);
    split_recipes(recipes, train_size, val_size)
}

// --- success cases ---

#[test]
fn split_recipes_produces_correctly_sized_subsets_for_standard_ratios() {
    let recipes = make_recipes(100);

    let (train, val, test) = split(recipes, 80, 10).unwrap();

    assert_eq!(train.len(), 80);
    assert_eq!(val.len(), 10);
    assert_eq!(test.len(), 10);
}

#[test]
fn split_recipes_produces_correctly_sized_subsets_for_small_dataset() {
    // 10 recipes: 60% train=6, 20% val=2 from remaining 4, test=2
    let recipes = make_recipes(10);

    let (train, val, test) = split(recipes, 60, 20).unwrap();

    assert_eq!(train.len(), 6);
    assert_eq!(val.len(), 2);
    assert_eq!(test.len(), 2);
}

// --- failure cases ---

#[test]
fn split_recipes_returns_error_when_train_subset_is_empty() {
    let recipes = make_recipes(100);

    let result = split(recipes, 0, 10);

    assert!(result.is_err());
}

#[test]
fn split_recipes_returns_error_when_val_subset_is_empty() {
    let recipes = make_recipes(100);

    let result = split(recipes, 80, 0);

    assert!(result.is_err());
}

#[test]
fn split_recipes_returns_error_when_test_subset_is_empty() {
    let recipes = make_recipes(10);

    let result = split(recipes, 90, 10);

    assert!(result.is_err());
}

#[test]
fn split_recipes_returns_error_when_dataset_is_too_small_for_given_ratios() {
    // 3 recipes: 80% train=2, 10% val=floor(0.3)=0 → val empty
    let recipes = make_recipes(3);

    let result = split(recipes, 80, 10);

    assert!(result.is_err());
}

#[test]
fn split_keeps_the_order_of_the_recipes() {
    let (train, val, test) = split_recipes(make_recipes(10), 6, 2).unwrap();
    assert_eq!(train, vec![0, 1, 2, 3, 4, 5]);
    assert_eq!(val, vec![6, 7]);
    assert_eq!(test, vec![8, 9]);
}

#[test]
fn split_error_message() {
    assert_eq!(
        split_recipes(make_recipes(3), 2, 0).unwrap_err(),
        "Failed to split recipes, some of subsets are empty. Maybe dataset is too small ?"
    );
}

#[test]
fn pool_tags_each_recipe_with_its_split() {
    let pool = build_pool_of_recipes(make_recipes(5), 2, 2).unwrap();
    assert_eq!(
        pool,
        vec![(0, DataType::TRAIN), (1, DataType::TRAIN), (2, DataType::VAL), (3, DataType::VAL), (4, DataType::TEST)]
    );
    assert!(build_pool_of_recipes(make_recipes(4), 2, 2).is_err());
}

#[test]
fn pool_is_split_into_at_most_one_sub_pool_per_thread() {
    let chunks = split_pool_for_threads(make_recipes(10), 3);
    assert_eq!(chunks, vec![vec![0, 1, 2, 3], vec![4, 5, 6, 7], vec![8, 9]]);

    let chunks = split_pool_for_threads(make_recipes(10), 4);
    assert_eq!(chunks, vec![vec![0, 1, 2], vec![3, 4, 5], vec![6, 7, 8], vec![9]]);

    // 4 items on 3 threads: sub-pools of 2, so only two threads get work.
    let chunks = split_pool_for_threads(make_recipes(4), 3);
    assert_eq!(chunks, vec![vec![0, 1], vec![2, 3]]);

    let chunks = split_pool_for_threads(make_recipes(1), 1);
    assert_eq!(chunks, vec![vec![0]]);
}

#[test]
fn generation_request_checks() {
    assert_eq!(check_generation_request(0, 1).unwrap_err(), "Count must be greater than 0");
    assert_eq!(check_generation_request(5, 0).unwrap_err(), "Thread count must be greater than 0");
    assert_eq!(
        check_generation_request(5, 6).unwrap_err(),
        "Thread count must be less than or equal to the total number of images"
    );
    assert!(check_generation_request(5, 5).is_ok());
    assert!(check_generation_request(5, 1).is_ok());
}

#[test]
fn output_dirs_follow_the_split() {
    let config = YOLOObbDatasetConfig::new("/ds".to_string());
    assert_eq!(
        output_dirs_for(&config, DataType::TRAIN),
        ("/ds/images/train".to_string(), "/ds/labels/train".to_string())
    );
    assert_eq!(
        output_dirs_for(&config, DataType::VAL),
        ("/ds/images/val".to_string(), "/ds/labels/val".to_string())
    );
    assert_eq!(
        output_dirs_for(&config, DataType::TEST),
        ("/ds/images/test".to_string(), "/ds/labels/test".to_string())
    );
}

#[test]
fn each_label_file_pairs_with_its_image_by_name() {
    type L<'a> = ObbYoloV11LabelGenerator<'a, NoWrites>;
    let config = YOLOObbDatasetConfig::new("/ds".to_string());
    for (datatype, split) in [(DataType::TRAIN, "train"), (DataType::VAL, "val"), (DataType::TEST, "test")] {
        let (images, labels) = output_dirs_for(&config, datatype);
        assert_eq!(image_path(&images, "foo"), format!("/ds/images/{split}/foo.png"));
        assert_eq!(L::label_path(&labels, "foo"), format!("/ds/labels/{split}/foo.txt"));
    }
}

#[test]
fn pool_without_tags_is_the_recipes_in_order() {
    let recipes = make_recipes(9);
    let pool = build_pool_of_recipes(recipes.clone(), 3, 4).unwrap();
    assert_eq!(pool.iter().map(|p| p.0).collect::<Vec<_>>(), recipes);
    assert_eq!(pool.iter().filter(|p| p.1 == DataType::TRAIN).count(), 3);
    assert_eq!(pool.iter().filter(|p| p.1 == DataType::VAL).count(), 4);
    assert_eq!(pool.iter().filter(|p| p.1 == DataType::TEST).count(), 2);
}

#[test]
fn recipe_generation_errors_are_prefixed() {
    assert_eq!(recipes_outcome::<u8>(Ok(vec![1, 2])), Ok(vec![1, 2]));
    assert_eq!(
        recipes_outcome::<u8>(Err("boom".to_string())).unwrap_err(),
        "Failed to generate image recipes: boom"
    );
}
