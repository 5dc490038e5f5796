use vstd::prelude::*;
use vstd::string::*;

verus! {

/// Path of the dataset description file under `base`.
pub open spec fn dataset_yaml_path(base: Seq<char>) -> Seq<char> {
    base + "/dataset.yaml"@
}

/// Directory holding every image split under `base`.
pub open spec fn images_dir(base: Seq<char>) -> Seq<char> {
    base + "/images"@
}

/// Directory holding every label split under `base`.
pub open spec fn labels_dir(base: Seq<char>) -> Seq<char> {
    base + "/labels"@
}

pub open spec fn images_train_dir(base: Seq<char>) -> Seq<char> {
    base + "/images/train"@
}

pub open spec fn images_val_dir(base: Seq<char>) -> Seq<char> {
    base + "/images/val"@
}

pub open spec fn images_test_dir(base: Seq<char>) -> Seq<char> {
    base + "/images/test"@
}

pub open spec fn labels_train_dir(base: Seq<char>) -> Seq<char> {
    base + "/labels/train"@
}

pub open spec fn labels_val_dir(base: Seq<char>) -> Seq<char> {
    base + "/labels/val"@
}

pub open spec fn labels_test_dir(base: Seq<char>) -> Seq<char> {
    base + "/labels/test"@
}

/// Every split directory of the layout is a direct child of its category directory:
/// `images/{train,val,test}` under `images`, `labels/{train,val,test}` under `labels`,
/// and both category directories and the description file are direct children of `base`.
pub proof fn lemma_layout_nesting(base: Seq<char>)
    ensures
        images_dir(base) == base + "/images"@,
        labels_dir(base) == base + "/labels"@,
        dataset_yaml_path(base) == base + "/dataset.yaml"@,
        images_train_dir(base) == images_dir(base) + "/train"@,
        images_val_dir(base) == images_dir(base) + "/val"@,
        images_test_dir(base) == images_dir(base) + "/test"@,
        labels_train_dir(base) == labels_dir(base) + "/train"@,
        labels_val_dir(base) == labels_dir(base) + "/val"@,
        labels_test_dir(base) == labels_dir(base) + "/test"@,
{
    reveal_strlit("/images");
    reveal_strlit("/labels");
    reveal_strlit("/train");
    reveal_strlit("/val");
    reveal_strlit("/test");
    reveal_strlit("/images/train");
    reveal_strlit("/images/val");
    reveal_strlit("/images/test");
    reveal_strlit("/labels/train");
    reveal_strlit("/labels/val");
    reveal_strlit("/labels/test");
    assert(images_train_dir(base) =~= images_dir(base) + "/train"@);
    assert(images_val_dir(base) =~= images_dir(base) + "/val"@);
    assert(images_test_dir(base) =~= images_dir(base) + "/test"@);
    assert(labels_train_dir(base) =~= labels_dir(base) + "/train"@);
    assert(labels_val_dir(base) =~= labels_dir(base) + "/val"@);
    assert(labels_test_dir(base) =~= labels_dir(base) + "/test"@);
}

/// The nine paths of the layout (the description file and the eight directories
/// below `base`) are pairwise distinct, so no two of them name the same place.
pub proof fn lemma_layout_paths_distinct(base: Seq<char>)
    ensures
        layout_paths(base).len() == 9,
        forall|i: int, j: int|
            0 <= i < j < 9 ==> #[trigger] layout_paths(base)[i] != #[trigger] layout_paths(base)[j],
{
    reveal_strlit("/dataset.yaml");
    reveal_strlit("/images");
    reveal_strlit("/labels");
    reveal_strlit("/images/train");
    reveal_strlit("/images/val");
    reveal_strlit("/images/test");
    reveal_strlit("/labels/train");
    reveal_strlit("/labels/val");
    reveal_strlit("/labels/test");
    let n: int = base.len() as int;
    let ps = layout_paths(base);
    assert forall|i: int, j: int| 0 <= i < j < 9 implies ps[i] != ps[j] by {
        if ps[i].len() == ps[j].len() {
            // Same length: the suffixes differ at their second character.
            assert(ps[i][n + 1] != ps[j][n + 1]);
        }
    }
}

/// The description file followed by the eight directories of the layout.
pub open spec fn layout_paths(base: Seq<char>) -> Seq<Seq<char>> {
    seq![
        dataset_yaml_path(base),
        images_dir(base),
        labels_dir(base),
        images_train_dir(base),
        images_val_dir(base),
        images_test_dir(base),
        labels_train_dir(base),
        labels_val_dir(base),
        labels_test_dir(base),
    ]
}

/// The layout of a YOLO dataset on disk, derived from its base directory.
pub trait DatasetConfig: Sized {
    /// The base directory every other path is derived from.
    spec fn base_dir_view(&self) -> Seq<char>;

    fn from_base_dir(base_dir: String) -> (config: Self)
        requires
            base_dir@.len() > 0,
        ensures
            config.base_dir_view() == base_dir@,
    ;

    fn get_base_dir(&self) -> (path: String)
        ensures
            path@ == self.base_dir_view(),
    ;

    fn get_dataset_yaml_path(&self) -> (path: String)
        ensures
            path@ == dataset_yaml_path(self.base_dir_view()),
    ;

    fn get_images_dir_path(&self) -> (path: String)
        ensures
            path@ == images_dir(self.base_dir_view()),
    ;

    fn get_labels_dir_path(&self) -> (path: String)
        ensures
            path@ == labels_dir(self.base_dir_view()),
    ;

    fn get_images_train_dir_path(&self) -> (path: String)
        ensures
            path@ == images_train_dir(self.base_dir_view()),
    ;

    fn get_images_val_dir_path(&self) -> (path: String)
        ensures
            path@ == images_val_dir(self.base_dir_view()),
    ;

    fn get_images_test_dir_path(&self) -> (path: String)
        ensures
            path@ == images_test_dir(self.base_dir_view()),
    ;

    fn get_labels_test_dir_path(&self) -> (path: String)
        ensures
            path@ == labels_test_dir(self.base_dir_view()),
    ;

    fn get_labels_train_dir_path(&self) -> (path: String)
        ensures
            path@ == labels_train_dir(self.base_dir_view()),
    ;

    fn get_labels_val_dir_path(&self) -> (path: String)
        ensures
            path@ == labels_val_dir(self.base_dir_view()),
    ;
}

/// Yolo dataset configuration for object detection with oriented bounding boxes (OBB).
///
/// Structure of the dataset:
/// ```text
/// base_dir/
/// ├── dataset.yaml
/// ├── images/
/// │   ├── train/
/// │   ├── val/
/// │   └── test/
/// └── labels/
///     ├── train/   # 9-value lines, one per object
///     ├── val/
///     └── test/
/// ```
pub struct YOLOObbDatasetConfig {
    base_dir: String,
}

impl YOLOObbDatasetConfig {
    /// The base directory is never empty.
    #[verifier::type_invariant]
    spec fn base_dir_is_set(self) -> bool {
        self.base_dir@.len() > 0
    }

    /// Builds the configuration rooted at `base_dir`, which must not be empty.
    pub fn new(base_dir: String) -> (config: Self)
        requires
            base_dir@.len() > 0,
        ensures
            config.base_dir_view() == base_dir@,
    {
        YOLOObbDatasetConfig { base_dir }
    }

    fn path_under_base(&self, suffix: &str) -> (path: String)
        ensures
            path@ == self.base_dir@ + suffix@,
    {
        self.base_dir.clone().concat(suffix)
    }
}

impl DatasetConfig for YOLOObbDatasetConfig {
    closed spec fn base_dir_view(&self) -> Seq<char> {
        self.base_dir@
    }

    fn from_base_dir(base_dir: String) -> (config: Self) {
        Self::new(base_dir)
    }

    fn get_base_dir(&self) -> (path: String) {
        self.base_dir.clone()
    }

    fn get_dataset_yaml_path(&self) -> (path: String) {
        self.path_under_base("/dataset.yaml")
    }

    fn get_images_dir_path(&self) -> (path: String) {
        self.path_under_base("/images")
    }

    fn get_labels_dir_path(&self) -> (path: String) {
        self.path_under_base("/labels")
    }

    fn get_images_train_dir_path(&self) -> (path: String) {
        self.path_under_base("/images/train")
    }

    fn get_images_val_dir_path(&self) -> (path: String) {
        self.path_under_base("/images/val")
    }

    fn get_images_test_dir_path(&self) -> (path: String) {
        self.path_under_base("/images/test")
    }

    fn get_labels_test_dir_path(&self) -> (path: String) {
        self.path_under_base("/labels/test")
    }

    fn get_labels_train_dir_path(&self) -> (path: String) {
        self.path_under_base("/labels/train")
    }

    fn get_labels_val_dir_path(&self) -> (path: String) {
        self.path_under_base("/labels/val")
    }
}

} // verus!
