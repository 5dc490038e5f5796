use crate::infrastructure::filesystem::{unit_view, FileSystem};
use crate::models::dataset_config::{
    images_dir, images_test_dir, images_train_dir, images_val_dir, labels_dir, labels_test_dir,
    labels_train_dir, labels_val_dir, lemma_layout_nesting, DatasetConfig,
};
use vstd::prelude::*;
use vstd::string::*;

verus! {

/// The directories of a dataset rooted at `base`, in the order they are created.
pub open spec fn structure_directories(base: Seq<char>) -> Seq<Seq<char>> {
    seq![
        base,
        images_dir(base),
        labels_dir(base),
        images_train_dir(base),
        images_val_dir(base),
        images_test_dir(base),
        labels_train_dir(base),
        labels_val_dir(base),
        labels_test_dir(base),
    ]
}

/// The name each directory of `structure_directories` goes by in error messages.
pub open spec fn structure_labels() -> Seq<Seq<char>> {
    seq![
        "base"@,
        "images"@,
        "labels"@,
        "images train"@,
        "images val"@,
        "images test"@,
        "labels train"@,
        "labels val"@,
        "labels test"@,
    ]
}

/// The error reported when the directory named `label` could not be created.
pub open spec fn creation_error(label: Seq<char>, error: Seq<char>) -> Seq<char> {
    "Failed to create "@ + label + " directory: "@ + error
}

/// The answers the file system gave to the creations of one run, in order: every
/// creation is of the next directory of the structure, each succeeded but possibly the
/// last, and only a failure ends the run before all nine directories are created.
pub open spec fn structure_run<FS: FileSystem>(
    fs: FS,
    base: Seq<char>,
    answers: Seq<Result<(), Seq<char>>>,
) -> bool {
    &&& 1 <= answers.len() <= 9
    &&& forall|k: int|
        0 <= k < answers.len() ==> fs.creates_dir(structure_directories(base)[k], #[trigger] answers[k])
    &&& forall|k: int| 0 <= k < answers.len() - 1 ==> (#[trigger] answers[k]) is Ok
    &&& answers.len() < 9 ==> answers.last() is Err
}

/// What a run returns: the error of its failed creation, naming that directory, or
/// nothing when every creation succeeded.
pub open spec fn structure_outcome(answers: Seq<Result<(), Seq<char>>>) -> Result<(), Seq<char>> {
    match answers.last() {
        Err(e) => Err(creation_error(structure_labels()[answers.len() - 1], e)),
        Ok(()) => Ok(()),
    }
}

/// `child` names an entry directly inside the directory `parent`.
pub open spec fn is_child_path(parent: Seq<char>, child: Seq<char>) -> bool {
    exists|name: Seq<char>|
        name.len() > 0 && !name.contains('/') && child == parent + seq!['/'] + name
}

/// Position in `structure_directories` of the parent of the directory at `k`.
pub open spec fn structure_parent(k: int) -> int {
    if k <= 2 {
        0
    } else if k <= 5 {
        1
    } else {
        2
    }
}

proof fn lemma_child_by_suffix(parent: Seq<char>, suffix: Seq<char>)
    requires
        suffix.len() > 1,
        suffix[0] == '/',
        !suffix.drop_first().contains('/'),
    ensures
        is_child_path(parent, parent + suffix),
{
    let name = suffix.drop_first();
    assert(parent + suffix =~= parent + seq!['/'] + name);
}

/// Every directory of the structure but the base is a direct child of a directory
/// that comes earlier in the creation order, so each directory is created after its
/// parent.
pub proof fn lemma_structure_parents_created_first(base: Seq<char>)
    ensures
        forall|k: int|
            1 <= k < 9 ==> structure_parent(k) < k && is_child_path(
                structure_directories(base)[structure_parent(k)],
                #[trigger] structure_directories(base)[k],
            ),
{
    lemma_layout_nesting(base);
    reveal_strlit("/images");
    reveal_strlit("/labels");
    reveal_strlit("/train");
    reveal_strlit("/val");
    reveal_strlit("/test");
    let ds = structure_directories(base);
    lemma_child_by_suffix(base, "/images"@);
    lemma_child_by_suffix(base, "/labels"@);
    lemma_child_by_suffix(images_dir(base), "/train"@);
    lemma_child_by_suffix(images_dir(base), "/val"@);
    lemma_child_by_suffix(images_dir(base), "/test"@);
    lemma_child_by_suffix(labels_dir(base), "/train"@);
    lemma_child_by_suffix(labels_dir(base), "/val"@);
    lemma_child_by_suffix(labels_dir(base), "/test"@);
    assert(ds[1] == base + "/images"@);
    assert(ds[2] == base + "/labels"@);
}

pub trait DatasetDirectoryStructureGenerator {
    fn generate_structure(&self) -> Result<(), String>;
}

/// Creates the directory tree of a dataset, parents first, stopping at the first failure.
pub struct DatasetDirectoryStructureGeneratorImpl<'a, FS: FileSystem, C: DatasetConfig> {
    dataset_config: &'a C,
    filesystem: &'a FS,
}

impl<'a, FS: FileSystem, C: DatasetConfig> DatasetDirectoryStructureGeneratorImpl<'a, FS, C> {
    pub fn new(dataset_config: &'a C, filesystem: &'a FS) -> (generator: Self)
        ensures
            generator.base_dir() == dataset_config.base_dir_view(),
            generator.filesystem() == *filesystem,
    {
        Self { dataset_config, filesystem }
    }

    pub closed spec fn base_dir(&self) -> Seq<char> {
        self.dataset_config.base_dir_view()
    }

    /// The file system the directories are created through.
    pub closed spec fn filesystem(&self) -> FS {
        *self.filesystem
    }

    /// The directories to create, in order, each with the name used in its error message.
    pub fn directory_plan(&self) -> (plan: Vec<(String, String)>)
        ensures
            plan@.len() == 9,
            forall|i: int|
                0 <= i < 9 ==> (#[trigger] plan@[i]).0@ == structure_directories(self.base_dir())[i]
                    && plan@[i].1@ == structure_labels()[i],
    {
        let c = self.dataset_config;
        let mut plan: Vec<(String, String)> = Vec::new();
        plan.push((c.get_base_dir(), String::from_str("base")));
        plan.push((c.get_images_dir_path(), String::from_str("images")));
        plan.push((c.get_labels_dir_path(), String::from_str("labels")));
        plan.push((c.get_images_train_dir_path(), String::from_str("images train")));
        plan.push((c.get_images_val_dir_path(), String::from_str("images val")));
        plan.push((c.get_images_test_dir_path(), String::from_str("images test")));
        plan.push((c.get_labels_train_dir_path(), String::from_str("labels train")));
        plan.push((c.get_labels_val_dir_path(), String::from_str("labels val")));
        plan.push((c.get_labels_test_dir_path(), String::from_str("labels test")));
        plan
    }

    /// The result of one creation step, given the file system's answer: nothing on
    /// success, otherwise the error naming the directory.
    pub fn step_result(label: &str, created: Result<(), String>) -> (result: Result<(), String>)
        ensures
            created is Ok ==> result is Ok,
            created matches Err(e) ==> result matches Err(m) && m@ == creation_error(label@, e@),
    {
        match created {
            Ok(()) => Ok(()),
            Err(e) => Err(String::from_str("Failed to create ").concat(label).concat(" directory: ").concat(e.as_str())),
        }
    }
}

impl<'a, FS: FileSystem, C: DatasetConfig> DatasetDirectoryStructureGenerator for DatasetDirectoryStructureGeneratorImpl<'a, FS, C> {
    /// Creates the directories of `directory_plan` in order. The first failure ends
    /// the run with the error that names that directory.
    fn generate_structure(&self) -> (result: Result<(), String>)
        ensures
            exists|answers: Seq<Result<(), Seq<char>>>|
                structure_run(self.filesystem(), self.base_dir(), answers) && unit_view(result)
                    == #[trigger] structure_outcome(answers),
    {
        let plan = self.directory_plan();
        let ghost dirs = structure_directories(self.base_dir());
        let ghost mut answers: Seq<Result<(), Seq<char>>> = Seq::empty();
        let mut i: usize = 0;
        while i < plan.len()
            invariant
                plan@.len() == 9,
                i <= 9,
                dirs == structure_directories(self.base_dir()),
                forall|j: int|
                    0 <= j < 9 ==> (#[trigger] plan@[j]).1@ == structure_labels()[j] && plan@[j].0@ == dirs[j],
                answers.len() == i,
                forall|k: int| 0 <= k < i ==> (#[trigger] answers[k]) is Ok,
                forall|k: int| 0 <= k < i ==> self.filesystem().creates_dir(dirs[k], #[trigger] answers[k]),
            decreases 9 - i,
        {
            let created = self.filesystem.create_dir(plan[i].0.as_str());
            proof {
                answers = answers.push(unit_view(created));
            }
            match created {
                Ok(()) => {},
                Err(e) => {
                    let ghost failure = e@;
                    let step = Self::step_result(plan[i].1.as_str(), Err(e));
                    assert(answers.last() == Err::<(), Seq<char>>(failure));
                    assert(structure_run(self.filesystem(), self.base_dir(), answers));
                    assert(unit_view(step) == structure_outcome(answers));
                    return step;
                },
            }
            i = i + 1;
        }
        assert(structure_run(self.filesystem(), self.base_dir(), answers));
        assert(unit_view(Ok(())) == structure_outcome(answers));
        Ok(())
    }
}

} // verus!
