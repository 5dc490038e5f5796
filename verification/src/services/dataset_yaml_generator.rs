use crate::infrastructure::filesystem::{text_result_view, unit_view, FileSystem};
use crate::models::dataset_config::dataset_yaml_path;
use crate::utils::decimal::{decimal, decimal_string};
use vstd::prelude::*;
use vstd::string::*;

verus! {

/// The entries of the `names` mapping: one line per class, its id (its position in
/// `names`) then its name.
pub open spec fn names_entries(names: Seq<Seq<char>>) -> Seq<char>
    decreases names.len(),
{
    if names.len() == 0 {
        Seq::empty()
    } else {
        names_entries(names.drop_last()) + "\n  "@ + decimal((names.len() - 1) as nat) + ": "@ + names.last()
    }
}

/// The `names` key of the description: the mapping from class id to class name, or an
/// empty mapping when no class is known.
pub open spec fn names_section(names: Seq<Seq<char>>) -> Seq<char> {
    if names.len() == 0 {
        "\nnames: {}"@
    } else {
        "\nnames:"@ + names_entries(names)
    }
}

/// The dataset description written next to the splits: the base directory, the
/// directory of each split, and the names of the classes.
pub open spec fn yaml_content(base: Seq<char>, names: Seq<Seq<char>>) -> Seq<char> {
    "path: "@ + base
        + "\ntrain: "@ + base + "/train"@
        + "\ntest: "@ + base + "/test"@
        + "\nval: "@ + base + "/val"@
        + names_section(names)
}

/// The name of the entry at `path`: what follows its last `/`.
pub open spec fn base_name(path: Seq<char>) -> Seq<char>
    decreases path.len(),
{
    if path.len() == 0 || path.last() == '/' {
        Seq::empty()
    } else {
        base_name(path.drop_last()).push(path.last())
    }
}

/// The class names of an object directory: the names of its class sub-directories, in
/// the order they are listed (the position of each being its class id), or, without
/// sub-directories, the name of the object directory for its single class 0.
pub open spec fn class_names_of(object_dir: Seq<char>, subdirectories: Seq<Seq<char>>) -> Seq<Seq<char>> {
    if subdirectories.len() == 0 {
        seq![base_name(object_dir)]
    } else {
        subdirectories.map_values(|d: Seq<char>| base_name(d))
    }
}

/// The name of the entry at `path`.
pub fn base_name_of(path: &str) -> (name: String)
    ensures
        name@ == base_name(path@),
{
    let ghost p = path@;
    let n = path.unicode_len();
    let mut start: usize = n;
    assert(p.subrange(0, n as int) =~= p);
    assert(p.subrange(n as int, n as int) =~= Seq::<char>::empty());
    while start > 0 && path.get_char(start - 1) != '/'
        invariant
            start <= n,
            n == p.len(),
            path@ == p,
            base_name(p) == base_name(p.subrange(0, start as int)) + p.subrange(start as int, n as int),
        decreases start,
    {
        let ghost q = p.subrange(0, start as int);
        assert(q.drop_last() =~= p.subrange(0, start - 1));
        assert(p.subrange(start - 1, n as int) =~= seq![q.last()] + p.subrange(start as int, n as int));
        start = start - 1;
    }
    let ghost q = p.subrange(0, start as int);
    assert(base_name(q) =~= Seq::<char>::empty());
    assert(p.subrange(start as int, n as int) =~= base_name(p));
    String::from_str(path.substring_char(start, n))
}

/// The class names of `object_dir`, given the listing of its sub-directories.
pub fn class_names(object_dir: &str, subdirectories: &Vec<String>) -> (names: Vec<String>)
    ensures
        names@.map_values(|s: String| s@) == class_names_of(object_dir@, subdirectories@.map_values(|s: String| s@)),
{
    let mut names: Vec<String> = Vec::new();
    if subdirectories.len() == 0 {
        names.push(base_name_of(object_dir));
        assert(names@.map_values(|s: String| s@) =~= seq![base_name(object_dir@)]);
        return names;
    }
    let ghost dirs = subdirectories@.map_values(|s: String| s@);
    let mut i: usize = 0;
    while i < subdirectories.len()
        invariant
            i <= subdirectories@.len(),
            dirs == subdirectories@.map_values(|s: String| s@),
            names@.len() == i,
            forall|k: int| 0 <= k < i ==> (#[trigger] names@[k])@ == base_name(dirs[k]),
        decreases subdirectories@.len() - i,
    {
        names.push(base_name_of(subdirectories[i].as_str()));
        i = i + 1;
    }
    assert(names@.map_values(|s: String| s@) =~= dirs.map_values(|d: Seq<char>| base_name(d)));
    names
}

/// What generating the description returns once the file system answered the write
/// of the file at `yaml_path`: that path, or the file system's error as is.
pub open spec fn yaml_outcome(yaml_path: Seq<char>, written: Result<(), Seq<char>>) -> Result<Seq<char>, Seq<char>> {
    match written {
        Ok(()) => Ok(yaml_path),
        Err(e) => Err(e),
    }
}

pub trait DatasetYamlGenerator {
    fn generate_yaml(&self) -> Result<String, String>;
}

/// Writes `dataset.yaml` into the dataset's base directory.
pub struct DatasetYamlGeneratorImpl<'a, FS: FileSystem> {
    base_dir: String,
    filesystem: &'a FS,
    class_names: Vec<String>,
}

impl<'a, FS: FileSystem> DatasetYamlGeneratorImpl<'a, FS> {
    pub fn new(base_dir: String, filesystem: &'a FS) -> (generator: Self)
        ensures
            generator.base_dir() == base_dir@,
            generator.filesystem() == *filesystem,
            generator.class_names() == Seq::<Seq<char>>::empty(),
    {
        Self { base_dir, filesystem, class_names: Vec::new() }
    }

    /// A generator whose description names the classes `class_names`, the class id of
    /// each being its position.
    pub fn with_class_names(base_dir: String, filesystem: &'a FS, class_names: Vec<String>) -> (generator: Self)
        requires
            class_names@.len() <= u32::MAX,
        ensures
            generator.base_dir() == base_dir@,
            generator.filesystem() == *filesystem,
            generator.class_names() == class_names@.map_values(|s: String| s@),
    {
        Self { base_dir, filesystem, class_names }
    }

    /// Class ids are `u32` numbers, so there are at most `u32::MAX` classes.
    #[verifier::type_invariant]
    spec fn class_ids_fit(self) -> bool {
        self.class_names@.len() <= u32::MAX
    }

    /// The names of the classes, by class id.
    pub closed spec fn class_names(&self) -> Seq<Seq<char>> {
        self.class_names@.map_values(|s: String| s@)
    }

    /// The `names` key of the description.
    fn names_text(&self) -> (text: String)
        ensures
            text@ == names_section(self.class_names()),
    {
        if self.class_names.len() == 0 {
            return String::from_str("\nnames: {}");
        }
        proof {
            use_type_invariant(self);
        }
        let ghost names = self.class_names();
        let mut text = String::from_str("\nnames:");
        let mut i: usize = 0;
        while i < self.class_names.len()
            invariant
                i <= self.class_names@.len(),
                names == self.class_names(),
                names.len() == self.class_names@.len(),
                self.class_names@.len() <= u32::MAX,
                text@ == "\nnames:"@ + names_entries(names.subrange(0, i as int)),
            decreases self.class_names@.len() - i,
        {
            let number = decimal_string(i as u32);
            let ghost before = names.subrange(0, i as int);
            text = text.concat("\n  ").concat(number.as_str()).concat(": ").concat(self.class_names[i].as_str());
            let ghost after = names.subrange(0, i + 1);
            assert(after.drop_last() =~= before);
            assert(after.last() == self.class_names@[i as int]@);
            assert(names_entries(after) == names_entries(before) + "\n  "@ + decimal(i as nat) + ": "@ + after.last());
            i = i + 1;
        }
        assert(names.subrange(0, names.len() as int) =~= names);
        text
    }

    pub closed spec fn base_dir(&self) -> Seq<char> {
        self.base_dir@
    }

    /// The file system the description is written through.
    pub closed spec fn filesystem(&self) -> FS {
        *self.filesystem
    }

    fn get_yaml_content(&self) -> (content: String)
        ensures
            content@ == yaml_content(self.base_dir(), self.class_names()),
    {
        let names = self.names_text();
        let base = self.base_dir.as_str();
        String::from_str("path: ")
            .concat(base)
            .concat("\ntrain: ")
            .concat(base)
            .concat("/train")
            .concat("\ntest: ")
            .concat(base)
            .concat("/test")
            .concat("\nval: ")
            .concat(base)
            .concat("/val")
            .concat(names.as_str())
    }

    /// The result of generating the description, given the path it was written to and
    /// the file system's answer to the write.
    pub fn yaml_result(yaml_path: String, written: Result<(), String>) -> (result: Result<String, String>)
        ensures
            written is Ok ==> result == Ok::<String, String>(yaml_path),
            written matches Err(e) ==> result == Err::<String, String>(e),
    {
        match written {
            Ok(()) => Ok(yaml_path),
            Err(e) => Err(e),
        }
    }
}

impl<'a, FS: FileSystem> DatasetYamlGenerator for DatasetYamlGeneratorImpl<'a, FS> {
    /// Writes `yaml_content(base, class_names)` to `dataset_yaml_path(base)` and
    /// returns that path; a write error is returned as is.
    fn generate_yaml(&self) -> (result: Result<String, String>)
        ensures
            exists|written: Result<(), Seq<char>>|
                self.filesystem().writes_text(
                    dataset_yaml_path(self.base_dir()),
                    yaml_content(self.base_dir(), self.class_names()),
                    written,
                ) && text_result_view(result) == #[trigger] yaml_outcome(
                    dataset_yaml_path(self.base_dir()),
                    written,
                ),
    {
        let yaml_content = self.get_yaml_content();
        let yaml_filepath = self.base_dir.clone().concat("/dataset.yaml");
        let written = self.filesystem.write_text(yaml_filepath.as_str(), yaml_content.as_str());
        let ghost answer = unit_view(written);
        let result = Self::yaml_result(yaml_filepath, written);
        assert(text_result_view(result) == yaml_outcome(dataset_yaml_path(self.base_dir()), answer));
        result
    }
}

} // verus!
