use vstd::prelude::*;

verus! {

/// The contents of a listing answer: the listed paths, or the error.
pub open spec fn listing_view(listing: Result<Vec<String>, String>) -> Result<Seq<Seq<char>>, Seq<char>> {
    match listing {
        Ok(v) => Ok(v@.map_values(|s: String| s@)),
        Err(e) => Err(e@),
    }
}

/// The contents of a result that carries a text either way.
pub open spec fn text_result_view(r: Result<String, String>) -> Result<Seq<char>, Seq<char>> {
    match r {
        Ok(v) => Ok(v@),
        Err(e) => Err(e@),
    }
}

/// The contents of an answer that carries nothing on success.
pub open spec fn unit_view(answer: Result<(), String>) -> Result<(), Seq<char>> {
    match answer {
        Ok(()) => Ok(()),
        Err(e) => Err(e@),
    }
}

/// The contents of an image-size answer.
pub open spec fn size_view(answer: Result<(u32, u32), String>) -> Result<(u32, u32), Seq<char>> {
    match answer {
        Ok(size) => Ok(size),
        Err(e) => Err(e@),
    }
}

/// Access to the disk that the generators work through.
///
/// Implementations live outside the verified library (the real file system, or an
/// in-memory stand-in in tests). What the disk answers depends on its state, so each
/// method is described by a relation that the implementation defines: which answers it
/// may give to a call with the given arguments. By default any answer is allowed, and
/// nothing else is assumed of these relations: the generators state their results in
/// terms of the answers they got, and so of the calls they made.
pub trait FileSystem {
    /// `list_files(directory)` may answer `answer`.
    closed spec fn lists_files(&self, directory: Seq<char>, answer: Result<Seq<Seq<char>>, Seq<char>>) -> bool {
        true
    }

    /// `list_subdirectories(directory)` may answer `answer`.
    closed spec fn lists_subdirectories(
        &self,
        directory: Seq<char>,
        answer: Result<Seq<Seq<char>>, Seq<char>>,
    ) -> bool {
        true
    }

    /// `is_dir(directory)` may answer `answer`.
    closed spec fn reports_dir(&self, directory: Seq<char>, answer: bool) -> bool {
        true
    }

    /// `write_text(output_path, content)` may answer `answer`.
    closed spec fn writes_text(&self, output_path: Seq<char>, content: Seq<char>, answer: Result<(), Seq<char>>) -> bool {
        true
    }

    /// `create_dir(directory)` may answer `answer`.
    closed spec fn creates_dir(&self, directory: Seq<char>, answer: Result<(), Seq<char>>) -> bool {
        true
    }

    /// `get_image_size(image_path)` may answer `answer`.
    closed spec fn reports_image_size(&self, image_path: Seq<char>, answer: Result<(u32, u32), Seq<char>>) -> bool {
        true
    }

    /// The paths of the regular files directly inside `directory`.
    fn list_files(&self, directory: &str) -> (answer: Result<Vec<String>, String>)
        ensures
            self.lists_files(directory@, listing_view(answer)),
    ;

    /// The paths of the directories directly inside `directory`.
    fn list_subdirectories(&self, directory: &str) -> (answer: Result<Vec<String>, String>)
        ensures
            self.lists_subdirectories(directory@, listing_view(answer)),
    ;

    /// Whether `directory` names an existing directory.
    fn is_dir(&self, directory: &str) -> (answer: bool)
        ensures
            self.reports_dir(directory@, answer),
    ;

    /// Writes `content` to the file at `output_path`.
    fn write_text(&self, output_path: &str, content: &str) -> (answer: Result<(), String>)
        ensures
            self.writes_text(output_path@, content@, unit_view(answer)),
    ;

    /// Creates the directory `directory`, whose parent must exist.
    fn create_dir(&self, directory: &str) -> (answer: Result<(), String>)
        ensures
            self.creates_dir(directory@, unit_view(answer)),
    ;

    /// The width and height, in pixels, of the image stored at `image_path`.
    fn get_image_size(&self, image_path: &str) -> (answer: Result<(u32, u32), String>)
        ensures
            self.reports_image_size(image_path@, size_view(answer)),
    ;
}

} // verus!
