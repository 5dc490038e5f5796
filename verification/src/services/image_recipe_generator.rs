use crate::infrastructure::filesystem::{listing_view, size_view, text_result_view, FileSystem};
use crate::utils::draw::{draw_outcomes, drawn_from};
use crate::utils::decimal::{decimal, decimal_string, is_digit, lemma_decimal_digits, lemma_decimal_injective};
use rand::Rng;
use vstd::prelude::*;
use vstd::string::*;

verus! {

/// An element chosen for an image before it is scaled, turned and placed: its file,
/// its class and the size in pixels of the stored picture.
#[derive(Debug, PartialEq)]
pub struct ElementDraft {
    pub path: String,
    pub class: u32,
    pub source_width: u32,
    pub source_height: u32,
}

/// The choices made for one image: its name, background, objects and distractions
/// (`None` when no distraction directory is configured), and its size.
#[derive(Debug, PartialEq)]
pub struct RecipeDraft {
    pub name: String,
    pub background_path: String,
    pub objects: Vec<ElementDraft>,
    pub distractions: Option<Vec<ElementDraft>>,
    pub width: u32,
    pub height: u32,
}

pub open spec fn no_background_error(background_dir: Seq<char>) -> Seq<char> {
    "No background images found in "@ + background_dir
}

pub open spec fn no_object_error(class: u32, object_dir: Seq<char>) -> Seq<char> {
    "No object images found for class "@ + decimal(class as nat) + " in "@ + object_dir
}

pub open spec fn no_distraction_error(distraction_dir: Seq<char>) -> Seq<char> {
    "No distraction images found in "@ + distraction_dir
}

pub open spec fn object_build_error(error: Seq<char>) -> Seq<char> {
    "Failed to build object recipe: "@ + error
}

pub open spec fn distraction_build_error(error: Seq<char>) -> Seq<char> {
    "Failed to build distraction recipe: "@ + error
}

pub open spec fn missing_class_error(class: u32) -> Seq<char> {
    "Class directory "@ + decimal(class as nat) + " not found"@
}

pub open spec fn no_distraction_dir_error() -> Seq<char> {
    "No distraction directory configured"@
}

pub open spec fn image_size_error(path: Seq<char>, error: Seq<char>) -> Seq<char> {
    "Failed to get image size for "@ + path + ": "@ + error
}

/// The name of the image at position `index` of a generation, drawn with `id`.
pub open spec fn recipe_name(id: nat, index: nat) -> Seq<char> {
    decimal(id) + "_"@ + decimal(index)
}

/// The largest index that is drawn among `len` entries, as a `u32`.
pub open spec fn last_index(len: int) -> int {
    if len - 1 <= u32::MAX {
        len - 1
    } else {
        u32::MAX as int
    }
}

/// What the choice among the entries of a listing gives: the listing's error as is,
/// `empty_error` for an empty listing, else the entry at `draw`.
pub open spec fn choice_outcome(
    listing: Result<Seq<Seq<char>>, Seq<char>>,
    empty_error: Seq<char>,
    draw: int,
) -> Result<Seq<char>, Seq<char>> {
    match listing {
        Err(e) => Err(e),
        Ok(entries) => if entries.len() == 0 {
            Err(empty_error)
        } else {
            Ok(entries[draw])
        },
    }
}

/// `draw` designates an entry of the listing whenever it has entries, drawn over all
/// of them.
pub open spec fn draw_fits(listing: Result<Seq<Seq<char>>, Seq<char>>, draw: int) -> bool {
    listing matches Ok(entries) ==> (entries.len() > 0 ==> 0 <= draw < entries.len() && drawn_from(
        0,
        last_index(entries.len() as int),
        draw,
    ))
}

/// The file, class, width and height of an element.
pub open spec fn element_view(e: ElementDraft) -> (Seq<char>, u32, u32, u32) {
    (e.path@, e.class, e.source_width, e.source_height)
}

pub open spec fn element_result_view(r: Result<ElementDraft, String>) -> Result<(Seq<char>, u32, u32, u32), Seq<char>> {
    match r {
        Ok(e) => Ok(element_view(e)),
        Err(m) => Err(m@),
    }
}

/// The element read from the picture at `path`, given the file system's answer for
/// its size: an element of class 0 of that size, or the error naming the picture.
pub open spec fn sized_element(path: Seq<char>, size: Result<(u32, u32), Seq<char>>) -> Result<
    (Seq<char>, u32, u32, u32),
    Seq<char>,
> {
    match size {
        Ok((w, h)) => Ok((path, 0u32, w, h)),
        Err(e) => Err(image_size_error(path, e)),
    }
}

/// `result` is the choice among the entries of `directory` when `fs` answers `listing`
/// to listing it and `draw` is the index drawn, which fits the listing.
pub open spec fn listed_choice_with<FS: FileSystem>(
    fs: FS,
    directory: Seq<char>,
    empty_error: Seq<char>,
    result: Result<Seq<char>, Seq<char>>,
    listing: Result<Seq<Seq<char>>, Seq<char>>,
    draw: int,
) -> bool {
    &&& fs.lists_files(directory, listing)
    &&& draw_fits(listing, draw)
    &&& result == choice_outcome(listing, empty_error, draw)
}

/// `result` is a choice among the entries of `directory` for some answer of `fs` to
/// listing it and some drawn index that fits the listing.
pub open spec fn listed_choice<FS: FileSystem>(
    fs: FS,
    directory: Seq<char>,
    empty_error: Seq<char>,
    result: Result<Seq<char>, Seq<char>>,
) -> bool {
    exists|listing: Result<Seq<Seq<char>>, Seq<char>>, draw: int|
        #[trigger] listed_choice_with(fs, directory, empty_error, result, listing, draw)
}

/// The background picked from `background_dir`: one of its listed images, the
/// listing's error, or the error that it has none.
pub open spec fn background_pick<FS: FileSystem>(
    fs: FS,
    background_dir: Seq<char>,
    result: Result<Seq<char>, Seq<char>>,
) -> bool {
    listed_choice(fs, background_dir, no_background_error(background_dir), result)
}

/// The object picked once a file was chosen (or not) and its size read: the element
/// with the class it was picked for, or the error of the step that failed.
pub open spec fn picked_object(
    chosen: Result<Seq<char>, Seq<char>>,
    size: Result<(u32, u32), Seq<char>>,
    class: u32,
) -> Result<(Seq<char>, u32, u32, u32), Seq<char>> {
    match chosen {
        Err(e) => Err(e),
        Ok(path) => match sized_element(path, size) {
            Ok((p, _c, w, h)) => Ok((p, class, w, h)),
            Err(e) => Err(object_build_error(e)),
        },
    }
}

/// The distraction picked once a file was chosen (or not) and its size read.
pub open spec fn picked_distraction(
    chosen: Result<Seq<char>, Seq<char>>,
    size: Result<(u32, u32), Seq<char>>,
) -> Result<(Seq<char>, u32, u32, u32), Seq<char>> {
    match chosen {
        Err(e) => Err(e),
        Ok(path) => match sized_element(path, size) {
            Ok(element) => Ok(element),
            Err(e) => Err(distraction_build_error(e)),
        },
    }
}

/// `result` is what picking an object of `class` from the class directory `directory`
/// of `object_dir` gives when `fs` answers `listing` for the directory and `size` for
/// the chosen picture, and `draw` is the index drawn.
pub open spec fn object_pick_with<FS: FileSystem>(
    fs: FS,
    object_dir: Seq<char>,
    directory: Seq<char>,
    class: u32,
    result: Result<(Seq<char>, u32, u32, u32), Seq<char>>,
    listing: Result<Seq<Seq<char>>, Seq<char>>,
    draw: int,
    size: Result<(u32, u32), Seq<char>>,
) -> bool {
    let chosen = choice_outcome(listing, no_object_error(class, object_dir), draw);
    &&& fs.lists_files(directory, listing)
    &&& draw_fits(listing, draw)
    &&& (chosen matches Ok(path) ==> fs.reports_image_size(path, size))
    &&& result == picked_object(chosen, size, class)
}

/// `result` is what picking an object of `class` from `directory` gives for some
/// answers of `fs`: the listing of the directory, the drawn entry, and the size of
/// the chosen picture.
pub open spec fn object_pick<FS: FileSystem>(
    fs: FS,
    object_dir: Seq<char>,
    directory: Seq<char>,
    class: u32,
    result: Result<(Seq<char>, u32, u32, u32), Seq<char>>,
) -> bool {
    exists|listing: Result<Seq<Seq<char>>, Seq<char>>, draw: int, size: Result<(u32, u32), Seq<char>>|
        #[trigger] object_pick_with(fs, object_dir, directory, class, result, listing, draw, size)
}

/// `result` is what picking an object from the class sub-directories `dirs` of
/// `object_dir` gives when the drawn class is `class` and `fs` answers `found` to
/// whether its sub-directory is a directory: an object of that class from it, or the
/// error that it is not a directory. The class is drawn over every position of `dirs`.
pub open spec fn class_pick_with<FS: FileSystem>(
    fs: FS,
    object_dir: Seq<char>,
    dirs: Seq<Seq<char>>,
    result: Result<(Seq<char>, u32, u32, u32), Seq<char>>,
    class: u32,
    found: bool,
) -> bool {
    &&& class < dirs.len()
    &&& drawn_from(0, last_index(dirs.len() as int), class as int)
    &&& fs.reports_dir(dirs[class as int], found)
    &&& if found {
        object_pick(fs, object_dir, dirs[class as int], class, result)
    } else {
        result == Err::<(Seq<char>, u32, u32, u32), Seq<char>>(missing_class_error(class))
    }
}

/// `result` is what picking an object from `object_dir` gives when `fs` answers
/// `subdirs` to listing its sub-directories: the listing's error; without
/// sub-directories, an object of the single class 0 from the object directory itself;
/// else an object from the sub-directory at a drawn position, whose class is that
/// position.
pub open spec fn object_choice_with<FS: FileSystem>(
    fs: FS,
    object_dir: Seq<char>,
    result: Result<(Seq<char>, u32, u32, u32), Seq<char>>,
    subdirs: Result<Seq<Seq<char>>, Seq<char>>,
) -> bool {
    &&& fs.lists_subdirectories(object_dir, subdirs)
    &&& match subdirs {
        Err(e) => result == Err::<(Seq<char>, u32, u32, u32), Seq<char>>(e),
        Ok(dirs) => if dirs.len() == 0 {
            object_pick(fs, object_dir, object_dir, 0, result)
        } else {
            exists|class: u32, found: bool| #[trigger] class_pick_with(fs, object_dir, dirs, result, class, found)
        },
    }
}

/// `result` is what picking an object from `object_dir` gives for some answers of `fs`.
pub open spec fn object_choice<FS: FileSystem>(
    fs: FS,
    object_dir: Seq<char>,
    result: Result<(Seq<char>, u32, u32, u32), Seq<char>>,
) -> bool {
    exists|subdirs: Result<Seq<Seq<char>>, Seq<char>>| #[trigger] object_choice_with(fs, object_dir, result, subdirs)
}

/// `result` is what picking a distraction from `directory` gives when `fs` answers
/// `listing` for the directory and `size` for the chosen picture, and `draw` is the
/// index drawn.
pub open spec fn distraction_pick_with<FS: FileSystem>(
    fs: FS,
    directory: Seq<char>,
    result: Result<(Seq<char>, u32, u32, u32), Seq<char>>,
    listing: Result<Seq<Seq<char>>, Seq<char>>,
    draw: int,
    size: Result<(u32, u32), Seq<char>>,
) -> bool {
    let chosen = choice_outcome(listing, no_distraction_error(directory), draw);
    &&& fs.lists_files(directory, listing)
    &&& draw_fits(listing, draw)
    &&& (chosen matches Ok(path) ==> fs.reports_image_size(path, size))
    &&& result == picked_distraction(chosen, size)
}

/// `result` is what picking a distraction from `directory` gives for some answers of
/// `fs`: the listing of the directory, the drawn entry, and the size of the chosen
/// picture.
pub open spec fn distraction_pick<FS: FileSystem>(
    fs: FS,
    directory: Seq<char>,
    result: Result<(Seq<char>, u32, u32, u32), Seq<char>>,
) -> bool {
    exists|listing: Result<Seq<Seq<char>>, Seq<char>>, draw: int, size: Result<(u32, u32), Seq<char>>|
        #[trigger] distraction_pick_with(fs, directory, result, listing, draw, size)
}

/// `result` is what picking a distraction gives for some answers of `fs`: the error
/// that no distraction directory is configured, or a pick from the configured one.
pub open spec fn distraction_choice<FS: FileSystem>(
    fs: FS,
    distraction_dir: Option<Seq<char>>,
    result: Result<(Seq<char>, u32, u32, u32), Seq<char>>,
) -> bool {
    match distraction_dir {
        None => result == Err::<(Seq<char>, u32, u32, u32), Seq<char>>(no_distraction_dir_error()),
        Some(directory) => distraction_pick(fs, directory, result),
    }
}

/// A uniformly drawn number between `min` and `max`, both included.
///
/// Calls `rand::Rng::gen_range` on `rand::thread_rng()` with the inclusive range
/// `min..=max`. Claimed, as rand documents: the result lies in the range and is a draw
/// over exactly that range (`drawn_from`, whose only stated consequence is the range
/// itself). rand panics on an empty range, hence `min <= max`. That each value is
/// equally likely is not stated.
#[verifier::external_body]
fn random(min: u32, max: u32) -> (r: u32)
    requires
        min <= max,
    ensures
        min <= r <= max,
        drawn_from(min as int, max as int, r as int),
{
    rand::thread_rng().gen_range(min..=max)
}

/// Draws the index of one of `len` entries.
fn random_index(len: usize) -> (index: usize)
    requires
        len > 0,
    ensures
        index < len,
        index <= last_index(len as int),
        drawn_from(0, last_index(len as int), index as int),
{
    random(0, last_index_of(len)) as usize
}

/// Where the place of an element is drawn: from 0 to the room the element leaves in
/// the image, or to 1 when it does not fit.
pub open spec fn free_extent(image: u32, element: u32) -> u32 {
    if image > element {
        (image - element) as u32
    } else {
        1
    }
}

/// Draws the top-left position of an element of `element_width` by
/// `element_height` pixels in an image of `image_width` by `image_height` pixels.
pub fn place_element(image_width: u32, image_height: u32, element_width: u32, element_height: u32) -> (position: (u32, u32))
    ensures
        position.0 <= free_extent(image_width, element_width),
        position.1 <= free_extent(image_height, element_height),
        element_width < image_width ==> drawn_from(0, image_width - element_width, position.0 as int),
        element_height < image_height ==> drawn_from(0, image_height - element_height, position.1 as int),
        element_width >= image_width ==> drawn_from(0, 1, position.0 as int),
        element_height >= image_height ==> drawn_from(0, 1, position.1 as int),
{
    let available_width = if image_width > element_width { image_width - element_width } else { 1 };
    let available_height = if image_height > element_height { image_height - element_height } else { 1 };
    (random(0, available_width), random(0, available_height))
}

/// The coordinates a placement draws from, for an element narrower (shorter) than the
/// image, are exactly those at which the element fits inside it: every such position
/// can be drawn, and no other.
pub proof fn lemma_placement_draws_every_fitting_position(image: u32, element: u32)
    requires
        element < image,
    ensures
        draw_outcomes(0, image - element) == Set::new(|p: int| 0 <= p && p + element <= image),
{
    assert(draw_outcomes(0, image - element) =~= Set::new(|p: int| 0 <= p && p + element <= image));
}

/// A draw among `len` entries (the files of a listing, or the class sub-directories)
/// can give every position of an entry, and only those.
pub proof fn lemma_index_draw_covers_every_entry(len: int)
    requires
        1 <= len <= u32::MAX + 1,
    ensures
        draw_outcomes(0, last_index(len)) == Set::new(|k: int| 0 <= k < len),
{
    assert(draw_outcomes(0, last_index(len)) =~= Set::new(|k: int| 0 <= k < len));
}

/// The number of objects (distractions) of an image is drawn over every count from
/// one to the maximum.
pub proof fn lemma_element_count_draw_covers_every_count(max_count: u32)
    requires
        max_count >= 1,
    ensures
        draw_outcomes(1, max_count as int) == Set::new(|n: int| 1 <= n <= max_count),
        draw_outcomes(1, max_count as int).contains(max_count as int),
{
    assert(draw_outcomes(1, max_count as int) =~= Set::new(|n: int| 1 <= n <= max_count));
}

/// An element that is narrower (shorter) than the image is placed inside it.
pub proof fn lemma_placed_element_inside(image: u32, element: u32, position: u32)
    requires
        element < image,
        position <= free_extent(image, element),
    ensures
        position + element <= image,
{
}

/// Images at different positions of a generation get different names, whatever ids
/// are drawn, so no generated file overwrites another.
pub proof fn lemma_recipe_names_distinct(id1: nat, index1: nat, id2: nat, index2: nat)
    requires
        index1 != index2,
    ensures
        recipe_name(id1, index1) != recipe_name(id2, index2),
{
    reveal_strlit("_");
    lemma_decimal_digits(index1);
    lemma_decimal_digits(index2);
    let s1 = recipe_name(id1, index1);
    let s2 = recipe_name(id2, index2);
    let l1 = decimal(index1).len() as int;
    let l2 = decimal(index2).len() as int;
    if s1 == s2 {
        let n = s1.len() as int;
        if l1 < l2 {
            assert(s1[n - l1 - 1] == '_');
            assert(s2[n - l1 - 1] == decimal(index2)[l2 - l1 - 1]);
            assert(is_digit(decimal(index2)[l2 - l1 - 1]));
        } else if l2 < l1 {
            assert(s2[n - l2 - 1] == '_');
            assert(s1[n - l2 - 1] == decimal(index1)[l1 - l2 - 1]);
            assert(is_digit(decimal(index1)[l1 - l2 - 1]));
        } else {
            assert(s1.subrange(n - l1, n) =~= decimal(index1));
            assert(s2.subrange(n - l2, n) =~= decimal(index2));
            lemma_decimal_injective(index1, index2);
        }
    }
}

/// Picks images and elements from the configured directories; the scaling, turning
/// and placing of the elements is done by the caller on the returned drafts.
pub struct ImageRecipeGeneratorImpl<'a, FS: FileSystem> {
    filesystem: &'a FS,
    background_dir: String,
    object_dir: String,
    distraction_dir: Option<String>,
    width: u32,
    height: u32,
}

/// The background, objects and distractions of `draft` are each a successful pick from
/// the configured directories, for some answers of `fs`.
pub open spec fn draft_is_picked<FS: FileSystem>(
    fs: FS,
    background_dir: Seq<char>,
    object_dir: Seq<char>,
    distraction_dir: Option<Seq<char>>,
    draft: RecipeDraft,
) -> bool {
    &&& background_pick(fs, background_dir, Ok(draft.background_path@))
    &&& forall|j: int|
        0 <= j < draft.objects@.len() ==> object_choice(
            fs,
            object_dir,
            Ok(element_view(#[trigger] draft.objects@[j])),
        )
    &&& draft.distractions matches Some(ds) ==> forall|j: int|
        0 <= j < ds@.len() ==> distraction_choice(fs, distraction_dir, Ok(element_view(#[trigger] ds@[j])))
}

/// `error` is what one pick of a generation can fail with, for some answers of `fs`:
/// that of a background, of an object, or of a distraction from the configured
/// distraction directory (none is picked without one).
pub open spec fn pick_failure<FS: FileSystem>(
    fs: FS,
    background_dir: Seq<char>,
    object_dir: Seq<char>,
    distraction_dir: Option<Seq<char>>,
    error: Seq<char>,
) -> bool {
    ||| background_pick(fs, background_dir, Err(error))
    ||| object_choice(fs, object_dir, Err(error))
    ||| distraction_dir matches Some(d) && distraction_pick(fs, d, Err(error))
}

/// A file system that answers every call with success: every listing is non-empty,
/// every probed path is a directory, every size can be read.
pub open spec fn always_succeeds<FS: FileSystem>(fs: FS) -> bool {
    &&& forall|d: Seq<char>, l: Result<Seq<Seq<char>>, Seq<char>>|
        #[trigger] fs.lists_files(d, l) ==> (l matches Ok(entries) && entries.len() > 0)
    &&& forall|d: Seq<char>, l: Result<Seq<Seq<char>>, Seq<char>>|
        #[trigger] fs.lists_subdirectories(d, l) ==> l is Ok
    &&& forall|d: Seq<char>, found: bool| #[trigger] fs.reports_dir(d, found) ==> found
    &&& forall|p: Seq<char>, size: Result<(u32, u32), Seq<char>>|
        #[trigger] fs.reports_image_size(p, size) ==> size is Ok
}

/// When the file system answers every call with success, no pick of a generation
/// fails, so a generation only fails on a failed answer of the file system.
pub proof fn lemma_no_failure_when_every_answer_succeeds<FS: FileSystem>(
    fs: FS,
    background_dir: Seq<char>,
    object_dir: Seq<char>,
    distraction_dir: Option<Seq<char>>,
    error: Seq<char>,
)
    requires
        always_succeeds(fs),
    ensures
        !pick_failure(fs, background_dir, object_dir, distraction_dir, error),
{
    if background_pick(fs, background_dir, Err(error)) {
        let (listing, draw) = choose|listing: Result<Seq<Seq<char>>, Seq<char>>, draw: int|
            #[trigger] listed_choice_with(fs, background_dir, no_background_error(background_dir), Err(error), listing, draw);
        assert(fs.lists_files(background_dir, listing));
    }
    if object_choice(fs, object_dir, Err(error)) {
        let subdirs = choose|subdirs: Result<Seq<Seq<char>>, Seq<char>>|
            #[trigger] object_choice_with(fs, object_dir, Err(error), subdirs);
        assert(fs.lists_subdirectories(object_dir, subdirs));
        let dirs = subdirs->Ok_0;
        if dirs.len() == 0 {
            lemma_object_pick_succeeds(fs, object_dir, object_dir, 0, error);
        } else {
            let (class, found) = choose|class: u32, found: bool|
                #[trigger] class_pick_with(fs, object_dir, dirs, Err(error), class, found);
            assert(fs.reports_dir(dirs[class as int], found));
            lemma_object_pick_succeeds(fs, object_dir, dirs[class as int], class, error);
        }
    }
    if distraction_dir matches Some(d) && distraction_pick(fs, d, Err(error)) {
        let d = distraction_dir->Some_0;
        let (listing, draw, size) = choose|
            listing: Result<Seq<Seq<char>>, Seq<char>>,
            draw: int,
            size: Result<(u32, u32), Seq<char>>,
        | #[trigger] distraction_pick_with(fs, d, Err(error), listing, draw, size);
        assert(fs.lists_files(d, listing));
        let chosen = choice_outcome(listing, no_distraction_error(d), draw);
        assert(chosen is Ok);
        assert(fs.reports_image_size(chosen->Ok_0, size));
    }
}

proof fn lemma_object_pick_succeeds<FS: FileSystem>(
    fs: FS,
    object_dir: Seq<char>,
    directory: Seq<char>,
    class: u32,
    error: Seq<char>,
)
    requires
        always_succeeds(fs),
    ensures
        !object_pick(fs, object_dir, directory, class, Err(error)),
{
    if object_pick(fs, object_dir, directory, class, Err(error)) {
        let (listing, draw, size) = choose|
            listing: Result<Seq<Seq<char>>, Seq<char>>,
            draw: int,
            size: Result<(u32, u32), Seq<char>>,
        | #[trigger] object_pick_with(fs, object_dir, directory, class, Err(error), listing, draw, size);
        assert(fs.lists_files(directory, listing));
        let chosen = choice_outcome(listing, no_object_error(class, object_dir), draw);
        assert(chosen is Ok);
        assert(fs.reports_image_size(chosen->Ok_0, size));
    }
}

/// What every recipe of a successful generation satisfies, at position `index`.
pub open spec fn draft_is_well_formed(
    draft: RecipeDraft,
    index: nat,
    width: u32,
    height: u32,
    with_distractions: bool,
    max_object_count: u32,
    max_distraction_count: u32,
) -> bool {
    &&& draft.width == width
    &&& draft.height == height
    &&& 1 <= draft.objects@.len() <= max_object_count
    &&& drawn_from(1, max_object_count as int, draft.objects@.len() as int)
    &&& exists|id: nat| id <= 1000000 && drawn_from(0, 1000000, id as int) && draft.name@ == #[trigger] recipe_name(id, index)
    &&& if with_distractions {
        draft.distractions matches Some(d) && 1 <= d@.len() <= max_distraction_count && drawn_from(
            1,
            max_distraction_count as int,
            d@.len() as int,
        )
    } else {
        draft.distractions is None
    }
}

/// In a successful generation no two images share a name.
pub proof fn lemma_draft_names_distinct(
    drafts: Seq<RecipeDraft>,
    width: u32,
    height: u32,
    with_distractions: bool,
    max_object_count: u32,
    max_distraction_count: u32,
)
    requires
        forall|k: int|
            0 <= k < drafts.len() ==> draft_is_well_formed(
                #[trigger] drafts[k],
                k as nat,
                width,
                height,
                with_distractions,
                max_object_count,
                max_distraction_count,
            ),
    ensures
        forall|j: int, k: int|
            0 <= j < k < drafts.len() ==> (#[trigger] drafts[j]).name@ != (#[trigger] drafts[k]).name@,
{
    assert forall|j: int, k: int| 0 <= j < k < drafts.len() implies (#[trigger] drafts[j]).name@
        != (#[trigger] drafts[k]).name@ by {
        assert(draft_is_well_formed(drafts[j], j as nat, width, height, with_distractions, max_object_count, max_distraction_count));
        assert(draft_is_well_formed(drafts[k], k as nat, width, height, with_distractions, max_object_count, max_distraction_count));
        let idj = choose|id: nat| id <= 1000000 && drawn_from(0, 1000000, id as int) && drafts[j].name@ == #[trigger] recipe_name(id, j as nat);
        let idk = choose|id: nat| id <= 1000000 && drawn_from(0, 1000000, id as int) && drafts[k].name@ == #[trigger] recipe_name(id, k as nat);
        lemma_recipe_names_distinct(idj, j as nat, idk, k as nat);
    }
}

impl<'a, FS: FileSystem> ImageRecipeGeneratorImpl<'a, FS> {
    pub fn new(
        filesystem: &'a FS,
        background_dir: String,
        object_dir: String,
        distraction_dir: Option<String>,
        width: u32,
        height: u32,
    ) -> (generator: Self)
        ensures
            generator.background_dir() == background_dir@,
            generator.object_dir() == object_dir@,
            generator.has_distraction_dir() == distraction_dir is Some,
            generator.distraction_dir() == match distraction_dir {
                Some(d) => Some(d@),
                None => None::<Seq<char>>,
            },
            generator.width() == width,
            generator.height() == height,
            generator.filesystem() == *filesystem,
    {
        Self { filesystem, background_dir, object_dir, distraction_dir, width, height }
    }

    /// The file system the images are picked through.
    pub closed spec fn filesystem(&self) -> FS {
        *self.filesystem
    }

    /// Whether a distraction directory is configured, so that images get distractions.
    pub fn uses_distractions(&self) -> (configured: bool)
        ensures
            configured == self.has_distraction_dir(),
    {
        self.distraction_dir.is_some()
    }

    pub closed spec fn background_dir(&self) -> Seq<char> {
        self.background_dir@
    }

    pub closed spec fn object_dir(&self) -> Seq<char> {
        self.object_dir@
    }

    pub closed spec fn has_distraction_dir(&self) -> bool {
        self.distraction_dir is Some
    }

    /// The configured distraction directory, if any.
    pub closed spec fn distraction_dir(&self) -> Option<Seq<char>> {
        match self.distraction_dir {
            Some(d) => Some(d@),
            None => None,
        }
    }

    pub closed spec fn width(&self) -> u32 {
        self.width
    }

    pub closed spec fn height(&self) -> u32 {
        self.height
    }

    /// The error for a background directory without images.
    pub fn no_background_message(background_dir: &str) -> (message: String)
        ensures
            message@ == no_background_error(background_dir@),
    {
        String::from_str("No background images found in ").concat(background_dir)
    }

    /// The error for a class directory without images.
    pub fn no_object_message(class: u32, object_dir: &str) -> (message: String)
        ensures
            message@ == no_object_error(class, object_dir@),
    {
        String::from_str("No object images found for class ")
            .concat(decimal_string(class).as_str())
            .concat(" in ")
            .concat(object_dir)
    }

    /// The error for a distraction directory without images.
    pub fn no_distraction_message(distraction_dir: &str) -> (message: String)
        ensures
            message@ == no_distraction_error(distraction_dir@),
    {
        String::from_str("No distraction images found in ").concat(distraction_dir)
    }

    /// The picked object once its picture was read: the element with the class it
    /// was picked for, or the error explaining which step failed.
    pub fn object_outcome(class: u32, built: Result<ElementDraft, String>) -> (result: Result<ElementDraft, String>)
        ensures
            built matches Ok(e) ==> (result matches Ok(o) && o.path == e.path && o.class == class
                && o.source_width == e.source_width && o.source_height == e.source_height),
            built matches Err(err) ==> (result matches Err(m) && m@ == object_build_error(err@)),
    {
        match built {
            Ok(element) => {
                let mut element = element;
                element.class = class;
                Ok(element)
            },
            Err(err) => Err(String::from_str("Failed to build object recipe: ").concat(err.as_str())),
        }
    }

    /// The picked distraction once its picture was read, or the error explaining
    /// which step failed.
    pub fn distraction_outcome(built: Result<ElementDraft, String>) -> (result: Result<ElementDraft, String>)
        ensures
            built matches Ok(e) ==> result == Ok::<ElementDraft, String>(e),
            built matches Err(err) ==> (result matches Err(m) && m@ == distraction_build_error(err@)),
    {
        match built {
            Ok(element) => Ok(element),
            Err(err) => Err(String::from_str("Failed to build distraction recipe: ").concat(err.as_str())),
        }
    }

    /// The choice among the entries of a listing, given the listing and the drawn
    /// index (ignored when there is nothing to choose from).
    pub fn choose_entry(listing: Result<Vec<String>, String>, empty_error: String, draw: usize) -> (result: Result<String, String>)
        requires
            listing matches Ok(entries) ==> (entries@.len() > 0 ==> draw < entries@.len()),
        ensures
            text_result_view(result) == choice_outcome(listing_view(listing), empty_error@, draw as int),
    {
        match listing {
            Err(e) => Err(e),
            Ok(entries) => {
                if entries.len() == 0 {
                    Err(empty_error)
                } else {
                    Ok(entries[draw].clone())
                }
            },
        }
    }

    /// Draws an index for a listing when it has entries to choose from.
    fn draw_for(listing: &Result<Vec<String>, String>) -> (draw: usize)
        ensures
            listing matches Ok(entries) ==> (entries@.len() > 0 ==> draw < entries@.len() && drawn_from(
                0,
                last_index(entries@.len() as int),
                draw as int,
            )),
    {
        match listing {
            Ok(entries) => if entries.len() > 0 {
                random_index(entries.len())
            } else {
                0
            },
            Err(_) => 0,
        }
    }

    /// Picks one of the background images: the entry drawn from the listing of the
    /// background directory, the listing's error, or the error that it is empty.
    fn pick_background(&self) -> (result: Result<String, String>)
        ensures
            background_pick(self.filesystem(), self.background_dir(), text_result_view(result)),
    {
        let listing = self.filesystem.list_files(self.background_dir.as_str());
        let ghost answer = listing_view(listing);
        let draw = Self::draw_for(&listing);
        let empty_error = Self::no_background_message(self.background_dir.as_str());
        let result = Self::choose_entry(listing, empty_error, draw);
        assert(listed_choice_with(
            self.filesystem(),
            self.background_dir(),
            no_background_error(self.background_dir()),
            text_result_view(result),
            answer,
            draw as int,
        ));
        result
    }

    /// The element built from the picture at `path` once its size is known, or the
    /// error naming the picture.
    pub fn element_from_size(path: String, size: Result<(u32, u32), String>) -> (result: Result<ElementDraft, String>)
        ensures
            size matches Ok((w, h)) ==> result matches Ok(e) && e.path@ == path@ && e.class == 0
                && e.source_width == w && e.source_height == h,
            size matches Err(err) ==> result matches Err(m) && m@ == image_size_error(path@, err@),
    {
        match size {
            Ok((w, h)) => Ok(ElementDraft { path, class: 0, source_width: w, source_height: h }),
            Err(err) => Err(String::from_str("Failed to get image size for ").concat(path.as_str()).concat(": ").concat(err.as_str())),
        }
    }

    fn build_element(&self, path: String) -> (result: Result<ElementDraft, String>)
        ensures
            result matches Ok(e) ==> e.path@ == path@ && e.class == 0,
            exists|size: Result<(u32, u32), Seq<char>>|
                self.filesystem().reports_image_size(path@, size) && element_result_view(result)
                    == #[trigger] sized_element(path@, size),
    {
        let ghost p = path@;
        let size = self.filesystem.get_image_size(path.as_str());
        let ghost answer = size_view(size);
        let result = Self::element_from_size(path, size);
        assert(element_result_view(result) == sized_element(p, answer));
        result
    }

    /// Picks an object of `class` from the listing of `directory`, one of the class
    /// directories of the object directory (or the object directory itself).
    fn pick_object_in(&self, directory: &str, class: u32) -> (result: Result<ElementDraft, String>)
        ensures
            object_pick(self.filesystem(), self.object_dir(), directory@, class, element_result_view(result)),
    {
        let listing = self.filesystem.list_files(directory);
        let ghost answer = listing_view(listing);
        let draw = Self::draw_for(&listing);
        let empty_error = Self::no_object_message(class, self.object_dir.as_str());
        let chosen = Self::choose_entry(listing, empty_error, draw);
        match chosen {
            Err(e) => {
                let result: Result<ElementDraft, String> = Err(e);
                let ghost size: Result<(u32, u32), Seq<char>> = Err(Seq::empty());
                assert(object_pick_with(
                    self.filesystem(),
                    self.object_dir(),
                    directory@,
                    class,
                    element_result_view(result),
                    answer,
                    draw as int,
                    size,
                ));
                result
            },
            Ok(path) => {
                let ghost p = path@;
                let built = self.build_element(path);
                let ghost size = choose|size: Result<(u32, u32), Seq<char>>|
                    self.filesystem().reports_image_size(p, size) && element_result_view(built)
                        == #[trigger] sized_element(p, size);
                let result = Self::object_outcome(class, built);
                assert(object_pick_with(
                    self.filesystem(),
                    self.object_dir(),
                    directory@,
                    class,
                    element_result_view(result),
                    answer,
                    draw as int,
                    size,
                ));
                result
            },
        }
    }

    /// The outcome of checking that the directory of the drawn class exists.
    pub fn class_check(class: u32, exists: bool) -> (result: Result<(), String>)
        ensures
            exists ==> result is Ok,
            !exists ==> (result matches Err(m) && m@ == missing_class_error(class)),
    {
        if exists {
            Ok(())
        } else {
            Err(String::from_str("Class directory ").concat(decimal_string(class).as_str()).concat(" not found"))
        }
    }

    /// Picks an object: from the object directory itself when it has no class
    /// sub-directories, else from the sub-directory at a drawn position, the class of
    /// the object being that position.
    fn pick_object(&self) -> (result: Result<ElementDraft, String>)
        ensures
            object_choice(self.filesystem(), self.object_dir(), element_result_view(result)),
    {
        let listed = self.filesystem.list_subdirectories(self.object_dir.as_str());
        let ghost answer = listing_view(listed);
        match listed {
            Err(e) => {
                let result: Result<ElementDraft, String> = Err(e);
                assert(object_choice_with(self.filesystem(), self.object_dir(), element_result_view(result), answer));
                result
            },
            Ok(class_dirs) => {
                if class_dirs.len() == 0 {
                    let result = self.pick_object_in(self.object_dir.as_str(), 0);
                    assert(object_choice_with(self.filesystem(), self.object_dir(), element_result_view(result), answer));
                    result
                } else {
                    let class = random(0, last_index_of(class_dirs.len()));
                    let directory = &class_dirs[class as usize];
                    let exists = self.filesystem.is_dir(directory.as_str());
                    let ghost dirs = class_dirs@.map_values(|s: String| s@);
                    assert(dirs[class as int] == directory@);
                    let result = match Self::class_check(class, exists) {
                        Err(m) => Err(m),
                        Ok(()) => self.pick_object_in(directory.as_str(), class),
                    };
                    assert(class_pick_with(self.filesystem(), self.object_dir(), dirs, element_result_view(result), class, exists));
                    assert(object_choice_with(self.filesystem(), self.object_dir(), element_result_view(result), answer));
                    result
                }
            },
        }
    }

    /// Picks a distraction from the listing of the distraction directory.
    fn pick_distraction(&self) -> (result: Result<ElementDraft, String>)
        ensures
            distraction_choice(self.filesystem(), self.distraction_dir(), element_result_view(result)),
    {
        match &self.distraction_dir {
            None => Err(String::from_str("No distraction directory configured")),
            Some(directory) => {
                let listing = self.filesystem.list_files(directory.as_str());
                let ghost answer = listing_view(listing);
                let draw = Self::draw_for(&listing);
                let empty_error = Self::no_distraction_message(directory.as_str());
                let chosen = Self::choose_entry(listing, empty_error, draw);
                match chosen {
                    Err(e) => {
                        let result: Result<ElementDraft, String> = Err(e);
                        let ghost size: Result<(u32, u32), Seq<char>> = Err(Seq::empty());
                        assert(distraction_pick_with(
                            self.filesystem(),
                            directory@,
                            element_result_view(result),
                            answer,
                            draw as int,
                            size,
                        ));
                        assert(distraction_pick(self.filesystem(), directory@, element_result_view(result)));
                        result
                    },
                    Ok(path) => {
                        let ghost p = path@;
                        let built = self.build_element(path);
                        let ghost size = choose|size: Result<(u32, u32), Seq<char>>|
                            self.filesystem().reports_image_size(p, size) && element_result_view(built)
                                == #[trigger] sized_element(p, size);
                        let result = Self::distraction_outcome(built);
                        assert(distraction_pick_with(
                            self.filesystem(),
                            directory@,
                            element_result_view(result),
                            answer,
                            draw as int,
                            size,
                        ));
                        assert(distraction_pick(self.filesystem(), directory@, element_result_view(result)));
                        result
                    },
                }
            },
        }
    }

    /// Draws the recipes of `count` images: for each, a background, between one and
    /// `max_object_count_per_image` objects, and, when a distraction directory is
    /// configured, between one and `max_distraction_count_per_image` distractions.
    /// Every background, object and distraction is picked from its configured
    /// directory; the first failed pick ends the generation with its error.
    pub fn generate_drafts(
        &self,
        count: u32,
        max_object_count_per_image: u32,
        max_distraction_count_per_image: u32,
    ) -> (result: Result<Vec<RecipeDraft>, String>)
        requires
            count > 0 ==> max_object_count_per_image >= 1,
            count > 0 && self.has_distraction_dir() ==> max_distraction_count_per_image >= 1,
        ensures
            count == 0 ==> (result matches Ok(drafts) && drafts@.len() == 0),
            result matches Ok(drafts) ==> {
                &&& drafts@.len() == count
                &&& forall|k: int|
                    0 <= k < count ==> {
                        &&& draft_is_well_formed(
                            #[trigger] drafts@[k],
                            k as nat,
                            self.width(),
                            self.height(),
                            self.has_distraction_dir(),
                            max_object_count_per_image,
                            max_distraction_count_per_image,
                        )
                        &&& draft_is_picked(
                            self.filesystem(),
                            self.background_dir(),
                            self.object_dir(),
                            self.distraction_dir(),
                            drafts@[k],
                        )
                    }
            },
            result matches Err(e) ==> count > 0 && pick_failure(
                self.filesystem(),
                self.background_dir(),
                self.object_dir(),
                self.distraction_dir(),
                e@,
            ),
    {
        let mut recipes: Vec<RecipeDraft> = Vec::new();
        let mut i: u32 = 0;
        while i < count
            invariant
                i <= count,
                recipes@.len() == i,
                count > 0 ==> max_object_count_per_image >= 1,
                count > 0 && self.has_distraction_dir() ==> max_distraction_count_per_image >= 1,
                forall|k: int|
                    0 <= k < i ==> {
                        &&& draft_is_well_formed(
                            #[trigger] recipes@[k],
                            k as nat,
                            self.width(),
                            self.height(),
                            self.has_distraction_dir(),
                            max_object_count_per_image,
                            max_distraction_count_per_image,
                        )
                        &&& draft_is_picked(
                            self.filesystem(),
                            self.background_dir(),
                            self.object_dir(),
                            self.distraction_dir(),
                            recipes@[k],
                        )
                    },
            decreases count - i,
        {
            let background_path = match self.pick_background() {
                Ok(path) => path,
                Err(e) => {
                    return Err(e);
                },
            };

            let object_count = random(1, max_object_count_per_image);
            let mut objects: Vec<ElementDraft> = Vec::new();
            let mut j: u32 = 0;
            while j < object_count
                invariant
                    i < count,
                    1 <= object_count <= max_object_count_per_image,
                    j <= object_count,
                    objects@.len() == j,
                    forall|n: int|
                        0 <= n < objects@.len() ==> object_choice(
                            self.filesystem(),
                            self.object_dir(),
                            Ok(element_view(#[trigger] objects@[n])),
                        ),
                decreases object_count - j,
            {
                let object = match self.pick_object() {
                    Ok(object) => object,
                    Err(e) => {
                        return Err(e);
                    },
                };
                objects.push(object);
                j = j + 1;
            }

            let distractions = if self.distraction_dir.is_some() {
                let distraction_count = random(1, max_distraction_count_per_image);
                let mut picked: Vec<ElementDraft> = Vec::new();
                let mut j: u32 = 0;
                while j < distraction_count
                    invariant
                        i < count,
                        1 <= distraction_count <= max_distraction_count_per_image,
                        self.distraction_dir() is Some,
                        j <= distraction_count,
                        picked@.len() == j,
                        forall|n: int|
                            0 <= n < picked@.len() ==> distraction_choice(
                                self.filesystem(),
                                self.distraction_dir(),
                                Ok(element_view(#[trigger] picked@[n])),
                            ),
                    decreases distraction_count - j,
                {
                    let distraction = match self.pick_distraction() {
                        Ok(distraction) => distraction,
                        Err(e) => {
                            return Err(e);
                        },
                    };
                    picked.push(distraction);
                    j = j + 1;
                }
                Some(picked)
            } else {
                None
            };

            let id = random(0, 1000000);
            let name = decimal_string(id).concat("_").concat(decimal_string(i).as_str());
            let draft = RecipeDraft {
                name,
                background_path,
                objects,
                distractions,
                width: self.width,
                height: self.height,
            };
            assert(draft.name@ == recipe_name(id as nat, i as nat));
            assert(draft_is_picked(
                self.filesystem(),
                self.background_dir(),
                self.object_dir(),
                self.distraction_dir(),
                draft,
            ));
            recipes.push(draft);
            i = i + 1;
        }
        Ok(recipes)
    }
}

/// `last_index` computed for a listing of `len` entries.
fn last_index_of(len: usize) -> (upper: u32)
    requires
        len > 0,
    ensures
        upper == last_index(len as int),
{
    if len - 1 <= u32::MAX as usize {
        (len - 1) as u32
    } else {
        u32::MAX
    }
}

} // verus!
