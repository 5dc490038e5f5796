use crate::infrastructure::filesystem::{unit_view, FileSystem};
use crate::utils::decimal::{decimal, decimal_string, is_digit, lemma_decimal_digits};
use vstd::prelude::*;
use vstd::string::*;

verus! {

/// An object of an image as a label names it: its class and the four corners of its
/// oriented box, in the order top-left, top-right, bottom-right, bottom-left, each
/// coordinate given as the text of its value normalized to the image size (x divided
/// by the image width, y by its height).
#[derive(Debug, Clone)]
pub struct OrientedBox {
    pub class: u32,
    pub x1: String,
    pub y1: String,
    pub x2: String,
    pub y2: String,
    pub x3: String,
    pub y3: String,
    pub x4: String,
    pub y4: String,
}

/// The texts of the eight coordinates of a box, in the order they are written.
pub open spec fn coordinate_texts(b: OrientedBox) -> Seq<Seq<char>> {
    seq![b.x1@, b.y1@, b.x2@, b.y2@, b.x3@, b.y3@, b.x4@, b.y4@]
}

/// A value of a label line: a non-empty text without space or line break.
pub open spec fn is_value_text(t: Seq<char>) -> bool {
    t.len() > 0 && !t.contains(' ') && !t.contains('\n')
}

/// Every coordinate of the box is written as a value text.
pub open spec fn box_is_well_formed(b: OrientedBox) -> bool {
    forall|i: int| 0 <= i < 8 ==> is_value_text(#[trigger] coordinate_texts(b)[i])
}

/// The label line of one object: nine space-separated values, the class in decimal
/// first, then the coordinates of the corners, ended by a newline.
pub open spec fn label_line(b: OrientedBox) -> Seq<char> {
    decimal(b.class as nat) + " "@ + b.x1@ + " "@ + b.y1@ + " "@ + b.x2@ + " "@ + b.y2@ + " "@ + b.x3@
        + " "@ + b.y3@ + " "@ + b.x4@ + " "@ + b.y4@ + "\n"@
}

/// The label file of an image: the lines of its objects, in order.
pub open spec fn label_text(boxes: Seq<OrientedBox>) -> Seq<char>
    decreases boxes.len(),
{
    if boxes.len() == 0 {
        Seq::empty()
    } else {
        label_text(boxes.drop_last()) + label_line(boxes.last())
    }
}

/// Where the label file of the image `name` is written in `output_dir`.
pub open spec fn label_file_path(output_dir: Seq<char>, name: Seq<char>) -> Seq<char> {
    output_dir + "/"@ + name + ".txt"@
}

/// The error reported when the label file at `path` could not be written.
pub open spec fn label_write_error(path: Seq<char>, error: Seq<char>) -> Seq<char> {
    "Failed to write label file ("@ + path + "): "@ + error
}

/// How many times `c` occurs in `s`.
pub open spec fn count_char(s: Seq<char>, c: char) -> nat
    decreases s.len(),
{
    if s.len() == 0 {
        0
    } else {
        count_char(s.drop_last(), c) + if s.last() == c { 1nat } else { 0nat }
    }
}

broadcast proof fn lemma_count_char_concat(a: Seq<char>, b: Seq<char>, c: char)
    ensures
        #[trigger] count_char(a + b, c) == count_char(a, c) + count_char(b, c),
    decreases b.len(),
{
    if b.len() > 0 {
        lemma_count_char_concat(a, b.drop_last(), c);
        assert((a + b).drop_last() =~= a + b.drop_last());
    } else {
        assert(a + b =~= a);
    }
}

proof fn lemma_count_absent(s: Seq<char>, c: char)
    requires
        !s.contains(c),
    ensures
        count_char(s, c) == 0,
    decreases s.len(),
{
    if s.len() > 0 {
        assert(s[s.len() - 1] != c);
        assert(!s.drop_last().contains(c)) by {
            if s.drop_last().contains(c) {
                let i = choose|i: int| 0 <= i < s.drop_last().len() && s.drop_last()[i] == c;
                assert(s[i] == c);
            }
        }
        lemma_count_absent(s.drop_last(), c);
    }
}

proof fn lemma_decimal_has_no(n: nat, c: char)
    requires
        !is_digit(c),
    ensures
        count_char(decimal(n), c) == 0,
{
    lemma_decimal_digits(n);
    assert(!decimal(n).contains(c)) by {
        if decimal(n).contains(c) {
            let i = choose|i: int| 0 <= i < decimal(n).len() && decimal(n)[i] == c;
            assert(is_digit(decimal(n)[i]));
        }
    }
    lemma_count_absent(decimal(n), c);
}

proof fn lemma_count_one(s: Seq<char>, c: char)
    requires
        s.len() == 1,
    ensures
        count_char(s, c) == if s[0] == c { 1nat } else { 0nat },
{
    assert(s.drop_last() =~= Seq::<char>::empty());
    assert(count_char(Seq::<char>::empty(), c) == 0);
}

/// A label line of a well-formed box holds one line break, at its end, and eight
/// spaces, which part it into its nine values.
pub proof fn lemma_label_line_shape(b: OrientedBox)
    requires
        box_is_well_formed(b),
    ensures
        count_char(label_line(b), '\n') == 1,
        count_char(label_line(b), ' ') == 8,
        label_line(b).last() == '\n',
{
    reveal_strlit(" ");
    reveal_strlit("\n");
    lemma_count_one(" "@, '\n');
    lemma_count_one(" "@, ' ');
    lemma_count_one("\n"@, '\n');
    lemma_count_one("\n"@, ' ');
    lemma_decimal_has_no(b.class as nat, '\n');
    lemma_decimal_has_no(b.class as nat, ' ');
    let t = coordinate_texts(b);
    assert forall|i: int| 0 <= i < 8 implies count_char(#[trigger] t[i], '\n') == 0 && count_char(t[i], ' ') == 0 by {
        assert(is_value_text(t[i]));
        lemma_count_absent(t[i], '\n');
        lemma_count_absent(t[i], ' ');
    }
    assert(t[0] == b.x1@ && t[1] == b.y1@ && t[2] == b.x2@ && t[3] == b.y2@);
    assert(t[4] == b.x3@ && t[5] == b.y3@ && t[6] == b.x4@ && t[7] == b.y4@);
    broadcast use lemma_count_char_concat;
}

/// Every object of an image gives exactly one line of its label file.
pub proof fn lemma_one_line_per_object(boxes: Seq<OrientedBox>)
    requires
        forall|i: int| 0 <= i < boxes.len() ==> box_is_well_formed(#[trigger] boxes[i]),
    ensures
        count_char(label_text(boxes), '\n') == boxes.len(),
    decreases boxes.len(),
{
    broadcast use lemma_count_char_concat;

    if boxes.len() == 0 {
        assert(count_char(Seq::<char>::empty(), '\n') == 0);
    } else {
        assert forall|i: int| 0 <= i < boxes.drop_last().len() implies box_is_well_formed(
            #[trigger] boxes.drop_last()[i],
        ) by {
            assert(boxes.drop_last()[i] == boxes[i]);
        }
        lemma_one_line_per_object(boxes.drop_last());
        lemma_label_line_shape(boxes.last());
    }
}

/// What writing a label file at `path` returns once the file system answered the
/// write: nothing, or the file system's error introduced by the file's path.
pub open spec fn label_outcome(path: Seq<char>, written: Result<(), Seq<char>>) -> Result<(), Seq<char>> {
    match written {
        Ok(()) => Ok(()),
        Err(e) => Err(label_write_error(path, e)),
    }
}

/// Writes the label file of one image.
pub struct ObbYoloV11LabelGenerator<'a, FS: FileSystem> {
    filesystem: &'a FS,
}

impl<'a, FS: FileSystem> ObbYoloV11LabelGenerator<'a, FS> {
    pub fn new(filesystem: &'a FS) -> (generator: Self)
        ensures
            generator.filesystem() == *filesystem,
    {
        Self { filesystem }
    }

    /// The file system the label files are written through.
    pub closed spec fn filesystem(&self) -> FS {
        *self.filesystem
    }

    /// The label line of one object.
    pub fn label_line_text(b: &OrientedBox) -> (line: String)
        ensures
            line@ == label_line(*b),
    {
        decimal_string(b.class)
            .concat(" ").concat(b.x1.as_str())
            .concat(" ").concat(b.y1.as_str())
            .concat(" ").concat(b.x2.as_str())
            .concat(" ").concat(b.y2.as_str())
            .concat(" ").concat(b.x3.as_str())
            .concat(" ").concat(b.y3.as_str())
            .concat(" ").concat(b.x4.as_str())
            .concat(" ").concat(b.y4.as_str())
            .concat("\n")
    }

    /// The content of the label file of an image whose objects are `boxes`.
    pub fn label_text_for(boxes: &Vec<OrientedBox>) -> (text: String)
        ensures
            text@ == label_text(boxes@),
    {
        let mut label = String::new();
        let mut i: usize = 0;
        while i < boxes.len()
            invariant
                i <= boxes@.len(),
                label@ == label_text(boxes@.subrange(0, i as int)),
            decreases boxes@.len() - i,
        {
            let line = Self::label_line_text(&boxes[i]);
            label = label.concat(line.as_str());
            assert(boxes@.subrange(0, i + 1).drop_last() =~= boxes@.subrange(0, i as int));
            i = i + 1;
        }
        assert(boxes@.subrange(0, boxes@.len() as int) =~= boxes@);
        label
    }

    /// The path of the label file of the image `name` in `output_dir`.
    pub fn label_path(output_dir: &str, name: &str) -> (path: String)
        ensures
            path@ == label_file_path(output_dir@, name@),
    {
        String::from_str(output_dir).concat("/").concat(name).concat(".txt")
    }

    /// The result of writing the label file at `path`, given the file system's answer.
    pub fn write_result(path: &str, written: Result<(), String>) -> (result: Result<(), String>)
        ensures
            written is Ok ==> result is Ok,
            written matches Err(e) ==> result matches Err(m) && m@ == label_write_error(path@, e@),
    {
        match written {
            Ok(()) => Ok(()),
            Err(e) => Err(String::from_str("Failed to write label file (").concat(path).concat("): ").concat(e.as_str())),
        }
    }

    /// Writes `label_text(boxes)` to `label_file_path(output_dir, name)`; a failed
    /// write is reported with the file's path.
    pub fn write_labels(&self, name: &str, boxes: &Vec<OrientedBox>, output_dir: &str) -> (result: Result<(), String>)
        ensures
            exists|written: Result<(), Seq<char>>|
                self.filesystem().writes_text(
                    label_file_path(output_dir@, name@),
                    label_text(boxes@),
                    written,
                ) && unit_view(result) == #[trigger] label_outcome(label_file_path(output_dir@, name@), written),
    {
        let label = Self::label_text_for(boxes);
        let output_file = Self::label_path(output_dir, name);
        let written = self.filesystem.write_text(output_file.as_str(), label.as_str());
        let ghost answer = unit_view(written);
        let result = Self::write_result(output_file.as_str(), written);
        assert(unit_view(result) == label_outcome(label_file_path(output_dir@, name@), answer));
        result
    }
}

} // verus!
