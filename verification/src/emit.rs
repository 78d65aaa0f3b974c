//! The label file of one image: one line per box of the filtered record, with
//! the class id and the normalized geometry of the box.
//!
//! The geometry is computed by the caller, in floating point, from the corners
//! that [`box_tasks`] hands out; this module decides which boxes are written,
//! under which class id, and lays out the text.

use vstd::prelude::*;
use vstd::string::*;
use crate::categories::{class_of, lemma_class_of, Vocabulary};
use crate::each_view;
use crate::filter::{filtered, kept_labels, label_category, labels_of, lemma_filtered_labels};
use crate::json::{Json, JsonView};

verus! {

/// The width, in pixels, of every image of the data set: the denominator of
/// the horizontal coordinates.
pub const IMAGE_WIDTH: u32 = 1280;

/// The height, in pixels, of every image of the data set: the denominator of
/// the vertical coordinates.
pub const IMAGE_HEIGHT: u32 = 720;

/// What keeps a label from being written as a box.
#[derive(Clone, Copy, Debug, PartialEq, Eq, Structural)]
pub enum Defect {
    /// The label has no category.
    NoCategory,
    /// The category of the label has no class id.
    UnknownCategory,
    /// One of the four corners `x1`, `y1`, `x2`, `y2` of `box2d` is missing or
    /// is not a number.
    NoBox,
}

/// The first label of a record that cannot be written, and why.
#[derive(Clone, Copy, Debug, PartialEq, Eq, Structural)]
pub struct EmitError {
    /// The position of the label among the labels of the record.
    pub label: usize,
    pub defect: Defect,
}

/// One box to write: its class id and its corners, in pixels.
#[derive(Debug)]
pub struct BoxTask<'a> {
    pub class_id: usize,
    pub x1: &'a serde_json::Number,
    pub y1: &'a serde_json::Number,
    pub x2: &'a serde_json::Number,
    pub y2: &'a serde_json::Number,
}

/// The mathematical value of a [`BoxTask`].
pub ghost struct TaskView {
    pub class_id: nat,
    pub x1: serde_json::Number,
    pub y1: serde_json::Number,
    pub x2: serde_json::Number,
    pub y2: serde_json::Number,
}

impl<'a> View for BoxTask<'a> {
    type V = TaskView;

    open spec fn view(&self) -> TaskView {
        TaskView {
            class_id: self.class_id as nat,
            x1: *self.x1,
            y1: *self.y1,
            x2: *self.x2,
            y2: *self.y2,
        }
    }
}

/// The normalized geometry of one box, each number in its decimal text.
#[derive(Debug, PartialEq)]
pub struct NormalizedBox {
    pub center_x: String,
    pub center_y: String,
    pub width: String,
    pub height: String,
}

/// The mathematical value of a [`NormalizedBox`].
pub ghost struct GeometryView {
    pub center_x: Seq<char>,
    pub center_y: Seq<char>,
    pub width: Seq<char>,
    pub height: Seq<char>,
}

impl View for NormalizedBox {
    type V = GeometryView;

    open spec fn view(&self) -> GeometryView {
        GeometryView {
            center_x: self.center_x@,
            center_y: self.center_y@,
            width: self.width@,
            height: self.height@,
        }
    }
}

/// One corner of the box of a label: the member `key` of its member `box2d`,
/// where that is a number.
pub open spec fn corner_of(label: JsonView, key: Seq<char>) -> Option<serde_json::Number> {
    match label.get("box2d"@) {
        Some(frame) => match frame.get(key) {
            Some(JsonView::Number(n)) => Some(n),
            _ => None,
        },
        None => None,
    }
}

/// The box to write for a label, or what keeps it from being written. The
/// category is looked at first, then its class id, then the corners.
pub open spec fn task_for(vocabulary: Seq<Seq<char>>, label: JsonView) -> Result<TaskView, Defect> {
    match label_category(label) {
        None => Err(Defect::NoCategory),
        Some(category) => match class_of(vocabulary, category) {
            None => Err(Defect::UnknownCategory),
            Some(class_id) => match (
                corner_of(label, "x1"@),
                corner_of(label, "y1"@),
                corner_of(label, "x2"@),
                corner_of(label, "y2"@),
            ) {
                (Some(x1), Some(y1), Some(x2), Some(y2)) => Ok(
                    TaskView { class_id: class_id as nat, x1, y1, x2, y2 },
                ),
                _ => Err(Defect::NoBox),
            },
        },
    }
}

/// One corner of the box of a label.
fn corner<'a>(label: &'a Json, key: &str) -> (found: Option<&'a serde_json::Number>)
    ensures
        match found {
            Some(n) => corner_of(label@, key@) == Some(*n),
            None => corner_of(label@, key@) is None,
        },
{
    match label.get("box2d") {
        Some(frame) => match frame.get(key) {
            Some(Json::Number(n)) => Some(n),
            _ => None,
        },
        None => None,
    }
}

/// The box to write for one label.
pub fn box_task<'a>(vocabulary: &Vocabulary, label: &'a Json) -> (r: Result<BoxTask<'a>, Defect>)
    ensures
        match r {
            Ok(task) => task_for(vocabulary@, label@) == Ok::<TaskView, Defect>(task@),
            Err(defect) => task_for(vocabulary@, label@) == Err::<TaskView, Defect>(defect),
        },
{
    let category = match label.get("category") {
        Some(value) => match value.as_str() {
            Some(category) => category,
            None => {
                return Err(Defect::NoCategory);
            },
        },
        None => {
            return Err(Defect::NoCategory);
        },
    };
    let class_id = match vocabulary.class_index(category) {
        Some(id) => id,
        None => {
            return Err(Defect::UnknownCategory);
        },
    };
    match (corner(label, "x1"), corner(label, "y1"), corner(label, "x2"), corner(label, "y2")) {
        (Some(x1), Some(y1), Some(x2), Some(y2)) => Ok(BoxTask { class_id, x1, y1, x2, y2 }),
        _ => Err(Defect::NoBox),
    }
}

/// The boxes to write for a record, one per label and in the labels' order.
///
/// Fails on the first label that cannot be written. A record without an array
/// of labels has no box.
pub fn box_tasks<'a>(vocabulary: &Vocabulary, entry: &'a Json) -> (r: Result<
    Vec<BoxTask<'a>>,
    EmitError,
>)
    ensures
        match r {
            Ok(tasks) => {
                &&& tasks.len() == labels_of(entry@).len()
                &&& forall|i: int|
                    0 <= i < tasks.len() ==> task_for(vocabulary@, labels_of(entry@)[i]) == Ok::<
                        TaskView,
                        Defect,
                    >(#[trigger] tasks@[i]@)
            },
            Err(e) => {
                &&& e.label < labels_of(entry@).len()
                &&& task_for(vocabulary@, labels_of(entry@)[e.label as int]) == Err::<
                    TaskView,
                    Defect,
                >(e.defect)
                &&& forall|j: int|
                    0 <= j < e.label ==> task_for(vocabulary@, labels_of(entry@)[j]) is Ok
            },
        },
{
    let mut tasks: Vec<BoxTask<'a>> = Vec::new();
    let labels: &Vec<Json> = match entry.get("labels") {
        Some(value) => match value.as_array() {
            Some(items) => items,
            None => {
                return Ok(tasks);
            },
        },
        None => {
            return Ok(tasks);
        },
    };
    let ghost all = labels_of(entry@);
    let mut i: usize = 0;
    while i < labels.len()
        invariant
            i <= labels.len(),
            all == labels_of(entry@),
            all == each_view(labels@),
            tasks.len() == i,
            forall|k: int| 0 <= k < i ==> task_for(vocabulary@, all[k]) is Ok,
            forall|k: int|
                0 <= k < i ==> task_for(vocabulary@, all[k]) == Ok::<TaskView, Defect>(
                    #[trigger] tasks@[k]@,
                ),
        decreases labels.len() - i,
    {
        match box_task(vocabulary, &labels[i]) {
            Ok(task) => {
                tasks.push(task);
            },
            Err(defect) => {
                return Err(EmitError { label: i, defect });
            },
        }
        i = i + 1;
    }
    Ok(tasks)
}

/// The decimal digit of a number below ten.
pub open spec fn digit(d: nat) -> char {
    if d == 0 {
        '0'
    } else if d == 1 {
        '1'
    } else if d == 2 {
        '2'
    } else if d == 3 {
        '3'
    } else if d == 4 {
        '4'
    } else if d == 5 {
        '5'
    } else if d == 6 {
        '6'
    } else if d == 7 {
        '7'
    } else if d == 8 {
        '8'
    } else {
        '9'
    }
}

/// A number in decimal, without leading zeros.
pub open spec fn decimal(n: nat) -> Seq<char>
    decreases n,
{
    if n < 10 {
        seq![digit(n)]
    } else {
        decimal(n / 10).push(digit(n % 10))
    }
}

/// Whether `text` can stand as one field of a line: it is not empty and holds
/// neither a space, which parts the fields, nor a line feed, which parts the
/// lines.
pub open spec fn token(text: Seq<char>) -> bool {
    text.len() > 0 && forall|i: int| 0 <= i < text.len() ==> text[i] != ' ' && text[i] != '\n'
}

/// Whether each of the four numbers can stand as a field of a line.
pub open spec fn well_formed(geometry: GeometryView) -> bool {
    &&& token(geometry.center_x)
    &&& token(geometry.center_y)
    &&& token(geometry.width)
    &&& token(geometry.height)
}

/// The line of one box: class id, centre, width and height, parted by single
/// spaces.
pub open spec fn line_of(class_id: nat, geometry: GeometryView) -> Seq<char> {
    decimal(class_id) + seq![' '] + geometry.center_x + seq![' '] + geometry.center_y
        + seq![' '] + geometry.width + seq![' '] + geometry.height
}

/// The lines of the boxes of one image, one for one.
pub open spec fn lines_of(tasks: Seq<TaskView>, geometry: Seq<GeometryView>) -> Seq<Seq<char>> {
    Seq::new(tasks.len(), |i: int| line_of(tasks[i].class_id, geometry[i]))
}

/// The text of a file of these lines: each line, in its order, followed by a
/// line feed.
pub open spec fn file_text(lines: Seq<Seq<char>>) -> Seq<char>
    decreases lines.len(),
{
    if lines.len() == 0 {
        Seq::empty()
    } else {
        file_text(lines.drop_last()) + lines.last() + seq!['\n']
    }
}

/// How many lines a text holds: the number of its line feeds.
pub open spec fn line_count(text: Seq<char>) -> nat
    decreases text.len(),
{
    if text.len() == 0 {
        0
    } else if text.last() == '\n' {
        line_count(text.drop_last()) + 1
    } else {
        line_count(text.drop_last())
    }
}

/// The text of one decimal digit.
fn digit_text(d: u8) -> (text: &'static str)
    requires
        d < 10,
    ensures
        text@ == seq![digit(d as nat)],
{
    proof {
        reveal_strlit("0");
        reveal_strlit("1");
        reveal_strlit("2");
        reveal_strlit("3");
        reveal_strlit("4");
        reveal_strlit("5");
        reveal_strlit("6");
        reveal_strlit("7");
        reveal_strlit("8");
        reveal_strlit("9");
    }
    if d == 0 {
        "0"
    } else if d == 1 {
        "1"
    } else if d == 2 {
        "2"
    } else if d == 3 {
        "3"
    } else if d == 4 {
        "4"
    } else if d == 5 {
        "5"
    } else if d == 6 {
        "6"
    } else if d == 7 {
        "7"
    } else if d == 8 {
        "8"
    } else {
        "9"
    }
}

/// A class id in decimal.
pub fn class_text(class_id: usize) -> (text: String)
    ensures
        text@ == decimal(class_id as nat),
    decreases class_id,
{
    if class_id < 10 {
        String::from_str(digit_text(class_id as u8))
    } else {
        let mut text = class_text(class_id / 10);
        text.append(digit_text((class_id % 10) as u8));
        text
    }
}

/// Whether a text can stand as one field of a line.
pub fn is_token(text: &str) -> (yes: bool)
    ensures
        yes == token(text@),
{
    let len = text.unicode_len();
    if len == 0 {
        return false;
    }
    let mut i: usize = 0;
    while i < len
        invariant
            i <= len,
            len == text@.len(),
            forall|k: int| 0 <= k < i ==> text@[k] != ' ' && text@[k] != '\n',
        decreases len - i,
    {
        let c = text.get_char(i);
        if c == ' ' || c == '\n' {
            return false;
        }
        i = i + 1;
    }
    true
}

impl NormalizedBox {
    /// Whether each of the four numbers can stand as a field of a line.
    pub fn is_well_formed(&self) -> (yes: bool)
        ensures
            yes == well_formed(self@),
    {
        is_token(self.center_x.as_str()) && is_token(self.center_y.as_str()) && is_token(
            self.width.as_str(),
        ) && is_token(self.height.as_str())
    }
}

/// The line of one box.
pub fn label_line(class_id: usize, geometry: &NormalizedBox) -> (line: String)
    ensures
        line@ == line_of(class_id as nat, geometry@),
{
    proof {
        reveal_strlit(" ");
    }
    let mut line = class_text(class_id);
    line.append(" ");
    line.append(geometry.center_x.as_str());
    line.append(" ");
    line.append(geometry.center_y.as_str());
    line.append(" ");
    line.append(geometry.width.as_str());
    line.append(" ");
    line.append(geometry.height.as_str());
    line
}

/// The text of the label file of one image: the line of each box, in the
/// boxes' order, each followed by a line feed.
///
/// `geometry` holds the normalized geometry of each box of `tasks`, in the
/// same order. `None` where the two differ in length, and where one of the
/// numbers could not stand as a field.
pub fn label_file_text(tasks: &Vec<BoxTask>, geometry: &Vec<NormalizedBox>) -> (text: Option<
    String,
>)
    ensures
        match text {
            Some(t) => {
                &&& tasks.len() == geometry.len()
                &&& forall|i: int| 0 <= i < geometry.len() ==> well_formed(geometry@[i]@)
                &&& t@ == file_text(lines_of(each_view(tasks@), each_view(geometry@)))
            },
            None => tasks.len() != geometry.len() || exists|i: int|
                0 <= i < geometry.len() && !well_formed(geometry@[i]@),
        },
{
    if tasks.len() != geometry.len() {
        return None;
    }
    let ghost lines = lines_of(each_view(tasks@), each_view(geometry@));
    let mut text = String::new();
    let mut i: usize = 0;
    proof {
        reveal_strlit("\n");
    }
    while i < tasks.len()
        invariant
            i <= tasks.len(),
            tasks.len() == geometry.len(),
            lines == lines_of(each_view(tasks@), each_view(geometry@)),
            "\n"@ == seq!['\n'],
            forall|k: int| 0 <= k < i ==> well_formed(geometry@[k]@),
            text@ == file_text(lines.take(i as int)),
        decreases tasks.len() - i,
    {
        if !geometry[i].is_well_formed() {
            return None;
        }
        let line = label_line(tasks[i].class_id, &geometry[i]);
        proof {
            assert(lines.take(i + 1).drop_last() =~= lines.take(i as int));
        }
        text.append(line.as_str());
        text.append("\n");
        i = i + 1;
    }
    proof {
        assert(lines.take(i as int) =~= lines);
    }
    Some(text)
}

/// The digits of a number hold no line feed.
proof fn lemma_decimal_one_line(n: nat)
    ensures
        forall|i: int| 0 <= i < decimal(n).len() ==> decimal(n)[i] != '\n',
    decreases n,
{
    if n >= 10 {
        lemma_decimal_one_line(n / 10);
    }
    assert forall|i: int| 0 <= i < decimal(n).len() implies decimal(n)[i] != '\n' by {
        if n >= 10 && i < decimal(n).len() - 1 {
            assert(decimal(n)[i] == decimal(n / 10)[i]);
        }
    }
}

/// A text without line feeds counts no line.
proof fn lemma_no_feed(text: Seq<char>)
    requires
        forall|i: int| 0 <= i < text.len() ==> text[i] != '\n',
    ensures
        line_count(text) == 0,
    decreases text.len(),
{
    if text.len() > 0 {
        lemma_no_feed(text.drop_last());
    }
}

/// The lines of two texts, one after the other, add up.
proof fn lemma_count_concat(a: Seq<char>, b: Seq<char>)
    ensures
        line_count(a + b) == line_count(a) + line_count(b),
    decreases b.len(),
{
    if b.len() > 0 {
        lemma_count_concat(a, b.drop_last());
        assert((a + b).drop_last() =~= a + b.drop_last());
    }
}

/// A label file holds exactly one line per box.
pub proof fn lemma_one_line_per_box(tasks: Seq<TaskView>, geometry: Seq<GeometryView>)
    requires
        tasks.len() == geometry.len(),
        forall|i: int| 0 <= i < geometry.len() ==> well_formed(geometry[i]),
    ensures
        line_count(file_text(lines_of(tasks, geometry))) == tasks.len(),
    decreases tasks.len(),
{
    let lines = lines_of(tasks, geometry);
    if tasks.len() > 0 {
        let front = lines_of(tasks.drop_last(), geometry.drop_last());
        lemma_one_line_per_box(tasks.drop_last(), geometry.drop_last());
        assert(lines.drop_last() =~= front);
        let last = lines.last();
        assert forall|i: int| 0 <= i < last.len() implies last[i] != '\n' by {
            lemma_decimal_one_line(tasks.last().class_id);
        }
        lemma_no_feed(last);
        lemma_count_concat(file_text(front), last);
        lemma_count_concat(file_text(front) + last, seq!['\n']);
        assert(line_count(seq!['\n'].drop_last()) == 0);
    }
}

/// The label file of a filtered record holds exactly one line for each label
/// of the record whose category is in the allow-list, and the filter leaves no
/// label without a class id: where a filtered record cannot be written, a box
/// is missing.
pub proof fn lemma_lines_match_kept_labels(
    vocabulary: Seq<Seq<char>>,
    entry: JsonView,
    tasks: Seq<TaskView>,
    geometry: Seq<GeometryView>,
)
    requires
        tasks.len() == labels_of(filtered(vocabulary, entry)).len(),
        tasks.len() == geometry.len(),
        forall|i: int| 0 <= i < geometry.len() ==> well_formed(geometry[i]),
    ensures
        line_count(file_text(lines_of(tasks, geometry))) == kept_labels(
            vocabulary,
            labels_of(entry),
        ).len(),
        forall|i: int|
            0 <= i < tasks.len() ==> task_for(
                vocabulary,
                #[trigger] labels_of(filtered(vocabulary, entry))[i],
            ) != Err::<TaskView, Defect>(Defect::NoCategory) && task_for(
                vocabulary,
                labels_of(filtered(vocabulary, entry))[i],
            ) != Err::<TaskView, Defect>(Defect::UnknownCategory),
{
    lemma_filtered_labels(vocabulary, entry);
    lemma_one_line_per_box(tasks, geometry);
    let labels = labels_of(filtered(vocabulary, entry));
    assert forall|i: int| 0 <= i < tasks.len() implies task_for(vocabulary, #[trigger] labels[i])
        != Err::<TaskView, Defect>(Defect::NoCategory) && task_for(vocabulary, labels[i]) != Err::<
        TaskView,
        Defect,
    >(Defect::UnknownCategory) by {
        lemma_class_of(vocabulary, label_category(labels[i])->0);
    }
}

} // verus!
