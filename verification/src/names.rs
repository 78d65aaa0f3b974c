//! File names of the pipeline: the stem of an image's name, and the names of
//! the intermediate record and of the label file that belong to it.

use vstd::prelude::*;
use vstd::string::*;
use crate::text::str_eq;

verus! {

/// The position of the last `.` in `name`, or -1 where it has none.
pub open spec fn last_dot(name: Seq<char>) -> int
    decreases name.len(),
{
    if name.len() == 0 {
        -1
    } else if name.last() == '.' {
        name.len() - 1
    } else {
        last_dot(name.drop_last())
    }
}

/// The stem of a file's base name: what stands before its last `.`, and the
/// whole name where it has no `.` or only the one that it begins with.
pub open spec fn stem_of(name: Seq<char>) -> Seq<char> {
    if last_dot(name) <= 0 {
        name
    } else {
        name.take(last_dot(name))
    }
}

/// The extension of a file's base name: what stands behind its last `.`,
/// where there is a stem before it.
pub open spec fn extension_of(name: Seq<char>) -> Option<Seq<char>> {
    if last_dot(name) <= 0 {
        None
    } else {
        Some(name.skip(last_dot(name) + 1))
    }
}

/// The name of the intermediate record of the image with this stem.
pub open spec fn record_name_of(stem: Seq<char>) -> Seq<char> {
    stem + ".json"@
}

/// The name of the label file of the image with this stem.
pub open spec fn label_name_of(stem: Seq<char>) -> Seq<char> {
    stem + ".txt"@
}

/// What `last_dot` says of a name: the place it gives holds a `.`, and no
/// later place does.
pub proof fn lemma_last_dot(name: Seq<char>)
    ensures
        -1 <= last_dot(name) < name.len(),
        last_dot(name) >= 0 ==> name[last_dot(name)] == '.',
        forall|i: int| last_dot(name) < i < name.len() ==> name[i] != '.',
    decreases name.len(),
{
    if name.len() > 0 && name.last() != '.' {
        lemma_last_dot(name.drop_last());
        assert forall|i: int| last_dot(name) < i < name.len() implies name[i] != '.' by {
            if i < name.len() - 1 {
                assert(name.drop_last()[i] == name[i]);
            }
        }
    }
}

/// The position of the last `.` in `name`, or `None` where it has none.
fn find_last_dot(name: &str) -> (dot: Option<usize>)
    ensures
        match dot {
            Some(i) => i == last_dot(name@),
            None => last_dot(name@) == -1,
        },
{
    let mut i: usize = name.unicode_len();
    assert(name@.take(i as int) =~= name@);
    while i > 0
        invariant
            i <= name@.len(),
            last_dot(name@) == last_dot(name@.take(i as int)),
        decreases i,
    {
        let ghost prefix = name@.take(i as int);
        assert(prefix.drop_last() == name@.take(i - 1));
        i = i - 1;
        if name.get_char(i) == '.' {
            return Some(i);
        }
    }
    None
}

/// The stem of a file's base name.
///
/// `"a.jpg"` gives `"a"`, `"a.b.jpg"` gives `"a.b"`, `"a"` gives `"a"` and
/// `".hidden"` gives `".hidden"`.
pub fn file_stem(name: &str) -> (stem: String)
    ensures
        stem@ == stem_of(name@),
{
    proof {
        lemma_last_dot(name@);
    }
    match find_last_dot(name) {
        Some(dot) => {
            if dot == 0 {
                String::from_str(name)
            } else {
                String::from_str(name.substring_char(0, dot))
            }
        },
        None => String::from_str(name),
    }
}

/// The name of the intermediate record of the image with this stem.
pub fn record_name(stem: &str) -> (name: String)
    ensures
        name@ == record_name_of(stem@),
{
    let mut name = String::from_str(stem);
    name.append(".json");
    name
}

/// The name of the label file of the image with this stem.
pub fn label_name(stem: &str) -> (name: String)
    ensures
        name@ == label_name_of(stem@),
{
    let mut name = String::from_str(stem);
    name.append(".txt");
    name
}

/// The stem of an intermediate record's name: `Some` exactly where the name
/// has the extension `json`, and then what stands before it.
pub fn record_stem(name: &str) -> (stem: Option<String>)
    ensures
        match stem {
            Some(s) => extension_of(name@) == Some("json"@) && s@ == stem_of(name@),
            None => extension_of(name@) != Some("json"@),
        },
{
    proof {
        lemma_last_dot(name@);
    }
    match find_last_dot(name) {
        Some(dot) => {
            if dot == 0 {
                None
            } else {
                let len = name.unicode_len();
                let extension = name.substring_char(dot + 1, len);
                if str_eq(extension, "json") {
                    Some(String::from_str(name.substring_char(0, dot)))
                } else {
                    None
                }
            }
        },
        None => None,
    }
}

/// A record's name leads back to the stem that it was made from, so long as
/// the stem is not empty: the stem of `stem + ".json"` is `stem`, and its
/// extension is `json`.
pub proof fn lemma_record_name_stem(stem: Seq<char>)
    requires
        stem.len() > 0,
    ensures
        stem_of(record_name_of(stem)) == stem,
        extension_of(record_name_of(stem)) == Some("json"@),
{
    reveal_strlit(".json");
    reveal_strlit("json");
    let name = record_name_of(stem);
    let n = stem.len() as int;
    let a = name.drop_last();
    let b = a.drop_last();
    let c = b.drop_last();
    let d = c.drop_last();
    assert(last_dot(d) == n);
    assert(last_dot(c) == n);
    assert(last_dot(b) == n);
    assert(last_dot(a) == n);
}

} // verus!
