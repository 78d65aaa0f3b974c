//! Locating the image of each manifest entry in a listing of the image tree,
//! and planning what the first stage of the pipeline does with each entry.

use vstd::prelude::*;
use vstd::string::*;
use crate::codec::{compact_text, write_compact};
use crate::each_view;
use crate::json::{Json, JsonView};
use crate::names::{file_stem, label_name_of, record_name, record_name_of, stem_of};
use crate::text::str_eq;

verus! {

/// One entry of the image tree, as a walk of the tree found it.
#[derive(Debug, PartialEq)]
pub struct FoundFile {
    /// The base name, without any directory.
    pub name: String,
    /// The path by which the entry can be opened.
    pub path: String,
    /// Whether the entry is a regular file.
    pub is_file: bool,
}

/// What the first stage does for an entry whose image was found.
#[derive(Debug, PartialEq)]
pub struct CopyTask {
    /// The position of the image in the listing.
    pub source: usize,
    /// The name of the copy in the image directory.
    pub image_name: String,
    /// The name of the intermediate record in the output root.
    pub record_name: String,
    /// The text of the intermediate record.
    pub record_text: String,
}

/// The mathematical value of a [`CopyTask`].
pub ghost struct CopyView {
    pub source: int,
    pub image_name: Seq<char>,
    pub record_name: Seq<char>,
    pub record_text: Seq<char>,
}

impl View for CopyTask {
    type V = CopyView;

    open spec fn view(&self) -> CopyView {
        CopyView {
            source: self.source as int,
            image_name: self.image_name@,
            record_name: self.record_name@,
            record_text: self.record_text@,
        }
    }
}

/// What the first stage does for one entry.
#[derive(Debug, PartialEq)]
pub enum EntryPlan {
    /// The image was found: copy it and write the intermediate record.
    Copy(CopyTask),
    /// No file of the listing has the entry's name: the name goes to the log
    /// of missing files, and nothing is written.
    Missing(String),
}

/// Whether `file` is the image called `filename`: a regular file of that base
/// name, wherever in the tree it lies.
pub open spec fn is_hit(file: FoundFile, filename: Seq<char>) -> bool {
    file.is_file && file.name@ == filename
}

/// The position of the first file of the listing that is the image called
/// `filename`.
pub open spec fn first_hit(listing: Seq<FoundFile>, filename: Seq<char>) -> Option<int>
    decreases listing.len(),
{
    if listing.len() == 0 {
        None
    } else {
        match first_hit(listing.drop_last(), filename) {
            Some(i) => Some(i),
            None => if is_hit(listing.last(), filename) {
                Some(listing.len() - 1)
            } else {
                None
            },
        }
    }
}

/// The name of a manifest entry: its member `name`, where that is a string.
pub open spec fn entry_name(entry: JsonView) -> Option<Seq<char>> {
    match entry.get("name"@) {
        Some(value) => value.as_text(),
        None => None,
    }
}

/// The copy that the first stage makes for an entry: `None` where the entry
/// has no name or no file of the listing has it. The image is copied under the
/// entry's name, and the entry is written, as `serde_json::to_string` writes
/// it, to the record named after the image's stem.
pub open spec fn copy_for(entry: JsonView, listing: Seq<FoundFile>) -> Option<CopyView> {
    match entry_name(entry) {
        Some(name) => match first_hit(listing, name) {
            Some(source) => Some(
                CopyView {
                    source,
                    image_name: name,
                    record_name: record_name_of(stem_of(name)),
                    record_text: compact_text(entry),
                },
            ),
            None => None,
        },
        None => None,
    }
}

/// The copies that the first stage makes for the entries of a manifest, in the
/// entries' order.
pub open spec fn copies_of(entries: Seq<JsonView>, listing: Seq<FoundFile>) -> Seq<CopyView> {
    entries.filter_map(|entry: JsonView| copy_for(entry, listing))
}

/// The names of the entries of a manifest, one for one.
pub open spec fn names_of(entries: Seq<JsonView>) -> Seq<Seq<char>> {
    Seq::new(entries.len(), |i: int| entry_name(entries[i]).unwrap_or(Seq::empty()))
}

/// The names that go to the log of missing files: those of `names` that no
/// file of the listing has, in their order.
pub open spec fn missing_names(names: Seq<Seq<char>>, listing: Seq<FoundFile>) -> Seq<Seq<char>> {
    names.filter(|name: Seq<char>| first_hit(listing, name) is None)
}

/// `first_hit` gives a hit, and the first one; it gives none only where
/// there is none.
pub proof fn lemma_first_hit(listing: Seq<FoundFile>, filename: Seq<char>)
    ensures
        match first_hit(listing, filename) {
            Some(i) => {
                &&& 0 <= i < listing.len()
                &&& is_hit(listing[i], filename)
                &&& forall|j: int| 0 <= j < i ==> !is_hit(listing[j], filename)
            },
            None => forall|j: int| 0 <= j < listing.len() ==> !is_hit(listing[j], filename),
        },
    decreases listing.len(),
{
    if listing.len() > 0 {
        let front = listing.drop_last();
        lemma_first_hit(front, filename);
        assert(forall|j: int| 0 <= j < front.len() ==> front[j] == listing[j]);
    }
}

/// Finds the image called `filename`: the position of the first regular file
/// of the listing with that base name, or `None` where there is none.
pub fn locate(listing: &Vec<FoundFile>, filename: &str) -> (hit: Option<usize>)
    ensures
        match hit {
            Some(i) => first_hit(listing@, filename@) == Some(i as int),
            None => first_hit(listing@, filename@) is None,
        },
{
    let mut i: usize = 0;
    while i < listing.len()
        invariant
            i <= listing.len(),
            first_hit(listing@.take(i as int), filename@) is None,
        decreases listing.len() - i,
    {
        let ghost next = listing@.take(i + 1);
        assert(next.drop_last() =~= listing@.take(i as int));
        if listing[i].is_file && str_eq(listing[i].name.as_str(), filename) {
            proof {
                lemma_first_hit_extends(listing@, filename@, i + 1);
            }
            return Some(i);
        }
        i = i + 1;
    }
    assert(listing@.take(i as int) =~= listing@);
    None
}

/// A hit among the first `n` files of a listing is the first hit of the whole
/// listing.
proof fn lemma_first_hit_extends(listing: Seq<FoundFile>, filename: Seq<char>, n: int)
    requires
        0 <= n <= listing.len(),
        first_hit(listing.take(n), filename) is Some,
    ensures
        first_hit(listing, filename) == first_hit(listing.take(n), filename),
    decreases listing.len() - n,
{
    if n < listing.len() {
        let next = listing.take(n + 1);
        assert(next.drop_last() =~= listing.take(n));
        lemma_first_hit_extends(listing, filename, n + 1);
    } else {
        assert(listing.take(n) =~= listing);
    }
}

/// The name of a manifest entry, or `None` where it has none.
pub fn name_of(entry: &Json) -> (name: Option<&str>)
    ensures
        match name {
            Some(s) => entry_name(entry@) == Some(s@),
            None => entry_name(entry@) is None,
        },
{
    match entry.get("name") {
        Some(value) => value.as_str(),
        None => None,
    }
}

/// Plans the first stage for one entry.
///
/// `None` exactly where the entry has no name. Otherwise the image is looked
/// for by the entry's name: where it is found, the plan is to copy it under
/// that name and to write the entry as the intermediate record named after
/// the image's stem; where it is not, the name is reported missing.
pub fn plan_entry(entry: &Json, listing: &Vec<FoundFile>) -> (plan: Option<EntryPlan>)
    ensures
        match plan {
            Some(EntryPlan::Copy(task)) => copy_for(entry@, listing@) == Some(task@),
            Some(EntryPlan::Missing(name)) => entry_name(entry@) == Some(name@) && first_hit(
                listing@,
                name@,
            ) is None,
            None => entry_name(entry@) is None,
        },
{
    match name_of(entry) {
        Some(name) => match locate(listing, name) {
            Some(source) => {
                let stem = file_stem(name);
                Some(
                    EntryPlan::Copy(
                        CopyTask {
                            source,
                            image_name: String::from_str(name),
                            record_name: record_name(stem.as_str()),
                            record_text: write_compact(entry),
                        },
                    ),
                )
            },
            None => Some(EntryPlan::Missing(String::from_str(name))),
        },
        None => None,
    }
}

/// The image of a planned copy is a regular file of the listing that has the
/// entry's name, and the copy goes by that same base name.
pub proof fn lemma_copy_keeps_name(entry: JsonView, listing: Seq<FoundFile>)
    ensures
        copy_for(entry, listing) matches Some(copy) ==> {
            &&& 0 <= copy.source < listing.len()
            &&& listing[copy.source].is_file
            &&& listing[copy.source].name@ == copy.image_name
            &&& entry_name(entry) == Some(copy.image_name)
        },
{
    if let Some(name) = entry_name(entry) {
        lemma_first_hit(listing, name);
    }
}

/// What the first stage does for a whole manifest.
#[derive(Debug, PartialEq)]
pub struct StagePlan {
    /// The copies to make, in the order of their entries.
    pub copies: Vec<CopyTask>,
    /// The log of missing files, in the order of their entries.
    pub missing: Vec<String>,
}

/// The log of names that go missing, with one more name gone through.
proof fn lemma_missing_push(names: Seq<Seq<char>>, name: Seq<char>, listing: Seq<FoundFile>)
    ensures
        missing_names(names.push(name), listing) == if first_hit(listing, name) is None {
            missing_names(names, listing).push(name)
        } else {
            missing_names(names, listing)
        },
{
    reveal(Seq::filter);
    assert(names.push(name).drop_last() =~= names);
}

/// Plans the first stage for every entry of a manifest.
///
/// Fails on the first entry without a name, with its position. Otherwise each
/// entry is in exactly one of the two lists: in `copies` where its image was
/// found, by its name in `missing` where it was not.
pub fn plan_stage(entries: &Vec<Json>, listing: &Vec<FoundFile>) -> (r: Result<StagePlan, usize>)
    ensures
        match r {
            Ok(plan) => {
                &&& forall|i: int| 0 <= i < entries.len() ==> entry_name(entries@[i]@) is Some
                &&& each_view(plan.copies@) == copies_of(each_view(entries@), listing@)
                &&& each_view(plan.missing@) == missing_names(
                    names_of(each_view(entries@)),
                    listing@,
                )
            },
            Err(i) => {
                &&& i < entries.len()
                &&& entry_name(entries@[i as int]@) is None
                &&& forall|j: int| 0 <= j < i ==> entry_name(entries@[j]@) is Some
            },
        },
{
    let ghost all = each_view(entries@);
    let ghost names = names_of(all);
    let mut copies: Vec<CopyTask> = Vec::new();
    let mut missing: Vec<String> = Vec::new();
    let mut i: usize = 0;
    proof {
        reveal(Seq::filter);
    }
    while i < entries.len()
        invariant
            i <= entries.len(),
            all == each_view(entries@),
            names == names_of(all),
            forall|j: int| 0 <= j < i ==> entry_name(entries@[j]@) is Some,
            each_view(copies@) == copies_of(all.take(i as int), listing@),
            each_view(missing@) == missing_names(names.take(i as int), listing@),
        decreases entries.len() - i,
    {
        proof {
            assert(all.take(i + 1).drop_last() =~= all.take(i as int));
            assert(names.take(i + 1) =~= names.take(i as int).push(names[i as int]));
            lemma_missing_push(names.take(i as int), names[i as int], listing@);
        }
        match plan_entry(&entries[i], listing) {
            Some(EntryPlan::Copy(task)) => {
                copies.push(task);
            },
            Some(EntryPlan::Missing(name)) => {
                missing.push(name);
            },
            None => {
                return Err(i);
            },
        }
        i = i + 1;
    }
    proof {
        assert(all.take(i as int) =~= all);
        assert(names.take(i as int) =~= names);
    }
    Ok(StagePlan { copies, missing })
}

/// Where no name occurs twice among the entries, none occurs twice in the log.
proof fn lemma_missing_no_duplicates(names: Seq<Seq<char>>, listing: Seq<FoundFile>)
    requires
        names.no_duplicates(),
    ensures
        missing_names(names, listing).no_duplicates(),
    decreases names.len(),
{
    reveal(Seq::filter);
    if names.len() > 0 {
        let front = names.drop_last();
        lemma_missing_no_duplicates(front, listing);
        lemma_missing_contains(front, listing);
        if missing_names(front, listing).contains(names.last()) {
            assert(front.contains(names.last()));
        }
    }
}

/// An entry whose image is not found is reported missing exactly once.
///
/// The names of a manifest are its keys: no two entries share one.
pub proof fn lemma_missing_reported_once(names: Seq<Seq<char>>, listing: Seq<FoundFile>, i: int)
    requires
        0 <= i < names.len(),
        first_hit(listing, names[i]) is None,
        names.no_duplicates(),
    ensures
        exists|k: int|
            {
                &&& 0 <= k < missing_names(names, listing).len()
                &&& #[trigger] missing_names(names, listing)[k] == names[i]
                &&& forall|m: int|
                    0 <= m < missing_names(names, listing).len() && missing_names(
                        names,
                        listing,
                    )[m] == names[i] ==> m == k
            },
{
    lemma_missing_no_duplicates(names, listing);
    lemma_missing_contains(names, listing);
    assert(missing_names(names, listing).contains(names[i]));
}

/// No label file is made under the stem of an entry whose image is not found:
/// every entry whose image is found has a label file of another name.
///
/// This needs the stems of the entries to differ, not only their names: two
/// images that differ in their extension alone share one label file.
pub proof fn lemma_missing_has_no_label_file(
    names: Seq<Seq<char>>,
    listing: Seq<FoundFile>,
    i: int,
    j: int,
)
    requires
        0 <= i < names.len(),
        0 <= j < names.len(),
        first_hit(listing, names[i]) is None,
        first_hit(listing, names[j]) is Some,
        forall|a: int, b: int|
            0 <= a < b < names.len() ==> stem_of(names[a]) != stem_of(names[b]),
    ensures
        label_name_of(stem_of(names[j])) != label_name_of(stem_of(names[i])),
{
    let found = stem_of(names[j]);
    let missing = stem_of(names[i]);
    let suffix = ".txt"@;
    assert(found != missing) by {
        if j < i {
            assert(stem_of(names[j]) != stem_of(names[i]));
        } else {
            assert(stem_of(names[i]) != stem_of(names[j]));
        }
    }
    if found + suffix == missing + suffix {
        assert((missing + suffix).len() == missing.len() + suffix.len());
        assert((found + suffix).take(found.len() as int) =~= found);
        assert((missing + suffix).take(missing.len() as int) =~= missing);
    }
}

/// The log of missing files, as a set, does not depend on the order in which
/// the entries are gone through, nor on how they are shared out: a name is in
/// it exactly where it is the name of an entry and no file has it, and the
/// log of two shares is the log of the one followed by the log of the other.
pub proof fn lemma_missing_any_order(a: Seq<Seq<char>>, b: Seq<Seq<char>>, listing: Seq<FoundFile>)
    ensures
        forall|name: Seq<char>|
            missing_names(a, listing).to_set().contains(name) <==> a.to_set().contains(name)
                && first_hit(listing, name) is None,
        a.to_set() == b.to_set() ==> missing_names(a, listing).to_set() == missing_names(
            b,
            listing,
        ).to_set(),
        missing_names(a + b, listing) == missing_names(a, listing) + missing_names(b, listing),
{
    lemma_missing_contains(a, listing);
    lemma_missing_contains(b, listing);
    lemma_missing_concat(a, b, listing);
    if a.to_set() == b.to_set() {
        let log_a = missing_names(a, listing);
        let log_b = missing_names(b, listing);
        assert forall|name: Seq<char>| log_a.contains(name) <==> log_b.contains(name) by {
            assert(a.to_set().contains(name) <==> b.to_set().contains(name));
        }
        assert(log_a.to_set() =~= log_b.to_set());
    }
}

/// The log of two shares of the entries, one after the other.
proof fn lemma_missing_concat(a: Seq<Seq<char>>, b: Seq<Seq<char>>, listing: Seq<FoundFile>)
    ensures
        missing_names(a + b, listing) == missing_names(a, listing) + missing_names(b, listing),
    decreases b.len(),
{
    reveal(Seq::filter);
    if b.len() > 0 {
        lemma_missing_concat(a, b.drop_last(), listing);
    }
}

/// A name is in the log exactly where it is the name of an entry and no file
/// has it.
proof fn lemma_missing_contains(names: Seq<Seq<char>>, listing: Seq<FoundFile>)
    ensures
        forall|name: Seq<char>| #[trigger]
            missing_names(names, listing).contains(name) ==> names.contains(name) && first_hit(
                listing,
                name,
            ) is None,
        forall|name: Seq<char>| #[trigger]
            names.contains(name) && first_hit(listing, name) is None ==> missing_names(
                names,
                listing,
            ).contains(name),
    decreases names.len(),
{
    reveal(Seq::filter);
    let log = missing_names(names, listing);
    if names.len() > 0 {
        let front = names.drop_last();
        lemma_missing_contains(front, listing);
        let front_log = missing_names(front, listing);
        assert forall|name: Seq<char>| #[trigger] log.contains(name) implies names.contains(name)
            && first_hit(listing, name) is None by {
            let k = choose|k: int| 0 <= k < log.len() && log[k] == name;
            if k < front_log.len() {
                assert(front.contains(name));
            }
        }
        assert forall|name: Seq<char>| #[trigger]
            names.contains(name) && first_hit(listing, name) is None implies log.contains(name) by {
            let m = choose|m: int| 0 <= m < names.len() && names[m] == name;
            if m < front.len() {
                assert(front[m] == name);
                assert(front.contains(name));
                assert(front_log.contains(name));
            } else {
                assert(log[log.len() - 1] == name);
            }
        }
    }
}

} // verus!
