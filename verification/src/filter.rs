//! The category filter: a record keeps the labels whose category is in the
//! allow-list, in their order, and loses the others.

use vstd::prelude::*;
use crate::categories::{allowed, Vocabulary};
use crate::codec::{parsed, pretty_text, read_document, write_pretty};
use crate::each_view;
use crate::json::{lookup, Json, JsonView, Member};
use crate::locate::entry_name;
use crate::text::str_eq;

verus! {

/// The category of a label: its member `category`, where that is a string.
pub open spec fn label_category(label: JsonView) -> Option<Seq<char>> {
    match label.get("category"@) {
        Some(value) => value.as_text(),
        None => None,
    }
}

/// Whether the filter keeps a label: it has a category, and the category is in
/// the allow-list.
pub open spec fn keeps(vocabulary: Seq<Seq<char>>, label: JsonView) -> bool {
    match label_category(label) {
        Some(category) => allowed(vocabulary, category),
        None => false,
    }
}

/// The labels that the filter keeps, in their order.
pub open spec fn kept_labels(vocabulary: Seq<Seq<char>>, labels: Seq<JsonView>) -> Seq<JsonView> {
    labels.filter(|label: JsonView| keeps(vocabulary, label))
}

/// What the filter makes of one member of a record: an array named `labels`
/// keeps the labels that pass, anything else stays as it is.
pub open spec fn filtered_member(vocabulary: Seq<Seq<char>>, member: (Seq<char>, JsonView)) -> (
    Seq<char>,
    JsonView,
) {
    match member.1 {
        JsonView::Array(labels) if member.0 == "labels"@ => (
            member.0,
            JsonView::Array(kept_labels(vocabulary, labels)),
        ),
        _ => member,
    }
}

/// What the filter makes of a record. A record that is not an object stays as
/// it is.
pub open spec fn filtered(vocabulary: Seq<Seq<char>>, entry: JsonView) -> JsonView {
    match entry {
        JsonView::Object(members) => JsonView::Object(
            Seq::new(members.len(), |i: int| filtered_member(vocabulary, members[i])),
        ),
        _ => entry,
    }
}

/// The labels of a record: the elements of its member `labels`, and none
/// where the record has no such array.
pub open spec fn labels_of(entry: JsonView) -> Seq<JsonView> {
    match entry.get("labels"@) {
        Some(JsonView::Array(labels)) => labels,
        _ => Seq::empty(),
    }
}

/// Filtering a list with one more label at its end.
proof fn lemma_kept_push(vocabulary: Seq<Seq<char>>, labels: Seq<JsonView>, label: JsonView)
    ensures
        kept_labels(vocabulary, labels.push(label)) == if keeps(vocabulary, label) {
            kept_labels(vocabulary, labels).push(label)
        } else {
            kept_labels(vocabulary, labels)
        },
{
    reveal(Seq::filter);
    assert(labels.push(label).drop_last() =~= labels);
}

/// Whether the filter keeps this label.
pub fn keeps_label(vocabulary: &Vocabulary, label: &Json) -> (keep: bool)
    ensures
        keep == keeps(vocabulary@, label@),
{
    match label.get("category") {
        Some(value) => match value.as_str() {
            Some(category) => vocabulary.is_allowed(category),
            None => false,
        },
        None => false,
    }
}

/// Drops the labels that the filter does not keep.
pub fn filter_labels(vocabulary: &Vocabulary, labels: Vec<Json>) -> (kept: Vec<Json>)
    ensures
        each_view(kept@) == kept_labels(vocabulary@, each_view(labels@)),
{
    let ghost all = labels@;
    let mut kept: Vec<Json> = Vec::new();
    proof {
        reveal(Seq::filter);
    }
    for label in it: labels
        invariant
            it.seq() == all,
            each_view(kept@) == kept_labels(vocabulary@, each_view(all.take(it.index() as int))),
    {
        proof {
            let done = all.take(it.index() as int);
            lemma_kept_push(vocabulary@, each_view(done), label@);
            assert(each_view(all.take(it.index() + 1)) =~= each_view(done).push(label@));
        }
        if keeps_label(vocabulary, &label) {
            kept.push(label);
        }
    }
    proof {
        assert(all.take(all.len() as int) =~= all);
    }
    kept
}

/// Applies the category filter to one record.
///
/// Every member of the record stays in its place; an array named `labels`
/// keeps exactly the labels whose category is in the allow-list.
pub fn filter_entry(vocabulary: &Vocabulary, entry: Json) -> (out: Json)
    ensures
        out@ == filtered(vocabulary@, entry@),
{
    match entry {
        Json::Object(members) => {
            let ghost all = members@;
            let ghost before = entry@->Object_0;
            let mut out: Vec<Member> = Vec::new();
            for member in it: members
                invariant
                    it.seq() == all,
                    before.len() == all.len(),
                    forall|k: int|
                        0 <= k < all.len() ==> before[k] == (all[k].name@, all[k].value@),
                    out@.len() == it.index(),
                    forall|k: int|
                        0 <= k < it.index() ==> (out@[k].name@, out@[k].value@) == filtered_member(
                            vocabulary@,
                            before[k],
                        ),
            {
                let Member { name, value } = member;
                let is_labels = str_eq(name.as_str(), "labels");
                let value = match value {
                    Json::Array(labels) => {
                        if is_labels {
                            let ghost old_labels = labels@;
                            assert(value@->Array_0 =~= each_view(old_labels));
                            let kept = filter_labels(vocabulary, labels);
                            let fresh = Json::Array(kept);
                            assert(fresh@->Array_0 =~= each_view(kept@));
                            fresh
                        } else {
                            Json::Array(labels)
                        }
                    },
                    other => other,
                };
                out.push(Member { name, value });
            }
            let fresh = Json::Object(out);
            assert(fresh@->Object_0 =~= filtered(vocabulary@, entry@)->Object_0);
            fresh
        },
        other => other,
    }
}

/// Applies the category filter to the text of one intermediate record and
/// gives the text to write in its place, pretty-printed.
///
/// `None` exactly where the text is not JSON: such a record is left as it is.
pub fn filter_record(vocabulary: &Vocabulary, text: &str) -> (out: Option<String>)
    ensures
        match parsed(text@) {
            Some(entry) => out is Some && out->0@ == pretty_text(filtered(vocabulary@, entry)),
            None => out is None,
        },
{
    match read_document(text) {
        Some(entry) => {
            let kept = filter_entry(vocabulary, entry);
            Some(write_pretty(&kept))
        },
        None => None,
    }
}

/// Every label of a list that the filter has been through passes the filter,
/// and a list of which every label passes is left as it is.
pub proof fn lemma_kept_labels(vocabulary: Seq<Seq<char>>, labels: Seq<JsonView>)
    ensures
        forall|i: int|
            0 <= i < kept_labels(vocabulary, labels).len() ==> keeps(
                vocabulary,
                #[trigger] kept_labels(vocabulary, labels)[i],
            ),
        (forall|i: int| 0 <= i < labels.len() ==> keeps(vocabulary, #[trigger] labels[i]))
            ==> kept_labels(vocabulary, labels) == labels,
    decreases labels.len(),
{
    reveal(Seq::filter);
    if labels.len() > 0 {
        lemma_kept_labels(vocabulary, labels.drop_last());
        if forall|i: int| 0 <= i < labels.len() ==> keeps(vocabulary, #[trigger] labels[i]) {
            assert forall|i: int| 0 <= i < labels.drop_last().len() implies keeps(
                vocabulary,
                #[trigger] labels.drop_last()[i],
            ) by {}
        }
    }
}

/// Filtering is idempotent: a record that the filter has been through is left
/// as it is by the filter.
pub proof fn lemma_filter_idempotent(vocabulary: Seq<Seq<char>>, entry: JsonView)
    ensures
        filtered(vocabulary, filtered(vocabulary, entry)) == filtered(vocabulary, entry),
{
    match entry {
        JsonView::Object(members) => {
            let once = filtered(vocabulary, entry)->Object_0;
            let twice = filtered(vocabulary, filtered(vocabulary, entry))->Object_0;
            assert forall|i: int| 0 <= i < members.len() implies twice[i] == once[i] by {
                match members[i].1 {
                    JsonView::Array(labels) => {
                        lemma_kept_labels(vocabulary, labels);
                        lemma_kept_labels(vocabulary, kept_labels(vocabulary, labels));
                    },
                    _ => {},
                }
            }
            assert(twice =~= once);
        },
        _ => {},
    }
}

/// The members of a filtered record, looked up by name.
proof fn lemma_lookup_filtered(
    vocabulary: Seq<Seq<char>>,
    members: Seq<(Seq<char>, JsonView)>,
    key: Seq<char>,
)
    ensures
        lookup(Seq::new(members.len(), |i: int| filtered_member(vocabulary, members[i])), key)
            == match lookup(members, key) {
            Some(value) => Some(filtered_member(vocabulary, (key, value)).1),
            None => None,
        },
    decreases members.len(),
{
    let after = Seq::new(members.len(), |i: int| filtered_member(vocabulary, members[i]));
    if members.len() > 0 {
        let rest = members.drop_last();
        lemma_lookup_filtered(vocabulary, rest, key);
        assert(after.drop_last() =~= Seq::new(
            rest.len(),
            |i: int| filtered_member(vocabulary, rest[i]),
        ));
    }
}

/// The filter leaves the name of a record as it is.
pub proof fn lemma_filter_keeps_name(vocabulary: Seq<Seq<char>>, entry: JsonView)
    ensures
        entry_name(filtered(vocabulary, entry)) == entry_name(entry),
{
    reveal_strlit("name");
    reveal_strlit("labels");
    assert("name"@.len() != "labels"@.len());
    match entry {
        JsonView::Object(members) => {
            lemma_lookup_filtered(vocabulary, members, "name"@);
        },
        _ => {},
    }
}

/// The labels of a filtered record are the labels of the record that pass the
/// filter, in their order: the filter drops a label exactly where its category
/// is missing or outside the allow-list, and so every label that is left has
/// a category of the allow-list.
pub proof fn lemma_filtered_labels(vocabulary: Seq<Seq<char>>, entry: JsonView)
    ensures
        labels_of(filtered(vocabulary, entry)) == kept_labels(vocabulary, labels_of(entry)),
        forall|i: int|
            0 <= i < labels_of(filtered(vocabulary, entry)).len() ==> keeps(
                vocabulary,
                #[trigger] labels_of(filtered(vocabulary, entry))[i],
            ),
{
    reveal(Seq::filter);
    match entry {
        JsonView::Object(members) => {
            lemma_lookup_filtered(vocabulary, members, "labels"@);
        },
        _ => {},
    }
    lemma_kept_labels(vocabulary, labels_of(entry));
}

} // verus!
