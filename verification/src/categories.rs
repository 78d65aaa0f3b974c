//! The class vocabulary: which categories are kept, and the class id of each.
//!
//! A vocabulary is a list of category names. A category is allowed where it is
//! in the list, and its class id is its position there, so the ids are dense
//! and start at 0.

use vstd::prelude::*;
use vstd::string::*;
use crate::each_view;
use crate::text::str_eq;

verus! {

/// A list of category names, in the order of their class ids.
#[derive(Debug, PartialEq)]
pub struct Vocabulary {
    pub names: Vec<String>,
}

impl View for Vocabulary {
    type V = Seq<Seq<char>>;

    open spec fn view(&self) -> Seq<Seq<char>> {
        each_view(self.names@)
    }
}

/// The names of the standard vocabulary, in the order of their class ids.
pub open spec fn standard_names() -> Seq<Seq<char>> {
    seq!["car"@, "person"@, "rider"@, "bus"@, "truck"@, "bike"@]
}

/// Whether `category` is in the allow-list.
pub open spec fn allowed(vocabulary: Seq<Seq<char>>, category: Seq<char>) -> bool {
    vocabulary.contains(category)
}

/// The class id of `category`: the first position that it has in the
/// vocabulary.
pub open spec fn class_of(vocabulary: Seq<Seq<char>>, category: Seq<char>) -> Option<int>
    decreases vocabulary.len(),
{
    if vocabulary.len() == 0 {
        None
    } else {
        match class_of(vocabulary.drop_last(), category) {
            Some(id) => Some(id),
            None => if vocabulary.last() == category {
                Some(vocabulary.len() - 1)
            } else {
                None
            },
        }
    }
}

/// A category has a class id exactly where it is allowed. The id is a position
/// of the category in the vocabulary, and the first one; where no name stands
/// twice in the vocabulary it is the only one, so that no two categories share
/// an id and every position is the id of its name.
pub proof fn lemma_class_of(vocabulary: Seq<Seq<char>>, category: Seq<char>)
    ensures
        allowed(vocabulary, category) <==> class_of(vocabulary, category) is Some,
        class_of(vocabulary, category) matches Some(id) ==> {
            &&& 0 <= id < vocabulary.len()
            &&& vocabulary[id] == category
            &&& forall|j: int| 0 <= j < id ==> vocabulary[j] != category
        },
        vocabulary.no_duplicates() ==> forall|i: int|
            0 <= i < vocabulary.len() && vocabulary[i] == category ==> class_of(
                vocabulary,
                category,
            ) == Some(i),
    decreases vocabulary.len(),
{
    if vocabulary.len() > 0 {
        let front = vocabulary.drop_last();
        lemma_class_of(front, category);
        assert(forall|j: int| 0 <= j < front.len() ==> front[j] == vocabulary[j]);
    }
}

/// The standard vocabulary holds six names, none of them twice.
pub proof fn lemma_standard_names()
    ensures
        standard_names().len() == 6,
        standard_names().no_duplicates(),
{
    reveal_strlit("car");
    reveal_strlit("person");
    reveal_strlit("rider");
    reveal_strlit("bus");
    reveal_strlit("truck");
    reveal_strlit("bike");
    let names = standard_names();
    assert(names[1].len() == 6);
    assert(names[2].len() == 5 && names[2][0] == 'r');
    assert(names[3].len() == 3 && names[3][0] == 'b');
    assert(names[4].len() == 5 && names[4][0] == 't');
    assert(names[5].len() == 4);
}

impl Vocabulary {
    /// The standard vocabulary: `car`, `person`, `rider`, `bus`, `truck` and
    /// `bike`, with the class ids 0 to 5.
    pub fn standard() -> (vocabulary: Vocabulary)
        ensures
            vocabulary@ == standard_names(),
    {
        let mut names: Vec<String> = Vec::new();
        names.push(String::from_str("car"));
        names.push(String::from_str("person"));
        names.push(String::from_str("rider"));
        names.push(String::from_str("bus"));
        names.push(String::from_str("truck"));
        names.push(String::from_str("bike"));
        Vocabulary { names }
    }

    /// The class id of a category, or `None` for a category outside the
    /// vocabulary.
    pub fn class_index(&self, category: &str) -> (id: Option<usize>)
        ensures
            match id {
                Some(i) => class_of(self@, category@) == Some(i as int),
                None => class_of(self@, category@) is None,
            },
    {
        let mut i: usize = 0;
        while i < self.names.len()
            invariant
                i <= self.names.len(),
                class_of(self@.take(i as int), category@) is None,
            decreases self.names.len() - i,
        {
            let ghost next = self@.take(i + 1);
            assert(next.drop_last() =~= self@.take(i as int));
            if str_eq(self.names[i].as_str(), category) {
                proof {
                    lemma_class_extends(self@, category@, i + 1);
                }
                return Some(i);
            }
            i = i + 1;
        }
        assert(self@.take(i as int) =~= self@);
        None
    }

    /// Whether a category is in the allow-list.
    pub fn is_allowed(&self, category: &str) -> (yes: bool)
        ensures
            yes == allowed(self@, category@),
    {
        proof {
            lemma_class_of(self@, category@);
        }
        self.class_index(category).is_some()
    }
}

/// A class id found among the first `n` names is the class id in the whole
/// vocabulary.
proof fn lemma_class_extends(vocabulary: Seq<Seq<char>>, category: Seq<char>, n: int)
    requires
        0 <= n <= vocabulary.len(),
        class_of(vocabulary.take(n), category) is Some,
    ensures
        class_of(vocabulary, category) == class_of(vocabulary.take(n), category),
    decreases vocabulary.len() - n,
{
    if n < vocabulary.len() {
        let next = vocabulary.take(n + 1);
        assert(next.drop_last() =~= vocabulary.take(n));
        lemma_class_extends(vocabulary, category, n + 1);
    } else {
        assert(vocabulary.take(n) =~= vocabulary);
    }
}

} // verus!
