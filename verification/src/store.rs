//! The entry collection: every note of one run, keyed by command name and
//! kept in listing order.

use vstd::prelude::*;
use vstd::string::*;
use crate::names::{
    ascending, lemma_ascending_distinct, lemma_name_order, name_before, place_of, Place,
};

verus! {

/// The names of a listing of `(name, content)` pairs, in the same order.
pub open spec fn names_of(listing: Seq<(Seq<char>, Seq<char>)>) -> Seq<Seq<char>> {
    Seq::new(listing.len(), |i: int| listing[i].0)
}

/// The mapping from name to content that a listing stands for.
pub open spec fn notes_of(listing: Seq<(Seq<char>, Seq<char>)>) -> Map<Seq<char>, Seq<char>> {
    Map::new(
        |name: Seq<char>| names_of(listing).contains(name),
        |name: Seq<char>| listing[names_of(listing).index_of(name)].1,
    )
}

/// In an ascending listing every pair is an entry of the mapping, and the
/// mapping has as many entries as the listing has pairs.
pub proof fn lemma_notes_of(listing: Seq<(Seq<char>, Seq<char>)>)
    requires
        ascending(names_of(listing)),
    ensures
        forall|i: int|
            0 <= i < listing.len() ==> notes_of(listing).contains_key(#[trigger] listing[i].0)
                && notes_of(listing)[listing[i].0] == listing[i].1,
        notes_of(listing).dom().finite(),
        notes_of(listing).len() == listing.len(),
{
    let names = names_of(listing);
    lemma_ascending_distinct(names);
    assert forall|i: int| 0 <= i < listing.len() implies notes_of(listing).contains_key(
        #[trigger] listing[i].0,
    ) && notes_of(listing)[listing[i].0] == listing[i].1 by {
        assert(names[i] == listing[i].0);
    }
    vstd::seq_lib::seq_to_set_is_finite(names);
    names.unique_seq_to_set();
}

/// Putting a new name at its place in an ascending listing keeps the
/// listing ascending and adds the entry to the mapping.
proof fn lemma_insert_pair(
    listing: Seq<(Seq<char>, Seq<char>)>,
    at: int,
    name: Seq<char>,
    content: Seq<char>,
)
    requires
        ascending(names_of(listing)),
        0 <= at <= listing.len(),
        forall|i: int| 0 <= i < at ==> name_before(#[trigger] listing[i].0, name),
        forall|i: int| at <= i < listing.len() ==> name_before(name, #[trigger] listing[i].0),
    ensures
        ascending(names_of(listing.insert(at, (name, content)))),
        notes_of(listing.insert(at, (name, content))) == notes_of(listing).insert(name, content),
{
    let grown = listing.insert(at, (name, content));
    let names = names_of(listing);
    let grown_names = names_of(grown);
    assert forall|i: int, j: int| 0 <= i < j < grown_names.len() implies name_before(
        #[trigger] grown_names[i],
        #[trigger] grown_names[j],
    ) by {
        if i != at && j != at {
            let a = if i < at { i } else { i - 1 };
            let b = if j < at { j } else { j - 1 };
            assert(name_before(names[a], names[b]));
        }
    }
    lemma_notes_of(listing);
    lemma_notes_of(grown);
    assert forall|key: Seq<char>| notes_of(grown).contains_key(key) <==> notes_of(listing).insert(
        name,
        content,
    ).contains_key(key) by {
        if notes_of(listing).contains_key(key) {
            let a = names.index_of(key);
            let i = if a < at { a } else { a + 1 };
            assert(grown[i] == listing[a]);
        }
        if key == name {
            assert(grown_names[at] == key);
        }
    }
    assert forall|key: Seq<char>| notes_of(grown).contains_key(key) implies notes_of(grown)[key]
        == notes_of(listing).insert(name, content)[key] by {
        if grown_names.index_of(key) != at {
            lemma_name_order(key, name, key);
        }
    }
}

/// Replacing the content at one place of an ascending listing keeps the
/// listing ascending and replaces that entry of the mapping.
proof fn lemma_replace_pair(listing: Seq<(Seq<char>, Seq<char>)>, at: int, content: Seq<char>)
    requires
        ascending(names_of(listing)),
        0 <= at < listing.len(),
    ensures
        ascending(names_of(listing.update(at, (listing[at].0, content)))),
        notes_of(listing.update(at, (listing[at].0, content))) == notes_of(listing).insert(
            listing[at].0,
            content,
        ),
{
    let name = listing[at].0;
    let changed = listing.update(at, (name, content));
    assert(names_of(changed) =~= names_of(listing));
    lemma_notes_of(listing);
    lemma_notes_of(changed);
    assert forall|key: Seq<char>| notes_of(changed).contains_key(key) implies notes_of(changed)[key]
        == notes_of(listing).insert(name, content)[key] by {
        let i = names_of(changed).index_of(key);
        if i != at {
            lemma_ascending_distinct(names_of(listing));
            assert(names_of(listing)[i] != names_of(listing)[at]);
        }
    }
}

/// The notes of one run: at most one per command name, held in listing
/// order.
///
/// The entries are kept in a vector whose names ascend strictly. That the
/// names are distinct and in order is the type's invariant, stated over the
/// names themselves; an ordered map of the standard library keyed by `String`
/// would leave both to the key's `Ord`, of which nothing can be proved here.
#[derive(Debug, PartialEq, Eq)]
pub struct EntryCollection {
    entries: Vec<(String, String)>,
}

impl View for EntryCollection {
    type V = Map<Seq<char>, Seq<char>>;

    /// The mapping from command name to note content.
    open spec fn view(&self) -> Map<Seq<char>, Seq<char>> {
        notes_of(self.listing())
    }
}

impl EntryCollection {
    /// The entries as `(name, content)` pairs in listing order.
    pub closed spec fn listing(&self) -> Seq<(Seq<char>, Seq<char>)> {
        self.entries.deep_view()
    }

    #[verifier::type_invariant]
    spec fn in_order(&self) -> bool {
        ascending(names_of(self.entries.deep_view()))
    }

    /// A collection without entries.
    pub fn new() -> (collection: EntryCollection)
        ensures
            collection@ == Map::<Seq<char>, Seq<char>>::empty(),
            collection.listing() == Seq::<(Seq<char>, Seq<char>)>::empty(),
    {
        EntryCollection { entries: Vec::new() }
    }

    /// The number of entries.
    pub fn len(&self) -> (count: usize)
        ensures
            count == self@.len(),
            count == self.listing().len(),
            self@.dom().finite(),
    {
        proof {
            use_type_invariant(self);
            lemma_notes_of(self.listing());
        }
        self.entries.len()
    }

    /// Whether the collection has no entry.
    pub fn is_empty(&self) -> (empty: bool)
        ensures
            empty <==> self@ == Map::<Seq<char>, Seq<char>>::empty(),
            empty <==> self.listing().len() == 0,
    {
        proof {
            use_type_invariant(self);
            lemma_notes_of(self.listing());
            if self.listing().len() == 0 {
                assert(self@ =~= Map::<Seq<char>, Seq<char>>::empty());
            }
        }
        self.entries.len() == 0
    }

    /// Finds `name` by bisection: whether it is present, and the place where
    /// it stands or would have to stand.
    fn locate(&self, name: &str) -> (found: (bool, usize))
        ensures
            found.1 <= self.listing().len(),
            found.0 ==> found.1 < self.listing().len() && self.listing()[found.1 as int].0 == name@,
            !found.0 ==> forall|i: int|
                0 <= i < found.1 ==> name_before(#[trigger] self.listing()[i].0, name@),
            !found.0 ==> forall|i: int|
                found.1 <= i < self.listing().len() ==> name_before(
                    name@,
                    #[trigger] self.listing()[i].0,
                ),
    {
        proof {
            use_type_invariant(self);
        }
        let ghost listing = self.listing();
        let ghost names = names_of(listing);
        let mut low: usize = 0;
        let mut high: usize = self.entries.len();
        while low < high
            invariant
                low <= high <= self.entries@.len(),
                listing == self.entries.deep_view(),
                names == names_of(listing),
                ascending(names),
                forall|i: int| 0 <= i < low ==> name_before(#[trigger] listing[i].0, name@),
                forall|i: int| high <= i < listing.len() ==> name_before(name@, #[trigger] listing[i].0),
            decreases high - low,
        {
            let middle: usize = low + (high - low) / 2;
            match place_of(self.entries[middle].0.as_str(), name) {
                Place::Same => {
                    return (true, middle);
                },
                Place::Before => {
                    assert forall|i: int| 0 <= i < middle + 1 implies name_before(
                        #[trigger] listing[i].0,
                        name@,
                    ) by {
                        if i < middle {
                            assert(name_before(names[i], names[middle as int]));
                            lemma_name_order(listing[i].0, listing[middle as int].0, name@);
                        }
                    }
                    low = middle + 1;
                },
                Place::After => {
                    assert forall|i: int| middle <= i < listing.len() implies name_before(
                        name@,
                        #[trigger] listing[i].0,
                    ) by {
                        if middle < i {
                            assert(name_before(names[middle as int], names[i]));
                            lemma_name_order(name@, listing[middle as int].0, listing[i].0);
                        }
                    }
                    high = middle;
                },
            }
        }
        (false, low)
    }

    /// The content kept under `name`, if there is any.
    pub fn get(&self, name: &str) -> (content: Option<&String>)
        ensures
            match content {
                Some(found) => self@.contains_key(name@) && found@ == self@[name@],
                None => !self@.contains_key(name@),
            },
    {
        proof {
            use_type_invariant(self);
            lemma_notes_of(self.listing());
        }
        let (present, at) = self.locate(name);
        if present {
            Some(&self.entries[at].1)
        } else {
            proof {
                if self@.contains_key(name@) {
                    let i = names_of(self.listing()).index_of(name@);
                    assert(self.listing()[i].0 == name@);
                    lemma_name_order(name@, name@, name@);
                }
            }
            None
        }
    }

    /// Whether there is an entry under `name`.
    pub fn contains(&self, name: &str) -> (present: bool)
        ensures
            present == self@.contains_key(name@),
    {
        self.get(name).is_some()
    }

    /// Puts `content` under `name`, in place of what was kept there, and
    /// hands back what it replaced.
    pub fn insert(&mut self, name: String, content: String) -> (replaced: Option<String>)
        ensures
            final(self)@ == old(self)@.insert(name@, content@),
            match replaced {
                Some(previous) => old(self)@.contains_key(name@) && previous@ == old(self)@[name@],
                None => !old(self)@.contains_key(name@),
            },
    {
        proof {
            use_type_invariant(&*self);
            lemma_notes_of(self.listing());
        }
        let ghost before = self.listing();
        let (present, at) = self.locate(name.as_str());
        let mut entries: Vec<(String, String)> = Vec::new();
        core::mem::swap(&mut self.entries, &mut entries);
        let replaced = if present {
            let mut previous = content;
            core::mem::swap(&mut entries[at].1, &mut previous);
            proof {
                assert(entries.deep_view() =~= before.update(at as int, (name@, content@)));
                lemma_replace_pair(before, at as int, content@);
            }
            Some(previous)
        } else {
            entries.insert(at, (name, content));
            proof {
                assert(entries.deep_view() =~= before.insert(at as int, (name@, content@)));
                lemma_insert_pair(before, at as int, name@, content@);
                if notes_of(before).contains_key(name@) {
                    let i = names_of(before).index_of(name@);
                    assert(before[i].0 == name@);
                    lemma_name_order(name@, name@, name@);
                }
            }
            None
        };
        core::mem::swap(&mut self.entries, &mut entries);
        replaced
    }

    /// Whether `names` lists the entries: the name of every entry, once, in
    /// ascending order.
    pub open spec fn listed_as(&self, names: Seq<Seq<char>>) -> bool {
        &&& names == names_of(self.listing())
        &&& ascending(names)
        &&& forall|name: Seq<char>| names.contains(name) <==> self@.contains_key(name)
    }

    /// The names of all entries, in listing order.
    pub fn names(&self) -> (names: Vec<String>)
        ensures
            self.listed_as(names.deep_view()),
    {
        proof {
            use_type_invariant(self);
        }
        let mut names: Vec<String> = Vec::new();
        let mut i: usize = 0;
        while i < self.entries.len()
            invariant
                i <= self.entries@.len(),
                names@.len() == i,
                forall|k: int| 0 <= k < i ==> names@[k]@ == self.entries@[k].0@,
            decreases self.entries@.len() - i,
        {
            names.push(self.entries[i].0.clone());
            i += 1;
        }
        assert(names.deep_view() =~= names_of(self.listing()));
        names
    }

    /// The entries as `(name, content)` pairs, in listing order.
    pub fn pairs(&self) -> (pairs: &Vec<(String, String)>)
        ensures
            pairs.deep_view() == self.listing(),
            ascending(names_of(self.listing())),
    {
        proof {
            use_type_invariant(self);
        }
        &self.entries
    }
}

} // verus!
