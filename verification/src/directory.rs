//! The notes directory: one file per entry, named after the command with a
//! fixed extension.
//!
//! A directory is modelled as a mapping from file name to file content, and a
//! batch of files, read or to be written, as a list of `(file name, content)`
//! pairs.

use vstd::prelude::*;
use vstd::string::*;
use crate::command::text_of;
use crate::names::{ascending, name_before};
use crate::store::{lemma_notes_of, names_of, notes_of, EntryCollection};

verus! {

/// What an entry's file name ends in: a dot and the extension `md`.
pub open spec fn marker() -> Seq<char> {
    seq!['.', 'm', 'd']
}

/// The file that holds the entry `name`.
pub open spec fn file_name_of(name: Seq<char>) -> Seq<char> {
    name + marker()
}

/// Whether a file name ends in the marker.
pub open spec fn ends_in_marker(file_name: Seq<char>) -> bool {
    file_name.len() >= 3 && file_name.subrange(file_name.len() - 3, file_name.len() as int)
        == marker()
}

/// A file name without its last three characters.
pub open spec fn stem_of(file_name: Seq<char>) -> Seq<char> {
    file_name.subrange(0, file_name.len() - 3)
}

/// Whether a file holds an entry: its name is a non-empty stem followed by
/// the marker. A file called just `.md` has no extension and holds none.
pub open spec fn is_entry_file(file_name: Seq<char>) -> bool {
    ends_in_marker(file_name) && file_name.len() > 3
}

/// Where the notes directory lies, as the parts of its path: under the
/// configuration root if one is configured, else under `.config` in the home
/// directory; nowhere if neither is known.
pub open spec fn entries_dir_of(config_home: Option<Seq<char>>, home: Option<Seq<char>>) -> Option<
    Seq<Seq<char>>,
> {
    match (config_home, home) {
        (Some(root), _) => Some(seq![root, "hmm"@, "entries"@]),
        (None, Some(home)) => Some(seq![home, ".config"@, "hmm"@, "entries"@]),
        (None, None) => None,
    }
}

/// The entries found in a directory: one for each entry file, named by the
/// file's stem.
pub open spec fn loaded(directory: Map<Seq<char>, Seq<char>>) -> Map<Seq<char>, Seq<char>> {
    Map::new(
        |name: Seq<char>| name.len() > 0 && directory.contains_key(file_name_of(name)),
        |name: Seq<char>| directory[file_name_of(name)],
    )
}

/// The directory after the files of a batch were written one after the other,
/// each replacing what was there under its name.
pub open spec fn written(
    directory: Map<Seq<char>, Seq<char>>,
    files: Seq<(Seq<char>, Seq<char>)>,
) -> Map<Seq<char>, Seq<char>>
    decreases files.len(),
{
    if files.len() == 0 {
        directory
    } else {
        written(directory, files.drop_last()).insert(files.last().0, files.last().1)
    }
}

/// The batch of files that holds the entries of a listing: one file for each
/// entry, in the same order.
pub open spec fn files_of(listing: Seq<(Seq<char>, Seq<char>)>) -> Seq<(Seq<char>, Seq<char>)> {
    Seq::new(listing.len(), |i: int| (file_name_of(listing[i].0), listing[i].1))
}

/// The directory with the files of all entries of `notes` laid over it.
pub open spec fn saved(
    directory: Map<Seq<char>, Seq<char>>,
    notes: Map<Seq<char>, Seq<char>>,
) -> Map<Seq<char>, Seq<char>> {
    Map::new(
        |file_name: Seq<char>|
            directory.contains_key(file_name) || (ends_in_marker(file_name) && notes.contains_key(
                stem_of(file_name),
            )),
        |file_name: Seq<char>|
            if ends_in_marker(file_name) && notes.contains_key(stem_of(file_name)) {
                notes[stem_of(file_name)]
            } else {
                directory[file_name]
            },
    )
}

/// Whether `files` is the batch that saves `entries`: the file of every
/// entry, in listing order, so that writing it lays the entries over the
/// directory.
pub open spec fn saves(files: Seq<(Seq<char>, Seq<char>)>, entries: EntryCollection) -> bool {
    &&& files == files_of(entries.listing())
    &&& forall|directory: Map<Seq<char>, Seq<char>>| #[trigger]
        written(directory, files) == saved(directory, entries@)
}

/// A name is recovered from its file name, and a file name that ends in the
/// marker from its stem.
pub proof fn lemma_stem_of_file_name(name: Seq<char>)
    ensures
        ends_in_marker(file_name_of(name)),
        stem_of(file_name_of(name)) == name,
        is_entry_file(file_name_of(name)) <==> name.len() > 0,
{
    let file_name = file_name_of(name);
    assert(file_name.subrange(file_name.len() - 3, file_name.len() as int) =~= marker());
    assert(stem_of(file_name) =~= name);
}

/// A file name that ends in the marker is the file name of its stem.
pub proof fn lemma_file_name_of_stem(file_name: Seq<char>)
    requires
        ends_in_marker(file_name),
    ensures
        file_name_of(stem_of(file_name)) == file_name,
{
    assert(file_name_of(stem_of(file_name)) =~= file_name);
}

/// One more file in a directory adds the entry it holds, and nothing if it
/// holds none.
pub proof fn lemma_loaded_insert(
    directory: Map<Seq<char>, Seq<char>>,
    file_name: Seq<char>,
    content: Seq<char>,
)
    ensures
        is_entry_file(file_name) ==> loaded(directory.insert(file_name, content)) == loaded(
            directory,
        ).insert(stem_of(file_name), content),
        !is_entry_file(file_name) ==> loaded(directory.insert(file_name, content)) == loaded(
            directory,
        ),
{
    let after = directory.insert(file_name, content);
    assert forall|name: Seq<char>| file_name_of(name) == file_name implies ends_in_marker(file_name)
        && name == stem_of(file_name) by {
        lemma_stem_of_file_name(name);
    }
    if is_entry_file(file_name) {
        lemma_file_name_of_stem(file_name);
        assert(loaded(after) =~= loaded(directory).insert(stem_of(file_name), content));
    } else {
        assert(loaded(after) =~= loaded(directory));
    }
}

/// Writing one batch after another is writing the two as one.
pub proof fn lemma_written_push(
    directory: Map<Seq<char>, Seq<char>>,
    files: Seq<(Seq<char>, Seq<char>)>,
    file: (Seq<char>, Seq<char>),
)
    ensures
        written(directory, files.push(file)) == written(directory, files).insert(file.0, file.1),
{
    assert(files.push(file).drop_last() =~= files);
}

/// Writing the files of an ascending listing lays its entries over the
/// directory.
pub proof fn lemma_written_files(
    directory: Map<Seq<char>, Seq<char>>,
    listing: Seq<(Seq<char>, Seq<char>)>,
)
    requires
        ascending(names_of(listing)),
    ensures
        written(directory, files_of(listing)) == saved(directory, notes_of(listing)),
    decreases listing.len(),
{
    let notes = notes_of(listing);
    if listing.len() == 0 {
        assert(written(directory, files_of(listing)) =~= saved(directory, notes));
    } else {
        let shorter = listing.drop_last();
        let last = listing.last();
        assert forall|i: int, j: int| 0 <= i < j < names_of(shorter).len() implies name_before(
            #[trigger] names_of(shorter)[i],
            #[trigger] names_of(shorter)[j],
        ) by {
            assert(names_of(shorter)[i] == names_of(listing)[i]);
            assert(names_of(shorter)[j] == names_of(listing)[j]);
        }
        lemma_written_files(directory, shorter);
        assert(files_of(listing).drop_last() =~= files_of(shorter));
        assert(files_of(listing).last() == (file_name_of(last.0), last.1));
        lemma_notes_of(listing);
        lemma_notes_of(shorter);
        lemma_stem_of_file_name(last.0);
        let before = saved(directory, notes_of(shorter));
        let after = before.insert(file_name_of(last.0), last.1);
        assert forall|name: Seq<char>| notes.contains_key(name) <==> (name == last.0 || notes_of(
            shorter,
        ).contains_key(name)) by {
            if notes.contains_key(name) {
                let i = names_of(listing).index_of(name);
                if i < shorter.len() {
                    assert(names_of(shorter)[i] == name);
                }
            }
            if notes_of(shorter).contains_key(name) {
                let i = names_of(shorter).index_of(name);
                assert(names_of(listing)[i] == name);
            }
            if name == last.0 {
                assert(names_of(listing)[listing.len() - 1] == name);
            }
        }
        assert forall|name: Seq<char>| notes_of(shorter).contains_key(name) implies notes[name]
            == notes_of(shorter)[name] by {
            let i = names_of(shorter).index_of(name);
            assert(shorter[i].0 == name);
            assert(listing[i] == shorter[i]);
        }
        assert(notes[last.0] == last.1) by {
            assert(listing[listing.len() - 1] == last);
        }
        assert forall|file_name: Seq<char>|
            ends_in_marker(file_name) && stem_of(file_name) == last.0 implies file_name
            == file_name_of(last.0) by {
            lemma_file_name_of_stem(file_name);
        }
        assert(after =~= saved(directory, notes));
    }
}

/// Saving a collection and loading the directory again yields every entry
/// with a non-empty name, with the content that was saved. (An entry with the
/// empty name is written to a file that holds no entry.)
pub proof fn lemma_save_then_load(
    directory: Map<Seq<char>, Seq<char>>,
    listing: Seq<(Seq<char>, Seq<char>)>,
    name: Seq<char>,
)
    requires
        ascending(names_of(listing)),
        notes_of(listing).contains_key(name),
        name.len() > 0,
    ensures
        loaded(written(directory, files_of(listing))).contains_key(name),
        loaded(written(directory, files_of(listing)))[name] == notes_of(listing)[name],
{
    lemma_written_files(directory, listing);
    lemma_stem_of_file_name(name);
}

/// Saving one entry under a non-empty name and loading the directory again
/// yields that entry.
pub proof fn lemma_save_one_then_load(
    directory: Map<Seq<char>, Seq<char>>,
    name: Seq<char>,
    content: Seq<char>,
)
    requires
        name.len() > 0,
    ensures
        loaded(written(directory, files_of(seq![(name, content)]))).contains_key(name),
        loaded(written(directory, files_of(seq![(name, content)])))[name] == content,
{
    let listing = seq![(name, content)];
    lemma_notes_of(listing);
    assert(listing[0].0 == name);
    lemma_save_then_load(directory, listing, name);
}

/// What is loaded after a save is what would have been loaded before it,
/// with the saved entries laid over it; the entry with the empty name, if
/// there is one, excepted.
pub proof fn lemma_load_after_save(
    directory: Map<Seq<char>, Seq<char>>,
    listing: Seq<(Seq<char>, Seq<char>)>,
)
    requires
        ascending(names_of(listing)),
    ensures
        loaded(written(directory, files_of(listing))) == loaded(directory).union_prefer_right(
            notes_of(listing).remove(Seq::<char>::empty()),
        ),
{
    lemma_written_files(directory, listing);
    let notes = notes_of(listing);
    let after = loaded(saved(directory, notes));
    let expected = loaded(directory).union_prefer_right(notes.remove(Seq::<char>::empty()));
    assert forall|name: Seq<char>| after.contains_key(name) <==> expected.contains_key(name) by {
        lemma_stem_of_file_name(name);
        if name.len() == 0 {
            assert(name =~= Seq::<char>::empty());
        }
    }
    assert forall|name: Seq<char>| after.contains_key(name) implies after[name] == expected[name] by {
        lemma_stem_of_file_name(name);
    }
    assert(after =~= expected);
}

/// A file that holds no entry makes no difference to what is loaded,
/// whatever it contains and whether it is there or not.
pub proof fn lemma_load_ignores_other_files(
    directory: Map<Seq<char>, Seq<char>>,
    file_name: Seq<char>,
    content: Seq<char>,
)
    requires
        !is_entry_file(file_name),
    ensures
        loaded(directory.insert(file_name, content)) == loaded(directory),
        loaded(directory.remove(file_name)) == loaded(directory),
        forall|name: Seq<char>|
            loaded(directory).contains_key(name) ==> file_name_of(name) != file_name,
{
    lemma_loaded_insert(directory, file_name, content);
    assert forall|name: Seq<char>| name.len() > 0 implies file_name_of(name) != file_name by {
        lemma_stem_of_file_name(name);
    }
    assert(loaded(directory.remove(file_name)) =~= loaded(directory));
}

/// The files of a batch that hold an entry, in the order of the batch.
pub open spec fn entry_files(files: Seq<(Seq<char>, Seq<char>)>) -> Seq<(Seq<char>, Seq<char>)> {
    files.filter(|file: (Seq<char>, Seq<char>)| is_entry_file(file.0))
}

/// What is loaded from a batch of files is what is loaded from its entry
/// files alone: the other files need not even be read.
pub proof fn lemma_load_reads_entry_files_only(
    directory: Map<Seq<char>, Seq<char>>,
    files: Seq<(Seq<char>, Seq<char>)>,
)
    ensures
        loaded(written(directory, entry_files(files))) == loaded(written(directory, files)),
    decreases files.len(),
{
    reveal(Seq::filter);
    if files.len() > 0 {
        let rest = files.drop_last();
        let last = files.last();
        lemma_load_reads_entry_files_only(directory, rest);
        lemma_loaded_insert(written(directory, rest), last.0, last.1);
        if is_entry_file(last.0) {
            assert(entry_files(files) == entry_files(rest).push(last));
            lemma_written_push(directory, entry_files(rest), last);
            lemma_loaded_insert(written(directory, entry_files(rest)), last.0, last.1);
        } else {
            assert(entry_files(files) == entry_files(rest));
        }
    }
}

/// Saving never removes a file: every file of the directory is still there
/// afterwards, and one that is not the file of an entry of the collection
/// keeps its content.
pub proof fn lemma_save_keeps_files(
    directory: Map<Seq<char>, Seq<char>>,
    listing: Seq<(Seq<char>, Seq<char>)>,
    file_name: Seq<char>,
)
    requires
        ascending(names_of(listing)),
        directory.contains_key(file_name),
    ensures
        written(directory, files_of(listing)).contains_key(file_name),
        (forall|name: Seq<char>|
            notes_of(listing).contains_key(name) ==> file_name_of(name) != file_name) ==> written(
            directory,
            files_of(listing),
        )[file_name] == directory[file_name],
{
    lemma_written_files(directory, listing);
    if ends_in_marker(file_name) {
        lemma_file_name_of_stem(file_name);
    }
}

/// The parts of the path of the notes directory, given the configuration
/// root (`XDG_CONFIG_HOME`) and the home directory (`HOME`) as far as they
/// are set.
pub fn get_entries_dir(config_home: Option<&str>, home: Option<&str>) -> (path: Option<Vec<String>>)
    ensures
        match path {
            Some(parts) => Some(parts.deep_view()) == entries_dir_of(
                text_of(config_home),
                text_of(home),
            ),
            None => entries_dir_of(text_of(config_home), text_of(home)) is None,
        },
{
    let mut parts: Vec<String> = Vec::new();
    match (config_home, home) {
        (Some(root), _) => {
            parts.push(String::from_str(root));
            parts.push(String::from_str("hmm"));
            parts.push(String::from_str("entries"));
            assert(parts.deep_view() =~= seq![root@, "hmm"@, "entries"@]);
            Some(parts)
        },
        (None, Some(home)) => {
            parts.push(String::from_str(home));
            parts.push(String::from_str(".config"));
            parts.push(String::from_str("hmm"));
            parts.push(String::from_str("entries"));
            assert(parts.deep_view() =~= seq![home@, ".config"@, "hmm"@, "entries"@]);
            Some(parts)
        },
        (None, None) => None,
    }
}

/// The name of the entry that a file holds, if it holds one: the file name
/// without the marker.
pub fn entry_name(file_name: &str) -> (name: Option<String>)
    ensures
        match name {
            Some(name) => is_entry_file(file_name@) && name@ == stem_of(file_name@),
            None => !is_entry_file(file_name@),
        },
{
    let length: usize = file_name.unicode_len();
    if length <= 3 {
        return None;
    }
    if file_name.get_char(length - 3) == '.' && file_name.get_char(length - 2) == 'm'
        && file_name.get_char(length - 1) == 'd' {
        assert(file_name@.subrange(length - 3, length as int) =~= marker());
        Some(String::from_str(file_name.substring_char(0, length - 3)))
    } else {
        None
    }
}

/// The name of the file that holds the entry `name`.
pub fn entry_file_name(name: &str) -> (file_name: String)
    ensures
        file_name@ == file_name_of(name@),
{
    proof {
        reveal_strlit(".md");
    }
    assert(".md"@ =~= marker());
    String::from_str(name).concat(".md")
}

/// Builds the collection from the files read from the notes directory,
/// taken in the order given: each entry file gives one entry, and of two
/// files with one name the later counts.
pub fn load_entries(files: &Vec<(String, String)>) -> (entries: EntryCollection)
    ensures
        entries@ == loaded(written(Map::empty(), files.deep_view())),
{
    let ghost batch = files.deep_view();
    let mut entries = EntryCollection::new();
    let mut i: usize = 0;
    assert(entries@ =~= loaded(written(Map::empty(), batch.take(0))));
    while i < files.len()
        invariant
            i <= files@.len(),
            batch == files.deep_view(),
            entries@ == loaded(written(Map::empty(), batch.take(i as int))),
        decreases files@.len() - i,
    {
        let file = &files[i];
        proof {
            let seen = written(Map::empty(), batch.take(i as int));
            assert(batch.take(i + 1) =~= batch.take(i as int).push(batch[i as int]));
            lemma_written_push(Map::empty(), batch.take(i as int), batch[i as int]);
            lemma_loaded_insert(seen, file.0@, file.1@);
        }
        match entry_name(file.0.as_str()) {
            Some(name) => {
                entries.insert(name, file.1.clone());
            },
            None => {},
        }
        i += 1;
    }
    assert(batch.take(i as int) =~= batch);
    entries
}

/// The files to write so that the directory holds every entry of the
/// collection: one per entry, in listing order.
pub fn save_entries(entries: &EntryCollection) -> (files: Vec<(String, String)>)
    ensures
        saves(files.deep_view(), *entries),
{
    let pairs = entries.pairs();
    let mut files: Vec<(String, String)> = Vec::new();
    let mut i: usize = 0;
    while i < pairs.len()
        invariant
            i <= pairs@.len(),
            files@.len() == i,
            forall|k: int|
                0 <= k < i ==> (#[trigger] files@[k]).0@ == file_name_of(pairs@[k].0@) && files@[k].1@
                    == pairs@[k].1@,
        decreases pairs@.len() - i,
    {
        let file_name = entry_file_name(pairs[i].0.as_str());
        files.push((file_name, pairs[i].1.clone()));
        i += 1;
    }
    assert(files.deep_view() =~= files_of(entries.listing()));
    assert forall|directory: Map<Seq<char>, Seq<char>>| #[trigger]
        written(directory, files.deep_view()) == saved(directory, entries@) by {
        lemma_written_files(directory, entries.listing());
    }
    files
}

} // verus!
