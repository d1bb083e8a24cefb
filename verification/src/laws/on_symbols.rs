//! Laws on the symbol index.

use crate::symbols::{
    entries_of, entries_view, file_at, files_map, lemma_text_less_irreflexive, lemma_total_entries,
    names_ascend, text_less, total_entries, with_entry, FileSymbols, SymbolEntryView,
};
use vstd::prelude::*;

verus! {

/// A recorded entry becomes the last one of its file, whose earlier entries stay, and no other file
/// changes.
pub proof fn law_recorded_entry(
    index: Map<Seq<char>, Seq<SymbolEntryView>>,
    file: Seq<char>,
    entry: SymbolEntryView,
)
    ensures
        ({
            let after = with_entry(index, file, entry);
            let count: int = if index.contains_key(file) {
                index[file].len() as int
            } else {
                0
            };
            &&& after.contains_key(file)
            &&& after[file].len() == count + 1
            &&& after[file][count] == entry
            &&& forall|i: int| 0 <= i < count ==> #[trigger] after[file][i] == index[file][i]
            &&& forall|other: Seq<char>|
                #![trigger after.contains_key(other)]
                other != file ==> after.contains_key(other) == index.contains_key(other)
            &&& forall|other: Seq<char>|
                #![trigger after[other]]
                other != file && index.contains_key(other) ==> after[other] == index[other]
        }),
{
}

/// The entries of a file are what the index holds for it, and none where it holds nothing.
pub proof fn law_entries_of(index: Map<Seq<char>, Seq<SymbolEntryView>>, file: Seq<char>)
    ensures
        index.contains_key(file) ==> entries_of(index, file) == index[file],
        !index.contains_key(file) ==> entries_of(index, file).len() == 0,
{
}

/// Texts stand in the order of the first characters in which they differ, and a text stands before
/// those that it begins.
pub proof fn law_order(start: Seq<char>, a: char, b: char, first: Seq<char>, second: Seq<char>)
    ensures
        a < b ==> text_less(start + seq![a] + first, start + seq![b] + second),
        a < b ==> !text_less(start + seq![b] + second, start + seq![a] + first),
        text_less(start, start + seq![a] + first),
        !text_less(start + seq![a] + first, start),
        !text_less(start, start),
    decreases start.len(),
{
    let x = start + seq![a] + first;
    let y = start + seq![b] + second;
    lemma_text_less_irreflexive(start);
    if start.len() > 0 {
        law_order(start.skip(1), a, b, first, second);
        assert(x.skip(1) == start.skip(1) + seq![a] + first);
        assert(y.skip(1) == start.skip(1) + seq![b] + second);
        assert(x[0] == start[0] && y[0] == start[0]);
    } else {
        assert(x[0] == a && y[0] == b);
    }
}

/// An index holds for the name of each of its files the entries of that file, and nothing else.
pub proof fn law_files(files: Seq<FileSymbols>, name: Seq<char>)
    requires
        names_ascend(files),
    ensures
        forall|i: int|
            0 <= i < files.len() ==> files_map(files).contains_key((#[trigger] files[i]).name@)
                && files_map(files)[files[i].name@].len() == files[i].entries@.len() && forall|
                j: int,
            |
                0 <= j < files[i].entries@.len() ==> #[trigger] files_map(
                    files,
                )[files[i].name@][j] == files[i].entries@[j]@,
        files_map(files).contains_key(name) ==> exists|i: int|
            0 <= i < files.len() && (#[trigger] files[i]).name@ == name,
        forall|i: int, j: int|
            0 <= i < j < files.len() ==> text_less(
                #[trigger] files[i].name@,
                #[trigger] files[j].name@,
            ),
{
    assert forall|i: int| 0 <= i < files.len() implies files_map(files).contains_key(
        (#[trigger] files[i]).name@,
    ) && files_map(files)[files[i].name@] == entries_view(files[i].entries@) by {
        let wanted = files[i].name@;
        assert(file_at(files, wanted, i));
        let at = choose|at: int| file_at(files, wanted, at);
        lemma_text_less_irreflexive(wanted);
        assert(at == i);
    }
    if files_map(files).contains_key(name) {
        let at = choose|at: int| file_at(files, name, at);
        assert(files[at].name@ == name);
    }
}

/// An empty index counts none, and a file counts as many as it has entries.
pub proof fn law_count(
    index: Map<Seq<char>, Seq<SymbolEntryView>>,
    file: Seq<char>,
    entries: Seq<SymbolEntryView>,
)
    requires
        index.dom().finite(),
        !index.contains_key(file),
    ensures
        total_entries(Map::<Seq<char>, Seq<SymbolEntryView>>::empty()) == 0,
        total_entries(index.insert(file, entries)) == total_entries(index) + entries.len(),
{
    let after = index.insert(file, entries);
    lemma_total_entries(after, file);
    assert(after.remove(file) == index);
}

} // verus!
