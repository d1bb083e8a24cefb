//! The symbols found so far, file by file.

use crate::text::{chars_of, same_text};
use vstd::prelude::*;

verus! {

/// One symbol of a source file.
#[derive(Debug)]
pub struct SymbolEntry {
    pub name: String,
    pub kind: String,
    pub signature: Option<String>,
    pub doc: Option<String>,
}

/// What a symbol entry says.
pub struct SymbolEntryView {
    pub name: Seq<char>,
    pub kind: Seq<char>,
    pub signature: Option<Seq<char>>,
    pub doc: Option<Seq<char>>,
}

/// The text of an optional string.
pub open spec fn optional_text(text: Option<String>) -> Option<Seq<char>> {
    match text {
        Some(text) => Some(text@),
        None => None,
    }
}

impl View for SymbolEntry {
    type V = SymbolEntryView;

    open spec fn view(&self) -> SymbolEntryView {
        SymbolEntryView {
            name: self.name@,
            kind: self.kind@,
            signature: optional_text(self.signature),
            doc: optional_text(self.doc),
        }
    }
}

/// The symbols of one file, in the order in which they were recorded.
#[derive(Debug)]
pub struct FileSymbols {
    pub name: String,
    pub entries: Vec<SymbolEntry>,
}

/// What a list of entries says.
pub open spec fn entries_view(entries: Seq<SymbolEntry>) -> Seq<SymbolEntryView> {
    entries.map_values(|entry: SymbolEntry| entry@)
}

/// Whether `a` comes before `b` in the order of their characters.
pub open spec fn text_less(a: Seq<char>, b: Seq<char>) -> bool
    decreases a.len(),
{
    if b.len() == 0 {
        false
    } else if a.len() == 0 {
        true
    } else if a[0] == b[0] {
        text_less(a.skip(1), b.skip(1))
    } else {
        a[0] < b[0]
    }
}

/// No text comes before itself.
pub proof fn lemma_text_less_irreflexive(a: Seq<char>)
    ensures
        !text_less(a, a),
    decreases a.len(),
{
    if a.len() > 0 {
        lemma_text_less_irreflexive(a.skip(1));
    }
}

/// The order of texts is transitive.
pub proof fn lemma_text_less_transitive(a: Seq<char>, b: Seq<char>, c: Seq<char>)
    requires
        text_less(a, b),
        text_less(b, c),
    ensures
        text_less(a, c),
    decreases a.len(),
{
    if a.len() > 0 && a[0] == b[0] && b[0] == c[0] {
        lemma_text_less_transitive(a.skip(1), b.skip(1), c.skip(1));
    }
}

/// Of two different texts one comes before the other.
pub proof fn lemma_text_less_total(a: Seq<char>, b: Seq<char>)
    ensures
        a == b || text_less(a, b) || text_less(b, a),
    decreases a.len(),
{
    if a.len() == 0 || b.len() == 0 {
        if a.len() == b.len() {
            assert(a == b);
        }
    } else if a[0] == b[0] {
        lemma_text_less_total(a.skip(1), b.skip(1));
        if a.skip(1) == b.skip(1) {
            assert(a == seq![a[0]] + a.skip(1));
            assert(b == seq![b[0]] + b.skip(1));
        }
    }
}

/// Compares two texts.
fn comes_before(a: &str, b: &str) -> (less: bool)
    ensures
        less == text_less(a@, b@),
{
    let left = chars_of(a);
    let right = chars_of(b);
    let mut i: usize = 0;
    assert(a@.skip(0) == a@);
    assert(b@.skip(0) == b@);
    while i < left.len() && i < right.len() && left[i] == right[i]
        invariant
            left@ == a@,
            right@ == b@,
            i <= a@.len(),
            i <= b@.len(),
            text_less(a@, b@) == text_less(a@.skip(i as int), b@.skip(i as int)),
        decreases left@.len() - i,
    {
        proof {
            assert(a@.skip(i as int).skip(1) == a@.skip(i + 1));
            assert(b@.skip(i as int).skip(1) == b@.skip(i + 1));
        }
        i = i + 1;
    }
    i < right.len() && (i == left.len() || left[i] < right[i])
}

/// The symbols that were found, file by file. The files stand in ascending order of their names,
/// and none stands twice.
#[derive(Debug)]
pub struct SymbolIndex {
    files: Vec<FileSymbols>,
}

/// Whether the names of the files ascend.
pub open spec fn names_ascend(files: Seq<FileSymbols>) -> bool {
    forall|i: int, j: int|
        0 <= i < j < files.len() ==> text_less(#[trigger] files[i].name@, #[trigger] files[j].name@)
}

/// Whether `files` holds a file of that name at index `at`.
pub open spec fn file_at(files: Seq<FileSymbols>, name: Seq<char>, at: int) -> bool {
    0 <= at < files.len() && files[at].name@ == name
}

/// The map from file names to entries that a list of files stands for.
pub open spec fn files_map(files: Seq<FileSymbols>) -> Map<Seq<char>, Seq<SymbolEntryView>> {
    Map::new(
        |name: Seq<char>| exists|at: int| file_at(files, name, at),
        |name: Seq<char>|
            entries_view(files[choose|at: int| file_at(files, name, at)].entries@),
    )
}

/// The map `index` with `entry` added behind the entries of `file`.
pub open spec fn with_entry(
    index: Map<Seq<char>, Seq<SymbolEntryView>>,
    file: Seq<char>,
    entry: SymbolEntryView,
) -> Map<Seq<char>, Seq<SymbolEntryView>> {
    index.insert(file, entries_of(index, file).push(entry))
}

/// The entries of `file`, none where the index does not know it.
pub open spec fn entries_of(
    index: Map<Seq<char>, Seq<SymbolEntryView>>,
    file: Seq<char>,
) -> Seq<SymbolEntryView> {
    if index.contains_key(file) {
        index[file]
    } else {
        seq![]
    }
}

proof fn lemma_file_at_unique(files: Seq<FileSymbols>, name: Seq<char>, at: int)
    requires
        names_ascend(files),
        file_at(files, name, at),
    ensures
        forall|other: int| file_at(files, name, other) ==> other == at,
        files_map(files).contains_key(name),
        files_map(files)[name] == entries_view(files[at].entries@),
{
    assert forall|other: int| file_at(files, name, other) implies other == at by {
        lemma_text_less_irreflexive(name);
    }
}

impl View for SymbolIndex {
    type V = Map<Seq<char>, Seq<SymbolEntryView>>;

    closed spec fn view(&self) -> Map<Seq<char>, Seq<SymbolEntryView>> {
        files_map(self.files@)
    }
}

impl SymbolIndex {
    /// The files stand in ascending order, so that none stands twice.
    pub closed spec fn wf(&self) -> bool {
        names_ascend(self.files@)
    }

    /// An index without symbols.
    pub fn new() -> (index: SymbolIndex)
        ensures
            index.wf(),
            index@ == Map::<Seq<char>, Seq<SymbolEntryView>>::empty(),
    {
        let index = SymbolIndex { files: Vec::new() };
        assert(index@ == Map::<Seq<char>, Seq<SymbolEntryView>>::empty());
        index
    }

    /// The files of the index, in ascending order of their names.
    pub fn files(&self) -> (files: &Vec<FileSymbols>)
        requires
            self.wf(),
        ensures
            names_ascend(files@),
            files_map(files@) == self@,
    {
        &self.files
    }

    /// The index of the first file whose name does not come before `name`.
    fn position(&self, name: &str) -> (at: usize)
        requires
            self.wf(),
        ensures
            at <= self.files@.len(),
            forall|i: int| 0 <= i < at ==> text_less(#[trigger] self.files@[i].name@, name@),
            at < self.files@.len() ==> !text_less(self.files@[at as int].name@, name@),
    {
        let mut at: usize = 0;
        while at < self.files.len() && comes_before(self.files[at].name.as_str(), name)
            invariant
                at <= self.files@.len(),
                forall|i: int| 0 <= i < at ==> text_less(#[trigger] self.files@[i].name@, name@),
            decreases self.files@.len() - at,
        {
            at = at + 1;
        }
        at
    }

    /// The entries of a file.
    pub fn get(&self, name: &str) -> (entries: Option<&Vec<SymbolEntry>>)
        requires
            self.wf(),
        ensures
            match entries {
                Some(entries) => self@.contains_key(name@) && entries_view(entries@)
                    == self@[name@],
                None => !self@.contains_key(name@),
            },
    {
        let at = self.position(name);
        if at < self.files.len() && same_text(self.files[at].name.as_str(), name) {
            proof {
                lemma_file_at_unique(self.files@, name@, at as int);
            }
            Some(&self.files[at].entries)
        } else {
            proof {
                lemma_text_less_irreflexive(name@);
                if at < self.files@.len() {
                    lemma_text_less_total(self.files@[at as int].name@, name@);
                    assert forall|i: int| at < i < self.files@.len() implies text_less(
                        name@,
                        #[trigger] self.files@[i].name@,
                    ) by {
                        lemma_text_less_transitive(
                            name@,
                            self.files@[at as int].name@,
                            self.files@[i].name@,
                        );
                    }
                }
                assert(forall|i: int| !file_at(self.files@, name@, i));
            }
            None
        }
    }

    /// Adds an entry behind those of a file.
    fn add_entry(&mut self, name: &str, entry: SymbolEntry)
        requires
            old(self).wf(),
        ensures
            final(self).wf(),
            final(self)@ == with_entry(old(self)@, name@, entry@),
    {
        let at = self.position(name);
        let ghost before = self.files@;
        if at < self.files.len() && same_text(self.files[at].name.as_str(), name) {
            self.files[at].entries.push(entry);
            proof {
                let after = self.files@;
                assert(after.len() == before.len());
                assert forall|i: int| 0 <= i < before.len() implies (#[trigger] after[i]).name
                    == before[i].name by {}
                assert(names_ascend(after));
                lemma_file_at_unique(before, name@, at as int);
                lemma_file_at_unique(after, name@, at as int);
                assert(entries_view(after[at as int].entries@) == entries_view(
                    before[at as int].entries@,
                ).push(entry@));
                assert forall|other: Seq<char>|
                    #![trigger files_map(after).dom().contains(other)]
                    #![trigger files_map(after)[other]]
                    other != name@ implies {
                    &&& files_map(after).dom().contains(other) == files_map(
                        before,
                    ).dom().contains(other)
                    &&& files_map(before).contains_key(other) ==> files_map(after)[other]
                        == files_map(before)[other]
                } by {
                    assert(forall|i: int|
                        file_at(before, other, i) == #[trigger] file_at(after, other, i));
                    if files_map(before).contains_key(other) {
                        let i = choose|i: int| file_at(before, other, i);
                        lemma_file_at_unique(before, other, i);
                        assert(file_at(after, other, i));
                        lemma_file_at_unique(after, other, i);
                    }
                }
                assert(files_map(after) == with_entry(files_map(before), name@, entry@));
            }
        } else {
            let mut entries: Vec<SymbolEntry> = Vec::new();
            entries.push(entry);
            let file = FileSymbols { name: name.to_string(), entries };
            self.files.insert(at, file);
            proof {
                let after = self.files@;
                lemma_text_less_irreflexive(name@);
                if at < before.len() {
                    lemma_text_less_total(before[at as int].name@, name@);
                    assert forall|i: int| at <= i < before.len() implies text_less(
                        name@,
                        #[trigger] before[i].name@,
                    ) by {
                        if i > at {
                            lemma_text_less_transitive(
                                name@,
                                before[at as int].name@,
                                before[i].name@,
                            );
                        }
                    }
                }
                assert(after == before.insert(at as int, file));
                assert forall|i: int, j: int| 0 <= i < j < after.len() implies text_less(
                    #[trigger] after[i].name@,
                    #[trigger] after[j].name@,
                ) by {
                    if i < at && at < j {
                        assert(text_less(before[i].name@, before[j - 1].name@));
                    } else if i > at {
                        assert(text_less(before[i - 1].name@, before[j - 1].name@));
                    } else if i == at {
                        assert(text_less(name@, before[j - 1].name@));
                    }
                }
                assert(forall|i: int| !file_at(before, name@, i));
                assert(!files_map(before).contains_key(name@));
                assert(file_at(after, name@, at as int));
                lemma_file_at_unique(after, name@, at as int);
                assert(entries_view(entries@) == seq![entry@]);
                assert forall|other: Seq<char>|
                    #![trigger files_map(after).dom().contains(other)]
                    #![trigger files_map(after)[other]]
                    other != name@ implies {
                    &&& files_map(after).dom().contains(other) == files_map(
                        before,
                    ).dom().contains(other)
                    &&& files_map(before).contains_key(other) ==> files_map(after)[other]
                        == files_map(before)[other]
                } by {
                    if files_map(before).contains_key(other) {
                        let i = choose|i: int| file_at(before, other, i);
                        lemma_file_at_unique(before, other, i);
                        let k = if i < at {
                            i
                        } else {
                            i + 1
                        };
                        assert(file_at(after, other, k));
                        lemma_file_at_unique(after, other, k);
                    }
                    if files_map(after).contains_key(other) {
                        let k = choose|k: int| file_at(after, other, k);
                        let i = if k < at {
                            k
                        } else {
                            k - 1
                        };
                        assert(file_at(before, other, i));
                    }
                }
                assert(seq![entry@] == Seq::<SymbolEntryView>::empty().push(entry@));
                assert(files_map(after) == with_entry(files_map(before), name@, entry@));
            }
        }
    }
}

/// The number of all entries of an index.
pub open spec fn total_entries(index: Map<Seq<char>, Seq<SymbolEntryView>>) -> nat
    decreases index.dom().len(),
    when index.dom().finite()
{
    if index.dom().len() == 0 {
        0
    } else {
        let file = index.dom().choose();
        index[file].len() + total_entries(index.remove(file))
    }
}

/// The entries may be counted file by file in any order.
pub proof fn lemma_total_entries(index: Map<Seq<char>, Seq<SymbolEntryView>>, file: Seq<char>)
    requires
        index.dom().finite(),
        index.contains_key(file),
    ensures
        total_entries(index) == index[file].len() + total_entries(index.remove(file)),
    decreases index.dom().len(),
{
    let first = index.dom().choose();
    assert(index.dom().contains(file));
    if first != file {
        let rest = index.remove(first);
        lemma_total_entries(rest, file);
        assert(rest.remove(file) == index.remove(file).remove(first));
        lemma_total_entries(index.remove(file), first);
    }
}

/// A new entry stands behind the entries of its file, leaves the other files as they are, and
/// counts once.
pub proof fn lemma_with_entry(
    index: Map<Seq<char>, Seq<SymbolEntryView>>,
    file: Seq<char>,
    entry: SymbolEntryView,
)
    ensures
        with_entry(index, file, entry).contains_key(file),
        entries_of(with_entry(index, file, entry), file) == entries_of(index, file).push(entry),
        forall|other: Seq<char>|
            other != file ==> {
                &&& with_entry(index, file, entry).contains_key(other) == index.contains_key(other)
                &&& #[trigger] entries_of(with_entry(index, file, entry), other) == entries_of(
                    index,
                    other,
                )
            },
        index.dom().finite() ==> {
            &&& with_entry(index, file, entry).dom().finite()
            &&& total_entries(with_entry(index, file, entry)) == total_entries(index) + 1
        },
{
    let after = with_entry(index, file, entry);
    if index.dom().finite() {
        lemma_total_entries(after, file);
        assert(after.remove(file) == index.remove(file));
        if index.contains_key(file) {
            lemma_total_entries(index, file);
        } else {
            assert(index.remove(file) == index);
        }
    }
}

proof fn lemma_files_map_finite(files: Seq<FileSymbols>)
    ensures
        files_map(files).dom().finite(),
{
    let names = files.map_values(|file: FileSymbols| file.name@);
    vstd::seq_lib::seq_to_set_is_finite(names);
    assert forall|name: Seq<char>|
        files_map(files).dom().contains(name) implies names.to_set().contains(name) by {
        let at = choose|at: int| file_at(files, name, at);
        assert(names[at] == name);
    }
    vstd::set_lib::lemma_set_subset_finite(names.to_set(), files_map(files).dom());
}

proof fn lemma_total_of_files(files: Seq<FileSymbols>)
    requires
        names_ascend(files),
        files.len() > 0,
    ensures
        total_entries(files_map(files)) == total_entries(files_map(files.drop_last()))
            + files.last().entries@.len(),
{
    let last = files.last();
    let rest = files.drop_last();
    lemma_files_map_finite(files);
    lemma_file_at_unique(files, last.name@, files.len() - 1);
    lemma_total_entries(files_map(files), last.name@);
    assert forall|name: Seq<char>|
        #![trigger files_map(rest).dom().contains(name)]
        #![trigger files_map(rest)[name]]
        {
        &&& files_map(rest).dom().contains(name) == (name != last.name@ && files_map(
            files,
        ).dom().contains(name))
        &&& files_map(rest).dom().contains(name) ==> files_map(rest)[name] == files_map(
            files,
        )[name]
    } by {
        if files_map(rest).dom().contains(name) {
            let at = choose|at: int| file_at(rest, name, at);
            assert(file_at(files, name, at));
            lemma_file_at_unique(files, name, at);
            lemma_file_at_unique(rest, name, at);
        }
        if name != last.name@ && files_map(files).dom().contains(name) {
            let at = choose|at: int| file_at(files, name, at);
            assert(file_at(rest, name, at));
        }
    }
    assert(files_map(files).remove(last.name@) == files_map(rest));
}

proof fn lemma_total_monotonic(files: Seq<FileSymbols>, upto: int)
    requires
        names_ascend(files),
        0 <= upto <= files.len(),
    ensures
        total_entries(files_map(files.take(upto))) <= total_entries(files_map(files)),
    decreases files.len(),
{
    if upto == files.len() {
        assert(files.take(upto) == files);
    } else {
        lemma_total_of_files(files);
        lemma_total_monotonic(files.drop_last(), upto);
        assert(files.drop_last().take(upto) == files.take(upto));
    }
}

impl SymbolIndex {
    /// An index has finitely many files.
    pub proof fn lemma_view_is_finite(&self)
        requires
            self.wf(),
        ensures
            self@.dom().finite(),
    {
        lemma_files_map_finite(self.files@);
    }

    /// The number of all entries, if it can be counted.
    pub fn checked_symbol_count(&self) -> (count: Option<usize>)
        requires
            self.wf(),
        ensures
            match count {
                Some(count) => count == total_entries(self@),
                None => total_entries(self@) > usize::MAX,
            },
    {
        let mut count: usize = 0;
        proof {
            assert(files_map(self.files@.take(0)) == Map::<
                Seq<char>,
                Seq<SymbolEntryView>,
            >::empty());
        }
        for i in 0..self.files.len()
            invariant
                self.wf(),
                count == total_entries(files_map(self.files@.take(i as int))),
        {
            proof {
                let next = self.files@.take(i + 1);
                lemma_total_of_files(next);
                assert(next.drop_last() == self.files@.take(i as int));
                lemma_total_monotonic(self.files@, i + 1);
            }
            match count.checked_add(self.files[i].entries.len()) {
                Some(sum) => {
                    count = sum;
                },
                None => {
                    return None;
                },
            }
        }
        assert(self.files@.take(self.files@.len() as int) == self.files@);
        Some(count)
    }

    /// The number of all entries.
    pub fn symbol_count(&self) -> (count: usize)
        requires
            self.wf(),
            total_entries(self@) <= usize::MAX,
        ensures
            count == total_entries(self@),
    {
        self.checked_symbol_count().unwrap()
    }
}

/// Records a symbol that has neither a signature nor a comment.
pub fn record_symbol(symbols: &mut SymbolIndex, file_name: &str, kind: &str, name: &str)
    requires
        old(symbols).wf(),
    ensures
        final(symbols).wf(),
        final(symbols)@ == with_entry(
            old(symbols)@,
            file_name@,
            (SymbolEntryView { name: name@, kind: kind@, signature: None, doc: None }),
        ),
{
    symbols.add_entry(
        file_name,
        SymbolEntry { name: name.to_string(), kind: kind.to_string(), signature: None, doc: None },
    );
}

/// Records a symbol with its signature and its comment.
pub fn record_symbol_with_details(
    symbols: &mut SymbolIndex,
    file_name: &str,
    kind: &str,
    name: &str,
    signature: Option<String>,
    doc: Option<String>,
)
    requires
        old(symbols).wf(),
    ensures
        final(symbols).wf(),
        final(symbols)@ == with_entry(
            old(symbols)@,
            file_name@,
            (SymbolEntryView {
                name: name@,
                kind: kind@,
                signature: optional_text(signature),
                doc: optional_text(doc),
            }),
        ),
{
    symbols.add_entry(
        file_name,
        SymbolEntry { name: name.to_string(), kind: kind.to_string(), signature, doc },
    );
}

} // verus!
