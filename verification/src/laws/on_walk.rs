//! Laws on the walk through a directory.

use crate::laws::on_text::law_parts;
use crate::walk::{
    action_for, ascii_lowercase, is_build_directory, is_supported_extension, lowercase_text,
    DirectoryEntry, EntryAction,
};
use vstd::prelude::*;

verus! {

/// The extensions of the files that are indexed.
pub open spec fn indexed_extensions() -> Seq<Seq<char>> {
    seq![
        "rs"@,
        "py"@,
        "js"@,
        "jsx"@,
        "ts"@,
        "tsx"@,
        "java"@,
        "swift"@,
        "m"@,
        "mm"@,
        "css"@,
        "scala"@,
        "zig"@,
        "yaml"@,
        "yml"@,
        "go"@,
        "php"@,
        "xml"@,
        "sh"@,
        "bash"@,
        "json"@,
        "html"@,
        "htm"@,
        "cs"@,
        "rb"@,
        "md"@,
        "markdown"@,
        "lua"@,
        "dart"@,
        "c"@,
        "cpp"@,
        "h"@,
    ]
}

/// The directories that are not entered though they are not hidden, and some that are hidden.
pub open spec fn left_directories() -> Seq<Seq<char>> {
    seq![
        "node_modules"@,
        "target"@,
        "build"@,
        "__pycache__"@,
        "dist"@,
        "venv"@,
        ".git"@,
        ".svn"@,
        ".hg"@,
        "bin"@,
        "obj"@,
    ]
}

proof fn lemma_extensions(extension: Seq<char>)
    ensures
        is_supported_extension(extension) <==> indexed_extensions().contains(extension),
{
    let listed = indexed_extensions();
    if is_supported_extension(extension) {
        assert(extension == listed[0]
            || extension == listed[1]
            || extension == listed[2]
            || extension == listed[3]
            || extension == listed[4]
            || extension == listed[5]
            || extension == listed[6]
            || extension == listed[7]
            || extension == listed[8]
            || extension == listed[9]
            || extension == listed[10]
            || extension == listed[11]
            || extension == listed[12]
            || extension == listed[13]
            || extension == listed[14]
            || extension == listed[15]
            || extension == listed[16]
            || extension == listed[17]
            || extension == listed[18]
            || extension == listed[19]
            || extension == listed[20]
            || extension == listed[21]
            || extension == listed[22]
            || extension == listed[23]
            || extension == listed[24]
            || extension == listed[25]
            || extension == listed[26]
            || extension == listed[27]
            || extension == listed[28]
            || extension == listed[29]
            || extension == listed[30]
            || extension == listed[31]);
    }
}

proof fn lemma_directories(name: Seq<char>)
    ensures
        is_build_directory(name) <==> left_directories().contains(name),
{
    let listed = left_directories();
    if is_build_directory(name) {
        assert(name == listed[0]
            || name == listed[1]
            || name == listed[2]
            || name == listed[3]
            || name == listed[4]
            || name == listed[5]
            || name == listed[6]
            || name == listed[7]
            || name == listed[8]
            || name == listed[9]
            || name == listed[10]);
    }
}

/// A file is indexed if and only if its extension, in lower case, is one of those.
pub proof fn law_files(extension: String)
    ensures
        action_for((DirectoryEntry::File { extension: Some(extension) }))
            == if indexed_extensions().contains(lowercase_text(extension@)) {
            EntryAction::IndexFile
        } else {
            EntryAction::Skip
        },
{
    lemma_extensions(lowercase_text(extension@));
}

/// A directory is entered if and only if its name does not start with a dot and is none of those
/// that are left out.
pub proof fn law_directories(name: String)
    ensures
        action_for((DirectoryEntry::Directory { name: Some(name) })) == if (name@.len() > 0
            && name@[0] == '.') || left_directories().contains(name@) {
            EntryAction::Skip
        } else {
            EntryAction::IndexDirectory
        },
{
    lemma_directories(name@);
    law_parts(name@, "."@);
    reveal_strlit(".");
    if name@.len() > 0 {
        assert(name@.subrange(0, 1)[0] == name@[0]);
        if name@[0] == '.' {
            assert(name@.subrange(0, 1) == "."@);
        }
    }
}

/// Everything else is skipped.
pub proof fn law_others()
    ensures
        action_for((DirectoryEntry::File { extension: None })) == EntryAction::Skip,
        action_for((DirectoryEntry::Directory { name: None })) == EntryAction::Skip,
        action_for(DirectoryEntry::Other) == EntryAction::Skip,
{
}

/// In ASCII, lower case turns each capital into its small letter and keeps all else.
pub proof fn law_ascii_lowercase(text: Seq<char>)
    ensures
        ascii_lowercase(text).len() == text.len(),
        forall|i: int|
            0 <= i < text.len() ==> (#[trigger] ascii_lowercase(text)[i]) as int == if 65
                <= text[i] as int <= 90 {
                text[i] as int + 32
            } else {
                text[i] as int
            },
{
}

} // verus!
