//! Which parts of a directory are indexed.

use crate::languages::{language_of, Language};
use crate::text::{chars_of, has_prefix, same_text, starts_with};
use vstd::prelude::*;

verus! {

/// Something that a directory holds, as far as it decides what is done with it. An extension or a
/// name that cannot be told is left out.
#[derive(Debug)]
pub enum DirectoryEntry {
    File { extension: Option<String> },
    Directory { name: Option<String> },
    Other,
}

/// What is done with something that a directory holds.
#[derive(Clone, Copy, Debug, PartialEq, Eq, Structural)]
pub enum EntryAction {
    IndexFile,
    IndexDirectory,
    Skip,
}

/// Whether files with an extension, given in lower case, are indexed.
pub open spec fn is_supported_extension(extension: Seq<char>) -> bool {
    ||| extension == "rs"@
    ||| extension == "py"@
    ||| extension == "js"@
    ||| extension == "jsx"@
    ||| extension == "ts"@
    ||| extension == "tsx"@
    ||| extension == "java"@
    ||| extension == "swift"@
    ||| extension == "m"@
    ||| extension == "mm"@
    ||| extension == "css"@
    ||| extension == "scala"@
    ||| extension == "zig"@
    ||| extension == "yaml"@
    ||| extension == "yml"@
    ||| extension == "go"@
    ||| extension == "php"@
    ||| extension == "xml"@
    ||| extension == "sh"@
    ||| extension == "bash"@
    ||| extension == "json"@
    ||| extension == "html"@
    ||| extension == "htm"@
    ||| extension == "cs"@
    ||| extension == "rb"@
    ||| extension == "md"@
    ||| extension == "markdown"@
    ||| extension == "lua"@
    ||| extension == "dart"@
    ||| extension == "c"@
    ||| extension == "cpp"@
    ||| extension == "h"@
}

/// Whether a directory of that name holds what was built or brought from elsewhere.
pub open spec fn is_build_directory(name: Seq<char>) -> bool {
    ||| name == "node_modules"@
    ||| name == "target"@
    ||| name == "build"@
    ||| name == "__pycache__"@
    ||| name == "dist"@
    ||| name == "venv"@
    ||| name == ".git"@
    ||| name == ".svn"@
    ||| name == ".hg"@
    ||| name == "bin"@
    ||| name == "obj"@
}

/// Whether a directory of that name is entered: it is neither hidden nor a build directory.
pub open spec fn is_entered_directory(name: Seq<char>) -> bool {
    !has_prefix(name, "."@) && !is_build_directory(name)
}

/// Whether a text is written in ASCII.
pub open spec fn is_ascii_text(text: Seq<char>) -> bool {
    forall|i: int| 0 <= i < text.len() ==> #[trigger] text[i] < '\u{80}'
}

/// An ASCII character in lower case.
pub open spec fn ascii_lower(c: char) -> char {
    if 'A' <= c <= 'Z' {
        (c as int + 32) as char
    } else {
        c
    }
}

/// A text with its ASCII letters in lower case.
pub open spec fn ascii_lowercase(text: Seq<char>) -> Seq<char> {
    text.map_values(|c: char| ascii_lower(c))
}

/// A text in lower case.
pub uninterp spec fn lowercase_text(text: Seq<char>) -> Seq<char>;

/// `str::to_lowercase`: in an ASCII text each letter becomes the lower case one and every other
/// character stays.
#[verifier::external_body]
fn to_lowercase(text: &str) -> (lowered: String)
    ensures
        lowered@ == lowercase_text(text@),
        is_ascii_text(text@) ==> lowered@ == ascii_lowercase(text@),
{
    text.to_lowercase()
}

/// What is done with something that a directory holds.
pub open spec fn action_for(entry: DirectoryEntry) -> EntryAction {
    match entry {
        DirectoryEntry::File { extension: Some(extension) } => if is_supported_extension(
            lowercase_text(extension@),
        ) {
            EntryAction::IndexFile
        } else {
            EntryAction::Skip
        },
        DirectoryEntry::Directory { name: Some(name) } => if is_entered_directory(name@) {
            EntryAction::IndexDirectory
        } else {
            EntryAction::Skip
        },
        _ => EntryAction::Skip,
    }
}

/// Hidden directories and build directories are never entered, whatever stands in them.
pub proof fn lemma_skipped_directories(name: String)
    requires
        has_prefix(name@, "."@) || is_build_directory(name@),
    ensures
        action_for((DirectoryEntry::Directory { name: Some(name) })) == EntryAction::Skip,
{
}

/// The extensions of the files that are indexed are those of the languages that are known.
pub proof fn lemma_supported_extensions_are_known(extension: Seq<char>)
    ensures
        is_supported_extension(extension) <==> language_of(extension) != Language::Unknown,
{
}

/// Tests whether files with an extension, given in lower case, are indexed.
pub fn supports_extension(extension: &str) -> (supported: bool)
    ensures
        supported == is_supported_extension(extension@),
{
    same_text(extension, "rs") || same_text(extension, "py") || same_text(extension, "js")
        || same_text(extension, "jsx") || same_text(extension, "ts") || same_text(extension, "tsx")
        || same_text(extension, "java") || same_text(extension, "swift") || same_text(
        extension,
        "m",
    ) || same_text(extension, "mm") || same_text(extension, "css") || same_text(extension, "scala")
        || same_text(extension, "zig") || same_text(extension, "yaml") || same_text(
        extension,
        "yml",
    ) || same_text(extension, "go") || same_text(extension, "php") || same_text(extension, "xml")
        || same_text(extension, "sh") || same_text(extension, "bash") || same_text(
        extension,
        "json",
    ) || same_text(extension, "html") || same_text(extension, "htm") || same_text(extension, "cs")
        || same_text(extension, "rb") || same_text(extension, "md") || same_text(
        extension,
        "markdown",
    ) || same_text(extension, "lua") || same_text(extension, "dart") || same_text(extension, "c")
        || same_text(extension, "cpp") || same_text(extension, "h")
}

/// Tests whether a directory of that name is entered.
pub fn enters_directory(name: &str) -> (entered: bool)
    ensures
        entered == is_entered_directory(name@),
{
    !starts_with(&chars_of(name), ".") && !(same_text(name, "node_modules") || same_text(
        name,
        "target",
    ) || same_text(name, "build") || same_text(name, "__pycache__") || same_text(name, "dist")
        || same_text(name, "venv") || same_text(name, ".git") || same_text(name, ".svn")
        || same_text(name, ".hg") || same_text(name, "bin") || same_text(name, "obj"))
}

/// Decides what is done with something that a directory holds.
pub fn plan_entry(entry: &DirectoryEntry) -> (action: EntryAction)
    ensures
        action == action_for(*entry),
        *entry matches DirectoryEntry::File { extension: Some(extension) } ==> (is_ascii_text(
            extension@,
        ) ==> lowercase_text(extension@) == ascii_lowercase(extension@)),
{
    match entry {
        DirectoryEntry::File { extension: Some(extension) } => {
            if supports_extension(to_lowercase(extension.as_str()).as_str()) {
                EntryAction::IndexFile
            } else {
                EntryAction::Skip
            }
        },
        DirectoryEntry::Directory { name: Some(name) } => {
            if enters_directory(name.as_str()) {
                EntryAction::IndexDirectory
            } else {
                EntryAction::Skip
            }
        },
        _ => EntryAction::Skip,
    }
}

} // verus!
