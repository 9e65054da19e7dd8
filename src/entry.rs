use vstd::prelude::*;

verus! {

/// The first character of a hidden entry's name.
pub const HIDDEN_MARKER: char = '.';

/// What the file system reports an entry to be.
#[derive(Clone, Copy, Debug, PartialEq, Eq, Structural)]
pub enum EntryKind {
    Directory,
    File,
    Other,
}

/// One entry of a directory listing: its name within the directory and its kind.
#[derive(Debug)]
pub struct Entry {
    pub name: String,
    pub kind: EntryKind,
}

/// How the crawler treats a directory entry.
#[derive(Clone, Copy, Debug, PartialEq, Eq, Structural)]
pub enum FileType {
    /// A hidden entry: never recursed into, never validated.
    DotFile,
    /// A visible sub-directory: crawled on its own.
    Directory,
    /// A visible regular file with the qualifying extension.
    Qualifying,
    /// Anything else: ignored.
    Other,
}

/// A name is hidden when it starts with the hidden marker.
pub open spec fn is_hidden(name: Seq<char>) -> bool {
    name.len() > 0 && name[0] == HIDDEN_MARKER
}

/// A name carries the qualifying extension `tf` (it ends in `.tf`).
pub open spec fn has_qualifying_extension(name: Seq<char>) -> bool {
    &&& name.len() >= 3
    &&& name[name.len() - 3] == '.'
    &&& name[name.len() - 2] == 't'
    &&& name[name.len() - 1] == 'f'
}

/// The class of an entry, as the crawler sees it.
pub open spec fn file_type_of(name: Seq<char>, kind: EntryKind) -> FileType {
    if is_hidden(name) {
        FileType::DotFile
    } else if kind == EntryKind::Directory {
        FileType::Directory
    } else if kind == EntryKind::File && has_qualifying_extension(name) {
        FileType::Qualifying
    } else {
        FileType::Other
    }
}

/// Whether a directory entry name is hidden (a "dot file").
pub fn is_dot_file(name: &str) -> (r: bool)
    ensures
        r == is_hidden(name@),
{
    name.unicode_len() > 0 && name.get_char(0) == HIDDEN_MARKER
}

/// Whether a file name ends in the qualifying extension.
pub fn is_qualifying_name(name: &str) -> (r: bool)
    ensures
        r == has_qualifying_extension(name@),
{
    let n = name.unicode_len();
    n >= 3 && name.get_char(n - 3) == '.' && name.get_char(n - 2) == 't' && name.get_char(n - 1)
        == 'f'
}

/// Classifies one entry of a directory listing.
pub fn file_type(entry: &Entry) -> (r: FileType)
    ensures
        r == file_type_of(entry.name@, entry.kind),
{
    if is_dot_file(entry.name.as_str()) {
        FileType::DotFile
    } else if entry.kind == EntryKind::Directory {
        FileType::Directory
    } else if entry.kind == EntryKind::File && is_qualifying_name(entry.name.as_str()) {
        FileType::Qualifying
    } else {
        FileType::Other
    }
}

} // verus!
