//! Entries of a listing: what the filesystem reports of one directory
//! entry, and the display record made from it.

use crate::size::{size_display, size_text, sum_sizes, total_size};
use crate::stamp::{modified_display, modified_text, Timestamp};
use vstd::prelude::*;
use vstd::string::*;

verus! {

/// Whether an entry is a regular file or a directory.
#[derive(Debug, Clone, Copy, PartialEq, Eq, Structural)]
pub enum EntryType {
    File,
    Dir,
}

/// One row of a listing.
#[derive(Debug, Clone, PartialEq, Eq)]
pub struct FileEntry {
    pub e_type: EntryType,
    pub name: String,
    pub len_bytes: String,
    pub modified: String,
    pub read_only: bool,
    pub hidden: bool,
    pub is_exec: bool,
}

/// The mathematical value of a [`FileEntry`]: its texts as sequences of
/// characters.
pub struct EntryView {
    pub e_type: EntryType,
    pub name: Seq<char>,
    pub len_bytes: Seq<char>,
    pub modified: Seq<char>,
    pub read_only: bool,
    pub hidden: bool,
    pub is_exec: bool,
}

impl View for FileEntry {
    type V = EntryView;

    open spec fn view(&self) -> EntryView {
        EntryView {
            e_type: self.e_type,
            name: self.name@,
            len_bytes: self.len_bytes@,
            modified: self.modified@,
            read_only: self.read_only,
            hidden: self.hidden,
            is_exec: self.is_exec,
        }
    }
}

/// What the filesystem reports of one directory entry.
#[derive(Debug, Clone, PartialEq, Eq)]
pub struct EntryMeta {
    /// The entry's name, `None` where it is not valid UTF-8.
    pub name: Option<String>,
    /// Whether the entry is a directory.
    pub is_dir: bool,
    /// The size that the entry's own metadata gives.
    pub len: u64,
    /// The lengths of the regular files found beneath a directory.
    pub tree_sizes: Vec<u64>,
    /// The modification time, `None` where none is reported.
    pub modified: Option<Timestamp>,
    /// Whether the entry is read-only.
    pub read_only: bool,
    /// Whether any execute permission bit is set.
    pub executable: bool,
}

/// The views of a sequence of entries.
pub open spec fn views(entries: Seq<FileEntry>) -> Seq<EntryView> {
    entries.map_values(|e: FileEntry| e@)
}

/// The name shown for an entry whose own name cannot be shown.
pub open spec fn unknown_name() -> Seq<char> {
    seq!['u', 'n', 'k', 'n', 'o', 'w', 'n', ' ', 'n', 'a', 'm', 'e']
}

/// The dotted names that are always shown and never treated as hidden.
pub open spec fn special_names() -> Seq<Seq<char>> {
    seq![seq!['.', 'g', 'i', 't', 'i', 'g', 'n', 'o', 'r', 'e']]
}

/// Whether a name is on the list of dotted names that are always shown.
pub open spec fn is_special_name(name: Seq<char>) -> bool {
    special_names().contains(name)
}

/// Whether a name begins with a dot.
pub open spec fn has_leading_dot(name: Seq<char>) -> bool {
    name.len() > 0 && name[0] == '.'
}

/// Whether an entry of this name is hidden: the name begins with a dot
/// and is not on the always-shown list.
pub open spec fn is_hidden_name(name: Seq<char>) -> bool {
    has_leading_dot(name) && !is_special_name(name)
}

/// The name shown for an entry.
pub open spec fn display_name(name: Option<String>) -> Seq<char> {
    match name {
        Some(n) => n@,
        None => unknown_name(),
    }
}

/// Whether an entry is shown with the total of the tree beneath it: it
/// is a directory and directory sizes are asked for.
pub open spec fn shows_tree_total(is_dir: bool, directory_size: bool) -> bool {
    is_dir && directory_size
}

/// The byte count shown for an entry: the total of the tree beneath a
/// directory when directory sizes are asked for, the entry's own size
/// otherwise.
pub open spec fn shown_bytes(meta: EntryMeta, directory_size: bool) -> nat {
    if shows_tree_total(meta.is_dir, directory_size) {
        sum_sizes(meta.tree_sizes@)
    } else {
        meta.len as nat
    }
}

/// The kind of an entry.
pub open spec fn kind_of(meta: EntryMeta) -> EntryType {
    if meta.is_dir {
        EntryType::Dir
    } else {
        EntryType::File
    }
}

/// The row that stands for a directory entry.
pub open spec fn entry_of(meta: EntryMeta, directory_size: bool, byte_size: bool) -> EntryView {
    EntryView {
        e_type: kind_of(meta),
        name: display_name(meta.name),
        len_bytes: size_text(shown_bytes(meta, directory_size), byte_size),
        modified: modified_text(meta.modified),
        read_only: meta.read_only,
        hidden: is_hidden_name(display_name(meta.name)),
        is_exec: meta.executable,
    }
}

impl EntryType {
    /// The label of the kind: "File" or "Dir".
    pub open spec fn label(self) -> Seq<char> {
        match self {
            EntryType::File => seq!['F', 'i', 'l', 'e'],
            EntryType::Dir => seq!['D', 'i', 'r'],
        }
    }

    /// The label of the kind as text.
    pub fn to_text(&self) -> (out: String)
        ensures
            out@ == self.label(),
    {
        proof {
            reveal_strlit("File");
            reveal_strlit("Dir");
            assert("File"@ =~= EntryType::File.label());
            assert("Dir"@ =~= EntryType::Dir.label());
        }
        match self {
            EntryType::File => String::from_str("File"),
            EntryType::Dir => String::from_str("Dir"),
        }
    }
}

/// Tells whether a name is on the list of dotted names that are always
/// shown.
pub fn is_special_file(name: &str) -> (r: bool)
    ensures
        r == is_special_name(name@),
{
    proof {
        reveal_strlit(".gitignore");
        assert(".gitignore"@ =~= special_names()[0]);
    }
    String::from_str(name) == String::from_str(".gitignore")
}

/// Tells whether a name begins with a dot.
pub fn starts_with_dot(name: &str) -> (r: bool)
    ensures
        r == has_leading_dot(name@),
{
    name.unicode_len() > 0 && name.get_char(0) == '.'
}

/// Tells whether an entry of this name is hidden.
pub fn is_hidden(name: &str) -> (r: bool)
    ensures
        r == is_hidden_name(name@),
{
    starts_with_dot(name) && !is_special_file(name)
}

/// Tells whether an entry is shown with the total of the tree beneath
/// it, so that the lengths of the files in that tree are needed.
pub fn needs_tree_sizes(is_dir: bool, directory_size: bool) -> (r: bool)
    ensures
        r == shows_tree_total(is_dir, directory_size),
{
    is_dir && directory_size
}

/// The name shown for an entry.
fn shown_name(name: &Option<String>) -> (out: String)
    ensures
        out@ == display_name(*name),
{
    proof {
        reveal_strlit("unknown name");
        assert("unknown name"@ =~= unknown_name());
    }
    match name {
        Some(n) => n.clone(),
        None => String::from_str("unknown name"),
    }
}

/// Builds the row of a directory entry.
pub fn entry_from_meta(meta: &EntryMeta, directory_size: bool, byte_size: bool) -> (entry:
    FileEntry)
    ensures
        entry@ == entry_of(*meta, directory_size, byte_size),
{
    let name = shown_name(&meta.name);
    let bytes: u128 = if needs_tree_sizes(meta.is_dir, directory_size) {
        total_size(&meta.tree_sizes)
    } else {
        meta.len as u128
    };
    let hidden = is_hidden(name.as_str());
    FileEntry {
        e_type: if meta.is_dir {
            EntryType::Dir
        } else {
            EntryType::File
        },
        name,
        len_bytes: size_display(bytes, byte_size),
        modified: modified_display(meta.modified),
        read_only: meta.read_only,
        hidden,
        is_exec: meta.executable,
    }
}

} // verus!
