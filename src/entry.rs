//! One entry of a directory: its name and whether it is a file or a directory.
use vstd::prelude::*;
use crate::names::{is_hidden, is_hidden_name};

verus! {

/// The name given to an entry whose name on disk is not valid Unicode.
pub const NAME_PLACEHOLDER: &'static str = "Bad Dir";

/// What a directory entry is. Anything whose metadata could not be read
/// counts as a file.
#[derive(Clone, Copy, Debug, PartialEq, Eq, Structural)]
pub enum EntryKind {
    File,
    Directory,
}

/// A directory entry as read from disk.
pub struct Entry {
    pub name: String,
    pub kind: EntryKind,
}

/// The mathematical value of an entry.
pub ghost struct EntryView {
    pub name: Seq<char>,
    pub kind: EntryKind,
}

impl EntryView {
    /// Hidden entries are those whose name begins with a dot.
    pub open spec fn hidden(self) -> bool {
        is_hidden_name(self.name)
    }
}

impl View for Entry {
    type V = EntryView;

    open spec fn view(&self) -> EntryView {
        EntryView { name: self.name@, kind: self.kind }
    }
}

/// The values of a sequence of entries.
pub open spec fn views(s: Seq<Entry>) -> Seq<EntryView> {
    s.map_values(|e: Entry| e@)
}

impl Entry {
    pub fn new(name: String, kind: EntryKind) -> (e: Entry)
        ensures
            e@ == (EntryView { name: name@, kind }),
    {
        Entry { name, kind }
    }

    pub fn name(&self) -> (r: &str)
        ensures
            r@ == self@.name,
    {
        self.name.as_str()
    }

    pub fn kind(&self) -> (r: EntryKind)
        ensures
            r == self@.kind,
    {
        self.kind
    }

    pub fn is_directory(&self) -> (r: bool)
        ensures
            r == (self@.kind == EntryKind::Directory),
    {
        self.kind == EntryKind::Directory
    }

    pub fn is_hidden(&self) -> (r: bool)
        ensures
            r == self@.hidden(),
    {
        is_hidden(self.name.as_str())
    }

    /// A copy with the same value.
    pub fn duplicate(&self) -> (r: Entry)
        ensures
            r@ == self@,
    {
        Entry { name: self.name.clone(), kind: self.kind }
    }

    /// The text shown for the entry in a pane: its name, followed by a slash
    /// for a directory.
    pub fn label(&self) -> (r: String)
        ensures
            self@.kind == EntryKind::Directory ==> r@ == self@.name.push('/'),
            self@.kind == EntryKind::File ==> r@ == self@.name,
    {
        let mut r = self.name.clone();
        if self.kind == EntryKind::Directory {
            r.append("/");
            proof {
                reveal_strlit("/");
            }
        }
        r
    }
}

} // verus!
