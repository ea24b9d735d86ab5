//! The third pane: what the hovered entry holds.
use vstd::prelude::*;
use vstd::utf8::{decode_utf8, valid_utf8};
use crate::entry::{Entry, EntryKind, EntryView, views};
use crate::listing::{is_listing_of, lemma_listing_hides, none_hidden, Listing};

verus! {

/// At most this many characters of a file are shown.
pub const PREVIEW_LIMIT: usize = 16384;

/// Reading this many bytes of a file is enough to tell whether it has more
/// than `PREVIEW_LIMIT` characters, since a character takes at most four bytes.
pub const PREVIEW_READ_BYTES: usize = 4 * PREVIEW_LIMIT + 4;

/// What follows a file's text when the file is longer than the preview shows.
pub const TRUNCATION_MARKER: &'static str = "\n[truncated]";

/// What was read for the hovered entry: the entries of a directory, the text
/// of a file, or nothing usable (unreadable, or not text).
pub enum PreviewRead {
    Entries(Vec<Entry>),
    Text(String),
    Unreadable,
}

/// The content of the preview pane.
pub enum Preview {
    /// Nothing is hovered, or the preview has not been loaded.
    Empty,
    /// The listing of the hovered directory.
    Entries(Listing),
    /// The text of the hovered file, cut to `PREVIEW_LIMIT` characters.
    Text(String),
    /// The hovered file cannot be shown.
    Unreadable,
}

pub ghost enum PreviewView {
    Empty,
    Entries(Seq<EntryView>),
    Text(Seq<char>),
    Unreadable,
}

impl View for Preview {
    type V = PreviewView;

    open spec fn view(&self) -> PreviewView {
        match self {
            Preview::Empty => PreviewView::Empty,
            Preview::Entries(l) => PreviewView::Entries(l@),
            Preview::Text(t) => PreviewView::Text(t@),
            Preview::Unreadable => PreviewView::Unreadable,
        }
    }
}

/// A file's text as the preview shows it: whole up to `PREVIEW_LIMIT`
/// characters, else its first `PREVIEW_LIMIT` characters and the marker.
pub open spec fn capped(text: Seq<char>) -> Seq<char> {
    if text.len() <= PREVIEW_LIMIT {
        text
    } else {
        text.take(PREVIEW_LIMIT as int) + TRUNCATION_MARKER@
    }
}

/// No entry that the preview shows is hidden.
pub open spec fn preview_hides(p: PreviewView) -> bool {
    match p {
        PreviewView::Entries(l) => none_hidden(l),
        _ => true,
    }
}

/// `p` is the preview of `hovered` given what was read for it. A directory
/// that could not be listed previews as an empty listing; a file that could
/// not be read as text previews as unreadable.
pub open spec fn is_preview_of(
    p: PreviewView,
    hovered: Option<EntryView>,
    read: PreviewRead,
    show_hidden: bool,
) -> bool {
    match hovered {
        None => p == PreviewView::Empty,
        Some(e) => if e.kind == EntryKind::Directory {
            match read {
                PreviewRead::Entries(raw) => (p matches PreviewView::Entries(l) && is_listing_of(
                    l,
                    views(raw@),
                    show_hidden,
                )),
                _ => p == PreviewView::Entries(Seq::empty()),
            }
        } else {
            match read {
                PreviewRead::Text(t) => p == PreviewView::Text(capped(t@)),
                _ => p == PreviewView::Unreadable,
            }
        },
    }
}

/// The value of an entry that may be absent.
pub open spec fn entry_view(e: Option<&Entry>) -> Option<EntryView> {
    match e {
        Some(e) => Some(e@),
        None => None,
    }
}

/// Cuts a file's text to what the preview shows.
pub fn cap_text(text: String) -> (r: String)
    ensures
        r@ == capped(text@),
{
    if text.as_str().unicode_len() <= PREVIEW_LIMIT {
        text
    } else {
        let head = text.as_str().substring_char(0, PREVIEW_LIMIT);
        let mut r = head.to_owned();
        r.append(TRUNCATION_MARKER);
        r
    }
}

/// How many of a file's first bytes, as read, preview as text: all of them
/// when they are UTF-8; when the read stopped at `PREVIEW_READ_BYTES`, all
/// but the one to three bytes of a character cut there; none otherwise.
pub open spec fn text_prefix_len(bytes: Seq<u8>) -> Option<int> {
    let n = bytes.len() as int;
    if valid_utf8(bytes) {
        Some(n)
    } else if n != PREVIEW_READ_BYTES {
        None
    } else if valid_utf8(bytes.take(n - 1)) {
        Some(n - 1)
    } else if valid_utf8(bytes.take(n - 2)) {
        Some(n - 2)
    } else if valid_utf8(bytes.take(n - 3)) {
        Some(n - 3)
    } else {
        None
    }
}

/// Relies on std::str::from_utf8: it succeeds exactly on valid UTF-8, and
/// the text then holds the characters that the bytes encode.
#[verifier::external_body]
fn decode_text(bytes: &[u8]) -> (r: Option<String>)
    ensures
        r is Some <==> valid_utf8(bytes@),
        r matches Some(s) ==> s@ == decode_utf8(bytes@),
{
    std::str::from_utf8(bytes).ok().map(|s| s.to_string())
}

/// Decodes the first `n` bytes, if they are UTF-8.
fn decode_prefix(bytes: &Vec<u8>, n: usize) -> (r: Option<String>)
    requires
        n <= bytes@.len(),
    ensures
        r is Some <==> valid_utf8(bytes@.take(n as int)),
        r matches Some(s) ==> s@ == decode_utf8(bytes@.take(n as int)),
{
    let all = bytes.as_slice();
    let head = &all[0..n];
    assert(head@ == bytes@.take(n as int));
    decode_text(head)
}

/// What a file previews as, from its first bytes as read (at most
/// `PREVIEW_READ_BYTES` of them): its text, or unreadable when that is not
/// UTF-8.
pub fn text_from_bytes(bytes: &Vec<u8>) -> (r: PreviewRead)
    ensures
        text_prefix_len(bytes@) matches Some(n) ==> (r matches PreviewRead::Text(t) && t@
            == decode_utf8(bytes@.take(n))),
        text_prefix_len(bytes@) is None ==> r is Unreadable,
{
    let n = bytes.len();
    assert(bytes@.take(n as int) =~= bytes@);
    if let Some(t) = decode_prefix(bytes, n) {
        return PreviewRead::Text(t);
    }
    if n != PREVIEW_READ_BYTES {
        return PreviewRead::Unreadable;
    }
    let mut cut: usize = 1;
    while cut <= 3
        invariant
            1 <= cut <= 4,
            n == bytes@.len(),
            n == PREVIEW_READ_BYTES,
            !valid_utf8(bytes@),
            forall|k: int| 1 <= k < cut ==> !valid_utf8(#[trigger] bytes@.take(n - k)),
        decreases 4 - cut,
    {
        if let Some(t) = decode_prefix(bytes, n - cut) {
            return PreviewRead::Text(t);
        }
        cut += 1;
    }
    PreviewRead::Unreadable
}

impl Preview {
    /// The preview of the hovered entry, from what was read for it.
    pub fn of(hovered: Option<&Entry>, read: PreviewRead, show_hidden: bool) -> (p: Preview)
        ensures
            is_preview_of(p@, entry_view(hovered), read, show_hidden),
            !show_hidden ==> preview_hides(p@),
    {
        match hovered {
            None => Preview::Empty,
            Some(e) => {
                if e.is_directory() {
                    match read {
                        PreviewRead::Entries(raw) => {
                            let l = Listing::from_entries(raw, show_hidden);
                            proof {
                                if !show_hidden {
                                    lemma_listing_hides(l@, views(raw@));
                                }
                            }
                            Preview::Entries(l)
                        },
                        _ => Preview::Entries(Listing::empty()),
                    }
                } else {
                    match read {
                        PreviewRead::Text(t) => Preview::Text(cap_text(t)),
                        _ => Preview::Unreadable,
                    }
                }
            },
        }
    }
}

} // verus!
