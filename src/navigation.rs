//! The navigation state: a working directory, the listings of its parent and
//! of itself, the hovered entry and its preview.
//!
//! The state never reads the disk. Each command is given, as plain values,
//! the entries read for the directories it shows (in any order, hidden ones
//! included); `directories_for` names those directories beforehand. A
//! command that changes the hovered entry leaves the preview empty until
//! `load_preview` is given what was read for `preview_target`.
use vstd::prelude::*;
use vstd::arithmetic::div_mod::{lemma_fundamental_div_mod, lemma_fundamental_div_mod_converse};
use crate::entry::{Entry, EntryKind, EntryView, views};
use crate::listing::{first_index_of, is_listing_of, lemma_listing_hides, none_hidden, sorted_by_name, Listing};
use crate::keys::Command;
use crate::path::DirPath;
use crate::preview::{is_preview_of, preview_hides, Preview, PreviewRead, PreviewView};

verus! {

/// The mathematical value of a navigation state.
pub ghost struct NavigationView {
    pub working_directory: Seq<Seq<char>>,
    pub show_hidden: bool,
    pub parent: Seq<EntryView>,
    pub current: Seq<EntryView>,
    pub hovered_index: nat,
    pub preview: PreviewView,
}

/// Where the selection lands after moving it by `delta` in a listing of `len`
/// entries: past either end it wraps around to the other; in an empty
/// listing it stays at 0.
pub open spec fn hover_index(h: nat, len: nat, delta: int) -> nat {
    if len == 0 {
        0
    } else {
        ((h + delta) % (len as int)) as nat
    }
}

/// The selection kept within a listing of `len` entries.
pub open spec fn clamped_index(h: nat, len: nat) -> nat {
    if len == 0 {
        0
    } else if h < len {
        h
    } else {
        (len - 1) as nat
    }
}

impl NavigationView {
    /// The hovered entry; none when the current directory shows no entry.
    pub open spec fn hovered(self) -> Option<EntryView> {
        if self.hovered_index < self.current.len() {
            Some(self.current[self.hovered_index as int])
        } else {
            None
        }
    }

    /// What holds of every navigation state: the selection is an entry of
    /// `current` (or 0 when it is empty), the listings are ordered by name,
    /// the root has no parent listing, and no hidden entry is shown while
    /// hidden entries are off.
    pub open spec fn wf(self) -> bool {
        &&& if self.current.len() == 0 {
            self.hovered_index == 0
        } else {
            self.hovered_index < self.current.len()
        }
        &&& sorted_by_name(self.current)
        &&& sorted_by_name(self.parent)
        &&& self.working_directory.len() == 0 ==> self.parent.len() == 0
        &&& !self.show_hidden ==> {
            &&& none_hidden(self.current)
            &&& none_hidden(self.parent)
            &&& preview_hides(self.preview)
        }
    }

    /// The directory that descending enters: the hovered entry, when it is a
    /// directory.
    pub open spec fn descend_target(self) -> Option<Seq<Seq<char>>> {
        match self.hovered() {
            Some(e) => if e.kind == EntryKind::Directory {
                Some(self.working_directory.push(e.name))
            } else {
                None
            },
            None => None,
        }
    }
}

/// `t` shows directory `dir` afresh: `current` listed from `current_raw`,
/// `parent` from `parent_raw` (empty at the root), and no preview loaded yet.
pub open spec fn shows_directory(
    t: NavigationView,
    dir: Seq<Seq<char>>,
    show_hidden: bool,
    current_raw: Seq<EntryView>,
    parent_raw: Seq<EntryView>,
) -> bool {
    &&& t.working_directory == dir
    &&& t.show_hidden == show_hidden
    &&& is_listing_of(t.current, current_raw, show_hidden)
    &&& if dir.len() == 0 {
        t.parent == Seq::<EntryView>::empty()
    } else {
        is_listing_of(t.parent, parent_raw, show_hidden)
    }
    &&& t.preview == PreviewView::Empty
}

/// `t` is the state opened on `dir`, with the first entry hovered.
pub open spec fn opened(
    t: NavigationView,
    dir: Seq<Seq<char>>,
    show_hidden: bool,
    current_raw: Seq<EntryView>,
    parent_raw: Seq<EntryView>,
) -> bool {
    shows_directory(t, dir, show_hidden, current_raw, parent_raw) && t.hovered_index == 0
}

/// `t` is `s` after moving the selection by `delta`: nothing changes in an
/// empty directory; otherwise the selection moves, wrapping around, and the
/// preview awaits loading.
pub open spec fn moved(s: NavigationView, t: NavigationView, delta: int) -> bool {
    if s.current.len() == 0 {
        t == s
    } else {
        t == NavigationView {
            hovered_index: hover_index(s.hovered_index, s.current.len(), delta),
            preview: PreviewView::Empty,
            ..s
        }
    }
}

/// `t` is `s` after descending: nothing changes unless a directory is
/// hovered; otherwise that directory is shown with its first entry hovered.
pub open spec fn descended(
    s: NavigationView,
    t: NavigationView,
    current_raw: Seq<EntryView>,
    parent_raw: Seq<EntryView>,
) -> bool {
    match s.descend_target() {
        None => t == s,
        Some(d) => shows_directory(t, d, s.show_hidden, current_raw, parent_raw) && t.hovered_index
            == 0,
    }
}

/// `t` is `s` after ascending: nothing changes at the root; otherwise the
/// parent directory is shown, hovering the directory just left if it is
/// still listed, else the first entry.
pub open spec fn ascended(
    s: NavigationView,
    t: NavigationView,
    current_raw: Seq<EntryView>,
    parent_raw: Seq<EntryView>,
) -> bool {
    if s.working_directory.len() == 0 {
        t == s
    } else {
        &&& shows_directory(
            t,
            s.working_directory.drop_last(),
            s.show_hidden,
            current_raw,
            parent_raw,
        )
        &&& t.hovered_index == match first_index_of(t.current, s.working_directory.last()) {
            Some(i) => i as nat,
            None => 0,
        }
    }
}

/// `t` is `s` after switching hidden entries on or off: the same directory
/// listed again under the new setting, the selection kept within it.
pub open spec fn toggled(
    s: NavigationView,
    t: NavigationView,
    current_raw: Seq<EntryView>,
    parent_raw: Seq<EntryView>,
) -> bool {
    &&& shows_directory(t, s.working_directory, !s.show_hidden, current_raw, parent_raw)
    &&& t.hovered_index == clamped_index(s.hovered_index, t.current.len())
}

/// `t` is `s` with the preview of the hovered entry loaded from `read`.
pub open spec fn previewed(s: NavigationView, t: NavigationView, read: PreviewRead) -> bool {
    &&& t == NavigationView { preview: t.preview, ..s }
    &&& is_preview_of(t.preview, s.hovered(), read, s.show_hidden)
}

/// The directory that holds `dir`; none for the root.
pub open spec fn parent_of(dir: Seq<Seq<char>>) -> Option<Seq<Seq<char>>> {
    if dir.len() == 0 {
        None
    } else {
        Some(dir.drop_last())
    }
}

/// The value of a path that may be absent.
pub open spec fn path_view(p: Option<DirPath>) -> Option<Seq<Seq<char>>> {
    match p {
        Some(p) => Some(p@),
        None => None,
    }
}

/// The directory that `command` shows afresh in `s`, whose entries and whose
/// parent's entries it needs; none for a command that lists no directory or
/// that would change nothing.
pub open spec fn directory_shown_by(s: NavigationView, command: Command) -> Option<Seq<Seq<char>>> {
    match command {
        Command::Descend => s.descend_target(),
        Command::Ascend => parent_of(s.working_directory),
        Command::ToggleHidden => Some(s.working_directory),
        _ => None,
    }
}

/// `t` is `s` after `command`, given the entries read for the directory it
/// shows and for that directory's parent.
pub open spec fn applied(
    s: NavigationView,
    t: NavigationView,
    command: Command,
    current_raw: Seq<EntryView>,
    parent_raw: Seq<EntryView>,
) -> bool {
    match command {
        Command::Quit => t == s,
        Command::MoveHover(delta) => moved(s, t, delta as int),
        Command::Descend => descended(s, t, current_raw, parent_raw),
        Command::Ascend => ascended(s, t, current_raw, parent_raw),
        Command::ToggleHidden => toggled(s, t, current_raw, parent_raw),
    }
}

/// `(h + delta) mod len`, never negative.
fn wrapped_index(h: usize, len: usize, delta: i64) -> (r: usize)
    requires
        h < len,
    ensures
        r == hover_index(h as nat, len as nat, delta as int),
{
    let n: u128 = len as u128;
    let x: i128 = h as i128 + delta as i128;
    if x >= 0 {
        let r: u128 = (x as u128) % n;
        r as usize
    } else {
        let y: u128 = (0 - x) as u128;
        let q: u128 = y % n;
        proof {
            lemma_fundamental_div_mod(y as int, n as int);
            let k = (y as int) / (n as int);
            if q == 0 {
                assert(x as int == (-k) * (n as int) + 0) by (nonlinear_arith)
                    requires
                        y as int == (n as int) * k + q as int,
                        q == 0,
                        x as int == -(y as int),
                ;
                lemma_fundamental_div_mod_converse(x as int, n as int, -k, 0);
            } else {
                assert(x as int == (-k - 1) * (n as int) + (n - q) as int) by (nonlinear_arith)
                    requires
                        y as int == (n as int) * k + q as int,
                        x as int == -(y as int),
                ;
                lemma_fundamental_div_mod_converse(x as int, n as int, -k - 1, (n - q) as int);
            }
        }
        if q == 0 {
            0
        } else {
            (n - q) as usize
        }
    }
}

/// The listings of `dir` and of its parent, from what was read for them.
fn list_directory(
    dir: &DirPath,
    show_hidden: bool,
    current_raw: Vec<Entry>,
    parent_raw: Vec<Entry>,
) -> (r: (Listing, Listing))
    ensures
        is_listing_of(r.0@, views(current_raw@), show_hidden),
        dir@.len() == 0 ==> r.1@ == Seq::<EntryView>::empty(),
        dir@.len() > 0 ==> is_listing_of(r.1@, views(parent_raw@), show_hidden),
        !show_hidden ==> none_hidden(r.0@) && none_hidden(r.1@),
{
    let current = Listing::from_entries(current_raw, show_hidden);
    let parent = if dir.is_root() {
        Listing::empty()
    } else {
        Listing::from_entries(parent_raw, show_hidden)
    };
    proof {
        if !show_hidden {
            lemma_listing_hides(current@, views(current_raw@));
            if dir@.len() > 0 {
                lemma_listing_hides(parent@, views(parent_raw@));
            }
        }
    }
    (current, parent)
}

/// The state of the three panes.
pub struct NavigationState {
    working_directory: DirPath,
    show_hidden: bool,
    parent: Listing,
    current: Listing,
    hovered_index: usize,
    preview: Preview,
}

impl View for NavigationState {
    type V = NavigationView;

    closed spec fn view(&self) -> NavigationView {
        NavigationView {
            working_directory: self.working_directory@,
            show_hidden: self.show_hidden,
            parent: self.parent@,
            current: self.current@,
            hovered_index: self.hovered_index as nat,
            preview: self.preview@,
        }
    }
}

impl NavigationState {
    #[verifier::type_invariant]
    closed spec fn inv(&self) -> bool {
        self@.wf()
    }

    /// Opens `working_directory`, whose entries were read as `current_raw`
    /// and those of its parent as `parent_raw`.
    pub fn open(
        working_directory: DirPath,
        show_hidden: bool,
        current_raw: Vec<Entry>,
        parent_raw: Vec<Entry>,
    ) -> (s: NavigationState)
        ensures
            opened(
                s@,
                working_directory@,
                show_hidden,
                views(current_raw@),
                views(parent_raw@),
            ),
            s@.wf(),
    {
        let (current, parent) = list_directory(
            &working_directory,
            show_hidden,
            current_raw,
            parent_raw,
        );
        NavigationState {
            working_directory,
            show_hidden,
            parent,
            current,
            hovered_index: 0,
            preview: Preview::Empty,
        }
    }

    /// Moves the selection by `delta` entries, wrapping around at both ends.
    /// Does nothing in an empty directory.
    pub fn move_hover(&mut self, delta: i64)
        ensures
            moved(old(self)@, final(self)@, delta as int),
            final(self)@.wf(),
    {
        proof {
            use_type_invariant(&*self);
        }
        let len = self.current.len();
        if len > 0 {
            let h = wrapped_index(self.hovered_index, len, delta);
            self.preview = Preview::Empty;
            self.hovered_index = h;
        }
        proof {
            use_type_invariant(&*self);
        }
    }

    /// Enters the hovered directory, whose entries were read as
    /// `current_raw`; `parent_raw` are those of the directory being left.
    /// Does nothing unless a directory is hovered.
    pub fn descend(&mut self, current_raw: Vec<Entry>, parent_raw: Vec<Entry>)
        ensures
            descended(old(self)@, final(self)@, views(current_raw@), views(parent_raw@)),
            final(self)@.wf(),
    {
        proof {
            use_type_invariant(&*self);
        }
        match self.descend_target() {
            None => {},
            Some(target) => {
                let show_hidden = self.show_hidden;
                let (current, parent) = list_directory(
                    &target,
                    show_hidden,
                    current_raw,
                    parent_raw,
                );
                *self = NavigationState {
                    working_directory: target,
                    show_hidden,
                    parent,
                    current,
                    hovered_index: 0,
                    preview: Preview::Empty,
                };
            },
        }
        proof {
            use_type_invariant(&*self);
        }
    }

    /// Leaves the working directory for its parent, whose entries were read
    /// as `current_raw`; `parent_raw` are those of the parent's parent. The
    /// directory just left stays hovered. Does nothing at the root.
    pub fn ascend(&mut self, current_raw: Vec<Entry>, parent_raw: Vec<Entry>)
        ensures
            ascended(old(self)@, final(self)@, views(current_raw@), views(parent_raw@)),
            final(self)@.wf(),
    {
        proof {
            use_type_invariant(&*self);
        }
        match self.working_directory.parent() {
            None => {},
            Some(target) => {
                let show_hidden = self.show_hidden;
                let (current, parent) = list_directory(
                    &target,
                    show_hidden,
                    current_raw,
                    parent_raw,
                );
                let hovered_index = match self.working_directory.last_name() {
                    Some(name) => match current.position_of(name) {
                        Some(i) => i,
                        None => 0,
                    },
                    None => 0,
                };
                *self = NavigationState {
                    working_directory: target,
                    show_hidden,
                    parent,
                    current,
                    hovered_index,
                    preview: Preview::Empty,
                };
            },
        }
        proof {
            use_type_invariant(&*self);
        }
    }

    /// Switches hidden entries on or off, listing the working directory and
    /// its parent again from `current_raw` and `parent_raw`. The selection
    /// keeps its index, cut to the last entry if the listing shrank.
    pub fn toggle_hidden(&mut self, current_raw: Vec<Entry>, parent_raw: Vec<Entry>)
        ensures
            toggled(old(self)@, final(self)@, views(current_raw@), views(parent_raw@)),
            final(self)@.wf(),
    {
        proof {
            use_type_invariant(&*self);
        }
        let show_hidden = !self.show_hidden;
        let (current, parent) = list_directory(
            &self.working_directory,
            show_hidden,
            current_raw,
            parent_raw,
        );
        let len = current.len();
        let hovered_index = if len == 0 {
            0
        } else if self.hovered_index < len {
            self.hovered_index
        } else {
            len - 1
        };
        let working_directory = self.working_directory.duplicate();
        *self = NavigationState {
            working_directory,
            show_hidden,
            parent,
            current,
            hovered_index,
            preview: Preview::Empty,
        };
        proof {
            use_type_invariant(&*self);
        }
    }

    /// The directories to read before running `command`: the one it shows
    /// and that one's parent (none at the root). None when it reads none.
    pub fn directories_for(&self, command: Command) -> (r: Option<(DirPath, Option<DirPath>)>)
        ensures
            directory_shown_by(self@, command) is None ==> r is None,
            directory_shown_by(self@, command) matches Some(d) ==> (r matches Some(p) && p.0@ == d
                && path_view(p.1) == parent_of(d)),
    {
        let shown = match command {
            Command::Descend => self.descend_target(),
            Command::Ascend => self.ascend_target(),
            Command::ToggleHidden => Some(self.working_directory.duplicate()),
            _ => None,
        };
        match shown {
            Some(d) => {
                let parent = d.parent();
                Some((d, parent))
            },
            None => None,
        }
    }

    /// Runs `command`, given the entries read for the directories that
    /// `directories_for` names (empty where it names none). Quitting changes
    /// nothing.
    pub fn apply(&mut self, command: Command, current_raw: Vec<Entry>, parent_raw: Vec<Entry>)
        ensures
            applied(old(self)@, final(self)@, command, views(current_raw@), views(parent_raw@)),
            final(self)@.wf(),
    {
        match command {
            Command::Quit => {
                proof {
                    use_type_invariant(&*self);
                }
            },
            Command::MoveHover(delta) => self.move_hover(delta),
            Command::Descend => self.descend(current_raw, parent_raw),
            Command::Ascend => self.ascend(current_raw, parent_raw),
            Command::ToggleHidden => self.toggle_hidden(current_raw, parent_raw),
        }
    }

    /// Fills the preview from what was read for the hovered entry.
    pub fn load_preview(&mut self, read: PreviewRead)
        ensures
            previewed(old(self)@, final(self)@, read),
            final(self)@.wf(),
    {
        proof {
            use_type_invariant(&*self);
        }
        let preview = Preview::of(self.hovered(), read, self.show_hidden);
        self.preview = preview;
        proof {
            use_type_invariant(&*self);
        }
    }

    /// The hovered entry; none in an empty directory.
    pub fn hovered(&self) -> (r: Option<&Entry>)
        ensures
            r matches Some(e) ==> self@.hovered() == Some(e@),
            r is None ==> self@.hovered() is None,
    {
        proof {
            use_type_invariant(self);
        }
        if self.hovered_index < self.current.len() {
            Some(self.current.get(self.hovered_index))
        } else {
            None
        }
    }

    /// The path of the hovered entry and its kind: what the preview is read
    /// from. None in an empty directory.
    pub fn preview_target(&self) -> (r: Option<(DirPath, EntryKind)>)
        ensures
            r matches Some(t) ==> self@.hovered() matches Some(e) && t.0@
                == self@.working_directory.push(e.name) && t.1 == e.kind,
            r is None ==> self@.hovered() is None,
    {
        match self.hovered() {
            Some(e) => Some((self.working_directory.join(&e.name), e.kind)),
            None => None,
        }
    }

    /// The directory that `descend` would enter.
    pub fn descend_target(&self) -> (r: Option<DirPath>)
        ensures
            r matches Some(p) ==> self@.descend_target() == Some(p@),
            r is None ==> self@.descend_target() is None,
    {
        match self.hovered() {
            Some(e) => if e.is_directory() {
                Some(self.working_directory.join(&e.name))
            } else {
                None
            },
            None => None,
        }
    }

    /// The directory that `ascend` would enter; none at the root.
    pub fn ascend_target(&self) -> (r: Option<DirPath>)
        ensures
            self@.working_directory.len() == 0 ==> r is None,
            self@.working_directory.len() > 0 ==> (r matches Some(p) && p@
                == self@.working_directory.drop_last()),
    {
        self.working_directory.parent()
    }

    /// The directory whose entries fill the parent pane; none at the root.
    pub fn parent_directory(&self) -> (r: Option<DirPath>)
        ensures
            self@.working_directory.len() == 0 ==> r is None,
            self@.working_directory.len() > 0 ==> (r matches Some(p) && p@
                == self@.working_directory.drop_last()),
    {
        self.working_directory.parent()
    }

    pub fn working_directory(&self) -> (r: &DirPath)
        ensures
            r@ == self@.working_directory,
    {
        &self.working_directory
    }

    pub fn show_hidden(&self) -> (r: bool)
        ensures
            r == self@.show_hidden,
    {
        self.show_hidden
    }

    pub fn parent(&self) -> (r: &Listing)
        ensures
            r@ == self@.parent,
    {
        &self.parent
    }

    pub fn current(&self) -> (r: &Listing)
        ensures
            r@ == self@.current,
    {
        &self.current
    }

    pub fn hovered_index(&self) -> (r: usize)
        ensures
            r == self@.hovered_index,
    {
        self.hovered_index
    }

    pub fn preview(&self) -> (r: &Preview)
        ensures
            r@ == self@.preview,
    {
        &self.preview
    }
}

} // verus!
