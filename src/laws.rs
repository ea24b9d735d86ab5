//! Properties of navigation that hold over several operations.
use vstd::prelude::*;
use crate::entry::{views, EntryKind, EntryView};
use crate::listing::{
    is_listing_of, lemma_first_index_found, lemma_listing_hides, none_hidden, shown, visible,
};
use crate::navigation::{
    ascended, descended, moved, opened, previewed, toggled, NavigationView,
};
use crate::preview::{preview_hides, PreviewRead, PreviewView};

verus! {

/// The selection lies within `current`, or is 0 when `current` is empty.
pub open spec fn hover_in_bounds(s: NavigationView) -> bool {
    if s.current.len() == 0 {
        s.hovered_index == 0
    } else {
        s.hovered_index < s.current.len()
    }
}

/// Showing hidden entries shows every entry read.
proof fn lemma_show_all(raw: Seq<EntryView>)
    ensures
        visible(raw, true) == raw,
    decreases raw.len(),
{
    reveal(Seq::filter);
    if raw.len() > 0 {
        lemma_show_all(raw.drop_last());
        assert(raw.drop_last().push(raw.last()) =~= raw);
    }
}

/// Moving the selection one step at a time, by any amounts, keeps it within
/// the current listing (at 0 when the listing is empty).
pub proof fn law_hover_in_bounds(states: Seq<NavigationView>, deltas: Seq<int>)
    requires
        states.len() == deltas.len() + 1,
        states[0].wf(),
        forall|i: int| 0 <= i < deltas.len() ==> moved(states[i], states[i + 1], #[trigger] deltas[i]),
    ensures
        forall|i: int| 0 <= i < states.len() ==> hover_in_bounds(#[trigger] states[i]),
    decreases deltas.len(),
{
    if deltas.len() > 0 {
        let n = deltas.len() - 1;
        assert(moved(states[n], states[n + 1], deltas[n]));
        law_hover_in_bounds(states.take(n + 1), deltas.take(n));
        assert(hover_in_bounds(states.take(n + 1)[n]));
        let s = states[n];
        let t = states[n + 1];
        if s.current.len() > 0 {
            assert(t.hovered_index == ((s.hovered_index + deltas[n]) % (s.current.len() as int)));
        }
        assert forall|i: int| 0 <= i < states.len() implies hover_in_bounds(#[trigger] states[i]) by {
            if i <= n {
                assert(states.take(n + 1)[i] == states[i]);
            }
        }
    }
}

/// Moving down from the last entry wraps to the first.
pub proof fn law_wrap_forward(s: NavigationView, t: NavigationView)
    requires
        s.wf(),
        s.current.len() > 0,
        s.hovered_index == s.current.len() - 1,
        moved(s, t, 1),
    ensures
        t.hovered_index == 0,
{
    assert((s.hovered_index as int + 1) % (s.current.len() as int) == 0) by {
        vstd::arithmetic::div_mod::lemma_mod_self_0(s.current.len() as int);
    }
}

/// Moving up from the first entry wraps to the last.
pub proof fn law_wrap_backward(s: NavigationView, t: NavigationView)
    requires
        s.wf(),
        s.current.len() > 0,
        s.hovered_index == 0,
        moved(s, t, -1),
    ensures
        t.hovered_index == s.current.len() - 1,
{
    let n = s.current.len() as int;
    vstd::arithmetic::div_mod::lemma_fundamental_div_mod_converse(-1, n, -1, n - 1);
}

/// Switching hidden entries off leaves no hidden entry in the parent,
/// current or preview pane; switching them on lists every entry read from
/// disk at that moment.
pub proof fn law_hidden_filter(
    s: NavigationView,
    t: NavigationView,
    u: NavigationView,
    current_raw: Seq<EntryView>,
    parent_raw: Seq<EntryView>,
    read: PreviewRead,
)
    requires
        s.wf(),
        toggled(s, t, current_raw, parent_raw),
        previewed(t, u, read),
    ensures
        !u.show_hidden ==> none_hidden(u.current) && none_hidden(u.parent) && preview_hides(
            u.preview,
        ),
        u.show_hidden ==> u.current.to_multiset() == current_raw.to_multiset(),
        u.show_hidden && u.working_directory.len() > 0 ==> u.parent.to_multiset()
            == parent_raw.to_multiset(),
        u.show_hidden ==> match (u.preview, read) {
            (PreviewView::Entries(l), PreviewRead::Entries(raw)) => l.to_multiset()
                == views(raw@).to_multiset(),
            _ => true,
        },
{
    if !u.show_hidden {
        lemma_listing_hides(u.current, current_raw);
        if u.working_directory.len() > 0 {
            lemma_listing_hides(u.parent, parent_raw);
        }
        match (u.preview, read) {
            (PreviewView::Entries(l), PreviewRead::Entries(raw)) => {
                if t.hovered() is Some {
                    lemma_listing_hides(l, views(raw@));
                }
            },
            _ => {},
        }
    } else {
        lemma_show_all(current_raw);
        lemma_show_all(parent_raw);
        match (u.preview, read) {
            (PreviewView::Entries(l), PreviewRead::Entries(raw)) => {
                lemma_show_all(views(raw@));
            },
            _ => {},
        }
    }
}

/// Descending into a hovered subdirectory and ascending again returns to the
/// directory left, with that subdirectory hovered again, so long as it is
/// still among the entries read there.
pub proof fn law_descend_ascend(
    s: NavigationView,
    t: NavigationView,
    u: NavigationView,
    current_raw: Seq<EntryView>,
    parent_raw: Seq<EntryView>,
    back_raw: Seq<EntryView>,
    back_parent_raw: Seq<EntryView>,
    sub: EntryView,
)
    requires
        s.wf(),
        s.hovered() == Some(sub),
        sub.kind == EntryKind::Directory,
        descended(s, t, current_raw, parent_raw),
        ascended(t, u, back_raw, back_parent_raw),
        back_raw.contains(sub),
    ensures
        u.working_directory == s.working_directory,
        u.hovered() matches Some(e) && e.name == sub.name,
{
    assert(t.working_directory.drop_last() =~= s.working_directory);
    assert(shown(s.show_hidden)(sub)) by {
        if !s.show_hidden {
            assert(s.current[s.hovered_index as int] == sub);
        }
    }
    lemma_listed(u.current, back_raw, s.show_hidden, sub);
    let j = choose|j: int| 0 <= j < u.current.len() && #[trigger] u.current[j].name == sub.name;
    lemma_first_index_found(u.current, sub.name, j);
}

/// An entry read and shown is in the listing.
proof fn lemma_listed(l: Seq<EntryView>, raw: Seq<EntryView>, show_hidden: bool, e: EntryView)
    requires
        is_listing_of(l, raw, show_hidden),
        raw.contains(e),
        shown(show_hidden)(e),
    ensures
        exists|j: int| 0 <= j < l.len() && #[trigger] l[j].name == e.name,
{
    broadcast use vstd::seq_lib::group_to_multiset_ensures;

    let i = choose|i: int| 0 <= i < raw.len() && raw[i] == e;
    raw.lemma_filter_contains(shown(show_hidden), i);
    assert(visible(raw, show_hidden).to_multiset().count(e) > 0);
    assert(l.contains(e));
    let j = choose|j: int| 0 <= j < l.len() && l[j] == e;
    assert(l[j].name == e.name);
}

/// Ascending at the filesystem root changes nothing.
pub proof fn law_ascend_at_root(
    s: NavigationView,
    t: NavigationView,
    current_raw: Seq<EntryView>,
    parent_raw: Seq<EntryView>,
)
    requires
        s.wf(),
        s.working_directory.len() == 0,
        ascended(s, t, current_raw, parent_raw),
    ensures
        t.working_directory == s.working_directory,
        t.current == s.current,
        t.parent == s.parent,
        t == s,
{
}

/// An empty directory lists no entry; there, moving the selection and
/// descending change nothing, and the preview is empty.
pub proof fn law_empty_directory(
    s: NavigationView,
    dir: Seq<Seq<char>>,
    show_hidden: bool,
    parent_raw: Seq<EntryView>,
    delta: int,
    moved_to: NavigationView,
    descended_to: NavigationView,
    current_raw: Seq<EntryView>,
    descend_parent_raw: Seq<EntryView>,
    read: PreviewRead,
    previewed_to: NavigationView,
)
    requires
        opened(s, dir, show_hidden, Seq::<EntryView>::empty(), parent_raw),
        moved(s, moved_to, delta),
        descended(s, descended_to, current_raw, descend_parent_raw),
        previewed(s, previewed_to, read),
    ensures
        s.current.len() == 0,
        moved_to == s,
        descended_to == s,
        previewed_to.preview == PreviewView::Empty,
{
    broadcast use vstd::seq_lib::group_to_multiset_ensures;

    assert(visible(Seq::<EntryView>::empty(), show_hidden) =~= Seq::<EntryView>::empty()) by {
        reveal(Seq::filter);
    }
    assert(Seq::<EntryView>::empty().to_multiset().len() == 0);
    assert(s.current.to_multiset().len() == 0);
}

} // verus!
