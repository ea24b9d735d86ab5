//! Listings: the entries of one directory, filtered and ordered by name.
use vstd::prelude::*;
use vstd::multiset::Multiset;
use crate::entry::{Entry, EntryView, views};
use crate::names::{lemma_name_le_total, name_le, name_precedes};

verus! {

broadcast use vstd::seq_lib::group_to_multiset_ensures;

/// The entries that a listing shows: all of them, or only those that are not
/// hidden.
pub open spec fn shown(show_hidden: bool) -> spec_fn(EntryView) -> bool {
    |e: EntryView| show_hidden || !e.hidden()
}

/// The entries of `raw` that are shown, in their order.
pub open spec fn visible(raw: Seq<EntryView>, show_hidden: bool) -> Seq<EntryView> {
    raw.filter(shown(show_hidden))
}

/// Each entry's name sorts at or before the names of those after it.
pub open spec fn sorted_by_name(s: Seq<EntryView>) -> bool {
    forall|i: int, j: int|
        #![trigger s[i], s[j]]
        0 <= i < j < s.len() ==> name_le(s[i].name, s[j].name)
}

/// No entry is hidden.
pub open spec fn none_hidden(s: Seq<EntryView>) -> bool {
    forall|i: int| 0 <= i < s.len() ==> !(#[trigger] s[i]).hidden()
}

/// `l` is the listing of a directory whose entries were read as `raw`: the
/// shown entries, each once, ordered by name.
pub open spec fn is_listing_of(l: Seq<EntryView>, raw: Seq<EntryView>, show_hidden: bool) -> bool {
    &&& sorted_by_name(l)
    &&& l.to_multiset() == visible(raw, show_hidden).to_multiset()
}

/// The first position in `l` of an entry named `name`, if any.
pub open spec fn first_index_of(l: Seq<EntryView>, name: Seq<char>) -> Option<int> {
    if exists|i: int| 0 <= i < l.len() && #[trigger] l[i].name == name {
        Some(choose|i: int| 0 <= i < l.len() && #[trigger] l[i].name == name
            && forall|k: int| 0 <= k < i ==> (#[trigger] l[k]).name != name)
    } else {
        None
    }
}

/// Names sort transitively.
pub proof fn lemma_name_le_transitive(a: Seq<char>, b: Seq<char>, c: Seq<char>)
    requires
        name_le(a, b),
        name_le(b, c),
    ensures
        name_le(a, c),
    decreases a.len(),
{
    if a.len() > 0 && b.len() > 0 && c.len() > 0 && a[0] as u32 == b[0] as u32 && b[0] as u32
        == c[0] as u32 {
        lemma_name_le_transitive(a.drop_first(), b.drop_first(), c.drop_first());
    }
}

/// With `show_hidden` off, a listing holds no hidden entry.
pub proof fn lemma_listing_hides(l: Seq<EntryView>, raw: Seq<EntryView>)
    requires
        is_listing_of(l, raw, false),
    ensures
        none_hidden(l),
{
    assert forall|i: int| 0 <= i < l.len() implies !(#[trigger] l[i]).hidden() by {
        assert(l.to_multiset().count(l[i]) > 0);
        assert(visible(raw, false).contains(l[i]));
        broadcast use vstd::seq_lib::group_filter_ensures;
    }
}

/// The first index at which an entry named `name` occurs, found by a scan.
proof fn lemma_first_index(l: Seq<EntryView>, name: Seq<char>, i: int)
    requires
        0 <= i < l.len(),
        l[i].name == name,
        forall|k: int| 0 <= k < i ==> (#[trigger] l[k]).name != name,
    ensures
        first_index_of(l, name) == Some(i),
{
    let j = first_index_of(l, name)->Some_0;
    assert(exists|i: int| 0 <= i < l.len() && #[trigger] l[i].name == name);
    if j < i {
        assert(l[j].name != name);
    } else if i < j {
        assert(l[i].name != name);
    }
}

/// A name that occurs at position `j` first occurs at or before it.
pub proof fn lemma_first_index_found(l: Seq<EntryView>, name: Seq<char>, j: int)
    requires
        0 <= j < l.len(),
        l[j].name == name,
    ensures
        first_index_of(l, name) matches Some(k) && 0 <= k <= j && l[k].name == name,
    decreases j,
{
    if exists|k: int| 0 <= k < j && #[trigger] l[k].name == name {
        let k = choose|k: int| 0 <= k < j && #[trigger] l[k].name == name;
        lemma_first_index_found(l, name, k);
    } else {
        lemma_first_index(l, name, j);
    }
}

/// The entries of one directory, in the order a pane shows them.
pub struct Listing {
    entries: Vec<Entry>,
}

impl View for Listing {
    type V = Seq<EntryView>;

    closed spec fn view(&self) -> Seq<EntryView> {
        views(self.entries@)
    }
}

impl Listing {
    /// The listing of an empty or unreadable directory.
    pub fn empty() -> (l: Listing)
        ensures
            l@ == Seq::<EntryView>::empty(),
    {
        let l = Listing { entries: Vec::new() };
        assert(l@ =~= Seq::<EntryView>::empty());
        l
    }

    /// Builds the listing of a directory from its entries as read, in any
    /// order: hidden entries are left out unless `show_hidden`, and the rest
    /// are ordered by name.
    pub fn from_entries(raw: Vec<Entry>, show_hidden: bool) -> (l: Listing)
        ensures
            is_listing_of(l@, views(raw@), show_hidden),
    {
        let ghost all = views(raw@);
        let mut rest = raw;
        let mut entries: Vec<Entry> = Vec::new();
        assert(views(rest@) =~= all);
        assert(views(entries@).to_multiset() =~= Multiset::<EntryView>::empty());
        while rest.len() > 0
            invariant
                sorted_by_name(views(entries@)),
                visible(all, show_hidden).to_multiset() == visible(views(rest@), show_hidden).to_multiset().add(
                    views(entries@).to_multiset(),
                ),
            decreases rest.len(),
        {
            let ghost before = views(rest@);
            match rest.pop() {
                Some(e) => {
                    assert(before =~= views(rest@).push(e@));
                    assert(visible(before, show_hidden) == if shown(show_hidden)(e@) {
                        visible(views(rest@), show_hidden).push(e@)
                    } else {
                        visible(views(rest@), show_hidden)
                    }) by {
                        views(rest@).lemma_filter_push(e@, shown(show_hidden));
                    }
                    if show_hidden || !e.is_hidden() {
                        let p = Self::insertion_point(&entries, &e);
                        let ghost old_views = views(entries@);
                        entries.insert(p, e);
                        assert(views(entries@) =~= old_views.insert(p as int, e@));
                        proof {
                            Self::lemma_insert_sorted(old_views, p as int, e@);
                        }
                        assert(visible(all, show_hidden).to_multiset() =~= visible(
                            views(rest@),
                            show_hidden,
                        ).to_multiset().add(views(entries@).to_multiset()));
                    }
                },
                None => {},
            }
        }
        assert(visible(views(rest@), show_hidden) =~= Seq::<EntryView>::empty()) by {
            reveal(Seq::filter);
        }
        assert(visible(all, show_hidden).to_multiset() =~= views(entries@).to_multiset());
        Listing { entries }
    }

    /// Inserting `e` at a point before which all names sort strictly before
    /// `e`'s, and from which none do, keeps a sequence ordered.
    proof fn lemma_insert_sorted(s: Seq<EntryView>, p: int, e: EntryView)
        requires
            sorted_by_name(s),
            0 <= p <= s.len(),
            forall|k: int| 0 <= k < p ==> !name_le(e.name, (#[trigger] s[k]).name),
            forall|k: int| p <= k < s.len() ==> name_le(e.name, (#[trigger] s[k]).name),
        ensures
            sorted_by_name(s.insert(p, e)),
    {
        let n = s.insert(p, e);
        assert forall|i: int, j: int| 0 <= i < j < n.len() implies name_le(
            #[trigger] n[i].name,
            #[trigger] n[j].name,
        ) by {
            if j == p {
                assert(n[i] == s[i]);
                lemma_name_le_total(s[i].name, e.name);
            } else if i == p {
                assert(n[j] == s[j - 1]);
            } else {
                let si = if i < p { i } else { i - 1 };
                let sj = if j < p { j } else { j - 1 };
                assert(n[i] == s[si]);
                assert(n[j] == s[sj]);
            }
        }
    }

    /// Where `e` goes in the ordered `entries`: after every entry whose name
    /// sorts strictly before its own, so before those with an equal name.
    fn insertion_point(entries: &Vec<Entry>, e: &Entry) -> (p: usize)
        requires
            sorted_by_name(views(entries@)),
        ensures
            p <= entries@.len(),
            forall|k: int| 0 <= k < p ==> !name_le(e@.name, (#[trigger] views(entries@)[k]).name),
            forall|k: int|
                p <= k < entries@.len() ==> name_le(e@.name, (#[trigger] views(entries@)[k]).name),
    {
        let ghost s = views(entries@);
        let mut lo: usize = 0;
        let mut hi: usize = entries.len();
        while lo < hi
            invariant
                lo <= hi <= entries@.len(),
                s == views(entries@),
                sorted_by_name(s),
                forall|k: int| 0 <= k < lo ==> !name_le(e@.name, (#[trigger] s[k]).name),
                forall|k: int| hi <= k < s.len() ==> name_le(e@.name, (#[trigger] s[k]).name),
            decreases hi - lo,
        {
            let mid = lo + (hi - lo) / 2;
            if name_precedes(e.name.as_str(), entries[mid].name.as_str()) {
                assert forall|k: int| mid <= k < s.len() implies name_le(
                    e@.name,
                    (#[trigger] s[k]).name,
                ) by {
                    if mid < k {
                        lemma_name_le_transitive(e@.name, s[mid as int].name, s[k].name);
                    }
                }
                hi = mid;
            } else {
                assert forall|k: int| 0 <= k <= mid implies !name_le(
                    e@.name,
                    (#[trigger] s[k]).name,
                ) by {
                    if k < mid && name_le(e@.name, s[k].name) {
                        lemma_name_le_transitive(e@.name, s[k].name, s[mid as int].name);
                    }
                }
                lo = mid + 1;
            }
        }
        lo
    }

    pub fn len(&self) -> (r: usize)
        ensures
            r == self@.len(),
    {
        self.entries.len()
    }

    pub fn get(&self, i: usize) -> (r: &Entry)
        requires
            i < self@.len(),
        ensures
            r@ == self@[i as int],
    {
        &self.entries[i]
    }

    /// The entries in order, for a pane to show.
    pub fn entries(&self) -> (r: &Vec<Entry>)
        ensures
            views(r@) == self@,
    {
        &self.entries
    }

    /// The position of the first entry named `name`, if there is one.
    pub fn position_of(&self, name: &String) -> (r: Option<usize>)
        ensures
            r matches Some(i) ==> i < self@.len() && first_index_of(self@, name@) == Some(i as int),
            r is None ==> first_index_of(self@, name@) is None,
    {
        let mut i: usize = 0;
        while i < self.entries.len()
            invariant
                i <= self@.len(),
                self@.len() == self.entries@.len(),
                forall|k: int| 0 <= k < i ==> (#[trigger] self@[k]).name != name@,
            decreases self.entries.len() - i,
        {
            if self.entries[i].name.eq(name) {
                proof {
                    lemma_first_index(self@, name@, i as int);
                }
                return Some(i);
            }
            i += 1;
        }
        None
    }
}

} // verus!
