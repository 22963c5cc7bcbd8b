//! The list of saved versions that the window shows: sorted newest first,
//! oldest first or largest first, and narrowed by a search text.
use vstd::prelude::*;
use crate::text::views;
use crate::paths::joined;
use crate::text::{contains, contains_spec, lowercase, str_lt, text_lt, to_lowercase};

verus! {

/// Sort order for the version list.
#[derive(Clone, Copy, Debug, PartialEq, Eq, Structural)]
pub enum SortOrder {
    Newest,
    Oldest,
    Largest,
}

/// A version found in the destination: its folder, the folder's name and,
/// when the list is sorted by size, the folder's size in bytes.
#[derive(Debug)]
pub struct VersionEntry {
    pub path: String,
    pub name: String,
    pub size: u64,
}

impl VersionEntry {
    /// A copy of the entry.
    pub fn duplicate(&self) -> (r: Self)
        ensures
            r == *self,
    {
        VersionEntry { path: self.path.clone(), name: self.name.clone(), size: self.size }
    }
}

/// Whether `a` is listed before `b`: newest first and oldest first go by the
/// folder name's text (the stamp in the name sorts by time; the versions of
/// one folder share their parent, so this is also the order of their
/// paths), largest first by size and, between equal sizes, newest first.
pub open spec fn listed_before(order: SortOrder, a: VersionEntry, b: VersionEntry) -> bool {
    match order {
        SortOrder::Newest => text_lt(b.name@, a.name@),
        SortOrder::Oldest => text_lt(a.name@, b.name@),
        SortOrder::Largest => a.size > b.size || (a.size == b.size && text_lt(b.name@, a.name@)),
    }
}

/// A list in the given order: no entry is listed before an earlier one.
pub open spec fn in_order(order: SortOrder, s: Seq<VersionEntry>) -> bool {
    forall|i: int, j: int| 0 <= i < j < s.len() ==> !listed_before(order, #[trigger] s[j], #[trigger] s[i])
}

proof fn lemma_listed_before(order: SortOrder, x: VersionEntry, a: VersionEntry, b: VersionEntry)
    ensures
        listed_before(order, x, a) && !listed_before(order, b, a) ==> listed_before(order, x, b),
        listed_before(order, x, a) ==> !listed_before(order, a, x),
{
    crate::text::lemma_text_lt_total(x.name@, a.name@);
    crate::text::lemma_text_lt_total(a.name@, b.name@);
    crate::text::lemma_text_lt_total(x.name@, b.name@);
    if text_lt(b.name@, a.name@) && text_lt(a.name@, x.name@) {
        crate::text::lemma_text_lt_transitive(b.name@, a.name@, x.name@);
    }
    if text_lt(x.name@, a.name@) && text_lt(a.name@, b.name@) {
        crate::text::lemma_text_lt_transitive(x.name@, a.name@, b.name@);
    }
}

/// Inserts `x` after every entry that is not listed after it.
fn insert_in_order(v: &mut Vec<VersionEntry>, x: VersionEntry, order: SortOrder)
    requires
        in_order(order, old(v)@),
    ensures
        in_order(order, final(v)@),
        final(v)@.to_multiset() == old(v)@.to_multiset().insert(x),
{
    let mut p: usize = 0;
    while p < v.len() && !before(order, &x, &v[p])
        invariant
            p <= v.len(),
            v@ == old(v)@,
            forall|k: int| 0 <= k < p ==> !listed_before(order, x, #[trigger] v@[k]),
        decreases v.len() - p,
    {
        p = p + 1;
    }
    proof {
        assert forall|k: int| p <= k < v@.len() implies listed_before(order, x, #[trigger] v@[k]) by {
            if k > p {
                lemma_listed_before(order, x, v@[p as int], v@[k]);
            }
        }
    }
    let ghost before_insert = v@;
    v.insert(p, x);
    proof {
        assert forall|i: int, j: int| 0 <= i < j < v@.len() implies !listed_before(
            order,
            #[trigger] v@[j],
            #[trigger] v@[i],
        ) by {
            if i < p && j > p {
                assert(v@[j] == before_insert[j - 1]);
            } else if i == p && j > p {
                lemma_listed_before(order, x, before_insert[j - 1], before_insert[j - 1]);
            } else if i > p {
                assert(v@[i] == before_insert[i - 1]);
                assert(v@[j] == before_insert[j - 1]);
            }
        }
        assert(v@.remove(p as int) =~= before_insert);
        broadcast use vstd::seq_lib::group_to_multiset_ensures;
        assert(v@.to_multiset().remove(x) =~= before_insert.to_multiset());
        assert(v@.to_multiset().count(x) > 0);
        assert(v@.to_multiset() =~= before_insert.to_multiset().insert(x));
    }
}

/// Whether `a` is listed before `b`.
fn before(order: SortOrder, a: &VersionEntry, b: &VersionEntry) -> (r: bool)
    ensures
        r == listed_before(order, *a, *b),
{
    match order {
        SortOrder::Newest => str_lt(b.name.as_str(), a.name.as_str()),
        SortOrder::Oldest => str_lt(a.name.as_str(), b.name.as_str()),
        SortOrder::Largest => a.size > b.size || (a.size == b.size && str_lt(
            b.name.as_str(),
            a.name.as_str(),
        )),
    }
}

/// The entries in the given order (a stable sort).
pub fn sort_versions(entries: &Vec<VersionEntry>, order: SortOrder) -> (r: Vec<VersionEntry>)
    ensures
        in_order(order, r@),
        r@.to_multiset() == entries@.to_multiset(),
{
    let mut r: Vec<VersionEntry> = Vec::new();
    let mut i: usize = 0;
    proof {
        broadcast use vstd::seq_lib::group_to_multiset_ensures;
        assert(entries@.subrange(0, 0) =~= Seq::<VersionEntry>::empty());
    }
    while i < entries.len()
        invariant
            i <= entries.len(),
            in_order(order, r@),
            r@.to_multiset() == entries@.subrange(0, i as int).to_multiset(),
        decreases entries.len() - i,
    {
        insert_in_order(&mut r, entries[i].duplicate(), order);
        proof {
            broadcast use vstd::seq_lib::group_to_multiset_ensures;
            assert(entries@.subrange(0, i + 1) =~= entries@.subrange(0, i as int).push(entries@[i as int]));
        }
        i = i + 1;
    }
    assert(entries@.subrange(0, entries.len() as int) =~= entries@);
    r
}

/// Whether a version is shown under the search text `filter`: always when
/// the text is empty, otherwise when the lower-cased folder name contains
/// the lower-cased text.
pub open spec fn shown(name: Seq<char>, filter: Seq<char>) -> bool {
    filter.len() == 0 || contains_spec(lowercase(name), lowercase(filter))
}

/// The paths of the entries shown under `filter`, in list order.
pub open spec fn shown_paths(s: Seq<VersionEntry>, filter: Seq<char>) -> Seq<Seq<char>>
    decreases s.len(),
{
    if s.len() == 0 {
        Seq::empty()
    } else if shown(s.last().name@, filter) {
        shown_paths(s.drop_last(), filter).push(s.last().path@)
    } else {
        shown_paths(s.drop_last(), filter)
    }
}

/// The entries shown under `filter`, in list order.
pub open spec fn shown_entries(s: Seq<VersionEntry>, filter: Seq<char>) -> Seq<VersionEntry>
    decreases s.len(),
{
    if s.len() == 0 {
        Seq::empty()
    } else if shown(s.last().name@, filter) {
        shown_entries(s.drop_last(), filter).push(s.last())
    } else {
        shown_entries(s.drop_last(), filter)
    }
}

/// The paths of the entries, in order.
pub open spec fn entry_paths(s: Seq<VersionEntry>) -> Seq<Seq<char>> {
    s.map_values(|e: VersionEntry| e.path@)
}

/// Each entry's path is its folder name inside the folder `dest`.
pub open spec fn paths_follow_names(s: Seq<VersionEntry>, dest: Seq<char>) -> bool {
    forall|k: int| 0 <= k < s.len() ==> (#[trigger] s[k]).path@ == joined(dest, s[k].name@)
}

proof fn lemma_shown_paths_are_entry_paths(s: Seq<VersionEntry>, filter: Seq<char>)
    ensures
        shown_paths(s, filter) == entry_paths(shown_entries(s, filter)),
    decreases s.len(),
{
    if s.len() > 0 {
        lemma_shown_paths_are_entry_paths(s.drop_last(), filter);
        assert(shown_paths(s, filter) =~= entry_paths(shown_entries(s, filter)));
    } else {
        assert(shown_paths(s, filter) =~= entry_paths(shown_entries(s, filter)));
    }
}

proof fn lemma_shown_entries_from(s: Seq<VersionEntry>, filter: Seq<char>)
    ensures
        forall|i: int|
            0 <= i < shown_entries(s, filter).len() ==> s.contains(#[trigger] shown_entries(s, filter)[i]),
    decreases s.len(),
{
    if s.len() > 0 {
        let prev = s.drop_last();
        lemma_shown_entries_from(prev, filter);
        let sh = shown_entries(s, filter);
        assert forall|i: int| 0 <= i < sh.len() implies s.contains(#[trigger] sh[i]) by {
            if i < shown_entries(prev, filter).len() {
                assert(sh[i] == shown_entries(prev, filter)[i]);
                assert(prev.contains(sh[i]));
                let k = choose|k: int| 0 <= k < prev.len() && prev[k] == sh[i];
                assert(s[k] == sh[i]);
            } else {
                assert(sh[i] == s[s.len() - 1]);
            }
        }
    }
}

proof fn lemma_shown_entries_in_order(s: Seq<VersionEntry>, filter: Seq<char>, order: SortOrder)
    requires
        in_order(order, s),
    ensures
        in_order(order, shown_entries(s, filter)),
    decreases s.len(),
{
    if s.len() > 0 {
        let prev = s.drop_last();
        assert(in_order(order, prev)) by {
            assert forall|i: int, j: int| 0 <= i < j < prev.len() implies !listed_before(
                order,
                #[trigger] prev[j],
                #[trigger] prev[i],
            ) by {
                assert(prev[i] == s[i] && prev[j] == s[j]);
            }
        }
        lemma_shown_entries_in_order(prev, filter, order);
        lemma_shown_entries_from(prev, filter);
        let sp = shown_entries(prev, filter);
        let sh = shown_entries(s, filter);
        if shown(s.last().name@, filter) {
            assert forall|i: int, j: int| 0 <= i < j < sh.len() implies !listed_before(
                order,
                #[trigger] sh[j],
                #[trigger] sh[i],
            ) by {
                if j < sp.len() {
                    assert(sh[i] == sp[i] && sh[j] == sp[j]);
                } else {
                    assert(sh[i] == sp[i]);
                    assert(prev.contains(sp[i]));
                    let k = choose|k: int| 0 <= k < prev.len() && prev[k] == sp[i];
                    assert(s[k] == sh[i]);
                    assert(sh[j] == s[s.len() - 1]);
                }
            }
        }
    }
}

proof fn lemma_shown_count(s: Seq<VersionEntry>, filter: Seq<char>)
    ensures
        forall|v: VersionEntry|
            #[trigger] shown_entries(s, filter).to_multiset().count(v) == if shown(v.name@, filter) {
                s.to_multiset().count(v)
            } else {
                0
            },
    decreases s.len(),
{
    broadcast use vstd::seq_lib::group_to_multiset_ensures;
    if s.len() == 0 {
        assert forall|v: VersionEntry| #[trigger] shown_entries(s, filter).to_multiset().count(v) == if shown(
            v.name@,
            filter,
        ) {
            s.to_multiset().count(v)
        } else {
            0
        } by {
            assert(shown_entries(s, filter) =~= Seq::<VersionEntry>::empty());
        }
    } else {
        let prev = s.drop_last();
        let x = s.last();
        lemma_shown_count(prev, filter);
        assert(prev.push(x) =~= s);
        assert forall|v: VersionEntry| #[trigger] shown_entries(s, filter).to_multiset().count(v) == if shown(
            v.name@,
            filter,
        ) {
            s.to_multiset().count(v)
        } else {
            0
        } by {
            assert(s.to_multiset() =~= prev.to_multiset().insert(x));
            assert(shown_entries(prev, filter).to_multiset().count(v) == if shown(v.name@, filter) {
                prev.to_multiset().count(v)
            } else {
                0
            });
            if shown(x.name@, filter) {
                assert(shown_entries(s, filter) == shown_entries(prev, filter).push(x));
                assert(shown_entries(s, filter).to_multiset() =~= shown_entries(prev, filter).to_multiset().insert(x));
            }
        }
    }
}

/// The search keeps exactly the versions whose lower-cased folder name
/// contains the lower-cased search text somewhere in it (at its start or
/// further on); an empty search keeps every version. A version is listed
/// as often as it was found when it matches, and not at all otherwise.
pub proof fn lemma_search_keeps_matches(s: Seq<VersionEntry>, filter: Seq<char>, v: VersionEntry)
    ensures
        shown_entries(s, filter).to_multiset().count(v) == if filter.len() == 0 || exists|i: int|
            0 <= i && i + lowercase(filter).len() <= lowercase(v.name@).len() && #[trigger] lowercase(
                v.name@,
            ).subrange(i, i + lowercase(filter).len()) == lowercase(filter) {
            s.to_multiset().count(v)
        } else {
            0
        },
{
    lemma_shown_count(s, filter);
    let n = lowercase(v.name@);
    let f = lowercase(filter);
    if contains_spec(n, f) {
        let i = choose|i: int| crate::text::occurs_at(n, f, i);
        assert(0 <= i && i + f.len() <= n.len() && n.subrange(i, i + f.len()) == f);
    }
    if exists|i: int| 0 <= i && i + f.len() <= n.len() && #[trigger] n.subrange(i, i + f.len()) == f {
        let i = choose|i: int| 0 <= i && i + f.len() <= n.len() && #[trigger] n.subrange(i, i + f.len()) == f;
        assert(crate::text::occurs_at(n, f, i));
    }
    assert(shown(v.name@, filter) == (filter.len() == 0 || exists|i: int|
        0 <= i && i + lowercase(filter).len() <= lowercase(v.name@).len() && #[trigger] lowercase(
            v.name@,
        ).subrange(i, i + lowercase(filter).len()) == lowercase(filter)));
}

/// Filtering two lists that hold the same entries shows the same entries.
proof fn lemma_shown_of_permutation(a: Seq<VersionEntry>, b: Seq<VersionEntry>, filter: Seq<char>)
    requires
        a.to_multiset() == b.to_multiset(),
    ensures
        shown_entries(a, filter).to_multiset() == shown_entries(b, filter).to_multiset(),
{
    lemma_shown_count(a, filter);
    lemma_shown_count(b, filter);
    assert(shown_entries(a, filter).to_multiset() =~= shown_entries(b, filter).to_multiset());
}

proof fn lemma_permuted_paths_follow_names(a: Seq<VersionEntry>, b: Seq<VersionEntry>, dest: Seq<char>)
    requires
        a.to_multiset() == b.to_multiset(),
        paths_follow_names(b, dest),
    ensures
        paths_follow_names(a, dest),
{
    broadcast use vstd::seq_lib::group_to_multiset_ensures;
    assert forall|k: int| 0 <= k < a.len() implies (#[trigger] a[k]).path@ == joined(dest, a[k].name@) by {
        assert(a.contains(a[k]));
        assert(a.to_multiset().count(a[k]) > 0);
        assert(b.contains(a[k]));
        let j = choose|j: int| 0 <= j < b.len() && b[j] == a[k];
        assert(b[j].path@ == joined(dest, b[j].name@));
    }
}

proof fn lemma_shown_paths_follow_names(s: Seq<VersionEntry>, filter: Seq<char>, dest: Seq<char>)
    requires
        paths_follow_names(s, dest),
    ensures
        paths_follow_names(shown_entries(s, filter), dest),
{
    lemma_shown_entries_from(s, filter);
    let sh = shown_entries(s, filter);
    assert forall|k: int| 0 <= k < sh.len() implies (#[trigger] sh[k]).path@ == joined(dest, sh[k].name@) by {
        assert(s.contains(sh[k]));
        let j = choose|j: int| 0 <= j < s.len() && s[j] == sh[k];
        assert(s[j].path@ == joined(dest, s[j].name@));
    }
}

/// Manages the version list: its order, its search text and the folder it
/// lists.
pub struct VersionManager {
    pub versions: Vec<String>,
    pub sort_order: SortOrder,
    pub filter: String,
    pub dest: Option<String>,
}

impl VersionManager {
    /// An empty list, newest first, with no search text and no folder.
    pub fn new() -> (r: Self)
        ensures
            r.versions@.len() == 0,
            r.sort_order == SortOrder::Newest,
            r.filter@.len() == 0,
            r.dest is None,
    {
        VersionManager {
            versions: Vec::new(),
            sort_order: SortOrder::Newest,
            filter: String::new(),
            dest: None,
        }
    }

    /// Sets the destination folder to list.
    pub fn set_dest(&mut self, dest: Option<String>)
        ensures
            final(self).dest == dest,
            final(self).versions == old(self).versions,
            final(self).sort_order == old(self).sort_order,
            final(self).filter == old(self).filter,
    {
        self.dest = dest;
    }

    /// The destination folder to list.
    pub fn dest(&self) -> (r: &Option<String>)
        ensures
            *r == self.dest,
    {
        &self.dest
    }

    /// Rebuilds the list from `found`, the versions found in the destination
    /// folder (with their sizes when the order is by size): with no folder the
    /// list is empty; otherwise it holds the paths of exactly the found
    /// versions that match the search text, their entries in the chosen
    /// order. When each found version's path is its folder name inside the
    /// destination, so is each listed path, and the listed paths follow the
    /// order of those names.
    pub fn refresh(&mut self, found: Vec<VersionEntry>)
        ensures
            final(self).sort_order == old(self).sort_order,
            final(self).filter == old(self).filter,
            final(self).dest == old(self).dest,
            old(self).dest is None ==> final(self).versions@.len() == 0,
            old(self).dest matches Some(d) ==> exists|sorted: Seq<VersionEntry>|
                {
                    &&& in_order(old(self).sort_order, sorted)
                    &&& sorted.to_multiset() == found@.to_multiset()
                    &&& views(final(self).versions@) == shown_paths(sorted, old(self).filter@)
                    &&& views(final(self).versions@) == entry_paths(shown_entries(sorted, old(self).filter@))
                    &&& in_order(old(self).sort_order, shown_entries(sorted, old(self).filter@))
                    &&& shown_entries(sorted, old(self).filter@).to_multiset() == shown_entries(
                        found@,
                        old(self).filter@,
                    ).to_multiset()
                    &&& (paths_follow_names(found@, d@) ==> paths_follow_names(
                        shown_entries(sorted, old(self).filter@),
                        d@,
                    ))
                },
    {
        if self.dest.is_none() {
            self.versions = Vec::new();
            return;
        }
        let sorted = sort_versions(&found, self.sort_order);
        let filter_empty = self.filter.unicode_len() == 0;
        let needle = to_lowercase(self.filter.as_str());
        let mut shown_list: Vec<String> = Vec::new();
        let mut i: usize = 0;
        assert(sorted@.subrange(0, 0) =~= Seq::<VersionEntry>::empty());
        assert(views(shown_list@) =~= Seq::<Seq<char>>::empty());
        while i < sorted.len()
            invariant
                i <= sorted.len(),
                filter_empty == (self.filter@.len() == 0),
                needle@ == lowercase(self.filter@),
                views(shown_list@) == shown_paths(sorted@.subrange(0, i as int), self.filter@),
            decreases sorted.len() - i,
        {
            assert(sorted@.subrange(0, i + 1).drop_last() =~= sorted@.subrange(0, i as int));
            let path = &sorted[i].path;
            let keep = if filter_empty {
                true
            } else {
                let lowered = to_lowercase(sorted[i].name.as_str());
                contains(lowered.as_str(), needle.as_str())
            };
            if keep {
                let ghost before_push = views(shown_list@);
                shown_list.push(path.clone());
                assert(views(shown_list@) =~= before_push.push(sorted@[i as int].path@));
            }
            i = i + 1;
        }
        assert(sorted@.subrange(0, sorted.len() as int) =~= sorted@);
        proof {
            lemma_shown_paths_are_entry_paths(sorted@, self.filter@);
            lemma_shown_entries_in_order(sorted@, self.filter@, self.sort_order);
            lemma_shown_of_permutation(sorted@, found@, self.filter@);
            let d = self.dest->0;
            if paths_follow_names(found@, d@) {
                lemma_permuted_paths_follow_names(sorted@, found@, d@);
                lemma_shown_paths_follow_names(sorted@, self.filter@, d@);
            }
        }
        self.versions = shown_list;
    }
}

/// No two entries share a folder name.
pub open spec fn distinct_names(s: Seq<VersionEntry>) -> bool {
    forall|i: int, j: int| 0 <= i < j < s.len() ==> (#[trigger] s[i]).name@ != (#[trigger] s[j]).name@
}

proof fn lemma_order_total(order: SortOrder, x: VersionEntry, y: VersionEntry)
    requires
        x.name@ != y.name@,
    ensures
        listed_before(order, x, y) || listed_before(order, y, x),
{
    crate::text::lemma_text_lt_total(x.name@, y.name@);
}

proof fn lemma_in_order_tail(order: SortOrder, s: Seq<VersionEntry>)
    requires
        s.len() > 0,
        in_order(order, s),
    ensures
        in_order(order, s.drop_first()),
{
    let t = s.drop_first();
    assert forall|i: int, j: int| 0 <= i < j < t.len() implies !listed_before(
        order,
        #[trigger] t[j],
        #[trigger] t[i],
    ) by {
        assert(t[i] == s[i + 1] && t[j] == s[j + 1]);
    }
}

proof fn lemma_distinct_count(s: Seq<VersionEntry>, e: VersionEntry)
    requires
        distinct_names(s),
    ensures
        s.to_multiset().count(e) <= 1,
    decreases s.len(),
{
    broadcast use vstd::seq_lib::group_to_multiset_ensures;
    if s.len() > 0 {
        let prev = s.drop_last();
        let x = s.last();
        assert(distinct_names(prev)) by {
            assert forall|i: int, j: int| 0 <= i < j < prev.len() implies (#[trigger] prev[i]).name@
                != (#[trigger] prev[j]).name@ by {
                assert(prev[i] == s[i] && prev[j] == s[j]);
            }
        }
        lemma_distinct_count(prev, e);
        assert(prev.push(x) =~= s);
        if e == x && prev.to_multiset().count(e) > 0 {
            assert(prev.contains(e));
            let k = choose|k: int| 0 <= k < prev.len() && prev[k] == e;
            assert(s[k] == e && s[s.len() - 1] == e);
        }
    }
}

proof fn lemma_repeat_count(s: Seq<VersionEntry>, i: int, j: int)
    requires
        0 <= i < j < s.len(),
        s[i] == s[j],
    ensures
        s.to_multiset().count(s[i]) >= 2,
{
    broadcast use vstd::seq_lib::group_to_multiset_ensures;
    let r = s.remove(j);
    assert(r[i] == s[i]);
    assert(r.contains(s[i]));
    assert(s.contains(s[j]));
    assert(s.to_multiset().count(s[j]) > 0);
    assert(r.to_multiset() =~= s.to_multiset().remove(s[j]));
    assert(r.to_multiset().count(s[i]) > 0);
}

proof fn lemma_permutation_distinct(a: Seq<VersionEntry>, b: Seq<VersionEntry>)
    requires
        a.to_multiset() == b.to_multiset(),
        distinct_names(b),
    ensures
        distinct_names(a),
{
    broadcast use vstd::seq_lib::group_to_multiset_ensures;
    assert forall|i: int, j: int| 0 <= i < j < a.len() implies (#[trigger] a[i]).name@ != (#[trigger] a[j]).name@ by {
        if a[i].name@ == a[j].name@ {
            assert(a.contains(a[i]) && a.contains(a[j]));
            assert(a.to_multiset().count(a[i]) > 0 && a.to_multiset().count(a[j]) > 0);
            assert(b.to_multiset().count(a[i]) > 0 && b.to_multiset().count(a[j]) > 0);
            assert(b.contains(a[i]) && b.contains(a[j]));
            let p = choose|p: int| 0 <= p < b.len() && b[p] == a[i];
            let q = choose|q: int| 0 <= q < b.len() && b[q] == a[j];
            if p == q {
                lemma_repeat_count(a, i, j);
                lemma_distinct_count(b, a[i]);
            } else if p < q {
                assert(b[p].name@ != b[q].name@);
            } else {
                assert(b[q].name@ != b[p].name@);
            }
        }
    }
}

proof fn lemma_sorted_unique(order: SortOrder, a: Seq<VersionEntry>, b: Seq<VersionEntry>)
    requires
        in_order(order, a),
        in_order(order, b),
        a.to_multiset() == b.to_multiset(),
        distinct_names(a),
    ensures
        a == b,
    decreases a.len(),
{
    broadcast use vstd::seq_lib::group_to_multiset_ensures;
    if a.len() == 0 {
        assert(a.to_multiset().len() == 0);
        assert(b.to_multiset().len() == 0);
        assert(b =~= a);
    } else {
        a.to_multiset_ensures();
        b.to_multiset_ensures();
        assert(b.len() == a.len());
        assert(a.contains(a[0]));
        assert(a.to_multiset().count(a[0]) > 0);
        assert(b.contains(a[0]));
        assert(b.contains(b[0]));
        assert(b.to_multiset().count(b[0]) > 0);
        assert(a.contains(b[0]));
        let k = choose|k: int| 0 <= k < b.len() && b[k] == a[0];
        let m = choose|m: int| 0 <= m < a.len() && a[m] == b[0];
        if a[0] != b[0] {
            assert(m != 0 && k != 0);
            assert(a[0].name@ != a[m].name@);
            assert(!listed_before(order, a[m], a[0]));
            assert(!listed_before(order, b[k], b[0]));
            lemma_order_total(order, a[0], b[0]);
        }
        let ta = a.drop_first();
        let tb = b.drop_first();
        assert(ta =~= a.remove(0));
        assert(tb =~= b.remove(0));
        assert(ta.to_multiset() =~= tb.to_multiset());
        lemma_in_order_tail(order, a);
        lemma_in_order_tail(order, b);
        assert(distinct_names(ta)) by {
            assert forall|i: int, j: int| 0 <= i < j < ta.len() implies (#[trigger] ta[i]).name@
                != (#[trigger] ta[j]).name@ by {
                assert(ta[i] == a[i + 1] && ta[j] == a[j + 1]);
            }
        }
        lemma_sorted_unique(order, ta, tb);
        assert(a =~= seq![a[0]] + ta);
        assert(b =~= seq![b[0]] + tb);
    }
}

/// Refreshing is stable: when no two versions found share a folder name,
/// two refreshes of the same versions with the same order and search text
/// list the same paths in the same order.
pub proof fn lemma_refresh_is_stable(
    order: SortOrder,
    filter: Seq<char>,
    found: Seq<VersionEntry>,
    first: Seq<VersionEntry>,
    second: Seq<VersionEntry>,
)
    requires
        distinct_names(found),
        in_order(order, first),
        in_order(order, second),
        first.to_multiset() == found.to_multiset(),
        second.to_multiset() == found.to_multiset(),
    ensures
        entry_paths(shown_entries(first, filter)) == entry_paths(shown_entries(second, filter)),
{
    lemma_permutation_distinct(first, found);
    lemma_sorted_unique(order, first, second);
}

} // verus!
