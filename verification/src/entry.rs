//! The entries of a directory as plain values, and their order of
//! treatment: the largest first.

use vstd::prelude::*;

verus! {

/// What kind of thing a directory entry is.
#[derive(Clone, Copy, Debug, PartialEq, Eq, Structural)]
pub enum EntryKind {
    File,
    Directory,
    Other,
}

/// One entry of a directory, with what the classification reads of it.
#[derive(Clone, Debug, PartialEq, Eq)]
pub struct Entry {
    /// The whole path of the entry, as text.
    pub path: String,
    /// The last component of the path.
    pub name: String,
    /// The name without its extension.
    pub stem: String,
    /// What follows the last full stop of the name, if the name has one.
    pub extension: Option<String>,
    /// The size in bytes.
    pub size: u64,
    pub kind: EntryKind,
}

/// An `Entry` as plain values.
pub struct EntryView {
    pub path: Seq<char>,
    pub name: Seq<char>,
    pub stem: Seq<char>,
    pub extension: Option<Seq<char>>,
    pub size: u64,
    pub kind: EntryKind,
}

impl View for Entry {
    type V = EntryView;

    open spec fn view(&self) -> EntryView {
        EntryView {
            path: self.path@,
            name: self.name@,
            stem: self.stem@,
            extension: self.extension.deep_view(),
            size: self.size,
            kind: self.kind,
        }
    }
}

impl DeepView for Entry {
    type V = EntryView;

    open spec fn deep_view(&self) -> EntryView {
        self.view()
    }
}

/// The predicate that holds of the entries of one kind.
pub open spec fn of_kind(kind: EntryKind) -> spec_fn(EntryView) -> bool {
    |e: EntryView| e.kind == kind
}

/// The predicate that holds of the entries of one size.
pub open spec fn of_size(size: u64) -> spec_fn(EntryView) -> bool {
    |e: EntryView| e.size == size
}

/// No entry is followed by a larger one.
pub open spec fn is_largest_first(s: Seq<EntryView>) -> bool {
    forall|i: int, j: int| 0 <= i <= j < s.len() ==> s[i].size >= s[j].size
}

/// The place of a new entry of the given size in a sequence that has the
/// largest first: behind every entry that is at least as large.
pub open spec fn place_for(s: Seq<EntryView>, size: u64) -> int
    decreases s.len(),
{
    if s.len() == 0 || s[0].size < size {
        0
    } else {
        1 + place_for(s.drop_first(), size)
    }
}

/// The entries of `s` with the largest first; entries of one size keep the
/// order they had.
pub open spec fn largest_first(s: Seq<EntryView>) -> Seq<EntryView>
    decreases s.len(),
{
    if s.len() == 0 {
        s
    } else {
        let before = largest_first(s.drop_last());
        before.insert(place_for(before, s.last().size), s.last())
    }
}

/// The place of a new entry is the first index that holds a smaller one.
pub proof fn lemma_place_for(s: Seq<EntryView>, size: u64)
    ensures
        0 <= place_for(s, size) <= s.len(),
        forall|i: int| 0 <= i < place_for(s, size) ==> s[i].size >= size,
        place_for(s, size) < s.len() ==> s[place_for(s, size)].size < size,
    decreases s.len(),
{
    if s.len() == 0 || s[0].size < size {
    } else {
        lemma_place_for(s.drop_first(), size);
        let p = place_for(s.drop_first(), size);
        assert forall|i: int| 0 <= i < 1 + p implies s[i].size >= size by {
            if i > 0 {
                assert(s.drop_first()[i - 1] == s[i]);
            }
        }
        if p < s.drop_first().len() {
            assert(s.drop_first()[p] == s[p + 1]);
        }
    }
}

/// An index with only larger or equal entries before it and a smaller one
/// at it, or none behind it, is the place of the new entry.
pub proof fn lemma_place_is_unique(s: Seq<EntryView>, size: u64, p: int)
    requires
        0 <= p <= s.len(),
        forall|i: int| 0 <= i < p ==> s[i].size >= size,
        p < s.len() ==> s[p].size < size,
    ensures
        place_for(s, size) == p,
{
    lemma_place_for(s, size);
    let q = place_for(s, size);
    if q < p {
        assert(s[q].size >= size);
    }
    if p < q {
        assert(s[p].size >= size);
    }
}

/// Putting an entry at its place keeps the largest first, and keeps the
/// entries of every size in their order, the new one last among its equals.
pub proof fn lemma_insert_at_place(s: Seq<EntryView>, e: EntryView)
    requires
        is_largest_first(s),
    ensures
        is_largest_first(s.insert(place_for(s, e.size), e)),
        forall|size: u64|
            #[trigger] s.insert(place_for(s, e.size), e).filter(of_size(size)) == s.push(e).filter(
                of_size(size),
            ),
{
    lemma_place_for(s, e.size);
    let p = place_for(s, e.size);
    let t = s.insert(p, e);
    assert forall|i: int, j: int| 0 <= i <= j < t.len() implies t[i].size >= t[j].size by {
        if j > p && i < p {
            assert(s[i].size >= s[j - 1].size);
        } else if j > p && i > p {
            assert(s[i - 1].size >= s[j - 1].size);
        } else if i == p && j > p {
            assert(s[p].size >= s[j - 1].size);
        }
    }
    assert forall|size: u64| #[trigger] t.filter(of_size(size)) == s.push(e).filter(of_size(size)) by {
        let f = of_size(size);
        let head = s.take(p);
        let tail = s.skip(p);
        assert(s =~= head + tail);
        assert(t =~= head + seq![e] + tail);
        assert(s.push(e) =~= head + tail + seq![e]);
        Seq::filter_distributes_over_add(head, seq![e], f);
        Seq::filter_distributes_over_add(head + seq![e], tail, f);
        Seq::filter_distributes_over_add(head, tail, f);
        Seq::filter_distributes_over_add(head + tail, seq![e], f);
        if size == e.size {
            assert(tail.all(|x: EntryView| !f(x))) by {
                assert forall|i: int| 0 <= i < tail.len() implies !f(#[trigger] tail[i]) by {
                    assert(s[p].size >= s[p + i].size);
                }
            }
            tail.lemma_all_neg_filter_empty(f);
            assert(tail.filter(f) =~= Seq::<EntryView>::empty());
            assert(t.filter(f) =~= s.push(e).filter(f));
        } else {
            reveal_with_fuel(Seq::filter, 2);
            assert(seq![e].drop_last() =~= Seq::<EntryView>::empty());
            assert(seq![e].filter(f) =~= Seq::<EntryView>::empty());
            assert(t.filter(f) =~= s.push(e).filter(f));
        }
    }
}

/// The order of treatment has the largest entry first and is stable: the
/// entries of each size are those of the input, in the order of the input.
pub proof fn lemma_largest_first(s: Seq<EntryView>)
    ensures
        is_largest_first(largest_first(s)),
        largest_first(s).len() == s.len(),
        forall|size: u64| #[trigger] largest_first(s).filter(of_size(size)) == s.filter(of_size(size)),
    decreases s.len(),
{
    if s.len() > 0 {
        let init = s.drop_last();
        let e = s.last();
        lemma_largest_first(init);
        let before = largest_first(init);
        lemma_insert_at_place(before, e);
        lemma_place_for(before, e.size);
        assert forall|size: u64| #[trigger]
            largest_first(s).filter(of_size(size)) == s.filter(of_size(size)) by {
            let f = of_size(size);
            assert(before.insert(place_for(before, e.size), e).filter(f) == before.push(e).filter(f));
            before.lemma_filter_push(e, f);
            init.lemma_filter_push(e, f);
            assert(before.filter(f) == init.filter(f));
            assert(s =~= init.push(e));
        }
    }
}

/// Puts a further entry into a vector that has the largest first.
fn insert_by_size(sorted: &mut Vec<Entry>, entry: Entry)
    ensures
        final(sorted).deep_view() == old(sorted).deep_view().insert(
            place_for(old(sorted).deep_view(), entry.size),
            entry@,
        ),
{
    let ghost before = sorted.deep_view();
    let mut p: usize = 0;
    while p < sorted.len() && sorted[p].size >= entry.size
        invariant
            p <= sorted.len(),
            sorted.deep_view() == before,
            forall|i: int| 0 <= i < p ==> before[i].size >= entry.size,
        decreases sorted.len() - p,
    {
        p = p + 1;
    }
    proof {
        lemma_place_is_unique(before, entry.size, p as int);
    }
    sorted.insert(p, entry);
    assert(sorted.deep_view() =~= before.insert(p as int, entry@));
}

/// The entries of one kind, the largest first, equal sizes in the order
/// in which they were listed.
pub open spec fn ordered_of_kind(entries: Seq<EntryView>, kind: EntryKind) -> Seq<EntryView> {
    largest_first(entries.filter(of_kind(kind)))
}

/// Parts the entries of a directory into its files and its folders, each
/// with the largest first; entries that are neither are left out.
pub fn files_and_folders(entries: Vec<Entry>) -> (parts: (Vec<Entry>, Vec<Entry>))
    ensures
        parts.0.deep_view() == ordered_of_kind(entries.deep_view(), EntryKind::File),
        parts.1.deep_view() == ordered_of_kind(entries.deep_view(), EntryKind::Directory),
{
    let mut files: Vec<Entry> = Vec::new();
    let mut folders: Vec<Entry> = Vec::new();
    let ghost all = entries.deep_view();
    proof {
        reveal(Seq::filter);
        assert(all.take(0) =~= Seq::<EntryView>::empty());
        assert(files.deep_view() =~= Seq::<EntryView>::empty());
        assert(folders.deep_view() =~= Seq::<EntryView>::empty());
    }
    for entry in it: entries
        invariant
            it.seq().len() == all.len(),
            forall|i: int| 0 <= i < all.len() ==> (#[trigger] it.seq()[i])@ == all[i],
            files.deep_view() == ordered_of_kind(all.take(it.index() as int), EntryKind::File),
            folders.deep_view() == ordered_of_kind(
                all.take(it.index() as int),
                EntryKind::Directory,
            ),
    {
        proof {
            let taken = it.index() as int;
            let seen = all.take(taken);
            assert(entry@ == all[taken]);
            assert(all.take(taken + 1) =~= seen.push(entry@));
            seen.lemma_filter_push(entry@, of_kind(EntryKind::File));
            seen.lemma_filter_push(entry@, of_kind(EntryKind::Directory));
            assert(seen.filter(of_kind(EntryKind::File)).push(entry@).drop_last() =~= seen.filter(
                of_kind(EntryKind::File),
            ));
            assert(seen.filter(of_kind(EntryKind::Directory)).push(entry@).drop_last()
                =~= seen.filter(of_kind(EntryKind::Directory)));
        }
        match entry.kind {
            EntryKind::File => insert_by_size(&mut files, entry),
            EntryKind::Directory => insert_by_size(&mut folders, entry),
            EntryKind::Other => {},
        }
    }
    proof {
        assert(all.take(all.len() as int) =~= all);
    }
    (files, folders)
}

} // verus!
