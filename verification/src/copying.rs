//! Which files of a project are copied when it is staged.

use vstd::prelude::*;

use crate::staging::{is_left_out, left_out};
use crate::text::text_of;

verus! {

/// An entry of a project, and all that is below it.
#[derive(Debug)]
pub struct ProjectEntry {
    /// The name of the entry, where it is UTF-8.
    pub name: Option<String>,
    /// The number under which the entry is known.
    pub id: usize,
    /// What the entry is.
    pub kind: EntryKind,
}

/// What an entry of a project is.
#[derive(Debug)]
pub enum EntryKind {
    /// A file.
    File,
    /// A directory, with its entries.
    Dir(Vec<ProjectEntry>),
    /// Something that could not be read, with the error.
    Broken(String),
}

/// An entry of a project, and all that is below it.
pub struct EntryTree {
    pub name: Option<Seq<char>>,
    pub id: usize,
    pub kind: KindTree,
}

/// What an entry of a project is.
pub enum KindTree {
    File,
    Dir(Seq<EntryTree>),
    Broken(Seq<char>),
}

/// What an entry shows.
pub open spec fn entry_tree(e: ProjectEntry) -> EntryTree
    decreases e,
{
    EntryTree {
        name: text_of(e.name),
        id: e.id,
        kind: match e.kind {
            EntryKind::File => KindTree::File,
            EntryKind::Dir(v) => KindTree::Dir(entry_trees(v@)),
            EntryKind::Broken(m) => KindTree::Broken(m@),
        },
    }
}

/// What entries show.
pub open spec fn entry_trees(v: Seq<ProjectEntry>) -> Seq<EntryTree>
    decreases v,
{
    Seq::new(
        v.len(),
        |i: int| if 0 <= i < v.len() { entry_tree(v[i]) } else { arbitrary() },
    )
}

impl View for ProjectEntry {
    type V = EntryTree;

    open spec fn view(&self) -> EntryTree {
        entry_tree(*self)
    }
}

/// What is copied of one entry: nothing where it is left out; otherwise the
/// entry and, behind it, what is copied of what is below it. An entry that could
/// not be read is an error.
pub open spec fn copied(e: EntryTree) -> Result<Seq<usize>, Seq<char>>
    decreases e,
{
    if left_out(e.name) {
        Ok(Seq::empty())
    } else {
        match e.kind {
            KindTree::File => Ok(seq![e.id]),
            KindTree::Broken(m) => Err(m),
            KindTree::Dir(entries) => match all_copied(entries) {
                Ok(ids) => Ok(seq![e.id] + ids),
                Err(m) => Err(m),
            },
        }
    }
}

/// What is copied of entries, one after the other, or the first error.
pub open spec fn all_copied(entries: Seq<EntryTree>) -> Result<Seq<usize>, Seq<char>>
    decreases entries,
{
    if entries.len() == 0 {
        Ok(Seq::empty())
    } else {
        match all_copied(entries.drop_last()) {
            Err(m) => Err(m),
            Ok(front) => match copied(entries.last()) {
                Ok(ids) => Ok(front + ids),
                Err(m) => Err(m),
            },
        }
    }
}

/// The outcome of a plan.
pub open spec fn plan_model(r: Result<Vec<usize>, String>) -> Result<Seq<usize>, Seq<char>> {
    match r {
        Ok(v) => Ok(v@),
        Err(e) => Err(e@),
    }
}

/// The numbers of the entries of a project that are copied, each directory in
/// front of what is in it; or the error of the first of them that could not be
/// read.
pub fn plan_copy(entries: &Vec<ProjectEntry>) -> (r: Result<Vec<usize>, String>)
    ensures
        plan_model(r) == all_copied(entry_trees(entries@)),
    decreases entries,
{
    let ghost trees = entry_trees(entries@);
    let mut out: Vec<usize> = Vec::new();
    let mut i: usize = 0;
    assert(trees.take(0) =~= Seq::<EntryTree>::empty());
    while i < entries.len()
        invariant
            i <= entries@.len(),
            trees == entry_trees(entries@),
            all_copied(trees.take(i as int)) == Ok::<Seq<usize>, Seq<char>>(out@),
        decreases entries.len() - i,
    {
        let entry = &entries[i];
        assert(trees.take(i + 1).drop_last() =~= trees.take(i as int));
        let ghost tree = entry_tree(*entry);
        assert(trees.take(i + 1).last() == tree);
        let name: Option<&str> = match &entry.name {
            Some(n) => Some(n.as_str()),
            None => None,
        };
        if !is_left_out(name) {
            match &entry.kind {
                EntryKind::File => {
                    let ghost before = out@;
                    out.push(entry.id);
                    assert(copied(tree) == Ok::<Seq<usize>, Seq<char>>(seq![entry.id]));
                    assert(out@ =~= before + seq![entry.id]);
                },
                EntryKind::Broken(m) => {
                    proof {
                        assert(copied(tree) == Err::<Seq<usize>, Seq<char>>(m@));
                        lemma_first_failure(trees, i + 1);
                    }
                    return Err(m.clone());
                },
                EntryKind::Dir(v) => {
                    proof {
                        assert(decreases_to!(entries => entries@));
                        assert(decreases_to!(entries@ => entries@[i as int]));
                        assert(decreases_to!(entries@[i as int] => entries@[i as int].kind));
                        assert(decreases_to!(entries@[i as int].kind => entries@[i as int].kind->Dir_0));
                    }
                    let ghost before = out@;
                    match plan_copy(v) {
                        Ok(inner) => {
                            out.push(entry.id);
                            let mut rest = inner;
                            let ghost tail = rest@;
                            out.append(&mut rest);
                            assert(copied(tree) == Ok::<Seq<usize>, Seq<char>>(seq![entry.id] + tail));
                            assert(out@ =~= before + (seq![entry.id] + tail));
                        },
                        Err(m) => {
                            proof {
                                assert(copied(tree) == Err::<Seq<usize>, Seq<char>>(m@));
                                lemma_first_failure(trees, i + 1);
                            }
                            return Err(m);
                        },
                    }
                },
            }
        } else {
            assert(copied(tree) == Ok::<Seq<usize>, Seq<char>>(Seq::empty()));
            assert(out@ + Seq::<usize>::empty() =~= out@);
        }
        i += 1;
    }
    assert(trees.take(i as int) =~= trees);
    Ok(out)
}

/// What fails among the first entries fails.
proof fn lemma_first_failure(entries: Seq<EntryTree>, k: int)
    requires
        0 <= k <= entries.len(),
        all_copied(entries.take(k)) is Err,
    ensures
        all_copied(entries) == all_copied(entries.take(k)),
    decreases entries.len() - k,
{
    if k < entries.len() {
        assert(entries.take(k + 1).drop_last() =~= entries.take(k));
        lemma_first_failure(entries, k + 1);
    } else {
        assert(entries.take(k) =~= entries);
    }
}

// ── Laws ────────────────────────────────────────────────────────────────────

/// A place in a project: the names from its top down to an entry, and the
/// number of the entry.
pub struct Spot {
    pub names: Seq<Option<Seq<char>>>,
    pub id: usize,
}

/// The places of one entry and of all that is below it, where `above` are the
/// names of the directories that it is in.
pub open spec fn spots(e: EntryTree, above: Seq<Option<Seq<char>>>) -> Seq<Spot>
    decreases e,
{
    let names = above.push(e.name);
    let own = seq![Spot { names, id: e.id }];
    match e.kind {
        KindTree::Dir(entries) => own + all_spots(entries, names),
        _ => own,
    }
}

/// The places of entries and of all that is below them.
pub open spec fn all_spots(entries: Seq<EntryTree>, above: Seq<Option<Seq<char>>>) -> Seq<Spot>
    decreases entries,
{
    if entries.len() == 0 {
        Seq::empty()
    } else {
        all_spots(entries.drop_last(), above) + spots(entries.last(), above)
    }
}

/// Whether no name on the way to a place is left out.
pub open spec fn kept(s: Spot) -> bool {
    forall|i: int| 0 <= i < s.names.len() ==> !left_out(#[trigger] s.names[i])
}

/// The numbers of the places that are kept.
pub open spec fn kept_ids(v: Seq<Spot>) -> Seq<usize>
    decreases v.len(),
{
    if v.len() == 0 {
        Seq::empty()
    } else if kept(v.last()) {
        kept_ids(v.drop_last()).push(v.last().id)
    } else {
        kept_ids(v.drop_last())
    }
}

/// What is kept of two lists in a row is what is kept of each.
proof fn lemma_kept_concat(a: Seq<Spot>, b: Seq<Spot>)
    ensures
        kept_ids(a + b) == kept_ids(a) + kept_ids(b),
    decreases b.len(),
{
    if b.len() == 0 {
        assert(a + b =~= a);
        assert(kept_ids(a) + kept_ids(b) =~= kept_ids(a));
    } else {
        assert((a + b).drop_last() =~= a + b.drop_last());
        assert((a + b).last() == b.last());
        lemma_kept_concat(a, b.drop_last());
        assert(kept_ids(a + b) =~= kept_ids(a) + kept_ids(b));
    }
}

/// Nothing is kept below a name that is left out.
proof fn lemma_nothing_kept(e: EntryTree, above: Seq<Option<Seq<char>>>)
    requires
        exists|i: int| 0 <= i < above.push(e.name).len() && left_out(#[trigger] above.push(e.name)[i]),
    ensures
        kept_ids(spots(e, above)) == Seq::<usize>::empty(),
    decreases e,
{
    let names = above.push(e.name);
    let own = seq![Spot { names, id: e.id }];
    lemma_single(names, e.id);
    match e.kind {
        KindTree::Dir(entries) => {
            lemma_none_kept(entries, names);
            lemma_kept_concat(own, all_spots(entries, names));
        },
        _ => {},
    }
}

/// Nothing is kept of entries below a name that is left out.
proof fn lemma_none_kept(entries: Seq<EntryTree>, above: Seq<Option<Seq<char>>>)
    requires
        exists|i: int| 0 <= i < above.len() && left_out(#[trigger] above[i]),
    ensures
        kept_ids(all_spots(entries, above)) == Seq::<usize>::empty(),
    decreases entries,
{
    if entries.len() > 0 {
        let e = entries.last();
        let i = choose|i: int| 0 <= i < above.len() && left_out(#[trigger] above[i]);
        assert(above.push(e.name)[i] == above[i]);
        lemma_none_kept(entries.drop_last(), above);
        lemma_nothing_kept(e, above);
        lemma_kept_concat(all_spots(entries.drop_last(), above), spots(e, above));
    }
}

/// One place is kept or is not.
proof fn lemma_single(names: Seq<Option<Seq<char>>>, id: usize)
    ensures
        kept_ids(seq![Spot { names, id }]) == (if kept(Spot { names, id }) {
            seq![id]
        } else {
            Seq::<usize>::empty()
        }),
{
    let v = seq![Spot { names, id }];
    reveal_with_fuel(kept_ids, 2);
    assert(v.drop_last() =~= Seq::<Spot>::empty());
    assert(Seq::<usize>::empty().push(id) =~= seq![id]);
}

/// What is copied of an entry are the places that are kept.
proof fn lemma_copied_is_kept(e: EntryTree, above: Seq<Option<Seq<char>>>)
    requires
        forall|i: int| 0 <= i < above.len() ==> !left_out(#[trigger] above[i]),
        copied(e) is Ok,
    ensures
        copied(e)->Ok_0 == kept_ids(spots(e, above)),
    decreases e,
{
    let names = above.push(e.name);
    let own = seq![Spot { names, id: e.id }];
    if left_out(e.name) {
        assert(names[above.len() as int] == e.name);
        lemma_nothing_kept(e, above);
    } else {
        lemma_single(names, e.id);
        assert(kept(Spot { names, id: e.id })) by {
            assert forall|i: int| 0 <= i < names.len() implies !left_out(#[trigger] names[i]) by {
                if i < above.len() {
                    assert(names[i] == above[i]);
                }
            }
        }
        match e.kind {
            KindTree::Dir(entries) => {
                law_copied_is_kept(entries, names);
                lemma_kept_concat(own, all_spots(entries, names));
            },
            _ => {},
        }
    }
}

/// Exactly the entries are copied on whose way no name is left out, at any
/// depth: everything of a project but what is named `_build` or `.git`, or lies
/// below something of that name.
pub proof fn law_copied_is_kept(entries: Seq<EntryTree>, above: Seq<Option<Seq<char>>>)
    requires
        forall|i: int| 0 <= i < above.len() ==> !left_out(#[trigger] above[i]),
        all_copied(entries) is Ok,
    ensures
        all_copied(entries)->Ok_0 == kept_ids(all_spots(entries, above)),
    decreases entries,
{
    if entries.len() > 0 {
        let front = entries.drop_last();
        let e = entries.last();
        assert(all_copied(front) is Ok && copied(e) is Ok);
        law_copied_is_kept(front, above);
        lemma_copied_is_kept(e, above);
        lemma_kept_concat(all_spots(front, above), spots(e, above));
    }
}

/// Whether all can be read that is not left out, at any depth.
pub open spec fn readable(entries: Seq<EntryTree>) -> bool
    decreases entries,
{
    forall|i: int| 0 <= i < entries.len() ==> left_out(entries[i].name) || readable_kind(#[trigger] entries[i])
}

/// Whether an entry, and all below it that is not left out, can be read.
pub open spec fn readable_kind(e: EntryTree) -> bool
    decreases e,
{
    match e.kind {
        KindTree::File => true,
        KindTree::Broken(_) => false,
        KindTree::Dir(entries) => readable(entries),
    }
}

/// One entry is copied if and only if it is left out or can be read.
proof fn lemma_copied_readable(e: EntryTree)
    ensures
        copied(e) is Ok <==> left_out(e.name) || readable_kind(e),
    decreases e,
{
    match e.kind {
        KindTree::Dir(entries) => {
            law_copied_if_readable(entries);
        },
        _ => {},
    }
}

/// A project is copied if and only if all of it can be read that is not left out.
pub proof fn law_copied_if_readable(entries: Seq<EntryTree>)
    ensures
        all_copied(entries) is Ok <==> readable(entries),
    decreases entries,
{
    if entries.len() > 0 {
        let front = entries.drop_last();
        let last = entries.last();
        law_copied_if_readable(front);
        lemma_copied_readable(last);
        if readable(entries) {
            assert forall|i: int| 0 <= i < front.len() implies left_out(front[i].name) || readable_kind(
                #[trigger] front[i],
            ) by {
                assert(front[i] == entries[i]);
            }
            assert(left_out(entries[entries.len() - 1].name) || readable_kind(entries[entries.len() - 1]));
        }
        if readable(front) && (left_out(last.name) || readable_kind(last)) {
            assert forall|i: int| 0 <= i < entries.len() implies left_out(entries[i].name) || readable_kind(
                #[trigger] entries[i],
            ) by {
                if i < front.len() {
                    assert(front[i] == entries[i]);
                }
            }
        }
    }
}

/// What the first entry that cannot be read says is what the copy fails with.
pub proof fn law_first_broken_is_said(before: Seq<EntryTree>, e: EntryTree, after: Seq<EntryTree>, m: Seq<char>)
    requires
        all_copied(before) is Ok,
        copied(e) == Err::<Seq<usize>, Seq<char>>(m),
    ensures
        all_copied(before + seq![e] + after) == Err::<Seq<usize>, Seq<char>>(m),
{
    let whole = before + seq![e] + after;
    let k = before.len() + 1;
    assert(whole.take(k as int).drop_last() =~= before);
    assert(whole.take(k as int).last() == e);
    lemma_first_failure(whole, k as int);
}

/// What cannot be read fails with what is wrong with it, and a directory with
/// what is wrong inside it.
pub proof fn law_broken_is_said(e: EntryTree, m: Seq<char>)
    requires
        !left_out(e.name),
    ensures
        e.kind == KindTree::Broken(m) ==> copied(e) == Err::<Seq<usize>, Seq<char>>(m),
        e.kind matches KindTree::Dir(entries) ==> (copied(e) == Err::<Seq<usize>, Seq<char>>(m) <==> all_copied(entries)
            == Err::<Seq<usize>, Seq<char>>(m)),
{
}

} // verus!
