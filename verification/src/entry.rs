//! Directory entries and the two sort orders of the browser.
//!
//! The entry list of the navigation pane puts all directories before all
//! files and orders each group lexicographically by name. The directory
//! preview pane uses a different, simpler order: pure name order, with no
//! directories-first rule. Both orders are kept deliberately distinct.

use vstd::prelude::*;

use crate::order::{lex_le, lemma_lex_le_antisymmetric, lemma_lex_le_connected,
    lemma_lex_le_refl, lemma_lex_le_transitive, str_le};
use vstd::relations::{sorted_by, total_ordering};

verus! {

/// A named filesystem object within a listed directory, with its kind
/// cached at scan time.
pub struct Entry {
    pub name: String,
    pub is_dir: bool,
}

/// The mathematical value of an [`Entry`].
pub ghost struct EntryModel {
    pub name: Seq<char>,
    pub is_dir: bool,
}

impl View for Entry {
    type V = EntryModel;

    open spec fn view(&self) -> EntryModel {
        EntryModel { name: self.name@, is_dir: self.is_dir }
    }
}

/// The two orders used by the browser.
#[derive(Clone, Copy, PartialEq, Eq, Structural)]
pub enum SortRule {
    /// Directories before files; each group lexicographic by name.
    DirsFirst,
    /// Pure name order, used for the directory preview listing.
    ByName,
}

/// `a` comes no later than `b` under the given rule. Entries with equal
/// names are ordered with files first, a tie-break that never shows in a
/// real directory, where names are unique.
pub open spec fn entry_le(rule: SortRule, a: EntryModel, b: EntryModel) -> bool {
    match rule {
        SortRule::DirsFirst => {
            if a.is_dir != b.is_dir {
                a.is_dir
            } else {
                lex_le(a.name, b.name)
            }
        },
        SortRule::ByName => {
            if a.name == b.name {
                !a.is_dir || b.is_dir
            } else {
                lex_le(a.name, b.name)
            }
        },
    }
}

/// [`entry_le`] as an order relation on entry values.
pub open spec fn entry_leq(rule: SortRule) -> spec_fn(EntryModel, EntryModel) -> bool {
    |a: EntryModel, b: EntryModel| entry_le(rule, a, b)
}

/// Both browser orders are total orders on entry values.
pub proof fn lemma_entry_leq_total_ordering(rule: SortRule)
    ensures
        total_ordering(entry_leq(rule)),
{
    let leq = entry_leq(rule);
    assert forall|a: EntryModel| #[trigger] leq(a, a) by {
        lemma_lex_le_refl(a.name);
    }
    assert forall|a: EntryModel, b: EntryModel| #[trigger] leq(a, b) && #[trigger] leq(b, a)
        implies a == b by {
        if a.name == b.name {
            assert(a.is_dir == b.is_dir);
        } else {
            lemma_lex_le_antisymmetric(a.name, b.name);
        }
    }
    assert forall|a: EntryModel, b: EntryModel, c: EntryModel|
        #[trigger] leq(a, b) && #[trigger] leq(b, c) implies leq(a, c) by {
        match rule {
            SortRule::DirsFirst => {
                if a.is_dir == b.is_dir && b.is_dir == c.is_dir {
                    lemma_lex_le_transitive(a.name, b.name, c.name);
                }
            },
            SortRule::ByName => {
                if a.name != b.name && b.name != c.name {
                    lemma_lex_le_transitive(a.name, b.name, c.name);
                    if a.name == c.name {
                        lemma_lex_le_antisymmetric(a.name, b.name);
                    }
                }
            },
        }
    }
    assert forall|a: EntryModel, b: EntryModel| #[trigger] leq(a, b) || #[trigger] leq(b, a) by {
        lemma_lex_le_connected(a.name, b.name);
    }
}

/// Executable comparison deciding [`entry_le`].
pub fn entry_le_exec(rule: SortRule, a: &Entry, b: &Entry) -> (r: bool)
    ensures
        r == entry_le(rule, a@, b@),
{
    match rule {
        SortRule::DirsFirst => {
            if a.is_dir != b.is_dir {
                a.is_dir
            } else {
                str_le(a.name.as_str(), b.name.as_str())
            }
        },
        SortRule::ByName => {
            if a.name.eq(&b.name) {
                !a.is_dir || b.is_dir
            } else {
                str_le(a.name.as_str(), b.name.as_str())
            }
        },
    }
}

/// Copy an entry; the copy has the same value.
pub fn clone_entry(e: &Entry) -> (r: Entry)
    ensures
        r@ == e@,
{
    Entry { name: e.name.clone(), is_dir: e.is_dir }
}

/// The values of a sequence of entries.
pub open spec fn entry_views(s: Seq<Entry>) -> Seq<EntryModel> {
    s.map_values(|e: Entry| e@)
}

/// The position where `e` belongs in the sorted vector `v`.
fn insert_pos(rule: SortRule, v: &Vec<Entry>, e: &Entry) -> (j: usize)
    ensures
        j <= v.len(),
        forall|k: int| 0 <= k < j ==> !entry_leq(rule)(e@, #[trigger] entry_views(v@)[k]),
        j < v.len() ==> entry_leq(rule)(e@, entry_views(v@)[j as int]),
{
    let mut j: usize = 0;
    while j < v.len()
        invariant
            j <= v.len(),
            forall|k: int| 0 <= k < j ==> !entry_leq(rule)(e@, #[trigger] entry_views(v@)[k]),
        decreases v.len() - j,
    {
        if entry_le_exec(rule, e, &v[j]) {
            return j;
        }
        j = j + 1;
    }
    j
}

/// Insert `e` into the sorted vector `v`, keeping it sorted.
fn insert_entry(rule: SortRule, v: &mut Vec<Entry>, e: Entry)
    requires
        sorted_by(entry_views(old(v)@), entry_leq(rule)),
    ensures
        sorted_by(entry_views(final(v)@), entry_leq(rule)),
        entry_views(final(v)@).to_multiset() == entry_views(old(v)@).to_multiset().insert(e@),
{
    let ghost leq = entry_leq(rule);
    let ghost s0 = entry_views(v@);
    proof {
        lemma_entry_leq_total_ordering(rule);
    }
    let j = insert_pos(rule, v, &e);
    let ghost jj = j as int;
    v.insert(j, e);
    proof {
        let s1 = entry_views(v@);
        assert(s1 =~= s0.take(jj) + seq![e@] + s0.skip(jj));
        assert forall|x: int, y: int| 0 <= x < y < s1.len() implies leq(s1[x], s1[y]) by {
            assert(total_ordering(leq));
            if x < jj {
                assert(s1[x] == s0[x]);
            }
            if y < jj {
                assert(s1[y] == s0[y]);
            }
            if x > jj {
                assert(s1[x] == s0[x - 1]);
            }
            if y > jj {
                assert(s1[y] == s0[y - 1]);
            }
            if y < jj {
                assert(leq(s0[x], s0[y]));
            } else if y == jj {
                assert(!leq(e@, s0[x]));
                assert(leq(s0[x], e@));
            } else if x == jj {
                assert(leq(e@, s0[jj]));
                if y - 1 > jj {
                    assert(leq(s0[jj], s0[y - 1]));
                }
            } else if x < jj {
                assert(leq(s0[x], s0[y - 1]));
            } else {
                assert(leq(s0[x - 1], s0[y - 1]));
            }
        }
        assert(s0 =~= s0.take(jj) + s0.skip(jj));
        vstd::seq_lib::lemma_multiset_commutative(s0.take(jj), s0.skip(jj));
        vstd::seq_lib::lemma_multiset_commutative(s0.take(jj) + seq![e@], s0.skip(jj));
        vstd::seq_lib::lemma_multiset_commutative(s0.take(jj), seq![e@]);
        assert(seq![e@].to_multiset() =~= vstd::multiset::Multiset::empty().insert(e@)) by {
            broadcast use vstd::seq_lib::group_to_multiset_ensures;
            assert(seq![e@] =~= Seq::empty().push(e@));
        }
        assert(s1.to_multiset() =~= s0.to_multiset().insert(e@)) by {
            broadcast use vstd::multiset::group_multiset_axioms;
        }
    }
}

/// Sort the entries under the given rule. The result is exactly the sorted
/// permutation of the input that [`Seq::sort_by`] describes.
pub fn sort_entries(rule: SortRule, v: &mut Vec<Entry>)
    ensures
        entry_views(final(v)@) == entry_views(old(v)@).sort_by(entry_leq(rule)),
{
    let ghost leq = entry_leq(rule);
    let ghost s0 = entry_views(v@);
    proof {
        lemma_entry_leq_total_ordering(rule);
    }
    let mut out: Vec<Entry> = Vec::new();
    let mut i: usize = 0;
    proof {
        assert(entry_views(Seq::empty()) =~= Seq::empty());
        broadcast use vstd::seq_lib::group_to_multiset_ensures;

        assert(entry_views(out@).to_multiset() =~= entry_views(v@.take(0)).to_multiset()) by {
            assert(entry_views(out@) =~= Seq::empty());
            assert(entry_views(v@.take(0)) =~= Seq::empty());
        }
    }
    while i < v.len()
        invariant
            i <= v.len(),
            entry_views(v@) == s0,
            sorted_by(entry_views(out@), entry_leq(rule)),
            entry_views(out@).to_multiset() == entry_views(v@.take(i as int)).to_multiset(),
        decreases v.len() - i,
    {
        let ghost before = entry_views(out@);
        let e = clone_entry(&v[i]);
        insert_entry(rule, &mut out, e);
        proof {
            broadcast use vstd::seq_lib::group_to_multiset_ensures;

            assert(entry_views(v@.take(i + 1)) =~= entry_views(v@.take(i as int)).push(v@[i as int]@));
        }
        i = i + 1;
    }
    proof {
        assert(v@.take(v@.len() as int) =~= v@);
    }
    let ghost sorted_out = entry_views(out@);
    *v = out;
    proof {
        s0.lemma_sort_by_ensures(leq);
        vstd::seq_lib::lemma_sorted_unique(sorted_out, s0.sort_by(leq), leq);
        assert(entry_views(v@) =~= s0.sort_by(leq));
    }
}

/// Sorting invariant of the entry list: a refreshed listing is a
/// permutation of what was read, ordered so that all directories precede
/// all files and each group is lexicographic by name — see
/// [`lemma_dirs_first_meaning`] for that reading of the order.
pub proof fn lemma_refresh_sorting(l: Seq<EntryModel>)
    ensures
        l.sort_by(entry_leq(SortRule::DirsFirst)).to_multiset() == l.to_multiset(),
        l.sort_by(entry_leq(SortRule::DirsFirst)).len() == l.len(),
        sorted_by(l.sort_by(entry_leq(SortRule::DirsFirst)), entry_leq(SortRule::DirsFirst)),
{
    broadcast use vstd::seq_lib::group_to_multiset_ensures;

    let leq = entry_leq(SortRule::DirsFirst);
    lemma_entry_leq_total_ordering(SortRule::DirsFirst);
    l.lemma_sort_by_ensures(leq);
    assert(l.sort_by(leq).to_multiset() =~= l.to_multiset());
    assert(l.sort_by(leq).to_multiset().len() == l.sort_by(leq).len());
    assert(l.to_multiset().len() == l.len());
}

/// What the directories-first order says of two ordered entries: a file
/// never precedes a directory, and within one kind the names are in
/// lexicographic order.
pub proof fn lemma_dirs_first_meaning(a: EntryModel, b: EntryModel)
    requires
        entry_le(SortRule::DirsFirst, a, b),
    ensures
        b.is_dir ==> a.is_dir,
        a.is_dir == b.is_dir ==> lex_le(a.name, b.name),
{
}

/// The first position whose entry has the given name, or `-1` if none has.
pub open spec fn find_name(s: Seq<EntryModel>, name: Seq<char>) -> int
    decreases s.len(),
{
    if s.len() == 0 {
        -1
    } else if s[0].name == name {
        0
    } else {
        let r = find_name(s.skip(1), name);
        if r < 0 {
            -1
        } else {
            r + 1
        }
    }
}

/// `find_name` returns `-1` or a position of an entry with the name, and
/// nothing with the name comes before that position.
pub proof fn lemma_find_name_ensures(s: Seq<EntryModel>, name: Seq<char>)
    ensures
        find_name(s, name) >= 0 ==> find_name(s, name) < s.len()
            && s[find_name(s, name)].name == name,
        find_name(s, name) < 0 ==> forall|k: int| 0 <= k < s.len()
            ==> (#[trigger] s[k].name) != name,
        forall|k: int| 0 <= k < find_name(s, name) ==> (#[trigger] s[k].name) != name,
    decreases s.len(),
{
    if s.len() > 0 && s[0].name != name {
        lemma_find_name_ensures(s.skip(1), name);
        assert forall|k: int| 0 <= k < s.len() && find_name(s, name) < 0
            implies (#[trigger] s[k].name) != name by {
            if k > 0 {
                assert(s.skip(1)[k - 1] == s[k]);
            }
        }
        assert forall|k: int| 0 <= k < find_name(s, name)
            implies (#[trigger] s[k].name) != name by {
            if k > 0 {
                assert(s.skip(1)[k - 1] == s[k]);
            }
        }
    }
}

/// Executable search for the first entry with the given name.
pub fn find_name_exec(v: &Vec<Entry>, name: &String) -> (r: Option<usize>)
    ensures
        match r {
            Some(i) => find_name(entry_views(v@), name@) == i as int,
            None => find_name(entry_views(v@), name@) < 0,
        },
{
    let ghost s = entry_views(v@);
    let mut i: usize = 0;
    while i < v.len()
        invariant
            i <= v.len(),
            entry_views(v@) == s,
            forall|k: int| 0 <= k < i ==> (#[trigger] s[k].name) != name@,
        decreases v.len() - i,
    {
        if v[i].name.eq(name) {
            proof {
                lemma_find_name_ensures(s, name@);
                if find_name(s, name@) < 0 {
                    assert(s[i as int].name == name@);
                }
                if find_name(s, name@) < i as int {
                    assert(false);
                }
                if find_name(s, name@) > i as int {
                    assert(s[i as int].name != name@);
                }
            }
            return Some(i);
        }
        i = i + 1;
    }
    proof {
        lemma_find_name_ensures(s, name@);
        if find_name(s, name@) >= 0 {
            assert(s[find_name(s, name@)].name == name@);
        }
    }
    None
}

} // verus!
