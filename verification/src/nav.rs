//! The navigation state machine.
//!
//! A [`NavState`] owns the current directory, the sorted entry list, the
//! selection index and the preview derived from them. The caller reads the
//! filesystem and hands listings and file content in as plain values; each
//! mutating operation returns a [`PreviewRequest`] saying what must be read
//! next, and [`NavState::apply_preview`] settles the state with that data,
//! so the preview always belongs to the current selection, never to an
//! earlier one.
//!
//! Entering a directory commits only after its listing was obtained: when
//! the read failed, the operation is a harmless no-op and the previous
//! directory, entries and selection stay intact. A failed re-listing of the
//! current directory degrades to an empty entry list instead.

use vstd::prelude::*;

use crate::entry::{entry_leq, entry_views, find_name, find_name_exec, lemma_find_name_ensures,
    sort_entries, Entry, EntryModel, SortRule};
use crate::preview::{preview_matches, PreviewBuilder, PreviewData};
use crate::style::{line_views, run_views, PreviewLine, Run, RunModel, Tint};
use crate::{clamp_index, clamp_index_spec};

verus! {

/// The values of a sequence of path components.
pub open spec fn dir_views(s: Seq<String>) -> Seq<Seq<char>> {
    s.map_values(|x: String| x@)
}

/// The mathematical value of a [`NavState`].
pub ghost struct NavModel {
    pub dir: Seq<Seq<char>>,
    pub entries: Seq<EntryModel>,
    pub selected: int,
    pub preview: Seq<Seq<RunModel>>,
}

/// The navigation state: current directory as absolute path components
/// (the filesystem root is the empty sequence), the sorted entries of that
/// directory, the selection, and the preview lines last settled.
pub struct NavState {
    pub current_dir: Vec<String>,
    pub entries: Vec<Entry>,
    pub selected: usize,
    pub preview: Vec<PreviewLine>,
}

impl View for NavState {
    type V = NavModel;

    open spec fn view(&self) -> NavModel {
        NavModel {
            dir: dir_views(self.current_dir@),
            entries: entry_views(self.entries@),
            selected: self.selected as int,
            preview: line_views(self.preview@),
        }
    }
}

/// The state invariant: the selection stays below the entry count, or sits
/// at zero over an empty list, whose preview is empty.
pub open spec fn wf(m: NavModel) -> bool {
    &&& if m.entries.len() == 0 {
        m.selected == 0
    } else {
        0 <= m.selected < m.entries.len()
    }
    &&& m.entries.len() == 0 ==> m.preview.len() == 0
}

/// What the caller must read next to settle the preview.
pub enum PreviewRequest {
    /// Nothing changed; the settled preview still stands.
    Keep,
    /// Nothing is selected; the preview is already empty.
    Cleared,
    /// List the children of this absolute path.
    Directory(Vec<String>),
    /// Read the text of this absolute path.
    FileContent(Vec<String>),
}

/// The absolute path of the selected entry.
pub open spec fn selected_path(m: NavModel) -> Seq<Seq<char>> {
    m.dir.push(m.entries[m.selected].name)
}

/// `req` asks for exactly what the selection of `m` shows: the selected
/// directory's listing, the selected file's text, or nothing when the
/// entry list is empty.
pub open spec fn is_request_for(req: PreviewRequest, m: NavModel) -> bool {
    match req {
        PreviewRequest::Keep => false,
        PreviewRequest::Cleared => m.entries.len() == 0,
        PreviewRequest::Directory(p) => m.entries.len() > 0 && m.entries[m.selected].is_dir
            && dir_views(p@) == selected_path(m),
        PreviewRequest::FileContent(p) => m.entries.len() > 0 && !m.entries[m.selected].is_dir
            && dir_views(p@) == selected_path(m),
    }
}

/// The values of a listing handed in by the caller; `None` when the
/// directory could not be read.
pub open spec fn listing_views(listing: Option<Vec<Entry>>) -> Option<Seq<EntryModel>> {
    match listing {
        Option::Some(v) => Option::Some(entry_views(v@)),
        Option::None => Option::None,
    }
}

/// A fresh listing, sorted directories-first; a failed read degrades to an
/// empty entry list.
pub open spec fn sorted_or_empty(listing: Option<Seq<EntryModel>>) -> Seq<EntryModel> {
    match listing {
        Option::Some(l) => l.sort_by(entry_leq(SortRule::DirsFirst)),
        Option::None => Seq::empty(),
    }
}

/// Re-reading the current directory: sort, clamp the selection, drop the
/// preview until it is settled again.
pub open spec fn refresh_tr(m: NavModel, listing: Option<Seq<EntryModel>>) -> NavModel {
    let es = sorted_or_empty(listing);
    NavModel {
        dir: m.dir,
        entries: es,
        selected: clamp_index_spec(m.selected, es.len() as int),
        preview: Seq::empty(),
    }
}

/// Moving up: one step toward index zero, clamped there, no wrap-around.
pub open spec fn move_up_tr(m: NavModel) -> NavModel {
    if m.selected > 0 {
        NavModel { selected: m.selected - 1, preview: Seq::empty(), ..m }
    } else {
        m
    }
}

/// Moving down: one step toward the last index, clamped there, no
/// wrap-around.
pub open spec fn move_down_tr(m: NavModel) -> NavModel {
    if m.selected + 1 < m.entries.len() {
        NavModel { selected: m.selected + 1, preview: Seq::empty(), ..m }
    } else {
        m
    }
}

/// Entering descends only into a selected directory.
pub open spec fn can_enter(m: NavModel) -> bool {
    m.entries.len() > 0 && m.entries[m.selected].is_dir
}

/// Descending into the selected directory with its fresh listing: the path
/// grows by the entry's name and the selection resets to the top.
pub open spec fn enter_tr(m: NavModel, l: Seq<EntryModel>) -> NavModel {
    NavModel {
        dir: m.dir.push(m.entries[m.selected].name),
        entries: l.sort_by(entry_leq(SortRule::DirsFirst)),
        selected: 0,
        preview: Seq::empty(),
    }
}

/// The filesystem root has no parent.
pub open spec fn at_root(m: NavModel) -> bool {
    m.dir.len() == 0
}

/// Going to the parent with its fresh listing: the selection lands back on
/// the directory just left when the listing still holds it, and otherwise
/// stays at its clamped position.
pub open spec fn parent_tr(m: NavModel, listing: Option<Seq<EntryModel>>) -> NavModel {
    let es = sorted_or_empty(listing);
    let leaf = m.dir.last();
    let found = find_name(es, leaf);
    NavModel {
        dir: m.dir.drop_last(),
        entries: es,
        selected: if found >= 0 {
            found
        } else {
            clamp_index_spec(m.selected, es.len() as int)
        },
        preview: Seq::empty(),
    }
}

/// The entry-list row of one entry: its name, directories marked with a
/// trailing separator and the marker colour.
pub open spec fn entry_row(e: EntryModel) -> RunModel {
    RunModel {
        text: if e.is_dir {
            e.name + "/"@
        } else {
            e.name
        },
        tint: if e.is_dir {
            Tint::Marker
        } else {
            Tint::Plain
        },
    }
}

/// The absolute path of a child of `dir`.
fn child_path(dir: &Vec<String>, name: &String) -> (r: Vec<String>)
    ensures
        dir_views(r@) == dir_views(dir@).push(name@),
{
    let mut r: Vec<String> = Vec::new();
    let mut i: usize = 0;
    while i < dir.len()
        invariant
            i <= dir.len(),
            r@ == dir@.take(i as int),
        decreases dir.len() - i,
    {
        r.push(dir[i].clone());
        proof {
            assert(r@ =~= dir@.take(i + 1));
        }
        i = i + 1;
    }
    proof {
        assert(dir@.take(dir@.len() as int) =~= dir@);
    }
    r.push(name.clone());
    proof {
        assert(dir_views(r@) =~= dir_views(dir@).push(name@));
    }
    r
}

impl NavState {
    /// A browser opened at the given absolute directory, before its first
    /// listing: no entries, the selection at the top, an empty preview.
    pub fn new(dir: Vec<String>) -> (s: NavState)
        ensures
            s@.dir == dir_views(dir@),
            s@.entries == Seq::<EntryModel>::empty(),
            s@.selected == 0,
            s@.preview == Seq::<Seq<RunModel>>::empty(),
            wf(s@),
    {
        let s = NavState {
            current_dir: dir,
            entries: Vec::new(),
            selected: 0,
            preview: Vec::new(),
        };
        proof {
            assert(s@.entries =~= Seq::<EntryModel>::empty());
            assert(s@.preview =~= Seq::<Seq<RunModel>>::empty());
        }
        s
    }

    /// The request for what the current selection shows.
    pub fn make_request(&self) -> (req: PreviewRequest)
        requires
            wf(self@),
        ensures
            is_request_for(req, self@),
    {
        if self.entries.len() == 0 {
            PreviewRequest::Cleared
        } else {
            let e = &self.entries[self.selected];
            let p = child_path(&self.current_dir, &e.name);
            if e.is_dir {
                PreviewRequest::Directory(p)
            } else {
                PreviewRequest::FileContent(p)
            }
        }
    }

    /// Re-read the current directory from the given listing. A failed read
    /// leaves an empty entry list; a selection running past the shrunken
    /// list is clamped to its last entry.
    pub fn refresh(&mut self, listing: Option<Vec<Entry>>) -> (req: PreviewRequest)
        requires
            wf(old(self)@),
        ensures
            final(self)@ == refresh_tr(old(self)@, listing_views(listing)),
            wf(final(self)@),
            is_request_for(req, final(self)@),
    {
        let ghost lv = listing_views(listing);
        match listing {
            Option::Some(mut l) => {
                sort_entries(SortRule::DirsFirst, &mut l);
                self.entries = l;
            },
            Option::None => {
                self.entries = Vec::new();
                proof {
                    assert(entry_views(self.entries@) =~= Seq::<EntryModel>::empty());
                }
            },
        }
        self.selected = clamp_index(self.selected, self.entries.len());
        self.preview = Vec::new();
        proof {
            assert(line_views(self.preview@) =~= Seq::<Seq<RunModel>>::empty());
            assert(self@ == refresh_tr(old(self)@, lv));
        }
        self.make_request()
    }

    /// Move the selection one step up; at the top it stays put and the
    /// settled preview stands.
    pub fn move_up(&mut self) -> (req: PreviewRequest)
        requires
            wf(old(self)@),
        ensures
            final(self)@ == move_up_tr(old(self)@),
            wf(final(self)@),
            old(self).selected > 0 ==> is_request_for(req, final(self)@),
            old(self).selected == 0 ==> req == PreviewRequest::Keep,
    {
        if self.selected > 0 {
            self.selected = self.selected - 1;
            self.preview = Vec::new();
            proof {
                assert(line_views(self.preview@) =~= Seq::<Seq<RunModel>>::empty());
                assert(self@ == move_up_tr(old(self)@));
            }
            self.make_request()
        } else {
            PreviewRequest::Keep
        }
    }

    /// Move the selection one step down; at the last entry it stays put
    /// and the settled preview stands.
    pub fn move_down(&mut self) -> (req: PreviewRequest)
        requires
            wf(old(self)@),
        ensures
            final(self)@ == move_down_tr(old(self)@),
            wf(final(self)@),
            old(self).selected + 1 < old(self)@.entries.len() ==> is_request_for(
                req,
                final(self)@,
            ),
            old(self).selected + 1 >= old(self)@.entries.len() ==> req == PreviewRequest::Keep,
    {
        let len = self.entries.len();
        if len > 0 && self.selected < len - 1 {
            self.selected = self.selected + 1;
            self.preview = Vec::new();
            proof {
                assert(line_views(self.preview@) =~= Seq::<Seq<RunModel>>::empty());
                assert(self@ == move_down_tr(old(self)@));
            }
            self.make_request()
        } else {
            PreviewRequest::Keep
        }
    }

    /// Descend into the selected directory, committing only with its
    /// listing in hand: with `None` — the directory was unreadable — the
    /// state stays intact and the operation is a no-op. Selecting a file
    /// is a no-op too.
    pub fn enter(&mut self, listing: Option<Vec<Entry>>) -> (req: PreviewRequest)
        requires
            wf(old(self)@),
        ensures
            wf(final(self)@),
            !can_enter(old(self)@) ==> final(self)@ == old(self)@ && req == PreviewRequest::Keep,
            can_enter(old(self)@) ==> match listing_views(listing) {
                Option::Some(l) => final(self)@ == enter_tr(old(self)@, l) && is_request_for(
                    req,
                    final(self)@,
                ),
                Option::None => final(self)@ == old(self)@ && req == PreviewRequest::Keep,
            },
    {
        if self.entries.len() == 0 {
            return PreviewRequest::Keep;
        }
        if !self.entries[self.selected].is_dir {
            return PreviewRequest::Keep;
        }
        match listing {
            Option::None => PreviewRequest::Keep,
            Option::Some(mut l) => {
                let ghost l0 = entry_views(l@);
                let name = self.entries[self.selected].name.clone();
                self.current_dir.push(name);
                sort_entries(SortRule::DirsFirst, &mut l);
                self.entries = l;
                self.selected = 0;
                self.preview = Vec::new();
                proof {
                    assert(line_views(self.preview@) =~= Seq::<Seq<RunModel>>::empty());
                    assert(dir_views(self.current_dir@) =~= old(self)@.dir.push(
                        old(self)@.entries[old(self)@.selected].name,
                    ));
                    assert(self@ == enter_tr(old(self)@, l0));
                }
                self.make_request()
            },
        }
    }

    /// Go to the parent directory with its listing; at a filesystem root
    /// this is a no-op. The selection lands back on the directory just
    /// left when the parent's listing still holds it.
    pub fn go_parent(&mut self, listing: Option<Vec<Entry>>) -> (req: PreviewRequest)
        requires
            wf(old(self)@),
        ensures
            wf(final(self)@),
            at_root(old(self)@) ==> final(self)@ == old(self)@ && req == PreviewRequest::Keep,
            !at_root(old(self)@) ==> final(self)@ == parent_tr(old(self)@, listing_views(listing))
                && is_request_for(req, final(self)@),
    {
        if self.current_dir.len() == 0 {
            return PreviewRequest::Keep;
        }
        let ghost lv = listing_views(listing);
        let leaf = match self.current_dir.pop() {
            Option::Some(s) => s,
            Option::None => {
                proof {
                    assert(false);
                }
                String::new()
            },
        };
        match listing {
            Option::Some(mut l) => {
                sort_entries(SortRule::DirsFirst, &mut l);
                self.entries = l;
            },
            Option::None => {
                self.entries = Vec::new();
                proof {
                    assert(entry_views(self.entries@) =~= Seq::<EntryModel>::empty());
                }
            },
        }
        let clamped = clamp_index(self.selected, self.entries.len());
        let found = find_name_exec(&self.entries, &leaf);
        match found {
            Option::Some(i) => {
                self.selected = i;
            },
            Option::None => {
                self.selected = clamped;
            },
        }
        self.preview = Vec::new();
        proof {
            lemma_find_name_ensures(entry_views(self.entries@), leaf@);
            assert(line_views(self.preview@) =~= Seq::<Seq<RunModel>>::empty());
            assert(dir_views(self.current_dir@) =~= old(self)@.dir.drop_last());
            assert(self@ == parent_tr(old(self)@, lv));
        }
        self.make_request()
    }

    /// Settle the preview with the data read for the selection: the pane
    /// then shows exactly that data, and directory, entries and selection
    /// are untouched. With nothing selected the preview is empty whatever
    /// was passed.
    pub fn apply_preview(&mut self, builder: &PreviewBuilder, data: PreviewData)
        requires
            wf(old(self)@),
        ensures
            wf(final(self)@),
            final(self)@.dir == old(self)@.dir,
            final(self)@.entries == old(self)@.entries,
            final(self)@.selected == old(self)@.selected,
            old(self)@.entries.len() == 0 ==> final(self)@.preview
                == Seq::<Seq<RunModel>>::empty(),
            old(self)@.entries.len() > 0 ==> preview_matches(data, final(self)@.preview),
    {
        if self.entries.len() == 0 {
            self.preview = Vec::new();
            proof {
                assert(line_views(self.preview@) =~= Seq::<Seq<RunModel>>::empty());
            }
            return;
        }
        let name = self.entries[self.selected].name.clone();
        let lines = builder.build(&name, data);
        self.preview = lines;
    }

    /// The rows of the entry-list pane, one per entry in order: the name,
    /// directories marked with a trailing separator and the marker colour.
    pub fn list_rows(&self) -> (rows: Vec<Run>)
        ensures
            run_views(rows@) == self@.entries.map_values(|e: EntryModel| entry_row(e)),
    {
        let mut rows: Vec<Run> = Vec::new();
        let mut i: usize = 0;
        proof {
            assert(run_views(rows@) =~= self@.entries.take(0).map_values(
                |e: EntryModel| entry_row(e),
            ));
        }
        while i < self.entries.len()
            invariant
                i <= self.entries.len(),
                run_views(rows@) == self@.entries.take(i as int).map_values(
                    |e: EntryModel| entry_row(e),
                ),
            decreases self.entries.len() - i,
        {
            let e = &self.entries[i];
            let shown = if e.is_dir {
                e.name.clone().concat("/")
            } else {
                e.name.clone()
            };
            let tint = if e.is_dir {
                Tint::Marker
            } else {
                Tint::Plain
            };
            let ghost prev = rows@;
            rows.push(Run { text: shown, tint });
            proof {
                assert(run_views(rows@) =~= run_views(prev).push(entry_row(
                    self@.entries[i as int],
                )));
                assert(self@.entries.take(i + 1) =~= self@.entries.take(i as int).push(
                    self@.entries[i as int],
                ));
                assert(self@.entries.take(i + 1).map_values(|e: EntryModel| entry_row(e))
                    =~= self@.entries.take(i as int).map_values(
                    |e: EntryModel| entry_row(e),
                ).push(entry_row(self@.entries[i as int])));
            }
            i = i + 1;
        }
        proof {
            assert(self@.entries.take(self@.entries.len() as int) =~= self@.entries);
        }
        rows
    }
}

/// Entering subdirectory `d` and going back to the parent returns the
/// current directory to the starting path; and when the parent's fresh
/// listing still holds `d`, the selection lands back on `d`.
pub proof fn lemma_enter_then_parent_round_trip(
    m: NavModel,
    l1: Seq<EntryModel>,
    l2: Seq<EntryModel>,
)
    requires
        wf(m),
        can_enter(m),
    ensures
        parent_tr(enter_tr(m, l1), Option::Some(l2)).dir == m.dir,
        (exists|k: int|
            0 <= k < sorted_or_empty(Option::Some(l2)).len()
                && (#[trigger] sorted_or_empty(Option::Some(l2))[k]).name
                == m.entries[m.selected].name) ==> {
            let m2 = parent_tr(enter_tr(m, l1), Option::Some(l2));
            &&& wf(m2)
            &&& m2.entries[m2.selected].name == m.entries[m.selected].name
        },
{
    let name = m.entries[m.selected].name;
    let m1 = enter_tr(m, l1);
    let es2 = sorted_or_empty(Option::Some(l2));
    assert(m1.dir.drop_last() =~= m.dir);
    assert(m1.dir.last() == name);
    lemma_find_name_ensures(es2, name);
    if exists|k: int| 0 <= k < es2.len() && (#[trigger] es2[k]).name == name {
        let k = choose|k: int| 0 <= k < es2.len() && (#[trigger] es2[k]).name == name;
        if find_name(es2, name) < 0 {
            assert(es2[k].name != name);
        }
    }
}

/// Preview consistency: the request a mutating operation returns names
/// exactly the entry now at the selection — never an earlier one — and
/// asks for its listing or its text according to its cached kind; with
/// nothing selected it asks for nothing and the preview is already empty.
/// Settling that request through [`NavState::apply_preview`] then puts
/// precisely the data read for it into the preview.
pub proof fn lemma_request_names_current_selection(req: PreviewRequest, m: NavModel)
    requires
        wf(m),
        is_request_for(req, m),
    ensures
        m.entries.len() == 0 ==> req == PreviewRequest::Cleared,
        m.entries.len() > 0 ==> match req {
            PreviewRequest::Directory(p) => m.entries[m.selected].is_dir && dir_views(p@)
                == m.dir.push(m.entries[m.selected].name),
            PreviewRequest::FileContent(p) => !m.entries[m.selected].is_dir && dir_views(p@)
                == m.dir.push(m.entries[m.selected].name),
            _ => false,
        },
{
}

/// The selection invariant holds in every reachable state: every operation
/// keeps it, so the selection never runs past the entry list.
pub proof fn lemma_selection_stays_bounded(m: NavModel, listing: Option<Seq<EntryModel>>)
    requires
        wf(m),
    ensures
        wf(refresh_tr(m, listing)),
        wf(move_up_tr(m)),
        wf(move_down_tr(m)),
        can_enter(m) ==> match listing {
            Option::Some(l) => wf(enter_tr(m, l)),
            Option::None => true,
        },
        !at_root(m) ==> wf(parent_tr(m, listing)),
{
    let es = sorted_or_empty(listing);
    if !at_root(m) {
        lemma_find_name_ensures(es, m.dir.last());
    }
}

} // verus!
