//! Building the preview pane content for the selected entry.
//!
//! A directory preview lists the children in pure name order, marking
//! directories with a trailing separator and the marker colour — a simpler
//! order than the entry list's directories-first rule, kept distinct on
//! purpose. A file preview shows the text, truncated to a character limit,
//! coloured by the highlighting capability; whenever the highlighter cannot
//! classify or colour a line, the text is shown plain instead — never a
//! hard failure. Every highlighted line is checked at run time to carry
//! exactly the text of the source line.

use vstd::prelude::*;
use vstd::string::StringExecFns;

use crate::entry::{entry_leq, entry_views, sort_entries, Entry, EntryModel, SortRule};
use crate::highlight::{find_syntax, highlight_line_runs, load_syntaxes, load_themes,
    new_highlighter, split_lines, theme_named};
use crate::style::{concat_runs, line_views, plain_line, run_views, runs_concat_eq,
    split_lines_spec, PreviewLine, Run, RunModel, Tint};

verus! {

/// File previews are cut off after this many characters.
pub const PREVIEW_CHAR_LIMIT: usize = 50000;

/// The preview text of a file: its content, cut off at the limit.
pub open spec fn truncate_spec(s: Seq<char>) -> Seq<char> {
    if s.len() <= PREVIEW_CHAR_LIMIT as int {
        s
    } else {
        s.take(PREVIEW_CHAR_LIMIT as int)
    }
}

/// What was found when the selected entry was read for previewing.
pub enum PreviewData {
    /// The selected directory's children.
    Children(Vec<Entry>),
    /// The selected directory could not be listed; the error's text.
    ChildrenUnreadable(String),
    /// The selected file's text content.
    FileText(String),
    /// The selected file could not be read as text.
    FileUnreadable,
}

/// The preview line of one child in a directory listing.
pub open spec fn child_line(e: EntryModel) -> Seq<RunModel> {
    seq![
        RunModel {
            text: if e.is_dir {
                e.name + "/"@
            } else {
                e.name
            },
            tint: if e.is_dir {
                Tint::Marker
            } else {
                Tint::Plain
            },
        },
    ]
}

/// The preview of a readable directory: its children in pure name order,
/// one line each, directories marked with a trailing separator.
pub open spec fn children_preview(l: Seq<EntryModel>) -> Seq<Seq<RunModel>> {
    l.sort_by(entry_leq(SortRule::ByName)).map_values(|e: EntryModel| child_line(e))
}

/// The preview of a readable file: one line per source line of the
/// truncated text, each line's runs carrying exactly that line's text.
pub open spec fn file_preview_rel(c: Seq<char>, pv: Seq<Seq<RunModel>>) -> bool {
    let ls = split_lines_spec(truncate_spec(c));
    &&& pv.len() == ls.len()
    &&& forall|i: int| 0 <= i < ls.len() ==> concat_runs(#[trigger] pv[i]) == ls[i]
}

/// What the preview pane must show for the given data.
pub open spec fn preview_matches(data: PreviewData, pv: Seq<Seq<RunModel>>) -> bool {
    match data {
        PreviewData::Children(l) => pv == children_preview(entry_views(l@)),
        PreviewData::ChildrenUnreadable(msg) => pv == seq![
            seq![RunModel { text: "Cannot read directory: "@ + msg@, tint: Tint::Plain }],
        ],
        PreviewData::FileText(c) => file_preview_rel(c@, pv),
        PreviewData::FileUnreadable => pv == seq![
            seq![RunModel { text: "[Binary file or cannot read]"@, tint: Tint::Plain }],
        ],
    }
}

/// Cut a file's text off at the preview character limit.
fn truncate_chars(c: String) -> (t: String)
    ensures
        t@ == truncate_spec(c@),
{
    let n = c.as_str().unicode_len();
    if n <= PREVIEW_CHAR_LIMIT {
        c
    } else {
        c.as_str().substring_char(0, PREVIEW_CHAR_LIMIT).to_owned()
    }
}

/// A line of plain runs carrying exactly the given text.
fn fallback_runs(line: &str) -> (r: Vec<Run>)
    ensures
        concat_runs(run_views(r@)) == line@,
{
    let mut r: Vec<Run> = Vec::new();
    r.push(Run { text: line.to_owned(), tint: Tint::Plain });
    proof {
        let single = seq![RunModel { text: line@, tint: Tint::Plain }];
        assert(run_views(r@) =~= single);
        assert(single.skip(1) =~= Seq::<RunModel>::empty());
        assert(concat_runs(single) == single[0].text + concat_runs(single.skip(1)));
        assert(concat_runs(Seq::<RunModel>::empty()) == Seq::<char>::empty());
        assert(line@ + Seq::<char>::empty() =~= line@);
    }
    r
}

/// Colour one source line. The highlighter's output is used only when its
/// text matches the line exactly; otherwise the line is shown plain.
fn line_to_runs(
    session: &mut syntect::easy::HighlightLines<'_>,
    syntaxes: &syntect::parsing::SyntaxSet,
    line: &str,
) -> (r: Vec<Run>)
    ensures
        concat_runs(run_views(r@)) == line@,
{
    let attempt = highlight_line_runs(session, line, syntaxes);
    match attempt {
        Some(runs) => {
            if runs_concat_eq(&runs, line) {
                runs
            } else {
                fallback_runs(line)
            }
        },
        None => fallback_runs(line),
    }
}

/// One plain line per given source line.
fn plain_lines(lines: &Vec<String>) -> (out: Vec<PreviewLine>)
    ensures
        line_views(out@).len() == lines.deep_view().len(),
        forall|i: int| 0 <= i < lines.deep_view().len()
            ==> concat_runs(#[trigger] line_views(out@)[i]) == lines.deep_view()[i],
{
    let mut out: Vec<PreviewLine> = Vec::new();
    let mut i: usize = 0;
    while i < lines.len()
        invariant
            i <= lines.len(),
            line_views(out@).len() == i,
            forall|j: int| 0 <= j < i
                ==> concat_runs(#[trigger] line_views(out@)[j]) == lines.deep_view()[j],
        decreases lines.len() - i,
    {
        let l = plain_line(lines[i].as_str());
        let ghost lv = l@;
        let ghost prev = out@;
        proof {
            assert(lv.skip(1) =~= Seq::<RunModel>::empty());
            assert(concat_runs(lv) == lv[0].text + concat_runs(lv.skip(1)));
            assert(lines@[i as int]@ + Seq::<char>::empty() =~= lines@[i as int]@);
            assert(lines.deep_view()[i as int] == lines@[i as int]@);
        }
        out.push(l);
        proof {
            assert(line_views(out@) =~= line_views(prev).push(lv));
        }
        i = i + 1;
    }
    out
}

/// One highlighted line per given source line, each checked to carry the
/// source line's text.
fn highlighted_lines(
    syntaxes: &syntect::parsing::SyntaxSet,
    syntax: &syntect::parsing::SyntaxReference,
    theme: &syntect::highlighting::Theme,
    lines: &Vec<String>,
) -> (out: Vec<PreviewLine>)
    ensures
        line_views(out@).len() == lines.deep_view().len(),
        forall|i: int| 0 <= i < lines.deep_view().len()
            ==> concat_runs(#[trigger] line_views(out@)[i]) == lines.deep_view()[i],
{
    let mut session = new_highlighter(syntax, theme);
    let mut out: Vec<PreviewLine> = Vec::new();
    let mut i: usize = 0;
    while i < lines.len()
        invariant
            i <= lines.len(),
            line_views(out@).len() == i,
            forall|j: int| 0 <= j < i
                ==> concat_runs(#[trigger] line_views(out@)[j]) == lines.deep_view()[j],
        decreases lines.len() - i,
    {
        let runs = line_to_runs(&mut session, syntaxes, lines[i].as_str());
        let ghost rv = run_views(runs@);
        let ghost prev = out@;
        proof {
            assert(lines.deep_view()[i as int] == lines@[i as int]@);
        }
        out.push(PreviewLine { runs });
        proof {
            assert(line_views(out@) =~= line_views(prev).push(rv));
        }
        i = i + 1;
    }
    out
}

/// Builds preview content: owns the highlighting capability's syntax and
/// theme sets, loaded once at startup.
pub struct PreviewBuilder {
    syntaxes: syntect::parsing::SyntaxSet,
    theme: Option<syntect::highlighting::Theme>,
}

impl PreviewBuilder {
    /// Load the bundled syntax definitions and the browser's colour theme.
    pub fn new() -> PreviewBuilder {
        let themes = load_themes();
        let theme = theme_named(&themes, "base16-ocean.dark");
        PreviewBuilder { syntaxes: load_syntaxes(), theme }
    }

    /// The syntax for a file name: first one registered for the whole name,
    /// then one for the part after the final dot.
    fn best_syntax(&self, name: &String) -> Option<&syntect::parsing::SyntaxReference> {
        let direct = find_syntax(&self.syntaxes, name.as_str());
        if direct.is_some() {
            return direct;
        }
        let s = name.as_str();
        let n = s.unicode_len();
        let mut i: usize = n;
        while i > 0
            invariant
                i <= n,
                n == s@.len(),
            decreases i,
        {
            if s.get_char(i - 1) == '.' {
                let ext = s.substring_char(i, n).to_owned();
                return find_syntax(&self.syntaxes, ext.as_str());
            }
            i = i - 1;
        }
        None
    }

    /// The preview of a file's text: the truncated content, split into
    /// lines and coloured, each line carrying exactly its source text.
    fn file_lines(&self, name: &String, text: &String) -> (out: Vec<PreviewLine>)
        requires
            text@ == truncate_spec(text@),
        ensures
            file_preview_rel(text@, line_views(out@)),
    {
        let lines = split_lines(text.as_str());
        match self.best_syntax(name) {
            Some(syntax) => match &self.theme {
                Some(theme) => highlighted_lines(&self.syntaxes, syntax, theme, &lines),
                None => plain_lines(&lines),
            },
            None => plain_lines(&lines),
        }
    }

    /// Build the preview pane content for the given data. The selected
    /// entry's name chooses the highlighting syntax for file content.
    pub fn build(&self, name: &String, data: PreviewData) -> (out: Vec<PreviewLine>)
        ensures
            preview_matches(data, line_views(out@)),
    {
        match data {
            PreviewData::Children(mut l) => {
                let ghost l0 = entry_views(l@);
                sort_entries(SortRule::ByName, &mut l);
                let mut out: Vec<PreviewLine> = Vec::new();
                let mut i: usize = 0;
                while i < l.len()
                    invariant
                        i <= l.len(),
                        entry_views(l@) == l0.sort_by(entry_leq(SortRule::ByName)),
                        line_views(out@) =~= entry_views(l@).take(i as int).map_values(
                            |e: EntryModel| child_line(e),
                        ),
                    decreases l.len() - i,
                {
                    let e = &l[i];
                    let shown = if e.is_dir {
                        e.name.clone().concat("/")
                    } else {
                        e.name.clone()
                    };
                    let tint = if e.is_dir {
                        Tint::Marker
                    } else {
                        Tint::Plain
                    };
                    let mut runs: Vec<Run> = Vec::new();
                    runs.push(Run { text: shown, tint });
                    let ghost rv = run_views(runs@);
                    proof {
                        assert(rv =~= child_line(entry_views(l@)[i as int]));
                    }
                    let ghost prev = out@;
                    out.push(PreviewLine { runs });
                    proof {
                        assert(line_views(out@) =~= line_views(prev).push(rv));
                        assert(entry_views(l@).take(i + 1) =~= entry_views(l@).take(
                            i as int,
                        ).push(entry_views(l@)[i as int]));
                        assert(entry_views(l@).take(i + 1).map_values(
                            |e: EntryModel| child_line(e),
                        ) =~= entry_views(l@).take(i as int).map_values(
                            |e: EntryModel| child_line(e),
                        ).push(child_line(entry_views(l@)[i as int])));
                    }
                    i = i + 1;
                }
                proof {
                    assert(entry_views(l@).take(l@.len() as int) =~= entry_views(l@));
                }
                out
            },
            PreviewData::ChildrenUnreadable(msg) => {
                let mut text = "Cannot read directory: ".to_owned();
                text.append(msg.as_str());
                let mut runs: Vec<Run> = Vec::new();
                runs.push(Run { text, tint: Tint::Plain });
                let mut out: Vec<PreviewLine> = Vec::new();
                let ghost rv = run_views(runs@);
                proof {
                    assert(rv =~= seq![
                        RunModel { text: "Cannot read directory: "@ + msg@, tint: Tint::Plain },
                    ]);
                }
                out.push(PreviewLine { runs });
                proof {
                    assert(line_views(out@) =~= seq![rv]);
                }
                out
            },
            PreviewData::FileText(c) => {
                let ghost c0 = c@;
                let t = truncate_chars(c);
                proof {
                    assert(truncate_spec(t@) =~= t@);
                    assert(truncate_spec(c0) =~= t@);
                }
                self.file_lines(name, &t)
            },
            PreviewData::FileUnreadable => {
                let l = plain_line("[Binary file or cannot read]");
                let mut out: Vec<PreviewLine> = Vec::new();
                out.push(l);
                proof {
                    assert(line_views(out@) =~= seq![l@]);
                }
                out
            },
        }
    }
}

} // verus!
