//! Styled text runs and renderable preview lines.

use vstd::prelude::*;
use vstd::string::StringExecFns;

verus! {

/// The colour of a run of preview text. Directory names in a listing get
/// the marker colour; highlighted file content carries explicit RGB values;
/// everything else is plain.
#[derive(Clone, Copy, PartialEq, Eq, Structural, Debug)]
pub enum Tint {
    Plain,
    Marker,
    Rgb(u8, u8, u8),
}

/// A run of text rendered in one colour.
pub struct Run {
    pub text: String,
    pub tint: Tint,
}

/// The mathematical value of a [`Run`].
pub ghost struct RunModel {
    pub text: Seq<char>,
    pub tint: Tint,
}

impl View for Run {
    type V = RunModel;

    open spec fn view(&self) -> RunModel {
        RunModel { text: self.text@, tint: self.tint }
    }
}

/// One renderable preview line: a sequence of coloured runs.
pub struct PreviewLine {
    pub runs: Vec<Run>,
}

/// The values of a sequence of runs.
pub open spec fn run_views(s: Seq<Run>) -> Seq<RunModel> {
    s.map_values(|r: Run| r@)
}

impl View for PreviewLine {
    type V = Seq<RunModel>;

    open spec fn view(&self) -> Seq<RunModel> {
        run_views(self.runs@)
    }
}

/// The values of a sequence of preview lines.
pub open spec fn line_views(s: Seq<PreviewLine>) -> Seq<Seq<RunModel>> {
    s.map_values(|l: PreviewLine| l@)
}

/// The text of a line: its runs' texts, concatenated.
pub open spec fn concat_runs(rs: Seq<RunModel>) -> Seq<char>
    decreases rs.len(),
{
    if rs.len() == 0 {
        Seq::empty()
    } else {
        rs[0].text + concat_runs(rs.skip(1))
    }
}

/// Appending a run appends its text.
pub proof fn lemma_concat_runs_push(rs: Seq<RunModel>, x: RunModel)
    ensures
        concat_runs(rs.push(x)) == concat_runs(rs) + x.text,
    decreases rs.len(),
{
    if rs.len() == 0 {
        assert(rs.push(x).skip(1) =~= Seq::<RunModel>::empty());
        assert(rs.push(x)[0] == x);
        assert(concat_runs(rs.push(x)) == x.text + concat_runs(Seq::<RunModel>::empty()));
        assert(x.text + Seq::<char>::empty() =~= x.text);
        assert(Seq::<char>::empty() + x.text =~= x.text);
    } else {
        assert(rs.push(x).skip(1) =~= rs.skip(1).push(x));
        lemma_concat_runs_push(rs.skip(1), x);
        assert(rs.push(x)[0] == rs[0]);
        assert(rs[0].text + (concat_runs(rs.skip(1)) + x.text) =~= (rs[0].text + concat_runs(
            rs.skip(1),
        )) + x.text);
    }
}

/// The number of characters before the first newline, or the whole length
/// if there is none.
pub open spec fn first_nl(s: Seq<char>) -> nat
    decreases s.len(),
{
    if s.len() == 0 {
        0
    } else if s[0] == '\n' {
        0
    } else {
        1 + first_nl(s.skip(1))
    }
}

/// Split text into lines, each keeping its trailing newline; the last line
/// may lack one. Empty text has no lines.
pub open spec fn split_lines_spec(s: Seq<char>) -> Seq<Seq<char>>
    decreases s.len(),
{
    if s.len() == 0 {
        Seq::empty()
    } else {
        let n = first_nl(s) as int;
        if n >= s.len() {
            seq![s]
        } else {
            seq![s.take(n + 1)] + split_lines_spec(s.skip(n + 1))
        }
    }
}

/// A single plain-coloured line holding the given text.
pub fn plain_line(s: &str) -> (l: PreviewLine)
    ensures
        l@ == seq![RunModel { text: s@, tint: Tint::Plain }],
{
    let r = Run { text: s.to_owned(), tint: Tint::Plain };
    let mut runs: Vec<Run> = Vec::new();
    runs.push(r);
    let l = PreviewLine { runs };
    proof {
        assert(l@ =~= seq![RunModel { text: s@, tint: Tint::Plain }]);
    }
    l
}

/// Decide whether the runs' concatenated text equals `line`.
pub fn runs_concat_eq(rs: &Vec<Run>, line: &str) -> (b: bool)
    ensures
        b == (concat_runs(run_views(rs@)) == line@),
{
    let mut acc = String::new();
    let mut i: usize = 0;
    proof {
        assert(run_views(rs@).take(0) =~= Seq::empty());
    }
    while i < rs.len()
        invariant
            i <= rs.len(),
            acc@ == concat_runs(run_views(rs@).take(i as int)),
        decreases rs.len() - i,
    {
        acc.append(rs[i].text.as_str());
        proof {
            assert(run_views(rs@).take(i + 1) =~= run_views(rs@).take(i as int).push(
                rs@[i as int]@,
            ));
            lemma_concat_runs_push(run_views(rs@).take(i as int), rs@[i as int]@);
        }
        i = i + 1;
    }
    proof {
        assert(run_views(rs@).take(rs@.len() as int) =~= run_views(rs@));
    }
    let whole = line.to_owned();
    acc.eq(&whole)
}

} // verus!
