//! The syntax-highlighting capability, supplied by the `syntect` crate.
//!
//! Everything here is a declaration of, or a thin call into, `syntect`;
//! the verified preview logic treats these values as opaque and checks
//! every textual claim it needs at run time.

use vstd::prelude::*;

use crate::style::{split_lines_spec, Run, Tint};

verus! {

#[verifier::external_type_specification]
#[verifier::external_body]
pub struct ExSyntaxSet(syntect::parsing::SyntaxSet);

#[verifier::external_type_specification]
#[verifier::external_body]
pub struct ExSyntaxReference(syntect::parsing::SyntaxReference);

#[verifier::external_type_specification]
#[verifier::external_body]
pub struct ExTheme(syntect::highlighting::Theme);

#[verifier::external_type_specification]
#[verifier::external_body]
pub struct ExThemeSet(syntect::highlighting::ThemeSet);

#[verifier::external_type_specification]
#[verifier::external_body]
pub struct ExHighlightLines<'a>(syntect::easy::HighlightLines<'a>);

/// Relies on `syntect::parsing::SyntaxSet::load_defaults_newlines` to build
/// the bundled syntax-definition set.
#[verifier::external_body]
pub(crate) fn load_syntaxes() -> syntect::parsing::SyntaxSet {
    syntect::parsing::SyntaxSet::load_defaults_newlines()
}

/// Relies on `syntect::highlighting::ThemeSet::load_defaults` to build the
/// bundled colour-theme set.
#[verifier::external_body]
pub(crate) fn load_themes() -> syntect::highlighting::ThemeSet {
    syntect::highlighting::ThemeSet::load_defaults()
}

/// Relies on `std::collections::BTreeMap::get` to look a theme up by name
/// in the theme set's public map.
#[verifier::external_body]
pub(crate) fn theme_named(
    themes: &syntect::highlighting::ThemeSet,
    name: &str,
) -> Option<syntect::highlighting::Theme> {
    themes.themes.get(name).cloned()
}

/// Relies on `syntect::parsing::SyntaxSet::find_syntax_by_extension` to find
/// a syntax whose registered extensions match the given token.
#[verifier::external_body]
pub(crate) fn find_syntax<'a>(
    syntaxes: &'a syntect::parsing::SyntaxSet,
    token: &str,
) -> Option<&'a syntect::parsing::SyntaxReference> {
    syntaxes.find_syntax_by_extension(token)
}

/// Relies on `syntect::easy::HighlightLines::new` to start a highlighting
/// session for one file.
#[verifier::external_body]
pub(crate) fn new_highlighter<'a>(
    syntax: &syntect::parsing::SyntaxReference,
    theme: &'a syntect::highlighting::Theme,
) -> syntect::easy::HighlightLines<'a> {
    syntect::easy::HighlightLines::new(syntax, theme)
}

/// Relies on `syntect::easy::HighlightLines::highlight_line` to colour one
/// source line. Nothing is assumed of the result; callers check the text
/// against the input line at run time.
#[verifier::external_body]
pub(crate) fn highlight_line_runs(
    session: &mut syntect::easy::HighlightLines<'_>,
    line: &str,
    syntaxes: &syntect::parsing::SyntaxSet,
) -> Option<Vec<Run>> {
    match session.highlight_line(line, syntaxes) {
        Ok(ranges) => Some(
            ranges
                .into_iter()
                .map(|(style, text)| Run {
                    text: text.to_string(),
                    tint: Tint::Rgb(style.foreground.r, style.foreground.g, style.foreground.b),
                })
                .collect(),
        ),
        Err(_) => None,
    }
}

/// Relies on `syntect::util::LinesWithEndings`: it yields the pieces of the
/// text after each newline byte in turn, the last piece possibly without a
/// newline, and skips nothing, which is exactly [`split_lines_spec`].
#[verifier::external_body]
pub(crate) fn split_lines(text: &str) -> (r: Vec<String>)
    ensures
        r.deep_view() == split_lines_spec(text@),
{
    syntect::util::LinesWithEndings::from(text).map(|line| line.to_string()).collect()
}

} // verus!
