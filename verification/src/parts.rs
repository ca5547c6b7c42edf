//! What becomes of each part of a workbook archive when drawings and images
//! are stripped from it after a write.
//!
//! Drawing and media parts are dropped, the two kinds of part that refer to
//! them are rewritten without those references, and every other part,
//! worksheets included, is kept byte for byte.

use vstd::prelude::*;
use crate::text::{
    chars_contain, chars_equal, chars_occur_at, chars_replace, chars_start_with, contains_text,
    occurs_at, replaced, starts_with, str_chars,
};

verus! {

/// The text that a sequence of bytes stands for, as `String::from_utf8_lossy`
/// reads it: invalid sequences become replacement characters.
pub uninterp spec fn lossy_text(bytes: Seq<u8>) -> Seq<char>;

/// Whether a pattern is a regular expression that `Regex::new` accepts.
pub uninterp spec fn pattern_compiles(pattern: Seq<char>) -> bool;

/// A text without the matches of a regular expression, as
/// `Regex::replace_all` with an empty replacement leaves it.
pub uninterp spec fn without_matches(pattern: Seq<char>, text: Seq<char>) -> Seq<char>;

/// `String::from_utf8_lossy`: the result is the named text of the bytes.
#[verifier::external_body]
pub(crate) fn text_of_bytes(data: &Vec<u8>) -> (r: String)
    ensures
        r@ == lossy_text(data@),
{
    String::from_utf8_lossy(data).into_owned()
}

/// `Regex::new`, then `Regex::replace_all` with an empty replacement: `None`
/// exactly where the pattern is not accepted, else the named text without
/// the matches.
#[verifier::external_body]
pub(crate) fn remove_matches(pattern: &str, text: &str) -> (r: Option<String>)
    ensures
        r is Some <==> pattern_compiles(pattern@),
        r matches Some(t) ==> t@ == without_matches(pattern@, text@),
{
    match regex::Regex::new(pattern) {
        Ok(re) => Some(re.replace_all(text, "").into_owned()),
        Err(_) => None,
    }
}

/// What is done with one part of the archive.
#[derive(Debug, PartialEq, Eq)]
pub enum PartAction {
    /// The part is left out.
    Drop,
    /// The part is copied as it is.
    Keep,
    /// The part is written with this text in place of its own.
    Rewrite(String),
}

/// The mathematical content of a [`PartAction`].
pub enum PartActionView {
    Drop,
    Keep,
    Rewrite(Seq<char>),
}

impl View for PartAction {
    type V = PartActionView;

    open spec fn view(&self) -> PartActionView {
        match *self {
            PartAction::Drop => PartActionView::Drop,
            PartAction::Keep => PartActionView::Keep,
            PartAction::Rewrite(text) => PartActionView::Rewrite(text@),
        }
    }
}

/// A relationship of a worksheet to a drawing.
pub open spec fn drawing_relationship() -> Seq<char> {
    "<Relationship[^>]*drawing[^>]*/>"@
}

/// The content type of a drawing part.
pub open spec fn drawing_override() -> Seq<char> {
    "<Override\\s+PartName=\"/xl/drawings/[^\"]*\"[^>]*/>"@
}

/// The content type of a media part.
pub open spec fn media_override() -> Seq<char> {
    "<Override\\s+PartName=\"/xl/media/[^\"]*\"[^>]*/>"@
}

/// `s` ends with `suffix`.
pub open spec fn ends_with(s: Seq<char>, suffix: Seq<char>) -> bool {
    occurs_at(s, suffix, s.len() - suffix.len())
}

/// A text without the matches of a pattern; the text as it is where the
/// pattern is not accepted.
pub open spec fn stripped(pattern: Seq<char>, text: Seq<char>) -> Seq<char> {
    if pattern_compiles(pattern) {
        without_matches(pattern, text)
    } else {
        text
    }
}

/// The name of a part with forward slashes only.
pub open spec fn part_name(name: Seq<char>) -> Seq<char> {
    replaced(name, seq!['\\'], seq!['/'])
}

/// What is done with the part of the given name and content: drawing and
/// media parts are dropped; the list of content types loses the entries of
/// drawing and media parts; the relationships of a worksheet lose those to
/// drawings; any other part is kept.
pub open spec fn part_action_of(name: Seq<char>, data: Seq<u8>) -> PartActionView {
    let n = part_name(name);
    if starts_with(n, "xl/drawings/"@) || starts_with(n, "xl/media/"@) {
        PartActionView::Drop
    } else if n == "[Content_Types].xml"@ {
        PartActionView::Rewrite(
            stripped(media_override(), stripped(drawing_override(), lossy_text(data))),
        )
    } else if contains_text(n, "worksheets/_rels/"@) && ends_with(n, ".rels"@) {
        PartActionView::Rewrite(stripped(drawing_relationship(), lossy_text(data)))
    } else {
        PartActionView::Keep
    }
}

/// The text without the matches, or the text itself where there was no
/// pattern to match.
pub fn removed_or_kept(text: String, removed: Option<String>) -> (r: String)
    ensures
        r@ == match removed {
            Some(t) => t@,
            None => text@,
        },
{
    match removed {
        Some(t) => t,
        None => text,
    }
}

fn strip(pattern: &str, text: String) -> (r: String)
    ensures
        r@ == stripped(pattern@, text@),
{
    let removed = remove_matches(pattern, text.as_str());
    removed_or_kept(text, removed)
}

fn chars_end_with(s: &Vec<char>, suffix: &Vec<char>) -> (b: bool)
    ensures
        b == ends_with(s@, suffix@),
{
    if suffix.len() > s.len() {
        return false;
    }
    chars_occur_at(s, suffix, s.len() - suffix.len())
}

/// Decides what is done with one part of the archive when drawings are
/// stripped from it.
pub fn strip_part(name: &str, data: &Vec<u8>) -> (action: PartAction)
    ensures
        action@ == part_action_of(name@, data@),
{
    let mut backslash: Vec<char> = Vec::new();
    backslash.push('\\');
    let mut slash: Vec<char> = Vec::new();
    slash.push('/');
    assert(backslash@ =~= seq!['\\']);
    assert(slash@ =~= seq!['/']);
    let n = chars_replace(&str_chars(name), &backslash, &slash);
    if chars_start_with(&n, &str_chars("xl/drawings/")) || chars_start_with(
        &n,
        &str_chars("xl/media/"),
    ) {
        return PartAction::Drop;
    }
    if chars_equal(&n, &str_chars("[Content_Types].xml")) {
        let text = text_of_bytes(data);
        let text = strip("<Override\\s+PartName=\"/xl/drawings/[^\"]*\"[^>]*/>", text);
        let text = strip("<Override\\s+PartName=\"/xl/media/[^\"]*\"[^>]*/>", text);
        return PartAction::Rewrite(text);
    }
    if chars_contain(&n, &str_chars("worksheets/_rels/")) && chars_end_with(&n, &str_chars(".rels")) {
        let text = text_of_bytes(data);
        return PartAction::Rewrite(strip("<Relationship[^>]*drawing[^>]*/>", text));
    }
    PartAction::Keep
}

} // verus!
