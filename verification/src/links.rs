//! Names of files and destinations of links: which are Markdown, and what
//! they are called as hypertext.

use crate::text::{chars_of, ends_with, occurs, starts_with, string_of};
use vstd::prelude::*;
use vstd::string::StringExecFns;

verus! {

/// How the name of a Markdown file ends.
pub const MARKDOWN_SUFFIX: &'static str = ".md";

/// How the name of a hypertext file ends.
pub const HTML_SUFFIX: &'static str = ".html";

/// How the name of a hidden file begins.
pub const HIDDEN_PREFIX: &'static str = ".";

/// The destination of a link as it stands in the page: one that ends in
/// `MARKDOWN_SUFFIX` has that ending replaced by `HTML_SUFFIX`, any other
/// stays as it is.
pub open spec fn html_destination(destination: Seq<char>) -> Seq<char> {
    if ends_with(destination, MARKDOWN_SUFFIX@) {
        destination.subrange(0, destination.len() - MARKDOWN_SUFFIX@.len()) + HTML_SUFFIX@
    } else {
        destination
    }
}

/// Whether a file of this name is a Markdown document.
pub fn is_markdown(name: &str) -> (markdown: bool)
    ensures
        markdown == ends_with(name@, MARKDOWN_SUFFIX@),
{
    let chars = chars_of(name);
    let suffix = chars_of(MARKDOWN_SUFFIX);
    suffix.len() <= chars.len() && occurs(&chars, chars.len() - suffix.len(), &suffix)
}

/// Whether an entry of the source directory is a document to turn into a
/// page: a file, not a directory, whose name is that of a Markdown file.
pub fn is_document(name: &str, directory: bool) -> (document: bool)
    ensures
        document == (!directory && ends_with(name@, MARKDOWN_SUFFIX@)),
{
    !directory && is_markdown(name)
}

/// The name of the page of a document: the name of the document, with
/// `HTML_SUFFIX` in place of `MARKDOWN_SUFFIX`.
pub fn page_name(name: &str) -> (page: String)
    ensures
        page@ == html_destination(name@),
{
    rewrite_destination(name)
}

/// Whether a file or directory of this name is hidden.
pub fn is_hidden(name: &str) -> (hidden: bool)
    ensures
        hidden == starts_with(name@, HIDDEN_PREFIX@),
{
    let chars = chars_of(name);
    let prefix = chars_of(HIDDEN_PREFIX);
    occurs(&chars, 0, &prefix)
}

/// The destination of a link as it stands in the page.
pub fn rewrite_destination(destination: &str) -> (rewritten: String)
    ensures
        rewritten@ == html_destination(destination@),
        ends_with(destination@, MARKDOWN_SUFFIX@) ==> rewritten@ == destination@.subrange(
            0,
            destination@.len() - MARKDOWN_SUFFIX@.len(),
        ) + HTML_SUFFIX@,
        !ends_with(destination@, MARKDOWN_SUFFIX@) ==> rewritten@ == destination@,
{
    let chars = chars_of(destination);
    let suffix = chars_of(MARKDOWN_SUFFIX);
    if suffix.len() <= chars.len() && occurs(&chars, chars.len() - suffix.len(), &suffix) {
        let mut rewritten = string_of(&chars, 0, chars.len() - suffix.len());
        rewritten.append(HTML_SUFFIX);
        rewritten
    } else {
        assert(chars@.subrange(0, chars@.len() as int) =~= chars@);
        string_of(&chars, 0, chars.len())
    }
}

} // verus!
