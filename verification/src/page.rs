//! From a document to its page: the body and the list of footnotes are
//! written out as hypertext and put into the slot of the page template.

use crate::error::{Error, Failure};
use crate::footnotes::{
    body_test, definitions_of, footnote_source, footnote_test, joined, lines_of, list_source,
    parse_footnote_lines, split_content_and_footnotes,
};
use crate::markdown::{
    parse_events, parsed_events, write_html, written_html, FOOTNOTES, SMART_PUNCTUATION,
    STRIKETHROUGH,
};
use crate::rewrite::{
    initial_state, labels_of, renumber_items, renumbered, rewrite_events, rewritten,
};
use crate::template::{expanded_template, fill_template};
use vstd::prelude::*;
use vstd::string::StringExecFns;

verus! {

/// The extensions with which every text is parsed: struck-through spans,
/// typographic punctuation, and references to footnotes.
pub const EXTENSIONS: u32 = FOOTNOTES | STRIKETHROUGH | SMART_PUNCTUATION;

/// The name of the slot of the page template that takes the hypertext of a
/// document.
pub const BODY_SLOT: &'static str = "body";

/// The page around a document: the hypertext of the document goes into the
/// `body` slot.
pub const PAGE_TEMPLATE: &'static str =
    "<!DOCTYPE html>\n<html lang=\"en\">\n<head>\n<meta charset=\"utf-8\">\n<meta name=\"viewport\" content=\"width=device-width, initial-scale=1\">\n<link rel=\"stylesheet\" href=\"tufte.css\">\n<script type=\"module\" src=\"https://js.withorbit.com/orbit-web-component.js\"></script>\n</head>\n<body>\n<article>\n{{body}}\n</article>\n</body>\n</html>\n";

/// The hypertext of the body of a document: its events, rewritten and
/// written out.
pub open spec fn body_html(content: Seq<char>) -> Result<Seq<char>, Failure> {
    match rewritten(parsed_events(content, EXTENSIONS), content, initial_state()) {
        Err(failure) => Err(failure),
        Ok(events) => Ok(written_html(events)),
    }
}

/// The hypertext of the list of footnotes that the lines define: the events
/// of the list's source, rewritten and written out.
pub open spec fn footnotes_html(lines: Seq<Seq<char>>) -> Result<Seq<char>, Failure> {
    match definitions_of(lines) {
        Err(failure) => Err(failure),
        Ok(footnotes) => match renumbered(
            parsed_events(list_source(footnotes), EXTENSIONS),
            labels_of(footnotes),
            0,
        ) {
            Err(failure) => Err(failure),
            Ok(events) => Ok(written_html(events)),
        },
    }
}

/// The data for the slot of the page template.
pub open spec fn page_data(html: Seq<char>) -> Seq<(Seq<char>, Seq<char>)> {
    seq![(BODY_SLOT@, html)]
}

/// The page that holds this hypertext of a body and of footnotes: the two,
/// one after the other, in the slot of the page template.
pub open spec fn assembled_page(body: Seq<char>, footnotes: Seq<char>) -> Option<Seq<char>> {
    expanded_template(PAGE_TEMPLATE@, page_data(body + footnotes))
}

/// The page of a document: the hypertext of its body, then that of its
/// footnotes, in the slot of the page template.
pub open spec fn page_html(markdown: Seq<char>) -> Result<Seq<char>, Failure> {
    let lines = lines_of(markdown);
    match body_html(joined(lines.filter(body_test()))) {
        Err(failure) => Err(failure),
        Ok(body) => match footnotes_html(lines.filter(footnote_test())) {
            Err(failure) => Err(failure),
            Ok(footnotes) => match assembled_page(body, footnotes) {
                None => Err(Failure::Template),
                Some(page) => Ok(page),
            },
        },
    }
}

/// Writes the body of a document out as hypertext.
pub fn body_to_html(content: &str) -> (html: Result<String, Error>)
    ensures
        match body_html(content@) {
            Ok(expected) => html matches Ok(s) && s@ == expected,
            Err(failure) => html matches Err(error) && error@ == failure,
        },
{
    let events = parse_events(content, EXTENSIONS);
    match rewrite_events(events, content) {
        Err(error) => Err(error),
        Ok(events) => Ok(write_html(events)),
    }
}

/// Writes the footnotes that the lines define out as hypertext: a rule, and
/// under it an ordered list with one item for each footnote, which is named
/// after the footnote's label and ends with a link back to the reference.
pub fn fmt_footnotes_to_html(footnotes: &Vec<String>) -> (html: Result<String, Error>)
    ensures
        match footnotes_html(footnotes.deep_view()) {
            Ok(expected) => html matches Ok(s) && s@ == expected,
            Err(failure) => html matches Err(error) && error@ == failure,
        },
{
    match parse_footnote_lines(footnotes) {
        Err(error) => Err(error),
        Ok(definitions) => {
            let source = footnote_source(&definitions);
            let events = parse_events(source.as_str(), EXTENSIONS);
            match renumber_items(events, &definitions) {
                Err(error) => Err(error),
                Ok(events) => Ok(write_html(events)),
            }
        },
    }
}

/// Puts the hypertext of a document, body first and footnotes after it, into
/// the slot of the page template, as it is.
pub fn assemble_page(body: &str, footnotes: &str) -> (page: Result<String, Error>)
    ensures
        match assembled_page(body@, footnotes@) {
            Some(expected) => page matches Ok(s) && s@ == expected,
            None => page matches Err(error) && error@ == Failure::Template,
        },
{
    let mut html = String::from_str(body);
    html.append(footnotes);
    let mut data: Vec<(String, String)> = Vec::new();
    let ghost text = html@;
    data.push((String::from_str(BODY_SLOT), html));
    assert(data.deep_view() =~= page_data(text));
    fill_template(PAGE_TEMPLATE, &data)
}

/// Turns a document, without its preamble, into its page.
pub fn markdown_to_html(markdown: &str) -> (page: Result<String, Error>)
    ensures
        match page_html(markdown@) {
            Ok(expected) => page matches Ok(s) && s@ == expected,
            Err(failure) => page matches Err(error) && error@ == failure,
        },
{
    let (content, footnotes) = split_content_and_footnotes(markdown);
    match body_to_html(content.as_str()) {
        Err(error) => Err(error),
        Ok(body) => match fmt_footnotes_to_html(&footnotes) {
            Err(error) => Err(error),
            Ok(notes) => assemble_page(body.as_str(), notes.as_str()),
        },
    }
}

} // verus!
