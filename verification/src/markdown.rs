//! The structural events of a parsed document, and the two calls into the
//! Markdown parser: one that reads a text into events, one that writes
//! events out as hypertext.

use pulldown_cmark::{CodeBlockKind, Event, LinkType, Options, Parser, Tag};
use vstd::prelude::*;

verus! {

/// An event as the parser makes it. Nothing in this crate looks inside one.
#[verifier::external_type_specification]
#[verifier::external_body]
pub struct ExParsedEvent<'a>(Event<'a>);

/// How a link was written in the source. Nothing in this crate looks inside one.
#[verifier::external_type_specification]
#[verifier::external_body]
pub struct ExLinkType(LinkType);

/// One structural event of a document. The variants with fields of their own
/// are the ones that rewriting reads or makes; every other event of the
/// parser is carried through in `Other`.
#[derive(Debug, PartialEq)]
pub enum DocEvent<'a> {
    /// A reference to a footnote, with the footnote's label.
    FootnoteReference { label: String },
    /// The start of a link.
    LinkStart { kind: LinkType, destination: String, title: String },
    /// The start of a fenced code block: the text after the opening fence,
    /// and the byte offsets in the parsed text between which the whole block
    /// lies, fences included.
    FenceStart { language: String, start: usize, end: usize },
    /// The end of a fenced code block, with the text after its opening fence.
    FenceEnd { language: String },
    /// The start of a list item.
    ItemStart,
    /// A fragment of hypertext, written out as it is.
    Html { text: String },
    /// Any other event.
    Other { event: Event<'a> },
}

/// What a [`DocEvent`] is in contracts: the same variants, over character
/// sequences.
pub enum DocEventView<'a> {
    FootnoteReference { label: Seq<char> },
    LinkStart { kind: LinkType, destination: Seq<char>, title: Seq<char> },
    FenceStart { language: Seq<char>, start: usize, end: usize },
    FenceEnd { language: Seq<char> },
    ItemStart,
    Html { text: Seq<char> },
    Other { event: Event<'a> },
}

impl<'a> View for DocEvent<'a> {
    type V = DocEventView<'a>;

    open spec fn view(&self) -> DocEventView<'a> {
        match *self {
            DocEvent::FootnoteReference { label } => DocEventView::FootnoteReference { label: label@ },
            DocEvent::LinkStart { kind, destination, title } => DocEventView::LinkStart {
                kind,
                destination: destination@,
                title: title@,
            },
            DocEvent::FenceStart { language, start, end } => DocEventView::FenceStart {
                language: language@,
                start,
                end,
            },
            DocEvent::FenceEnd { language } => DocEventView::FenceEnd { language: language@ },
            DocEvent::ItemStart => DocEventView::ItemStart,
            DocEvent::Html { text } => DocEventView::Html { text: text@ },
            DocEvent::Other { event } => DocEventView::Other { event },
        }
    }
}

impl<'a> DeepView for DocEvent<'a> {
    type V = DocEventView<'a>;

    open spec fn deep_view(&self) -> DocEventView<'a> {
        self@
    }
}

/// The parser's switch for references to footnotes.
pub const FOOTNOTES: u32 = 4;

/// The parser's switch for struck-through spans.
pub const STRIKETHROUGH: u32 = 8;

/// The parser's switch for typographic quotes and dashes.
pub const SMART_PUNCTUATION: u32 = 32;

/// The events that the parser reads from a text, with the extensions whose
/// switches are set in `extensions`.
pub uninterp spec fn parsed_events(text: Seq<char>, extensions: u32) -> Seq<DocEventView<'static>>;

/// The hypertext that the parser's writer makes of a sequence of events.
pub uninterp spec fn written_html(events: Seq<DocEventView<'static>>) -> Seq<char>;

/// Calls `pulldown_cmark::Parser::new_ext` on `text`, with the options
/// whose bits are set in `extensions`, and walks the parser with
/// `into_offset_iter`. Each event is taken as it comes: those that
/// [`DocEvent`] has a variant for are moved into it, field by field, the
/// others into `Other`. The result is named, not described: it is whatever
/// the parser reads from this text with these extensions.
#[verifier::external_body]
pub(crate) fn parse_events<'a>(text: &'a str, extensions: u32) -> (events: Vec<DocEvent<'a>>)
    ensures
        events.deep_view() == parsed_events(text@, extensions),
{
    Parser::new_ext(text, Options::from_bits_truncate(extensions)).into_offset_iter().map(|(event, span)| match event {
        Event::FootnoteReference(label) => DocEvent::FootnoteReference { label: label.into_string() },
        Event::Start(Tag::Link(kind, destination, title)) => DocEvent::LinkStart { kind, destination: destination.into_string(), title: title.into_string() },
        Event::Start(Tag::CodeBlock(CodeBlockKind::Fenced(language))) => DocEvent::FenceStart { language: language.into_string(), start: span.start, end: span.end },
        Event::End(Tag::CodeBlock(CodeBlockKind::Fenced(language))) => DocEvent::FenceEnd { language: language.into_string() },
        Event::Start(Tag::Item) => DocEvent::ItemStart,
        event => DocEvent::Other { event },
    }).collect()
}

/// Calls `pulldown_cmark::html::push_html` on the events, each turned back
/// into the parser's own event, field by field. The result is named, not
/// described: it is whatever the parser's writer makes of these events.
#[verifier::external_body]
pub(crate) fn write_html<'a>(events: Vec<DocEvent<'a>>) -> (html: String)
    ensures
        html@ == written_html(events.deep_view()),
{
    let mut html = String::new();
    pulldown_cmark::html::push_html(&mut html, events.into_iter().map(|event| match event {
        DocEvent::FootnoteReference { label } => Event::FootnoteReference(label.into()),
        DocEvent::LinkStart { kind, destination, title } => Event::Start(Tag::Link(kind, destination.into(), title.into())),
        DocEvent::FenceStart { language, .. } => Event::Start(Tag::CodeBlock(CodeBlockKind::Fenced(language.into()))),
        DocEvent::FenceEnd { language } => Event::End(Tag::CodeBlock(CodeBlockKind::Fenced(language.into()))),
        DocEvent::ItemStart => Event::Start(Tag::Item),
        DocEvent::Html { text } => Event::Html(text.into()),
        DocEvent::Other { event } => event,
    }));
    html
}

} // verus!
