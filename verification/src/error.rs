//! The ways in which turning a document into a page can fail.

use crate::text::{decimal, push_decimal};
use vstd::prelude::*;
use vstd::string::StringExecFns;

verus! {

/// One of the three fields that every card of a deck must have.
#[derive(Clone, Copy, Debug, PartialEq, Eq, Structural)]
pub enum CardField {
    Question,
    Attachments,
    Answer,
}

/// Why a document could not be turned into a page.
#[derive(Debug, PartialEq, Eq)]
pub enum Error {
    /// The byte offsets of a fenced block are not offsets of characters of
    /// the parsed text, in order.
    BlockSpan { start: usize, end: usize },
    /// A deck block is too short to hold its two fences, or what should be
    /// a fence ends inside a character.
    DeckFrame,
    /// What stands between the fences of a deck block is not a JSON array of
    /// objects. The message is the decoder's.
    DeckSyntax { message: String },
    /// A card of a deck lacks a field, or the field is not a string.
    DeckField { card: usize, field: CardField },
    /// A footnote line does not have the form `[^label]:body`.
    FootnoteLine { line: usize },
    /// The footnote list has more items than there are footnotes.
    FootnoteItems,
    /// The template engine reported an error. The message is the engine's.
    Template { message: String },
}

/// What an [`Error`] is in contracts: the same variants, without the
/// messages of outside code.
pub enum Failure {
    BlockSpan { start: nat, end: nat },
    DeckFrame,
    DeckSyntax,
    DeckField { card: nat, field: CardField },
    FootnoteLine { line: nat },
    FootnoteItems,
    Template,
}

impl View for Error {
    type V = Failure;

    open spec fn view(&self) -> Failure {
        match *self {
            Error::BlockSpan { start, end } => Failure::BlockSpan {
                start: start as nat,
                end: end as nat,
            },
            Error::DeckFrame => Failure::DeckFrame,
            Error::DeckSyntax { message } => Failure::DeckSyntax,
            Error::DeckField { card, field } => Failure::DeckField { card: card as nat, field },
            Error::FootnoteLine { line } => Failure::FootnoteLine { line: line as nat },
            Error::FootnoteItems => Failure::FootnoteItems,
            Error::Template { message } => Failure::Template,
        }
    }
}

/// The name of a field of a card, as it stands in the source of a deck.
pub open spec fn field_name(field: CardField) -> Seq<char> {
    match field {
        CardField::Question => "question"@,
        CardField::Attachments => "question_attachments"@,
        CardField::Answer => "answer"@,
    }
}

/// What `message` says of an error.
pub open spec fn description(error: Error) -> Seq<char> {
    match error {
        Error::BlockSpan { start, end } => "no block lies between the bytes "@ + decimal(
            start as nat,
        ) + " and "@ + decimal(end as nat) + " of the text"@,
        Error::DeckFrame => "a deck block does not hold its two fences"@,
        Error::DeckSyntax { message } => "a deck is not a list of objects: "@ + message@,
        Error::DeckField { card, field } => "the card at index "@ + decimal(card as nat)
            + " of a deck lacks the string "@ + field_name(field),
        Error::FootnoteLine { line } => "the footnote line at index "@ + decimal(line as nat)
            + " does not have the form [^label]:body"@,
        Error::FootnoteItems => "the list of footnotes has more items than footnotes"@,
        Error::Template { message } => "the template cannot be filled: "@ + message@,
    }
}

impl CardField {
    /// The name of the field, as it stands in the source of a deck.
    pub fn name(&self) -> (name: &'static str)
        ensures
            name@ == field_name(*self),
    {
        match self {
            CardField::Question => "question",
            CardField::Attachments => "question_attachments",
            CardField::Answer => "answer",
        }
    }
}

impl Error {
    /// A sentence that says what went wrong.
    pub fn message(&self) -> (text: String)
        ensures
            text@ == description(*self),
    {
        match self {
            Error::BlockSpan { start, end } => {
                let mut text = String::from_str("no block lies between the bytes ");
                push_decimal(&mut text, *start);
                text.append(" and ");
                push_decimal(&mut text, *end);
                text.append(" of the text");
                text
            },
            Error::DeckFrame => String::from_str("a deck block does not hold its two fences"),
            Error::DeckSyntax { message } => {
                let mut text = String::from_str("a deck is not a list of objects: ");
                text.append(message.as_str());
                text
            },
            Error::DeckField { card, field } => {
                let mut text = String::from_str("the card at index ");
                push_decimal(&mut text, *card);
                text.append(" of a deck lacks the string ");
                text.append(field.name());
                text
            },
            Error::FootnoteLine { line } => {
                let mut text = String::from_str("the footnote line at index ");
                push_decimal(&mut text, *line);
                text.append(" does not have the form [^label]:body");
                text
            },
            Error::FootnoteItems => String::from_str(
                "the list of footnotes has more items than footnotes",
            ),
            Error::Template { message } => {
                let mut text = String::from_str("the template cannot be filled: ");
                text.append(message.as_str());
                text
            },
        }
    }
}

} // verus!
