//! Review decks: what a deck and a card are, how a deck is read from the
//! source of a fenced block, and how it is written out as widgets.

use crate::error::{field_name, CardField, Error, Failure};
use crate::template::{expanded_template, fill_template};
use crate::text::{byte_slice, same_text, slice_bytes};
use vstd::prelude::*;
use vstd::string::{StringExecFns, StringSliceAdditionalSpecFns};
use vstd::utf8::encode_utf8;

verus! {

/// The template of one widget, with a slot for each field of a card.
pub const PROMPT_TEMPLATE: &'static str =
    "<orbit-prompt question=\"{{question}}\" question-attachments=\"{{question-attachments}}\" answer=\"{{answer}}\"></orbit-prompt>";

/// What opens the container of a deck's widgets.
pub const REVIEW_START: &'static str = "<orbit-reviewarea>";

/// What closes the container of a deck's widgets.
pub const REVIEW_END: &'static str = "</orbit-reviewarea>";

/// The number of bytes of the opening fence of a deck block, with its
/// language tag and line end.
pub const FENCE_OPEN: usize = 9;

/// The number of bytes of the line end and closing fence of a deck block.
pub const FENCE_CLOSE: usize = 4;

/// What a card is in contracts: its three texts.
pub struct CardModel {
    pub question: Seq<char>,
    pub question_attachments: Seq<char>,
    pub answer: Seq<char>,
}

/// One card of a deck.
#[derive(Debug, PartialEq, Eq)]
pub struct OrbitCard {
    question: String,
    question_attachments: String,
    answer: String,
}

/// A deck: its cards, in order.
#[derive(Debug, PartialEq, Eq)]
pub struct Orbit {
    deck: Vec<OrbitCard>,
}

impl View for OrbitCard {
    type V = CardModel;

    closed spec fn view(&self) -> CardModel {
        CardModel {
            question: self.question@,
            question_attachments: self.question_attachments@,
            answer: self.answer@,
        }
    }
}

impl View for Orbit {
    type V = Seq<CardModel>;

    closed spec fn view(&self) -> Seq<CardModel> {
        self.deck@.map_values(|card: OrbitCard| card@)
    }
}

/// The data that fills the slots of the widget template for a card.
pub open spec fn card_data(card: CardModel) -> Seq<(Seq<char>, Seq<char>)> {
    seq![
        ("question"@, card.question),
        ("question-attachments"@, card.question_attachments),
        ("answer"@, card.answer),
    ]
}

/// The widget of a card: the widget template, filled with the card's fields.
pub open spec fn card_html(card: CardModel) -> Option<Seq<char>> {
    expanded_template(PROMPT_TEMPLATE@, card_data(card))
}

/// The widgets of the cards, in the order of the cards; `None` where the
/// template engine fails on one of them.
pub open spec fn widgets_html(cards: Seq<CardModel>) -> Option<Seq<Seq<char>>>
    decreases cards.len(),
{
    if cards.len() == 0 {
        Some(Seq::empty())
    } else {
        match (widgets_html(cards.drop_last()), card_html(cards.last())) {
            (Some(widgets), Some(widget)) => Some(widgets.push(widget)),
            _ => None,
        }
    }
}

/// The widgets one after the other, inside the container.
pub open spec fn review_html(widgets: Seq<Seq<char>>) -> Seq<char> {
    REVIEW_START@ + widgets.flatten() + REVIEW_END@
}

/// The hypertext of a deck.
pub open spec fn deck_html(cards: Seq<CardModel>) -> Option<Seq<char>> {
    match widgets_html(cards) {
        Some(widgets) => Some(review_html(widgets)),
        None => None,
    }
}

impl OrbitCard {
    /// A card with these three texts.
    pub fn new(question: String, question_attachments: String, answer: String) -> (card: Self)
        ensures
            card@ == (CardModel {
                question: question@,
                question_attachments: question_attachments@,
                answer: answer@,
            }),
    {
        OrbitCard { question, question_attachments, answer }
    }

    /// The question.
    pub fn question(&self) -> (text: &str)
        ensures
            text@ == self@.question,
    {
        self.question.as_str()
    }

    /// The attachments of the question.
    pub fn question_attachments(&self) -> (text: &str)
        ensures
            text@ == self@.question_attachments,
    {
        self.question_attachments.as_str()
    }

    /// The answer.
    pub fn answer(&self) -> (text: &str)
        ensures
            text@ == self@.answer,
    {
        self.answer.as_str()
    }

    /// The widget of this card: the widget template with the three fields in
    /// its slots, as they are.
    pub fn to_html(&self) -> (html: Result<String, Error>)
        ensures
            match card_html(self@) {
                Some(text) => html matches Ok(s) && s@ == text,
                None => html matches Err(e) && e@ == Failure::Template,
            },
    {
        let mut data: Vec<(String, String)> = Vec::new();
        data.push((String::from_str("question"), self.question.clone()));
        data.push((String::from_str("question-attachments"), self.question_attachments.clone()));
        data.push((String::from_str("answer"), self.answer.clone()));
        assert(data.deep_view() =~= card_data(self@));
        fill_template(PROMPT_TEMPLATE, &data)
    }
}

/// Puts the widgets of a deck, one after the other, into the container.
pub fn review_area(widgets: &Vec<String>) -> (html: String)
    ensures
        html@ == review_html(widgets.deep_view()),
{
    let mut html = String::from_str(REVIEW_START);
    let mut i: usize = 0;
    while i < widgets.len()
        invariant
            i <= widgets.len(),
            html@ == REVIEW_START@ + widgets.deep_view().take(i as int).flatten(),
        decreases widgets.len() - i,
    {
        html.append(widgets[i].as_str());
        proof {
            let done = widgets.deep_view().take(i as int);
            assert(widgets.deep_view().take(i + 1) =~= done.push(widgets[i as int]@));
            done.lemma_flatten_push(widgets[i as int]@);
        }
        i += 1;
    }
    assert(widgets.deep_view().take(i as int) =~= widgets.deep_view());
    html.append(REVIEW_END);
    html
}

impl Orbit {
    /// A deck of these cards.
    pub fn new(deck: Vec<OrbitCard>) -> (orbit: Self)
        ensures
            orbit@ == deck@.map_values(|card: OrbitCard| card@),
    {
        Orbit { deck }
    }

    /// The cards of the deck, in order.
    pub fn cards(&self) -> (cards: &Vec<OrbitCard>)
        ensures
            cards@.map_values(|card: OrbitCard| card@) == self@,
    {
        &self.deck
    }

    /// The hypertext of the deck: the container, and in it one widget for
    /// each card, in the order of the cards.
    pub fn to_html(&self) -> (html: Result<String, Error>)
        ensures
            match deck_html(self@) {
                Some(text) => html matches Ok(s) && s@ == text,
                None => html matches Err(e) && e@ == Failure::Template,
            },
    {
        let mut widgets: Vec<String> = Vec::new();
        let mut i: usize = 0;
        while i < self.deck.len()
            invariant
                i <= self.deck.len(),
                widgets_html(self@.take(i as int)) == Some(widgets.deep_view()),
            decreases self.deck.len() - i,
        {
            let ghost done = self@.take(i as int);
            let ghost before = widgets.deep_view();
            match self.deck[i].to_html() {
                Ok(widget) => {
                    let ghost text = widget@;
                    widgets.push(widget);
                    proof {
                        let next = self@.take(i + 1);
                        assert(next.drop_last() =~= done);
                        assert(next.last() == self.deck[i as int]@);
                        assert(widgets.deep_view() =~= before.push(text));
                    }
                },
                Err(error) => {
                    proof {
                        lemma_widgets_none(self@, i as int);
                    }
                    return Err(error);
                },
            }
            i += 1;
        }
        assert(self@.take(i as int) =~= self@);
        Ok(review_area(&widgets))
    }
}

/// A deck of so many cards is written out as so many widgets, one for each
/// card, in the order of the cards: the `i`-th widget is the widget template
/// filled with the three fields of the `i`-th card, as they are, and the
/// hypertext of the deck is the widgets, one after the other, inside the
/// container.
pub proof fn law_one_widget_per_card(cards: Seq<CardModel>)
    requires
        deck_html(cards) is Some,
    ensures
        widgets_html(cards) is Some,
        widgets_html(cards)->0.len() == cards.len(),
        forall|i: int|
            0 <= i < cards.len() ==> #[trigger] card_html(cards[i]) == Some(
                widgets_html(cards)->0[i],
            ),
        forall|i: int|
            0 <= i < cards.len() ==> (#[trigger] widgets_html(cards)->0[i]) == expanded_template(
                PROMPT_TEMPLATE@,
                seq![
                    ("question"@, cards[i].question),
                    ("question-attachments"@, cards[i].question_attachments),
                    ("answer"@, cards[i].answer),
                ],
            )->0,
        deck_html(cards) == Some(REVIEW_START@ + widgets_html(cards)->0.flatten() + REVIEW_END@),
    decreases cards.len(),
{
    if cards.len() > 0 {
        let front = cards.drop_last();
        law_one_widget_per_card(front);
        assert forall|i: int| 0 <= i < cards.len() implies #[trigger] card_html(cards[i]) == Some(
            widgets_html(cards)->0[i],
        ) by {
            if i < cards.len() - 1 {
                assert(front[i] == cards[i]);
                assert(card_html(front[i]) == Some(widgets_html(front)->0[i]));
            }
        }
        assert forall|i: int| 0 <= i < cards.len() implies (#[trigger] widgets_html(cards)->0[i])
            == card_html(cards[i])->0 by {}
    }
}

/// Where the engine fails on one card, the deck has no widgets.
proof fn lemma_widgets_none(cards: Seq<CardModel>, i: int)
    requires
        0 <= i < cards.len(),
        card_html(cards[i]) is None,
    ensures
        widgets_html(cards) is None,
    decreases cards.len(),
{
    if i < cards.len() - 1 {
        lemma_widgets_none(cards.drop_last(), i);
    }
}

/// What the decoder reads from a text that is a JSON array of objects: for
/// each object its members, each with its name and, where the member is a
/// string, its text. `None` where the text is no such array.
pub uninterp spec fn decoded_objects(text: Seq<char>) -> Option<
    Seq<Seq<(Seq<char>, Option<Seq<char>>)>>,
>;

/// Calls `serde_json::from_str` for a list of maps from names to JSON values.
/// Each map is handed out as its members; a member that is a string keeps
/// its text, any other has `None`. The result is named, not described: it is
/// whatever the decoder reads from this text. An error comes back as its
/// message.
#[verifier::external_body]
pub(crate) fn decode_objects(text: &str) -> (decoded: Result<
    Vec<Vec<(String, Option<String>)>>,
    String,
>)
    ensures
        match decoded_objects(text@) {
            Some(objects) => decoded matches Ok(v) && v.deep_view() == objects,
            None => decoded is Err,
        },
{
    serde_json::from_str::<Vec<serde_json::Map<String, serde_json::Value>>>(text)
        .map(|objects| objects.into_iter().map(|object| object.into_iter().map(|(name, value)| match value {
            serde_json::Value::String(text) => (name, Some(text)),
            _ => (name, None),
        }).collect()).collect())
        .map_err(|error| error.to_string())
}

/// What stands between the fences of a deck block: the block without the
/// first `FENCE_OPEN` and the last `FENCE_CLOSE` bytes of its UTF-8 form.
/// `None` where the block is shorter than the two, or where one of them ends
/// inside a character.
pub open spec fn deck_payload(block: Seq<char>) -> Option<Seq<char>> {
    let length = encode_utf8(block).len();
    if length >= FENCE_OPEN + FENCE_CLOSE {
        byte_slice(block, FENCE_OPEN as int, length - FENCE_CLOSE)
    } else {
        None
    }
}

/// The text of the first member of `object` that is called `name`, where
/// that member is a string.
pub open spec fn member_text(
    object: Seq<(Seq<char>, Option<Seq<char>>)>,
    name: Seq<char>,
) -> Option<Seq<char>>
    decreases object.len(),
{
    if object.len() == 0 {
        None
    } else if object[0].0 == name {
        object[0].1
    } else {
        member_text(object.drop_first(), name)
    }
}

/// The card that an object stands for, or the first of the three fields
/// that it lacks as a string.
pub open spec fn card_of(object: Seq<(Seq<char>, Option<Seq<char>>)>) -> Result<
    CardModel,
    CardField,
> {
    match member_text(object, field_name(CardField::Question)) {
        None => Err(CardField::Question),
        Some(question) => match member_text(object, field_name(CardField::Attachments)) {
            None => Err(CardField::Attachments),
            Some(question_attachments) => match member_text(object, field_name(CardField::Answer)) {
                None => Err(CardField::Answer),
                Some(answer) => Ok(CardModel { question, question_attachments, answer }),
            },
        },
    }
}

/// The deck that a list of objects stands for, or the failure of the first
/// object that is no card.
pub open spec fn deck_of(objects: Seq<Seq<(Seq<char>, Option<Seq<char>>)>>) -> Result<
    Seq<CardModel>,
    Failure,
>
    decreases objects.len(),
{
    if objects.len() == 0 {
        Ok(Seq::empty())
    } else {
        match deck_of(objects.drop_last()) {
            Err(failure) => Err(failure),
            Ok(cards) => match card_of(objects.last()) {
                Err(field) => Err(
                    Failure::DeckField { card: (objects.len() - 1) as nat, field },
                ),
                Ok(card) => Ok(cards.push(card)),
            },
        }
    }
}

/// The deck that the source of a deck block holds.
pub open spec fn decoded_deck(block: Seq<char>) -> Result<Seq<CardModel>, Failure> {
    match deck_payload(block) {
        None => Err(Failure::DeckFrame),
        Some(payload) => match decoded_objects(payload) {
            None => Err(Failure::DeckSyntax),
            Some(objects) => deck_of(objects),
        },
    }
}

/// The text of the first member of `object` that is called `name`, where
/// that member is a string.
pub fn string_member(object: &Vec<(String, Option<String>)>, name: &str) -> (text: Option<String>)
    ensures
        text.deep_view() == member_text(object.deep_view(), name@),
{
    let mut i: usize = 0;
    assert(object.deep_view().skip(0) =~= object.deep_view());
    while i < object.len()
        invariant
            i <= object.len(),
            member_text(object.deep_view(), name@) == member_text(
                object.deep_view().skip(i as int),
                name@,
            ),
        decreases object.len() - i,
    {
        let ghost rest = object.deep_view().skip(i as int);
        assert(rest[0] == object.deep_view()[i as int]);
        assert(rest.drop_first() =~= object.deep_view().skip(i + 1));
        if same_text(object[i].0.as_str(), name) {
            return object[i].1.clone();
        }
        i += 1;
    }
    None
}

/// Reads one card from the members of an object.
pub fn card_from_object(object: &Vec<(String, Option<String>)>) -> (card: Result<
    OrbitCard,
    CardField,
>)
    ensures
        match card_of(object.deep_view()) {
            Ok(model) => card matches Ok(c) && c@ == model,
            Err(field) => card == Err::<OrbitCard, CardField>(field),
        },
{
    match string_member(object, CardField::Question.name()) {
        None => Err(CardField::Question),
        Some(question) => match string_member(object, CardField::Attachments.name()) {
            None => Err(CardField::Attachments),
            Some(question_attachments) => match string_member(object, CardField::Answer.name()) {
                None => Err(CardField::Answer),
                Some(answer) => Ok(OrbitCard::new(question, question_attachments, answer)),
            },
        },
    }
}

/// Reads a deck from a list of objects: every object must have the three
/// fields of a card, each a string.
pub fn deck_from_objects(objects: &Vec<Vec<(String, Option<String>)>>) -> (deck: Result<
    Orbit,
    Error,
>)
    ensures
        match deck_of(objects.deep_view()) {
            Ok(cards) => deck matches Ok(orbit) && orbit@ == cards,
            Err(failure) => deck matches Err(error) && error@ == failure,
        },
{
    let mut cards: Vec<OrbitCard> = Vec::new();
    let mut i: usize = 0;
    assert(cards@.map_values(|card: OrbitCard| card@) =~= Seq::empty());
    while i < objects.len()
        invariant
            i <= objects.len(),
            deck_of(objects.deep_view().take(i as int)) == Ok::<Seq<CardModel>, Failure>(
                cards@.map_values(|card: OrbitCard| card@),
            ),
        decreases objects.len() - i,
    {
        let ghost done = objects.deep_view().take(i as int);
        let ghost next = objects.deep_view().take(i + 1);
        let ghost before = cards@.map_values(|card: OrbitCard| card@);
        assert(next.drop_last() =~= done);
        assert(next.last() == objects[i as int].deep_view());
        match card_from_object(&objects[i]) {
            Ok(card) => {
                let ghost model = card@;
                cards.push(card);
                assert(cards@.map_values(|card: OrbitCard| card@) =~= before.push(model));
            },
            Err(field) => {
                proof {
                    lemma_deck_fails(objects.deep_view(), i + 1);
                }
                return Err(Error::DeckField { card: i, field });
            },
        }
        i += 1;
    }
    assert(objects.deep_view().take(i as int) =~= objects.deep_view());
    Ok(Orbit::new(cards))
}

/// A failure among the first objects is the failure of the whole list.
proof fn lemma_deck_fails(objects: Seq<Seq<(Seq<char>, Option<Seq<char>>)>>, n: int)
    requires
        0 <= n <= objects.len(),
        deck_of(objects.take(n)) is Err,
    ensures
        deck_of(objects) == deck_of(objects.take(n)),
    decreases objects.len() - n,
{
    if n < objects.len() {
        assert(objects.take(n + 1).drop_last() =~= objects.take(n));
        lemma_deck_fails(objects, n + 1);
    } else {
        assert(objects.take(n) =~= objects);
    }
}

/// Reads the deck from the source of a deck block, fences included: what
/// stands between the fences must be a JSON array of objects, each with the
/// three fields of a card.
pub fn deserialize_orbit_codeblock(codeblock: &str) -> (deck: Result<Orbit, Error>)
    ensures
        match decoded_deck(codeblock@) {
            Ok(cards) => deck matches Ok(orbit) && orbit@ == cards,
            Err(failure) => deck matches Err(error) && error@ == failure,
        },
{
    let length = codeblock.as_bytes().len();
    if length < FENCE_OPEN + FENCE_CLOSE {
        return Err(Error::DeckFrame);
    }
    match slice_bytes(codeblock, FENCE_OPEN, length - FENCE_CLOSE) {
        None => Err(Error::DeckFrame),
        Some(payload) => match decode_objects(payload) {
            Err(message) => Err(Error::DeckSyntax { message }),
            Ok(objects) => deck_from_objects(&objects),
        },
    }
}

} // verus!
