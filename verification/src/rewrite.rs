//! Rewriting the events of a document: references to footnotes become
//! numbered anchors, links to Markdown files become links to pages, and a
//! fenced block that holds a deck becomes the deck's widgets.

use crate::error::{Error, Failure};
use crate::footnotes::{
    anchor_html, back_link, definition_id, footnote_anchor, footnote_item, item_html, list_line,
    reference_id, Footnote, FootnoteModel,
};
use crate::links::{html_destination, rewrite_destination, HTML_SUFFIX, MARKDOWN_SUFFIX};
use crate::markdown::{DocEvent, DocEventView};
use crate::orbit::{deck_html, decoded_deck, deserialize_orbit_codeblock};
use crate::text::{byte_slice, decimal, ends_with, same_text, slice_bytes};
use vstd::prelude::*;

verus! {

/// The language tag of a fenced block that holds a deck.
pub const DECK_LANGUAGE: &'static str = "orbit";

/// What rewriting knows while it walks the events of a document: whether it
/// is inside a deck block, whose events are dropped, and how many references
/// to footnotes it has numbered.
pub struct RewriteState {
    pub suppressing: bool,
    pub references: nat,
}

/// What is done with one event.
#[derive(Debug, PartialEq)]
pub enum Action<'a> {
    /// This event is put out.
    Emit { event: DocEvent<'a> },
    /// Nothing is put out.
    Skip,
    /// The deck of the block between these byte offsets is put out.
    Deck { start: usize, end: usize },
}

/// What an [`Action`] is in contracts.
pub enum ActionView<'a> {
    Emit { event: DocEventView<'a> },
    Skip,
    Deck { start: usize, end: usize },
}

impl<'a> View for Action<'a> {
    type V = ActionView<'a>;

    open spec fn view(&self) -> ActionView<'a> {
        match *self {
            Action::Emit { event } => ActionView::Emit { event: event@ },
            Action::Skip => ActionView::Skip,
            Action::Deck { start, end } => ActionView::Deck { start, end },
        }
    }
}

/// The state in which rewriting begins.
pub open spec fn initial_state() -> RewriteState {
    RewriteState { suppressing: false, references: 0 }
}

/// One step of rewriting: the state after an event, and what is done with
/// the event.
///
/// Inside a deck block every event is dropped; the end of the block leads
/// out of it. Outside, a reference to a footnote becomes its anchor, with
/// the next number; a link gets the destination that it has in the page; the
/// start of a deck block leads into the block and asks for the deck; every
/// other event is put out as it is.
pub open spec fn rewrite_step<'a>(state: RewriteState, event: DocEventView<'a>) -> (
    RewriteState,
    ActionView<'a>,
) {
    if state.suppressing {
        match event {
            DocEventView::FenceEnd { language } => if language == DECK_LANGUAGE@ {
                (RewriteState { suppressing: false, references: state.references }, ActionView::Skip)
            } else {
                (state, ActionView::Skip)
            },
            _ => (state, ActionView::Skip),
        }
    } else {
        match event {
            DocEventView::FootnoteReference { label } => (
                RewriteState { suppressing: false, references: state.references + 1 },
                ActionView::Emit {
                    event: DocEventView::Html { text: anchor_html(label, state.references + 1) },
                },
            ),
            DocEventView::LinkStart { kind, destination, title } => (
                state,
                ActionView::Emit {
                    event: DocEventView::LinkStart {
                        kind,
                        destination: html_destination(destination),
                        title,
                    },
                },
            ),
            DocEventView::FenceStart { language, start, end } => if language == DECK_LANGUAGE@ {
                (
                    RewriteState { suppressing: true, references: state.references },
                    ActionView::Deck { start, end },
                )
            } else {
                (state, ActionView::Emit { event })
            },
            _ => (state, ActionView::Emit { event }),
        }
    }
}

/// The hypertext of the deck block that lies in `text` between two byte
/// offsets.
pub open spec fn deck_block_html(text: Seq<char>, start: usize, end: usize) -> Result<
    Seq<char>,
    Failure,
> {
    match byte_slice(text, start as int, end as int) {
        None => Err(Failure::BlockSpan { start: start as nat, end: end as nat }),
        Some(block) => match decoded_deck(block) {
            Err(failure) => Err(failure),
            Ok(cards) => match deck_html(cards) {
                None => Err(Failure::Template),
                Some(html) => Ok(html),
            },
        },
    }
}

/// The events that an action puts out.
pub open spec fn action_events<'a>(action: ActionView<'a>, text: Seq<char>) -> Result<
    Seq<DocEventView<'a>>,
    Failure,
> {
    match action {
        ActionView::Emit { event } => Ok(seq![event]),
        ActionView::Skip => Ok(Seq::empty()),
        ActionView::Deck { start, end } => match deck_block_html(text, start, end) {
            Err(failure) => Err(failure),
            Ok(html) => Ok(seq![DocEventView::Html { text: html }]),
        },
    }
}

/// `events` after what has been put out before them.
pub open spec fn after<'a>(
    before: Seq<DocEventView<'a>>,
    events: Result<Seq<DocEventView<'a>>, Failure>,
) -> Result<Seq<DocEventView<'a>>, Failure> {
    match events {
        Err(failure) => Err(failure),
        Ok(events) => Ok(before + events),
    }
}

/// The events of a document, rewritten from `state` on: what each step puts
/// out, one after the other, or the failure of the first deck that cannot be
/// put out. `text` is the text that the events were read from.
pub open spec fn rewritten<'a>(
    events: Seq<DocEventView<'a>>,
    text: Seq<char>,
    state: RewriteState,
) -> Result<Seq<DocEventView<'a>>, Failure>
    decreases events.len(),
{
    if events.len() == 0 {
        Ok(Seq::empty())
    } else {
        let (next, action) = rewrite_step(state, events[0]);
        match action_events(action, text) {
            Err(failure) => Err(failure),
            Ok(first) => after(first, rewritten(events.drop_first(), text, next)),
        }
    }
}

/// Rewriting, one event at a time.
pub struct Rewriter {
    suppressing: bool,
    references: usize,
}

impl View for Rewriter {
    type V = RewriteState;

    closed spec fn view(&self) -> RewriteState {
        RewriteState { suppressing: self.suppressing, references: self.references as nat }
    }
}

impl Rewriter {
    /// Rewriting at the start of a document.
    pub fn new() -> (rewriter: Self)
        ensures
            rewriter@ == initial_state(),
    {
        Rewriter { suppressing: false, references: 0 }
    }

    /// The number of references to footnotes that have been numbered.
    pub fn references(&self) -> (references: usize)
        ensures
            references == self@.references,
    {
        self.references
    }

    /// Takes one event, and says what is done with it.
    pub fn step<'a>(&mut self, event: DocEvent<'a>) -> (action: Action<'a>)
        requires
            old(self)@.references < usize::MAX,
        ensures
            final(self)@ == rewrite_step(old(self)@, event@).0,
            action@ == rewrite_step(old(self)@, event@).1,
    {
        if self.suppressing {
            match event {
                DocEvent::FenceEnd { language } => {
                    if same_text(language.as_str(), DECK_LANGUAGE) {
                        self.suppressing = false;
                    }
                    Action::Skip
                },
                _ => Action::Skip,
            }
        } else {
            match event {
                DocEvent::FootnoteReference { label } => {
                    self.references = self.references + 1;
                    Action::Emit {
                        event: DocEvent::Html {
                            text: footnote_anchor(label.as_str(), self.references),
                        },
                    }
                },
                DocEvent::LinkStart { kind, destination, title } => Action::Emit {
                    event: DocEvent::LinkStart {
                        kind,
                        destination: rewrite_destination(destination.as_str()),
                        title,
                    },
                },
                DocEvent::FenceStart { language, start, end } => {
                    if same_text(language.as_str(), DECK_LANGUAGE) {
                        self.suppressing = true;
                        Action::Deck { start, end }
                    } else {
                        Action::Emit { event: DocEvent::FenceStart { language, start, end } }
                    }
                },
                other => Action::Emit { event: other },
            }
        }
    }
}

/// The hypertext of the deck block that lies in `text` between two byte
/// offsets: the block is cut out, the deck is read from it and written out
/// as widgets.
pub fn render_deck_block(text: &str, start: usize, end: usize) -> (html: Result<String, Error>)
    ensures
        match deck_block_html(text@, start, end) {
            Ok(expected) => html matches Ok(s) && s@ == expected,
            Err(failure) => html matches Err(error) && error@ == failure,
        },
{
    match slice_bytes(text, start, end) {
        None => Err(Error::BlockSpan { start, end }),
        Some(block) => match deserialize_orbit_codeblock(block) {
            Err(error) => Err(error),
            Ok(orbit) => orbit.to_html(),
        },
    }
}

/// Rewrites the events of a document. `text` is the text that the events
/// were read from.
#[verifier::loop_isolation(false)]
pub fn rewrite_events<'a>(events: Vec<DocEvent<'a>>, text: &str) -> (out: Result<
    Vec<DocEvent<'a>>,
    Error,
>)
    ensures
        match rewritten(events.deep_view(), text@, initial_state()) {
            Ok(expected) => out matches Ok(v) && v.deep_view() == expected,
            Err(failure) => out matches Err(error) && error@ == failure,
        },
{
    let ghost all = events.deep_view();
    let ghost given = events@;
    let count = events.len();
    let mut out: Vec<DocEvent<'a>> = Vec::new();
    let mut rewriter = Rewriter::new();
    proof {
        assert(all.skip(0) =~= all);
        assert(out.deep_view() =~= Seq::<DocEventView<'a>>::empty());
        assert(after(out.deep_view(), rewritten(all, text@, initial_state())) =~= rewritten(
            all,
            text@,
            initial_state(),
        ));
    }
    for event in it: events.into_iter()
        invariant
            it.seq() == given,
            all.len() == given.len(),
            forall|i: int| 0 <= i < given.len() ==> all[i] == given[i]@,
            rewriter@.references <= it.index() <= count,
            rewritten(all, text@, initial_state()) == after(
                out.deep_view(),
                rewritten(all.skip(it.index()), text@, rewriter@),
            ),
    {
        let ghost index = it.index();
        let ghost state = rewriter@;
        let ghost before = out.deep_view();
        proof {
            assert(all.skip(index)[0] == event@);
            assert(all.skip(index).drop_first() =~= all.skip(index + 1));
        }
        let action = rewriter.step(event);
        let ghost tail = rewritten(all.skip(index + 1), text@, rewriter@);
        match action {
            Action::Emit { event } => {
                let ghost view = event@;
                out.push(event);
                proof {
                    assert(out.deep_view() =~= before.push(view));
                    assert(before + seq![view] =~= before.push(view));
                    lemma_after_after(before, seq![view], tail);
                }
            },
            Action::Skip => {
                proof {
                    lemma_after_after(before, Seq::empty(), tail);
                }
            },
            Action::Deck { start, end } => match render_deck_block(text, start, end) {
                Err(error) => {
                    return Err(error);
                },
                Ok(html) => {
                    let ghost view = DocEventView::Html { text: html@ };
                    out.push(DocEvent::Html { text: html });
                    proof {
                        assert(out.deep_view() =~= before.push(view));
                        assert(before + seq![view] =~= before.push(view));
                    lemma_after_after(before, seq![view], tail);
                    }
                },
            },
        }
    }
    proof {
        assert(all.skip(all.len() as int) =~= Seq::<DocEventView<'a>>::empty());
        assert(out.deep_view() + Seq::<DocEventView<'a>>::empty() =~= out.deep_view());
    }
    Ok(out)
}

/// Putting out `first` after `before`, and then `tail`, is putting out
/// `tail` after the two.
proof fn lemma_after_after<'a>(
    before: Seq<DocEventView<'a>>,
    first: Seq<DocEventView<'a>>,
    tail: Result<Seq<DocEventView<'a>>, Failure>,
)
    ensures
        after(before, after(first, tail)) == after(before + first, tail),
{
    match tail {
        Ok(events) => {
            assert(before + (first + events) =~= (before + first) + events);
        },
        Err(_) => {},
    }
}

/// The labels of footnotes, in order.
pub open spec fn labels_of(footnotes: Seq<FootnoteModel>) -> Seq<Seq<char>> {
    footnotes.map_values(|footnote: FootnoteModel| footnote.label)
}

/// One step of rewriting the list of footnotes: the number of list items
/// after an event, and the event that is put out. The start of a list item
/// becomes an item that is named after the next label; a link gets the
/// destination that it has in the page; every other event is put out as it
/// is. Where an item starts and no label is left, rewriting fails.
pub open spec fn renumber_step<'a>(labels: Seq<Seq<char>>, items: nat, event: DocEventView<'a>) -> Result<
    (nat, DocEventView<'a>),
    Failure,
> {
    match event {
        DocEventView::ItemStart => if items < labels.len() {
            Ok((items + 1, DocEventView::Html { text: item_html(labels[items as int]) }))
        } else {
            Err(Failure::FootnoteItems)
        },
        DocEventView::LinkStart { kind, destination, title } => Ok(
            (
                items,
                DocEventView::LinkStart { kind, destination: html_destination(destination), title },
            ),
        ),
        _ => Ok((items, event)),
    }
}

/// The events of the list of footnotes, rewritten from the `items`-th list
/// item on.
pub open spec fn renumbered<'a>(
    events: Seq<DocEventView<'a>>,
    labels: Seq<Seq<char>>,
    items: nat,
) -> Result<Seq<DocEventView<'a>>, Failure>
    decreases events.len(),
{
    if events.len() == 0 {
        Ok(Seq::empty())
    } else {
        match renumber_step(labels, items, events[0]) {
            Err(failure) => Err(failure),
            Ok((next, event)) => after(seq![event], renumbered(events.drop_first(), labels, next)),
        }
    }
}

/// Rewrites one event of the list of footnotes, of which `items` list items
/// have started.
pub fn renumber_event<'a>(footnotes: &Vec<Footnote>, items: usize, event: DocEvent<'a>) -> (out:
    Result<(usize, DocEvent<'a>), Error>)
    ensures
        match renumber_step(labels_of(footnotes.deep_view()), items as nat, event@) {
            Ok((next, expected)) => out matches Ok(pair) && pair.0 == next && pair.1@ == expected,
            Err(failure) => out matches Err(error) && error@ == failure,
        },
{
    match event {
        DocEvent::ItemStart => {
            if items < footnotes.len() {
                let html = footnote_item(footnotes[items].label.as_str());
                Ok((items + 1, DocEvent::Html { text: html }))
            } else {
                Err(Error::FootnoteItems)
            }
        },
        DocEvent::LinkStart { kind, destination, title } => Ok(
            (
                items,
                DocEvent::LinkStart {
                    kind,
                    destination: rewrite_destination(destination.as_str()),
                    title,
                },
            ),
        ),
        other => Ok((items, other)),
    }
}

/// Rewrites the events of the list of footnotes: each list item is named
/// after the label of a footnote, in the order of the footnotes.
#[verifier::loop_isolation(false)]
pub fn renumber_items<'a>(events: Vec<DocEvent<'a>>, footnotes: &Vec<Footnote>) -> (out: Result<
    Vec<DocEvent<'a>>,
    Error,
>)
    ensures
        match renumbered(events.deep_view(), labels_of(footnotes.deep_view()), 0) {
            Ok(expected) => out matches Ok(v) && v.deep_view() == expected,
            Err(failure) => out matches Err(error) && error@ == failure,
        },
{
    let ghost all = events.deep_view();
    let ghost given = events@;
    let ghost labels = labels_of(footnotes.deep_view());
    let mut out: Vec<DocEvent<'a>> = Vec::new();
    let mut items: usize = 0;
    proof {
        assert(all.skip(0) =~= all);
        assert(out.deep_view() =~= Seq::<DocEventView<'a>>::empty());
        assert(after(out.deep_view(), renumbered(all, labels, 0)) =~= renumbered(all, labels, 0));
    }
    for event in it: events.into_iter()
        invariant
            it.seq() == given,
            all.len() == given.len(),
            forall|i: int| 0 <= i < given.len() ==> all[i] == given[i]@,
            labels == labels_of(footnotes.deep_view()),
            items <= footnotes.len(),
            renumbered(all, labels, 0) == after(
                out.deep_view(),
                renumbered(all.skip(it.index()), labels, items as nat),
            ),
    {
        let ghost index = it.index();
        let ghost before = out.deep_view();
        proof {
            assert(all.skip(index)[0] == event@);
            assert(all.skip(index).drop_first() =~= all.skip(index + 1));
        }
        match renumber_event(footnotes, items, event) {
            Err(error) => {
                return Err(error);
            },
            Ok((next, event)) => {
                let ghost view = event@;
                let ghost tail = renumbered(all.skip(index + 1), labels, next as nat);
                out.push(event);
                items = next;
                proof {
                    assert(out.deep_view() =~= before.push(view));
                    assert(before + seq![view] =~= before.push(view));
                    lemma_after_after(before, seq![view], tail);
                }
            },
        }
    }
    proof {
        assert(all.skip(all.len() as int) =~= Seq::<DocEventView<'a>>::empty());
        assert(out.deep_view() + Seq::<DocEventView<'a>>::empty() =~= out.deep_view());
    }
    Ok(out)
}

/// The state of rewriting after the first `n` events of a document.
pub open spec fn state_after<'a>(events: Seq<DocEventView<'a>>, n: nat) -> RewriteState
    decreases n,
{
    if n == 0 || n > events.len() {
        initial_state()
    } else {
        rewrite_step(state_after(events, (n - 1) as nat), events[n - 1]).0
    }
}

/// Whether the event at `at` is a reference to a footnote that stands
/// outside every deck block.
pub open spec fn is_shown_reference<'a>(events: Seq<DocEventView<'a>>, at: int) -> bool {
    &&& 0 <= at < events.len()
    &&& events[at] is FootnoteReference
    &&& !state_after(events, at as nat).suppressing
}

/// The number of references to footnotes among the first `n` events that
/// stand outside every deck block.
pub open spec fn shown_references<'a>(events: Seq<DocEventView<'a>>, n: nat) -> nat
    decreases n,
{
    if n == 0 || n > events.len() {
        0
    } else if is_shown_reference(events, n - 1) {
        shown_references(events, (n - 1) as nat) + 1
    } else {
        shown_references(events, (n - 1) as nat)
    }
}

/// What rewriting puts out for the event at `at`.
pub open spec fn put_out<'a>(events: Seq<DocEventView<'a>>, text: Seq<char>, at: int) -> Result<
    Seq<DocEventView<'a>>,
    Failure,
> {
    action_events(rewrite_step(state_after(events, at as nat), events[at]).1, text)
}

/// What rewriting puts out for the events from `from` on, one after the
/// other.
pub open spec fn put_out_from<'a>(
    events: Seq<DocEventView<'a>>,
    text: Seq<char>,
    from: int,
) -> Seq<Seq<DocEventView<'a>>> {
    Seq::new((events.len() - from) as nat, |i: int| put_out(events, text, from + i)->Ok_0)
}

/// Rewriting has numbered as many references as stand outside deck blocks.
pub proof fn lemma_references_counted<'a>(events: Seq<DocEventView<'a>>, n: nat)
    requires
        n <= events.len(),
    ensures
        state_after(events, n).references == shown_references(events, n),
    decreases n,
{
    if n > 0 {
        lemma_references_counted(events, (n - 1) as nat);
    }
}

/// Rewriting from the event at `from` on puts out what the steps from there
/// on put out.
proof fn lemma_rewritten_from<'a>(events: Seq<DocEventView<'a>>, text: Seq<char>, from: int)
    requires
        0 <= from <= events.len(),
        rewritten(events.skip(from), text, state_after(events, from as nat)) is Ok,
    ensures
        forall|at: int| from <= at < events.len() ==> put_out(events, text, at) is Ok,
        rewritten(events.skip(from), text, state_after(events, from as nat))->Ok_0 == put_out_from(
            events,
            text,
            from,
        ).flatten(),
    decreases events.len() - from,
{
    let rest = events.skip(from);
    let parts = put_out_from(events, text, from);
    if from < events.len() {
        assert(rest[0] == events[from]);
        assert(rest.drop_first() =~= events.skip(from + 1));
        lemma_rewritten_from(events, text, from + 1);
        assert(parts.drop_first() =~= put_out_from(events, text, from + 1));
        assert(parts.first() == put_out(events, text, from)->Ok_0);
    } else {
        assert(parts =~= Seq::<Seq<DocEventView<'a>>>::empty());
    }
}

/// Rewriting goes through a document in order. Where it succeeds, every
/// step puts something out, and the rewritten document is what the steps put
/// out, one after the other in the order of the events.
pub proof fn law_rewritten_in_order<'a>(events: Seq<DocEventView<'a>>, text: Seq<char>)
    requires
        rewritten(events, text, initial_state()) is Ok,
    ensures
        forall|at: int| 0 <= at < events.len() ==> put_out(events, text, at) is Ok,
        rewritten(events, text, initial_state())->Ok_0 == put_out_from(events, text, 0).flatten(),
{
    assert(events.skip(0) =~= events);
    lemma_rewritten_from(events, text, 0);
}

/// References to footnotes are numbered one, two, three and so on, in the
/// order in which they stand, whatever their labels: a reference outside
/// every deck block is put out as the anchor of its label, and the number in
/// the anchor is one more than the number of such references before it.
pub proof fn law_reference_numbers<'a>(events: Seq<DocEventView<'a>>, text: Seq<char>, at: int)
    requires
        is_shown_reference(events, at),
    ensures
        put_out(events, text, at) == Ok::<Seq<DocEventView<'a>>, Failure>(
            seq![
                DocEventView::Html {
                    text: anchor_html(
                        events[at]->FootnoteReference_label,
                        shown_references(events, at as nat) + 1,
                    ),
                },
            ],
        ),
        shown_references(events, (at + 1) as nat) == shown_references(events, at as nat) + 1,
{
    lemma_references_counted(events, at as nat);
}

/// Links keep all but their destination, and the destination changes in one
/// way only: a link outside every deck block is put out as the same link
/// with the destination that it has in the page. A destination that ends in
/// `MARKDOWN_SUFFIX` has this ending replaced by `HTML_SUFFIX` and is the
/// same before it; any other destination is the same throughout.
pub proof fn law_link_destinations<'a>(events: Seq<DocEventView<'a>>, text: Seq<char>, at: int)
    requires
        0 <= at < events.len(),
        events[at] is LinkStart,
        !state_after(events, at as nat).suppressing,
    ensures
        ({
            let destination = events[at]->LinkStart_destination;
            let rewritten = html_destination(destination);
            &&& put_out(events, text, at) == Ok::<Seq<DocEventView<'a>>, Failure>(
                seq![
                    DocEventView::LinkStart {
                        kind: events[at]->LinkStart_kind,
                        destination: rewritten,
                        title: events[at]->LinkStart_title,
                    },
                ],
            )
            &&& ends_with(destination, MARKDOWN_SUFFIX@) ==> {
                let kept = destination.len() - MARKDOWN_SUFFIX@.len();
                &&& rewritten.len() == kept + HTML_SUFFIX@.len()
                &&& rewritten.take(kept) == destination.take(kept)
                &&& rewritten.skip(kept) == HTML_SUFFIX@
            }
            &&& !ends_with(destination, MARKDOWN_SUFFIX@) ==> rewritten == destination
        }),
{
    let destination = events[at]->LinkStart_destination;
    if ends_with(destination, MARKDOWN_SUFFIX@) {
        let kept = destination.len() - MARKDOWN_SUFFIX@.len();
        let rewritten = html_destination(destination);
        assert(rewritten.take(kept) =~= destination.take(kept));
        assert(rewritten.skip(kept) =~= HTML_SUFFIX@);
    }
}

/// The number of list items that start among the first `n` events.
pub open spec fn items_before<'a>(events: Seq<DocEventView<'a>>, n: int) -> nat
    decreases events.len(),
{
    if n <= 0 || events.len() == 0 {
        0
    } else if events[0] is ItemStart {
        1 + items_before(events.drop_first(), n - 1)
    } else {
        items_before(events.drop_first(), n - 1)
    }
}

/// Rewriting the list of footnotes puts out one event for each event, and
/// for the event at `at` what its step puts out.
pub proof fn lemma_renumbered_at<'a>(
    events: Seq<DocEventView<'a>>,
    labels: Seq<Seq<char>>,
    items: nat,
    at: int,
)
    requires
        renumbered(events, labels, items) is Ok,
        0 <= at < events.len(),
    ensures
        renumbered(events, labels, items)->Ok_0.len() == events.len(),
        renumber_step(labels, items + items_before(events, at), events[at]) is Ok,
        renumbered(events, labels, items)->Ok_0[at] == renumber_step(
            labels,
            items + items_before(events, at),
            events[at],
        )->Ok_0.1,
    decreases events.len(),
{
    let (next, first) = renumber_step(labels, items, events[0])->Ok_0;
    let rest = events.drop_first();
    if events.len() > 1 {
        lemma_renumbered_at(rest, labels, next, if at == 0 {
            0
        } else {
            at - 1
        });
    } else {
        assert(renumbered(rest, labels, next)->Ok_0.len() == 0);
    }
    if at > 0 {
        assert(rest[at - 1] == events[at]);
    }
}

/// The list items of the footnotes are named after the labels in the order
/// of the footnotes, whatever the items hold: the `k`-th item that starts is
/// put out as the item of the `k`-th label.
pub proof fn law_items_named_in_order<'a>(
    events: Seq<DocEventView<'a>>,
    labels: Seq<Seq<char>>,
    at: int,
)
    requires
        renumbered(events, labels, 0) is Ok,
        0 <= at < events.len(),
        events[at] is ItemStart,
    ensures
        items_before(events, at) < labels.len(),
        renumbered(events, labels, 0)->Ok_0[at] == (DocEventView::Html {
            text: item_html(labels[items_before(events, at) as int]),
        }),
{
    lemma_renumbered_at(events, labels, 0, at);
}

/// A reference and the definition with the same label lead to each other.
/// The anchor of the reference leads to `definition_id` of the label, which
/// is the name of the list item of the footnote that has this label; and the
/// body of that item ends with a link to `reference_id` of the label, which
/// is the name of the anchor.
pub proof fn law_reference_meets_definition<'a>(
    events: Seq<DocEventView<'a>>,
    text: Seq<char>,
    at: int,
    list: Seq<DocEventView<'a>>,
    footnotes: Seq<FootnoteModel>,
    item: int,
)
    requires
        is_shown_reference(events, at),
        renumbered(list, labels_of(footnotes), 0) is Ok,
        0 <= item < list.len(),
        list[item] is ItemStart,
        footnotes[items_before(list, item) as int].label == events[at]->FootnoteReference_label,
    ensures
        ({
            let label = events[at]->FootnoteReference_label;
            let footnote = footnotes[items_before(list, item) as int];
            let number = shown_references(events, at as nat) + 1;
            &&& put_out(events, text, at) == Ok::<Seq<DocEventView<'a>>, Failure>(
                seq![
                    DocEventView::Html {
                        text: "<sup class=\"fn\"><a id=\""@ + reference_id(label) + "\" href=\"#"@
                            + definition_id(label) + "\">["@ + decimal(number) + "]</a></sup>"@,
                    },
                ],
            )
            &&& renumbered(list, labels_of(footnotes), 0)->Ok_0[item] == (DocEventView::Html {
                text: "<li id=\""@ + definition_id(label) + "\">"@,
            })
            &&& list_line(footnote) == "1. "@ + footnote.body + " "@
                + "<a class=\"fn-back\" href=\"#"@ + reference_id(label) + "\">\u{21a9}</a>"@
                + "\n"@
        }),
{
    law_reference_numbers(events, text, at);
    law_items_named_in_order(list, labels_of(footnotes), item);
    let footnote = footnotes[items_before(list, item) as int];
    let label = events[at]->FootnoteReference_label;
    assert("1. "@ + footnote.body + " "@ + back_link(label) + "\n"@ =~= "1. "@ + footnote.body
        + " "@ + "<a class=\"fn-back\" href=\"#"@ + reference_id(label) + "\">\u{21a9}</a>"@
        + "\n"@);
}

} // verus!
