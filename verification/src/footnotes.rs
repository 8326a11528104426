//! Footnotes: the lines that define them, which are taken out of a document
//! before it is parsed, and the markup that ties a reference to its
//! definition and back.

use crate::error::{Error, Failure};
use crate::text::{chars_of, decimal, occurs, occurs_at, push_decimal, starts_with, string_of};
use vstd::prelude::*;
use vstd::string::StringExecFns;

verus! {

/// How a line that defines a footnote begins, and what stands before the
/// label of a definition.
pub const FOOTNOTE_OPEN: &'static str = "[^";

/// What stands between the label of a definition and its body.
pub const FOOTNOTE_CLOSE: &'static str = "]:";

/// The position of the first newline of a text, or its length where it has
/// none.
pub open spec fn first_newline(text: Seq<char>) -> int
    decreases text.len(),
{
    if text.len() == 0 || text[0] == '\n' {
        0
    } else {
        1 + first_newline(text.drop_first())
    }
}

/// A line without the carriage return at its end, if it has one.
pub open spec fn without_carriage_return(line: Seq<char>) -> Seq<char> {
    if line.len() > 0 && line.last() == '\r' {
        line.drop_last()
    } else {
        line
    }
}

/// The lines of a text. A line ends at a newline, or at a carriage return
/// followed by a newline; neither belongs to the line. The last line needs
/// no line end, and is then taken as it is.
pub open spec fn lines_of(text: Seq<char>) -> Seq<Seq<char>>
    decreases text.len(),
{
    if text.len() == 0 {
        Seq::empty()
    } else {
        let end = first_newline(text);
        if end < 0 || end >= text.len() {
            seq![text]
        } else {
            seq![without_carriage_return(text.take(end))] + lines_of(text.skip(end + 1))
        }
    }
}

/// Whether a line defines a footnote: whether it begins with `FOOTNOTE_OPEN`.
pub open spec fn is_footnote_line(line: Seq<char>) -> bool {
    starts_with(line, FOOTNOTE_OPEN@)
}

/// The test for the lines that define footnotes.
pub open spec fn footnote_test() -> spec_fn(Seq<char>) -> bool {
    |line: Seq<char>| is_footnote_line(line)
}

/// The test for the lines of the body.
pub open spec fn body_test() -> spec_fn(Seq<char>) -> bool {
    |line: Seq<char>| !is_footnote_line(line)
}

/// Lines, with a newline between each two.
pub open spec fn joined(lines: Seq<Seq<char>>) -> Seq<char>
    decreases lines.len(),
{
    if lines.len() == 0 {
        Seq::empty()
    } else if lines.len() == 1 {
        lines[0]
    } else {
        joined(lines.drop_last()) + seq!['\n'] + lines.last()
    }
}

/// The position of the first newline at or after `from`, or the length of
/// the text where there is none.
pub fn find_newline(chars: &Vec<char>, from: usize) -> (end: usize)
    requires
        from <= chars.len(),
    ensures
        from <= end <= chars.len(),
        end - from == first_newline(chars@.skip(from as int)),
        end < chars.len() ==> chars[end as int] == '\n',
{
    let mut end: usize = from;
    while end < chars.len() && chars[end] != '\n'
        invariant
            from <= end <= chars.len(),
            first_newline(chars@.skip(from as int)) == (end - from) + first_newline(
                chars@.skip(end as int),
            ),
        decreases chars.len() - end,
    {
        assert(chars@.skip(end as int).drop_first() =~= chars@.skip(end + 1));
        end += 1;
    }
    end
}

/// Parts a document into its body and the lines that define its footnotes.
/// Every line that begins with `FOOTNOTE_OPEN` goes to the footnotes, in the
/// order in which the lines stand; the other lines, joined by newlines, are
/// the body.
pub fn split_content_and_footnotes(markdown: &str) -> (parts: (String, Vec<String>))
    ensures
        parts.0@ == joined(lines_of(markdown@).filter(body_test())),
        parts.1.deep_view() == lines_of(markdown@).filter(footnote_test()),
{
    let chars = chars_of(markdown);
    let mut content = String::new();
    let mut footnotes: Vec<String> = Vec::new();
    let mut any: bool = false;
    let mut pos: usize = 0;
    let ghost mut done: Seq<Seq<char>> = Seq::empty();
    proof {
        assert(chars@.skip(0) =~= chars@);
        assert(done + lines_of(chars@) =~= lines_of(chars@));
        reveal(Seq::filter);
        assert(footnotes.deep_view() =~= done.filter(footnote_test()));
    }
    while pos < chars.len()
        invariant
            pos <= chars.len(),
            chars@ == markdown@,
            lines_of(chars@) == done + lines_of(chars@.skip(pos as int)),
            footnotes.deep_view() == done.filter(footnote_test()),
            content@ == joined(done.filter(body_test())),
            any == (done.filter(body_test()).len() > 0),
        decreases chars.len() - pos,
    {
        let end = find_newline(&chars, pos);
        let stop = if end < chars.len() && end > pos && chars[end - 1] == '\r' {
            end - 1
        } else {
            end
        };
        let next = if end < chars.len() {
            end + 1
        } else {
            end
        };
        let ghost rest = chars@.skip(pos as int);
        let ghost line = chars@.subrange(pos as int, stop as int);
        proof {
            if end < chars.len() {
                assert(rest.take(end - pos) =~= chars@.subrange(pos as int, end as int));
                assert(without_carriage_return(rest.take(end - pos)) =~= line);
                assert(rest.skip(end - pos + 1) =~= chars@.skip(next as int));
            } else {
                assert(rest =~= line);
                assert(lines_of(chars@.skip(next as int)) =~= Seq::<Seq<char>>::empty());
            }
            assert(lines_of(rest) =~= seq![line] + lines_of(chars@.skip(next as int)));
            assert(done + lines_of(rest) =~= done.push(line) + lines_of(chars@.skip(next as int)));
            done.lemma_filter_push(line, footnote_test());
            done.lemma_filter_push(line, body_test());
        }
        let is_note = stop - pos >= 2 && chars[pos] == '[' && chars[pos + 1] == '^';
        proof {
            reveal_strlit("[^");
            if is_note {
                assert(line.subrange(0, 2) =~= FOOTNOTE_OPEN@);
            } else if stop - pos >= 2 {
                assert(line.subrange(0, 2)[0] == line[0]);
                assert(line.subrange(0, 2)[1] == line[1]);
            }
            assert(is_note == is_footnote_line(line));
        }
        let text = string_of(&chars, pos, stop);
        let ghost notes_before = footnotes.deep_view();
        let ghost body_before = done.filter(body_test());
        if is_note {
            footnotes.push(text);
            assert(footnotes.deep_view() =~= notes_before.push(line));
        } else {
            if any {
                content.push('\n');
            }
            content.append(text.as_str());
            any = true;
            proof {
                let body = body_before.push(line);
                assert(body.drop_last() =~= body_before);
                assert(content@ =~= joined(body));
            }
        }
        proof {
            done = done.push(line);
        }
        pos = next;
    }
    assert(done + lines_of(chars@.skip(pos as int)) =~= done);
    (content, footnotes)
}

/// A footnote: the label by which it is referred to, and its text.
#[derive(Debug, PartialEq, Eq)]
pub struct Footnote {
    pub label: String,
    pub body: String,
}

/// What a [`Footnote`] is in contracts.
pub struct FootnoteModel {
    pub label: Seq<char>,
    pub body: Seq<char>,
}

impl View for Footnote {
    type V = FootnoteModel;

    open spec fn view(&self) -> FootnoteModel {
        FootnoteModel { label: self.label@, body: self.body@ }
    }
}

impl DeepView for Footnote {
    type V = FootnoteModel;

    open spec fn deep_view(&self) -> FootnoteModel {
        self@
    }
}

/// `pattern` stands in `text` at `at`, and nowhere before.
pub open spec fn is_first_occurrence(text: Seq<char>, at: int, pattern: Seq<char>) -> bool {
    &&& occurs_at(text, at, pattern)
    &&& forall|before: int| 0 <= before < at ==> !occurs_at(text, before, pattern)
}

/// `pattern` stands in `text` at `at`, and nowhere after.
pub open spec fn is_last_occurrence(text: Seq<char>, at: int, pattern: Seq<char>) -> bool {
    &&& occurs_at(text, at, pattern)
    &&& forall|after: int| at < after ==> !occurs_at(text, after, pattern)
}

/// A line defines a footnote with its label between `open` and `close`:
/// `FOOTNOTE_OPEN` stands first at `open`, `FOOTNOTE_CLOSE` stands last at
/// `close`, and the first ends before the second begins.
pub open spec fn is_definition(line: Seq<char>, open: int, close: int) -> bool {
    &&& is_first_occurrence(line, open, FOOTNOTE_OPEN@)
    &&& is_last_occurrence(line, close, FOOTNOTE_CLOSE@)
    &&& open + FOOTNOTE_OPEN@.len() <= close
}

/// The footnote that a line defines: its label is what stands between the
/// first `FOOTNOTE_OPEN` and the last `FOOTNOTE_CLOSE` of the line, its body
/// all that follows. `None` where the line has no such two marks in this
/// order.
pub open spec fn definition_of(line: Seq<char>) -> Option<FootnoteModel> {
    if exists|open: int, close: int| is_definition(line, open, close) {
        let (open, close) = choose|open: int, close: int| is_definition(line, open, close);
        Some(
            FootnoteModel {
                label: line.subrange(open + FOOTNOTE_OPEN@.len(), close),
                body: line.skip(close + FOOTNOTE_CLOSE@.len()),
            },
        )
    } else {
        None
    }
}

/// The footnotes that lines define, or the failure of the first line that
/// defines none.
pub open spec fn definitions_of(lines: Seq<Seq<char>>) -> Result<Seq<FootnoteModel>, Failure>
    decreases lines.len(),
{
    if lines.len() == 0 {
        Ok(Seq::empty())
    } else {
        match definitions_of(lines.drop_last()) {
            Err(failure) => Err(failure),
            Ok(definitions) => match definition_of(lines.last()) {
                None => Err(Failure::FootnoteLine { line: (lines.len() - 1) as nat }),
                Some(definition) => Ok(definitions.push(definition)),
            },
        }
    }
}

/// A line has its two marks at one pair of places only.
pub proof fn lemma_definition_unique(line: Seq<char>, open: int, close: int, o: int, c: int)
    requires
        is_definition(line, open, close),
        is_definition(line, o, c),
    ensures
        open == o,
        close == c,
{
    if open < o {
        assert(!occurs_at(line, open, FOOTNOTE_OPEN@));
    }
    if o < open {
        assert(!occurs_at(line, o, FOOTNOTE_OPEN@));
    }
    if close < c {
        assert(!occurs_at(line, c, FOOTNOTE_CLOSE@));
    }
    if c < close {
        assert(!occurs_at(line, close, FOOTNOTE_CLOSE@));
    }
}

/// Reads the footnote that a line defines.
pub fn parse_footnote_line(line: &str) -> (footnote: Option<Footnote>)
    ensures
        match definition_of(line@) {
            Some(definition) => footnote matches Some(f) && f@ == definition,
            None => footnote is None,
        },
{
    let chars = chars_of(line);
    let open_mark = chars_of(FOOTNOTE_OPEN);
    let close_mark = chars_of(FOOTNOTE_CLOSE);
    proof {
        reveal_strlit("[^");
        reveal_strlit("]:");
    }
    let mut open: usize = 0;
    while open < chars.len() && !occurs(&chars, open, &open_mark)
        invariant
            open <= chars.len(),
            forall|before: int| 0 <= before < open ==> !occurs_at(chars@, before, open_mark@),
        decreases chars.len() - open,
    {
        open += 1;
    }
    if open >= chars.len() {
        assert forall|o: int, c: int| !is_definition(chars@, o, c) by {
            if is_definition(chars@, o, c) {
                assert(occurs_at(chars@, o, open_mark@));
            }
        }
        return None;
    }
    let mut close: usize = chars.len();
    while close > open + 2 && !occurs(&chars, close, &close_mark)
        invariant
            open + 2 <= chars.len(),
            open + 2 <= close <= chars.len(),
            forall|after: int| close < after ==> !occurs_at(chars@, after, close_mark@),
        decreases close,
    {
        close -= 1;
    }
    if !occurs(&chars, close, &close_mark) {
        assert forall|o: int, c: int| !is_definition(chars@, o, c) by {
            if is_definition(chars@, o, c) {
                if o < open {
                    assert(!occurs_at(chars@, o, open_mark@));
                }
                if open < o {
                    assert(occurs_at(chars@, open as int, open_mark@));
                }
                assert(occurs_at(chars@, c, close_mark@));
            }
        }
        return None;
    }
    proof {
        assert(is_definition(chars@, open as int, close as int));
        let (o, c) = choose|o: int, c: int| is_definition(chars@, o, c);
        lemma_definition_unique(chars@, open as int, close as int, o, c);
        assert(chars@.skip(close + 2) =~= chars@.subrange(close + 2, chars@.len() as int));
    }
    let label = string_of(&chars, open + 2, close);
    let body = string_of(&chars, close + 2, chars.len());
    Some(Footnote { label, body })
}

/// Reads the footnotes that the lines define, in the order of the lines.
pub fn parse_footnote_lines(lines: &Vec<String>) -> (footnotes: Result<Vec<Footnote>, Error>)
    ensures
        match definitions_of(lines.deep_view()) {
            Ok(definitions) => footnotes matches Ok(v) && v.deep_view() == definitions,
            Err(failure) => footnotes matches Err(error) && error@ == failure,
        },
{
    let mut footnotes: Vec<Footnote> = Vec::new();
    let mut i: usize = 0;
    assert(footnotes.deep_view() =~= Seq::<FootnoteModel>::empty());
    while i < lines.len()
        invariant
            i <= lines.len(),
            definitions_of(lines.deep_view().take(i as int)) == Ok::<Seq<FootnoteModel>, Failure>(
                footnotes.deep_view(),
            ),
        decreases lines.len() - i,
    {
        let ghost done = lines.deep_view().take(i as int);
        let ghost next = lines.deep_view().take(i + 1);
        let ghost before = footnotes.deep_view();
        assert(next.drop_last() =~= done);
        assert(next.last() == lines[i as int]@);
        match parse_footnote_line(lines[i].as_str()) {
            Some(footnote) => {
                let ghost model = footnote@;
                footnotes.push(footnote);
                assert(footnotes.deep_view() =~= before.push(model));
            },
            None => {
                proof {
                    lemma_definitions_fail(lines.deep_view(), i + 1);
                }
                return Err(Error::FootnoteLine { line: i });
            },
        }
        i += 1;
    }
    assert(lines.deep_view().take(i as int) =~= lines.deep_view());
    Ok(footnotes)
}

/// A failure among the first lines is the failure of all the lines.
proof fn lemma_definitions_fail(lines: Seq<Seq<char>>, n: int)
    requires
        0 <= n <= lines.len(),
        definitions_of(lines.take(n)) is Err,
    ensures
        definitions_of(lines) == definitions_of(lines.take(n)),
    decreases lines.len() - n,
{
    if n < lines.len() {
        assert(lines.take(n + 1).drop_last() =~= lines.take(n));
        lemma_definitions_fail(lines, n + 1);
    } else {
        assert(lines.take(n) =~= lines);
    }
}

/// The name of the place where the footnote with this label is defined.
pub open spec fn definition_id(label: Seq<char>) -> Seq<char> {
    label
}

/// The name of the place from which the footnote with this label is
/// referred to.
pub open spec fn reference_id(label: Seq<char>) -> Seq<char> {
    label + "-back"@
}

/// The anchor that stands for a reference to a footnote: a superscript with
/// the number of the reference, named `reference_id`, that leads to
/// `definition_id`.
pub open spec fn anchor_html(label: Seq<char>, number: nat) -> Seq<char> {
    "<sup class=\"fn\"><a id=\""@ + reference_id(label) + "\" href=\"#"@ + definition_id(label)
        + "\">["@ + decimal(number) + "]</a></sup>"@
}

/// What opens the list item of a footnote: an item named `definition_id`.
pub open spec fn item_html(label: Seq<char>) -> Seq<char> {
    "<li id=\""@ + definition_id(label) + "\">"@
}

/// The link from a footnote back to where it is referred to: it leads to
/// `reference_id`.
pub open spec fn back_link(label: Seq<char>) -> Seq<char> {
    "<a class=\"fn-back\" href=\"#"@ + reference_id(label) + "\">\u{21a9}</a>"@
}

/// The line of the list of footnotes that holds one footnote: an item of an
/// ordered list with the body of the footnote and the link back.
pub open spec fn list_line(footnote: FootnoteModel) -> Seq<char> {
    "1. "@ + footnote.body + " "@ + back_link(footnote.label) + "\n"@
}

/// The source of the list of footnotes: a rule, then one line for each
/// footnote.
pub open spec fn list_source(footnotes: Seq<FootnoteModel>) -> Seq<char> {
    "---\n"@ + footnotes.map_values(|footnote: FootnoteModel| list_line(footnote)).flatten()
}

/// The anchor that stands for the `number`-th reference of a document, which
/// refers to the footnote with this label.
pub fn footnote_anchor(label: &str, number: usize) -> (html: String)
    ensures
        html@ == anchor_html(label@, number as nat),
{
    let mut html = String::from_str("<sup class=\"fn\"><a id=\"");
    html.append(label);
    html.append("-back");
    html.append("\" href=\"#");
    html.append(label);
    html.append("\">[");
    push_decimal(&mut html, number);
    html.append("]</a></sup>");
    assert(html@ =~= anchor_html(label@, number as nat));
    html
}

/// What opens the list item of the footnote with this label.
pub fn footnote_item(label: &str) -> (html: String)
    ensures
        html@ == item_html(label@),
{
    let mut html = String::from_str("<li id=\"");
    html.append(label);
    html.append("\">");
    html
}

/// The source of the list of footnotes.
pub fn footnote_source(footnotes: &Vec<Footnote>) -> (source: String)
    ensures
        source@ == list_source(footnotes.deep_view()),
{
    let mut source = String::from_str("---\n");
    let ghost lines = footnotes.deep_view().map_values(|footnote: FootnoteModel| list_line(footnote));
    let mut i: usize = 0;
    assert(lines.take(0).flatten() =~= Seq::<char>::empty());
    while i < footnotes.len()
        invariant
            i <= footnotes.len(),
            lines == footnotes.deep_view().map_values(
                |footnote: FootnoteModel| list_line(footnote),
            ),
            source@ == "---\n"@ + lines.take(i as int).flatten(),
        decreases footnotes.len() - i,
    {
        let footnote = &footnotes[i];
        let ghost before = source@;
        source.append("1. ");
        source.append(footnote.body.as_str());
        source.append(" ");
        source.append("<a class=\"fn-back\" href=\"#");
        source.append(footnote.label.as_str());
        source.append("-back");
        source.append("\">\u{21a9}</a>");
        source.append("\n");
        proof {
            assert(lines[i as int] == list_line(footnote@));
            assert(source@ =~= before + list_line(footnote@));
            assert(lines.take(i + 1) =~= lines.take(i as int).push(lines[i as int]));
            lines.take(i as int).lemma_flatten_push(lines[i as int]);
        }
        i += 1;
    }
    assert(lines.take(i as int) =~= lines);
    source
}

} // verus!
