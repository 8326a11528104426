//! The preamble of a document: six lines, which are skipped, not read.

use crate::text::chars_of;
use vstd::prelude::*;
use vstd::string::StrSliceExecFns;

verus! {

/// The number of newlines that end the preamble: four lines of metadata and
/// the two lines that delimit them.
pub const FRONTMATTER_NEWLINES: usize = 6;

/// The number of newlines in a text.
pub open spec fn newline_count(text: Seq<char>) -> nat
    decreases text.len(),
{
    if text.len() == 0 {
        0
    } else if text[0] == '\n' {
        1 + newline_count(text.drop_first())
    } else {
        newline_count(text.drop_first())
    }
}

/// The position just after the `n`-th newline of a text; the start for
/// `n == 0`, the end where the text has fewer than `n` newlines.
pub open spec fn newline_end(text: Seq<char>, n: nat) -> int
    decreases text.len(),
{
    if n == 0 || text.len() == 0 {
        0
    } else if text[0] == '\n' {
        1 + newline_end(text.drop_first(), (n - 1) as nat)
    } else {
        1 + newline_end(text.drop_first(), n)
    }
}

/// A text without its preamble: what follows its sixth newline.
pub open spec fn without_frontmatter(text: Seq<char>) -> Seq<char> {
    text.skip(newline_end(text, FRONTMATTER_NEWLINES as nat))
}

/// The position after the `n`-th newline lies in the text.
pub proof fn lemma_newline_end_bounds(text: Seq<char>, n: nat)
    ensures
        0 <= newline_end(text, n) <= text.len(),
    decreases text.len(),
{
    if n > 0 && text.len() > 0 {
        if text[0] == '\n' {
            lemma_newline_end_bounds(text.drop_first(), (n - 1) as nat);
        } else {
            lemma_newline_end_bounds(text.drop_first(), n);
        }
    }
}

/// Where a text has `n` newlines, with `n` at least one, `newline_end` is
/// the position just after a newline, the text up to there holds `n`
/// newlines, and the text from there on holds the others.
pub proof fn lemma_newline_end(text: Seq<char>, n: nat)
    requires
        1 <= n <= newline_count(text),
    ensures
        1 <= newline_end(text, n) <= text.len(),
        text[newline_end(text, n) - 1] == '\n',
        newline_count(text.take(newline_end(text, n))) == n,
        newline_count(text.skip(newline_end(text, n))) == newline_count(text) - n,
    decreases text.len(),
{
    let rest = text.drop_first();
    let end = newline_end(text, n);
    lemma_newline_end_bounds(text, n);
    if text[0] == '\n' {
        if n == 1 {
            assert(newline_end(rest, 0) == 0);
            assert(end == 1);
            assert(text.take(1)[0] == '\n');
            assert(text.take(1).drop_first() =~= Seq::<char>::empty());
            assert(newline_count(text.take(1).drop_first()) == 0);
            assert(text.skip(1) =~= rest);
        } else {
            lemma_newline_end(rest, (n - 1) as nat);
            let inner = newline_end(rest, (n - 1) as nat);
            assert(text.take(end)[0] == '\n');
            assert(text.take(end).drop_first() =~= rest.take(inner));
            assert(text.skip(end) =~= rest.skip(inner));
        }
    } else {
        lemma_newline_end(rest, n);
        let inner = newline_end(rest, n);
        assert(text.take(end)[0] == text[0]);
        assert(text.take(end).drop_first() =~= rest.take(inner));
        assert(text.skip(end) =~= rest.skip(inner));
    }
}

/// The position after `a + b` newlines is the position after `b` newlines
/// of what follows the first `a`.
pub proof fn lemma_newline_end_sum(text: Seq<char>, a: nat, b: nat)
    ensures
        newline_end(text, a + b) == newline_end(text, a) + newline_end(
            text.skip(newline_end(text, a)),
            b,
        ),
    decreases text.len(),
{
    if a == 0 || text.len() == 0 {
        assert(text.skip(0) =~= text);
    } else {
        let rest = text.drop_first();
        if text[0] == '\n' {
            lemma_newline_end_sum(rest, (a - 1) as nat, b);
            let inner = newline_end(rest, (a - 1) as nat);
            lemma_newline_end_bounds(rest, (a - 1) as nat);
            assert(text.skip(1 + inner) =~= rest.skip(inner));
        } else {
            lemma_newline_end_sum(rest, a, b);
            let inner = newline_end(rest, a);
            lemma_newline_end_bounds(rest, a);
            assert(text.skip(1 + inner) =~= rest.skip(inner));
        }
    }
}

/// Skipping is not idempotent. Where what is left of a text after skipping
/// still has six newlines, skipping once more takes these six lines away
/// too and nothing else: what is left then is what follows the twelfth
/// newline of the text, and it is shorter by at least six characters.
pub proof fn law_skipping_twice(text: Seq<char>)
    requires
        newline_count(text) >= FRONTMATTER_NEWLINES,
        newline_count(without_frontmatter(text)) >= FRONTMATTER_NEWLINES,
    ensures
        newline_count(text) >= 2 * FRONTMATTER_NEWLINES,
        without_frontmatter(without_frontmatter(text)) == text.skip(
            newline_end(text, 2 * FRONTMATTER_NEWLINES as nat),
        ),
        without_frontmatter(without_frontmatter(text)).len() + FRONTMATTER_NEWLINES
            <= without_frontmatter(text).len(),
        without_frontmatter(without_frontmatter(text)) != without_frontmatter(text),
{
    let once = without_frontmatter(text);
    lemma_newline_end(text, 6);
    lemma_newline_end(once, 6);
    lemma_newline_end_sum(text, 6, 6);
    let first = newline_end(text, 6);
    let second = newline_end(once, 6);
    assert(once.skip(second) =~= text.skip(first + second));
    lemma_newline_end_at_least(once, 6);
}

/// The position after `n` newlines is at least `n`, where the text has them.
proof fn lemma_newline_end_at_least(text: Seq<char>, n: nat)
    requires
        n <= newline_count(text),
    ensures
        n <= newline_end(text, n),
    decreases text.len(),
{
    if n > 0 {
        if text[0] == '\n' {
            lemma_newline_end_at_least(text.drop_first(), (n - 1) as nat);
        } else {
            lemma_newline_end_at_least(text.drop_first(), n);
        }
    }
}

/// Whether a text has the six newlines of a preamble.
pub fn has_frontmatter(text: &str) -> (has: bool)
    ensures
        has == (newline_count(text@) >= FRONTMATTER_NEWLINES),
{
    let chars = chars_of(text);
    let mut found: usize = 0;
    let mut i: usize = 0;
    assert(chars@.skip(0) =~= chars@);
    while i < chars.len() && found < FRONTMATTER_NEWLINES
        invariant
            i <= chars.len(),
            found <= FRONTMATTER_NEWLINES,
            chars@ == text@,
            newline_count(chars@) == found + newline_count(chars@.skip(i as int)),
        decreases chars.len() - i,
    {
        assert(chars@.skip(i as int).drop_first() =~= chars@.skip(i + 1));
        if chars[i] == '\n' {
            found += 1;
        }
        i += 1;
    }
    found >= FRONTMATTER_NEWLINES
}

/// A text without its preamble: what follows its sixth newline.
pub fn skip_frontmatter(text: &str) -> (rest: &str)
    requires
        newline_count(text@) >= FRONTMATTER_NEWLINES,
    ensures
        rest@ == without_frontmatter(text@),
{
    let chars = chars_of(text);
    let mut found: usize = 0;
    let mut i: usize = 0;
    assert(chars@.skip(0) =~= chars@);
    while found < FRONTMATTER_NEWLINES
        invariant
            i <= chars.len(),
            found <= FRONTMATTER_NEWLINES,
            chars@ == text@,
            newline_count(chars@.skip(i as int)) >= FRONTMATTER_NEWLINES - found,
            newline_end(chars@, FRONTMATTER_NEWLINES as nat) == i + newline_end(
                chars@.skip(i as int),
                (FRONTMATTER_NEWLINES - found) as nat,
            ),
        decreases chars.len() - i,
    {
        assert(chars@.skip(i as int).drop_first() =~= chars@.skip(i + 1));
        if chars[i] == '\n' {
            found += 1;
        }
        i += 1;
    }
    text.substring_char(i, chars.len())
}

} // verus!
