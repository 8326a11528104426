//! Turns annotated Markdown notes into hypertext pages, with review decks
//! embedded in fenced blocks rendered as flashcard widgets.
//!
//! A document goes through these modules in turn: `frontmatter` skips its
//! preamble, `footnotes` parts its body from the lines that define
//! footnotes, `markdown` reads the body into events, `rewrite` rewrites the
//! events and calls on `orbit` for every deck block, and `page` writes body
//! and footnotes out and puts them into the page template through
//! `template`. `links`, `text` and `error` serve the others.

pub mod error;
pub mod footnotes;
pub mod frontmatter;
pub mod links;
pub mod markdown;
pub mod orbit;
pub mod page;
pub mod rewrite;
pub mod template;
pub mod text;
