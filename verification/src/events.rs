//! The markdown event stream the engine consumes.
//!
//! Documents arrive as an ordered sequence of structural events produced
//! by an external markdown parser; the caller maps them into these plain
//! shapes.  Constructs outside the closed set below are carried as
//! `Other` with a description, and make rendering fail for the document.

use vstd::prelude::*;

verus! {

/// A heading level, `<h1>` through `<h6>`.
#[derive(Clone, Copy, PartialEq, Eq, Structural, Debug)]
pub enum MdHeading {
    H1,
    H2,
    H3,
    H4,
    H5,
    H6,
}

/// The text alignment a table column declares.
#[derive(Clone, Copy, PartialEq, Eq, Structural, Debug)]
pub enum MdAlignment {
    Unaligned,
    Left,
    Center,
    Right,
}

/// The start of a block or inline construct.
#[derive(Debug)]
pub enum MdTag {
    Paragraph,
    Heading(MdHeading),
    BlockQuote,
    /// A code block, with the fenced language when one was given.
    CodeBlock(Option<String>),
    HtmlBlock,
    /// A list; `true` when ordered.
    List(bool),
    Item,
    /// A table, with one alignment per column.
    Table(Vec<MdAlignment>),
    TableHead,
    TableRow,
    TableCell,
    Emphasis,
    Strong,
    /// A link, with its destination URL.
    Link(String),
    /// An image, with its source URL.
    Image(String),
    /// The document's structured header block.
    MetadataBlock,
    /// A construct the engine does not handle, described for the error.
    Other(String),
}

/// The end of a block or inline construct.
#[derive(Debug)]
pub enum MdTagEnd {
    Paragraph,
    Heading(MdHeading),
    BlockQuote,
    CodeBlock,
    HtmlBlock,
    /// End of a list; `true` when ordered.
    List(bool),
    Item,
    Table,
    TableHead,
    TableRow,
    TableCell,
    Emphasis,
    Strong,
    Link,
    Image,
    MetadataBlock,
    Other(String),
}

/// One markdown structural event.
#[derive(Debug)]
pub enum MdEvent {
    Start(MdTag),
    End(MdTagEnd),
    Text(String),
    Code(String),
    /// A raw HTML chunk, handed to the custom-tag mechanism.
    Html(String),
    SoftBreak,
    HardBreak,
    Rule,
    TaskListMarker(bool),
    /// An event category the engine does not handle.
    Other(String),
}

} // verus!
