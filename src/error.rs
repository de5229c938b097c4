use vstd::prelude::*;

verus! {

/// What went wrong while building a document.
#[derive(Clone, Copy, Debug, PartialEq, Eq, Structural)]
pub enum ErrorKind {
    /// A `<!--` without its `-->`.
    UnclosedComment,
    /// A `<![CDATA[` without its `]]>`.
    UnclosedCdata,
    /// A quoted property value that runs to the end of the input.
    UnclosedQuote,
    /// A `</` without its `>`.
    UnclosedClosingTag,
    /// A `<script>` or `<style>` element without its closing tag.
    UnclosedRawText,
    /// A Gemtext link line without a URL.
    MissingLinkUrl,
    /// A macro marker that no `(` follows.
    MissingOpenParen,
    /// A macro argument list that is never closed.
    MissingCloseParen,
    /// A macro name that is not one of the built-in macros.
    UnknownMacro,
    /// A `MINIFY` whose type is neither `html` nor `css`.
    UnknownMinifyType,
    /// An included file that could not be read.
    IncludeFailed,
    /// A file that includes itself, directly or through others.
    IncludeCycle,
    /// A `MINIFY` without the comma that ends its type.
    MissingMinifyCode,
    /// A `BASE64` input whose encoding would not fit in memory.
    TooLarge,
}

/// An error, with the document it occurred in and the line it points at.
#[derive(Debug)]
pub struct BuildError {
    pub kind: ErrorKind,
    pub path: String,
    pub line: usize,
}

} // verus!
