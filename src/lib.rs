pub mod text;
pub mod css;
pub mod error;
pub mod gemtext;
pub mod html;
pub mod external;
pub mod compiler;
pub mod laws;
pub mod minifier;
pub mod translator;

use vstd::prelude::*;
use crate::compiler::{Expanded, Expansion, Include, compile_macros, expanded, expansion_is};
use crate::error::{BuildError, ErrorKind};
use crate::gemtext::gmi_translated;
use crate::html::{html_minified, line_of};
use crate::text::chars_of;

pub use crate::css::minify_css;
pub use crate::gemtext::translate_gemtext;
pub use crate::html::minify_html;
pub use crate::external::translate_markdown;

verus! {

/// How a target is built.
#[derive(Clone, Copy, Debug, PartialEq, Eq, Structural)]
pub enum Mode {
    Compile,
    Copy,
    Link,
}

/// The kind of document a file holds.
#[derive(Clone, Copy, Debug, PartialEq, Eq, Structural)]
pub enum FileType {
    Html,
    Css,
    Gemtext,
    Markdown,
    Unknown,
}

/// The file type that a file name extension stands for.
pub open spec fn file_type_of(ext: Seq<char>) -> FileType {
    if ext == "html"@ {
        FileType::Html
    } else if ext == "css"@ {
        FileType::Css
    } else if ext == "gmi"@ || ext == "gemtext"@ {
        FileType::Gemtext
    } else if ext == "md"@ || ext == "markdown"@ {
        FileType::Markdown
    } else {
        FileType::Unknown
    }
}

impl FileType {
    /// The file type of a file with the extension `ext` (without the dot).
    pub fn from_extension(ext: &str) -> (r: FileType)
        ensures
            r == file_type_of(ext@),
    {
        let e = chars_of(ext);
        let s = e.as_slice();
        if crate::html::eq_lit(s, "html") {
            FileType::Html
        } else if crate::html::eq_lit(s, "css") {
            FileType::Css
        } else if crate::html::eq_lit(s, "gmi") || crate::html::eq_lit(s, "gemtext") {
            FileType::Gemtext
        } else if crate::html::eq_lit(s, "md") || crate::html::eq_lit(s, "markdown") {
            FileType::Markdown
        } else {
            FileType::Unknown
        }
    }
}

/// A file or directory to build, where its output goes, and how.
pub struct Target {
    pub path: String,
    pub output: String,
    pub mode: Mode,
    pub file_type: FileType,
}

/// Number of line breaks that precede `offset` in `src`.
pub open spec fn newlines_before(src: Seq<char>, offset: int) -> nat
    decreases offset,
{
    if offset <= 0 {
        0
    } else {
        newlines_before(src, offset - 1) + if src[offset - 1] == '\n' { 1nat } else { 0nat }
    }
}

/// The number of line breaks before position `offset` of `src`.
pub fn line_number_of_offset(src: &[char], offset: usize) -> (r: usize)
    requires
        offset <= src@.len(),
    ensures
        r == newlines_before(src@, offset as int),
        r <= offset,
{
    let mut i: usize = 0;
    let mut n: usize = 0;
    while i < offset
        invariant
            i <= offset <= src@.len(),
            n == newlines_before(src@, i as int),
            n <= i,
        decreases offset - i,
    {
        if src[i] == '\n' {
            n = n + 1;
        }
        i = i + 1;
    }
    n
}

/// The output of the document `input` at `path` of type `file_type`: its macros are
/// expanded, then it is minified or translated as its type asks.
pub open spec fn compiled(
    files: Seq<Include>,
    input: Seq<char>,
    path: Seq<char>,
    file_type: FileType,
) -> Result<Expanded, (ErrorKind, Seq<char>, nat)> {
    match expanded(files, input, path) {
        Err(e) => Err(e),
        Ok(Expanded::Need(f, a, b)) => Ok(Expanded::Need(f, a, b)),
        Ok(Expanded::Text(t)) => match file_type {
            FileType::Gemtext => match gmi_translated(t) {
                Ok(o) => Ok(Expanded::Text(o)),
                Err(num) => Err((ErrorKind::MissingLinkUrl, path, num)),
            },
            FileType::Html => match html_minified(t) {
                Ok(o) => Ok(Expanded::Text(o)),
                Err((kind, at)) => Err((kind, path, line_of(input, at))),
            },
            FileType::Css => Ok(Expanded::Text(crate::css::css_minified(t))),
            FileType::Markdown => Ok(Expanded::Text(crate::external::markdown_html_of(t))),
            FileType::Unknown => Ok(Expanded::Text(t)),
        },
    }
}

/// Builds the document `input` at `source_path`: expands its macros, then minifies or
/// translates it by its type. Asks for an included file that is not among `files`.
pub fn compile_file(input: &str, source_path: &str, file_type: FileType, files: &[Include]) -> (r:
    Result<Expansion, BuildError>)
    ensures
        expansion_is(r, compiled(files@, input@, source_path@, file_type)),
{
    let text = match compile_macros(input, source_path, files) {
        Err(e) => {
            return Err(e);
        },
        Ok(Expansion::NeedsFile { from, arg, binary }) => {
            return Ok(Expansion::NeedsFile { from, arg, binary });
        },
        Ok(Expansion::Done(t)) => t,
    };
    match file_type {
        FileType::Gemtext => match translate_gemtext(source_path, text.as_str()) {
            Ok(o) => Ok(Expansion::Done(o)),
            Err(e) => Err(e),
        },
        FileType::Html => match minify_html(source_path, text.as_str(), input) {
            Ok(o) => Ok(Expansion::Done(o)),
            Err(e) => Err(e),
        },
        FileType::Css => Ok(Expansion::Done(minify_css(text.as_str()))),
        FileType::Markdown => Ok(Expansion::Done(translate_markdown(text.as_str()))),
        FileType::Unknown => Ok(Expansion::Done(text)),
    }
}

} // verus!
