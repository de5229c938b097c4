use vstd::prelude::*;
use crate::text::{is_ws, is_whitespace, trim_end, trim_end_in_place, chars_of, string_of};

verus! {

/// What the CSS scanner is in the middle of.
#[derive(Clone, Copy, PartialEq, Eq, Structural)]
pub enum CssScan {
    Normal,
    /// Dropping the whitespace that follows a delimiter.
    SkipSpace,
    /// Inside a `/* ... */` comment.
    Comment,
    /// Inside a string literal opened by `quote`.
    Quoted { quote: char },
}

/// The minified CSS produced from position `i` of `s` onwards, given the output so far,
/// the parenthesis depth and whether a `:` has been seen since the last `;`.
pub open spec fn css_from(
    s: Seq<char>,
    i: int,
    mode: CssScan,
    out: Seq<char>,
    depth: int,
    in_rule: bool,
) -> Seq<char>
    decreases s.len() - i,
{
    if i < 0 || i >= s.len() {
        out
    } else {
        let c = s[i];
        match mode {
            CssScan::Comment => {
                if c == '*' && i + 1 < s.len() && s[i + 1] == '/' {
                    css_from(s, i + 2, CssScan::Normal, out, depth, in_rule)
                } else {
                    css_from(s, i + 1, CssScan::Comment, out, depth, in_rule)
                }
            },
            CssScan::Quoted { quote } => {
                if c == quote {
                    css_from(s, i + 1, CssScan::Normal, out.push(c), depth, in_rule)
                } else if c == '\\' && i + 1 < s.len() {
                    css_from(s, i + 2, mode, out.push(c).push(s[i + 1]), depth, in_rule)
                } else {
                    css_from(s, i + 1, mode, out.push(c), depth, in_rule)
                }
            },
            _ => {
                if mode == CssScan::SkipSpace && is_ws(c) {
                    css_from(s, i + 1, CssScan::SkipSpace, out, depth, in_rule)
                } else if c == '/' && i + 1 < s.len() && s[i + 1] == '*' {
                    css_from(s, i + 2, CssScan::Comment, out, depth, in_rule)
                } else if c == '\'' || c == '"' {
                    css_from(s, i + 1, CssScan::Quoted { quote: c }, out.push(c), depth, in_rule)
                } else if c == '\n' {
                    let o = if depth > 0 || in_rule { out.push(' ') } else { out };
                    css_from(s, i + 1, CssScan::SkipSpace, o, depth, in_rule)
                } else if c == '(' {
                    css_from(s, i + 1, CssScan::SkipSpace, trim_end(out).push(c), depth + 1, in_rule)
                } else if c == ')' {
                    css_from(s, i + 1, CssScan::Normal, trim_end(out).push(c), depth - 1, in_rule)
                } else if c == '{' || c == '}' || c == ',' {
                    css_from(s, i + 1, CssScan::SkipSpace, trim_end(out).push(c), depth, in_rule)
                } else if c == ':' {
                    css_from(s, i + 1, CssScan::SkipSpace, out.push(c), depth, true)
                } else if c == ';' {
                    css_from(s, i + 1, CssScan::Normal, out.push(c), depth, false)
                } else {
                    css_from(s, i + 1, CssScan::Normal, out.push(c), depth, in_rule)
                }
            },
        }
    }
}

/// The minified form of the style sheet `s`.
pub open spec fn css_minified(s: Seq<char>) -> Seq<char> {
    css_from(s, 0, CssScan::Normal, Seq::empty(), 0, false)
}

/// Minifies a style sheet given as characters.
pub fn minify_css_chars(s: &[char]) -> (r: Vec<char>)
    ensures
        r@ == css_minified(s@),
{
    let mut out: Vec<char> = Vec::new();
    let mut mode = CssScan::Normal;
    let mut opens: usize = 0;
    let mut closes: usize = 0;
    let mut in_rule = false;
    let mut i: usize = 0;
    let n = s.len();
    while i < n
        invariant
            n == s@.len(),
            i <= n,
            opens <= i,
            closes <= i,
            css_from(s@, i as int, mode, out@, opens - closes, in_rule) == css_minified(s@),
        decreases n - i,
    {
        let c = s[i];
        match mode {
            CssScan::Comment => {
                if c == '*' && i + 1 < n && s[i + 1] == '/' {
                    mode = CssScan::Normal;
                    i = i + 2;
                } else {
                    i = i + 1;
                }
            },
            CssScan::Quoted { quote } => {
                out.push(c);
                if c == quote {
                    mode = CssScan::Normal;
                    i = i + 1;
                } else if c == '\\' && i + 1 < n {
                    out.push(s[i + 1]);
                    i = i + 2;
                } else {
                    i = i + 1;
                }
            },
            _ => {
                if matches!(mode, CssScan::SkipSpace) && is_whitespace(c) {
                    i = i + 1;
                } else if c == '/' && i + 1 < n && s[i + 1] == '*' {
                    mode = CssScan::Comment;
                    i = i + 2;
                } else {
                    mode = CssScan::Normal;
                    if c == '\'' || c == '"' {
                        out.push(c);
                        mode = CssScan::Quoted { quote: c };
                    } else if c == '\n' {
                        if opens > closes || in_rule {
                            out.push(' ');
                        }
                        mode = CssScan::SkipSpace;
                    } else if c == '(' {
                        trim_end_in_place(&mut out);
                        out.push(c);
                        opens = opens + 1;
                        mode = CssScan::SkipSpace;
                    } else if c == ')' {
                        trim_end_in_place(&mut out);
                        out.push(c);
                        closes = closes + 1;
                    } else if c == '{' || c == '}' || c == ',' {
                        trim_end_in_place(&mut out);
                        out.push(c);
                        mode = CssScan::SkipSpace;
                    } else if c == ':' {
                        out.push(c);
                        in_rule = true;
                        mode = CssScan::SkipSpace;
                    } else if c == ';' {
                        out.push(c);
                        in_rule = false;
                    } else {
                        out.push(c);
                    }
                    i = i + 1;
                }
            },
        }
    }
    out
}

/// Minifies a style sheet: comments go, string literals stay as written, and
/// whitespace around delimiters is dropped.
pub fn minify_css(source: &str) -> (r: String)
    ensures
        r@ == css_minified(source@),
{
    let s = chars_of(source);
    let out = minify_css_chars(s.as_slice());
    string_of(out.as_slice())
}

} // verus!
