use vstd::prelude::*;
use crate::css::{css_minified, minify_css_chars};
use crate::error::{BuildError, ErrorKind};
use crate::text::{
    is_ws, skip_ws, trim_end, occurs_at, is_whitespace, skip_whitespace, trim_end_in_place,
    chars_of, string_of, push_all, push_str, is_at,
};

verus! {

broadcast use vstd::string::group_string_axioms;

/// The first position at or after `i` where `p` occurs in `s`.
pub open spec fn find_from(s: Seq<char>, i: int, p: Seq<char>) -> Option<int>
    decreases s.len() - i,
{
    if i < 0 || i >= s.len() || i + p.len() > s.len() {
        None
    } else if occurs_at(s, i, p) {
        Some(i)
    } else {
        find_from(s, i + 1, p)
    }
}

/// `s` holds `/>` at position `i`.
pub open spec fn is_self_close(s: Seq<char>, i: int) -> bool {
    0 <= i && i + 1 < s.len() && s[i] == '/' && s[i + 1] == '>'
}

/// The last position taken by a `/>` at `q`: a line feed right after it takes the whole
/// whitespace run that it starts.
pub open spec fn self_close_end(s: Seq<char>, q: int) -> int {
    if q + 2 < s.len() && s[q + 2] == '\n' {
        skip_ws(s, q + 2) - 1
    } else {
        q + 1
    }
}

/// Where a tag name that starts at `i` ends: at whitespace, `>` or `/>`.
pub open spec fn name_end(s: Seq<char>, i: int) -> int
    decreases s.len() - i,
{
    if 0 <= i < s.len() && !is_ws(s[i]) && s[i] != '>' && !is_self_close(s, i) {
        name_end(s, i + 1)
    } else {
        i
    }
}

/// The tags whose content is inline text: whitespace runs in them become one space.
pub open spec fn is_textual(name: Seq<char>) -> bool {
    name == "a"@ || name == "abbr"@ || name == "acronym"@ || name == "aside"@ || name == "b"@
        || name == "bdi"@ || name == "bdo"@ || name == "big"@ || name == "blockquote"@
        || name == "button"@ || name == "caption"@ || name == "cite"@ || name == "code"@
        || name == "dd"@ || name == "del"@ || name == "details"@ || name == "dfn"@
        || name == "dt"@ || name == "em"@ || name == "figcaption"@ || name == "h1"@
        || name == "h2"@ || name == "h3"@ || name == "h4"@ || name == "h5"@ || name == "h6"@
        || name == "i"@ || name == "ins"@ || name == "kbd"@ || name == "label"@
        || name == "legend"@ || name == "li"@ || name == "mark"@ || name == "marquee"@
        || name == "meter"@ || name == "nobr"@ || name == "option"@ || name == "output"@
        || name == "p"@ || name == "pre"@ || name == "progress"@ || name == "q"@
        || name == "rb"@ || name == "rp"@ || name == "rt"@ || name == "s"@ || name == "sample"@
        || name == "small"@ || name == "span"@ || name == "strong"@ || name == "sub"@
        || name == "summary"@ || name == "sup"@ || name == "td"@ || name == "textarea"@
        || name == "th"@ || name == "time"@ || name == "title"@ || name == "u"@
        || name == "var"@
}

/// What the property scanner of an opening tag is in the middle of.
#[derive(Clone, Copy, PartialEq, Eq, Structural)]
pub enum AttrScan {
    /// Between properties; `skipping` while dropping a whitespace run.
    Between { skipping: bool },
    /// In a property name.
    Name,
    /// In whitespace after a property name.
    NameSpace,
    /// After `=`, before the value.
    ValueStart,
    /// In a value quoted by `quote`, opened at `start`.
    Quoted { quote: char, start: usize },
    /// In an unquoted value that starts at `start`.
    Unquoted { start: usize },
}

pub open spec fn attr_rank(mode: AttrScan) -> nat {
    if mode == AttrScan::NameSpace { 1 } else { 0 }
}

/// The properties of an opening tag from position `i` on, appended to `out`. The result
/// is the output, and either the position after the closing `>` (with `true`) or the last
/// position taken by a `/>` or by the end of the input (with `false`).
pub open spec fn attrs_from(s: Seq<char>, i: int, mode: AttrScan, out: Seq<char>) -> Result<
    (Seq<char>, int, bool),
    (ErrorKind, int),
>
    decreases s.len() - i, attr_rank(mode),
{
    if i < 0 || i >= s.len() {
        match mode {
            AttrScan::Quoted { quote, start } => Err((ErrorKind::UnclosedQuote, start as int)),
            AttrScan::Unquoted { start } => Err((ErrorKind::UnclosedQuote, start as int)),
            _ => Ok((out, s.len() - 1, false)),
        }
    } else {
        let c = s[i];
        match mode {
            AttrScan::Between { skipping } => {
                if skipping && is_ws(c) {
                    attrs_from(s, i + 1, mode, out)
                } else if is_self_close(s, i) {
                    Ok((out + "/>"@, self_close_end(s, i), false))
                } else if c == '>' {
                    Ok((out.push(c), i + 1, true))
                } else if c == '\n' {
                    attrs_from(s, i + 1, AttrScan::Between { skipping: false }, out)
                } else if is_ws(c) {
                    attrs_from(s, i + 1, AttrScan::Between { skipping: true }, out.push(' '))
                } else {
                    attrs_from(s, i + 1, AttrScan::Name, out.push(c))
                }
            },
            AttrScan::Name => {
                if c == '=' {
                    attrs_from(s, i + 1, AttrScan::ValueStart, out.push(c))
                } else if is_self_close(s, i) {
                    Ok((out + "/>"@, self_close_end(s, i), false))
                } else if c == '>' {
                    Ok((out.push(c), i + 1, true))
                } else if is_ws(c) {
                    attrs_from(s, i + 1, AttrScan::NameSpace, out)
                } else {
                    attrs_from(s, i + 1, AttrScan::Name, out.push(c))
                }
            },
            AttrScan::NameSpace => {
                if is_ws(c) {
                    attrs_from(s, i + 1, AttrScan::NameSpace, out)
                } else if c == '=' {
                    attrs_from(s, i + 1, AttrScan::ValueStart, out.push(c))
                } else {
                    attrs_from(s, i, AttrScan::Between { skipping: true }, out.push(' '))
                }
            },
            AttrScan::ValueStart => {
                if is_ws(c) {
                    attrs_from(s, i + 1, AttrScan::ValueStart, out)
                } else if c == '\'' || c == '"' {
                    attrs_from(
                        s,
                        i + 1,
                        AttrScan::Quoted { quote: c, start: i as usize },
                        out.push(c),
                    )
                } else {
                    attrs_from(s, i + 1, AttrScan::Unquoted { start: i as usize }, out.push(c))
                }
            },
            AttrScan::Quoted { quote, start } => {
                if c == '\\' && i + 1 < s.len() {
                    attrs_from(s, i + 2, mode, out.push(c).push(s[i + 1]))
                } else if c == quote {
                    attrs_from(s, i + 1, AttrScan::Between { skipping: false }, out.push(c))
                } else {
                    attrs_from(s, i + 1, mode, out.push(c))
                }
            },
            AttrScan::Unquoted { start } => {
                if is_self_close(s, i) {
                    Ok((out + "/>"@, self_close_end(s, i), false))
                } else if c == '>' {
                    Ok((out.push(c), i + 1, true))
                } else if is_ws(c) {
                    attrs_from(s, i + 1, AttrScan::Between { skipping: true }, out.push(c))
                } else {
                    attrs_from(s, i + 1, mode, out.push(c))
                }
            },
        }
    }
}

/// The whitespace run that ends right before position `i` holds a line feed.
pub open spec fn newline_in_space_before(s: Seq<char>, i: int) -> bool
    decreases i,
{
    if i <= 0 || i > s.len() || !is_ws(s[i - 1]) {
        false
    } else if s[i - 1] == '\n' {
        true
    } else {
        newline_in_space_before(s, i - 1)
    }
}

/// `t` without its whitespace.
pub open spec fn strip_ws(t: Seq<char>) -> Seq<char>
    decreases t.len(),
{
    if t.len() == 0 {
        t
    } else if is_ws(t.last()) {
        strip_ws(t.drop_last())
    } else {
        strip_ws(t.drop_last()).push(t.last())
    }
}

pub open spec fn ends_with(s: Seq<char>, t: Seq<char>) -> bool {
    t.len() <= s.len() && s.subrange(s.len() - t.len(), s.len() as int) == t
}

pub open spec fn clamp(j: int, n: int) -> int {
    if j > n { n } else { j }
}

/// The tag that starts at position `p` (a `<`), minified: its output and how many
/// positions after `p` it takes; or an error with the position it points at.
pub open spec fn tag_at(s: Seq<char>, p: int) -> Result<(Seq<char>, nat), (ErrorKind, int)>
    decreases s.len() - p, 2nat,
{
    if p < 0 || p + 1 >= s.len() || is_ws(s[p + 1]) {
        Ok((seq!['<'], 0))
    } else if occurs_at(s, p, "<!--"@) {
        match find_from(s, p + 2, "-->"@) {
            Some(k) => Ok((Seq::empty(), (k + 2 - p) as nat)),
            None => Err((ErrorKind::UnclosedComment, p)),
        }
    } else if occurs_at(s, p, "<![CDATA["@) {
        match find_from(s, p + 9, "]]>"@) {
            Some(k) => Ok((s.subrange(p, k + 3), (k + 2 - p) as nat)),
            None => Err((ErrorKind::UnclosedCdata, p)),
        }
    } else {
        let q = name_end(s, p + 1);
        let name = s.subrange(p + 1, q);
        let head = seq!['<'] + name;
        if q >= s.len() {
            Ok((head, (s.len() - 1 - p) as nat))
        } else if is_self_close(s, q) {
            Ok((head + "/>"@, (self_close_end(s, q) - p) as nat))
        } else {
            let a = if s[q] == '>' {
                Ok((head.push('>'), q + 1, true))
            } else {
                attrs_from(s, q + 1, AttrScan::Between { skipping: true }, head.push(' '))
            };
            match a {
                Err(e) => Err(e),
                Ok((out, k, open)) => {
                    if !open {
                        Ok((out, (k - p) as nat))
                    } else {
                        proof {
                            lemma_name_end(s, p + 1);
                            if s[q] != '>' {
                                lemma_attrs_from(s, q + 1, AttrScan::Between { skipping: true }, head.push(' '));
                            }
                        }
                        element_body(s, p, name, out, k)
                    }
                },
            }
        }
    }
}

/// What follows the opening tag of the element `name` that starts at `p`, once its `>`
/// has been reached and the tag written to `out`; `k` is the position after the `>`.
pub open spec fn element_body(s: Seq<char>, p: int, name: Seq<char>, out: Seq<char>, k: int) -> Result<
    (Seq<char>, nat),
    (ErrorKind, int),
>
    decreases s.len() - k, 4nat,
{
    let k2 = if 0 <= k < s.len() && s[k] == '\n' { skip_ws(s, k) } else { k };
    if name == "script"@ || name == "style"@ {
        let closer = if name == "script"@ { "</script>"@ } else { "</style>"@ };
        if k2 >= s.len() {
            Ok((out, (s.len() - 1 - p) as nat))
        } else {
            match find_from(s, k2, closer) {
                None => Err((ErrorKind::UnclosedRawText, k2)),
                Some(c) => {
                    let body = s.subrange(k2, c + closer.len());
                    let o = if name == "style"@ { out + css_minified(body) } else { out + body };
                    Ok((o, (c + closer.len() - 1 - p) as nat))
                },
            }
        }
    } else if k < 0 || k > s.len() {
        Ok((out, (s.len() - 1 - p) as nat))
    } else {
        proof {
            lemma_skip_ws(s, k);
        }
        match content_from(s, k2, name, false, out) {
            Err(e) => Err(e),
            Ok((o, end)) => Ok((o, (end - p) as nat)),
        }
    }
}

/// The content of the element `name` from position `i` on, appended to `out`, up to and
/// including its closing tag: the output and the last position taken, or an error.
pub open spec fn content_from(
    s: Seq<char>,
    i: int,
    name: Seq<char>,
    skipping: bool,
    out: Seq<char>,
) -> Result<(Seq<char>, int), (ErrorKind, int)>
    decreases s.len() - i, 3nat,
{
    if i < 0 || i >= s.len() {
        Ok((out, s.len() - 1))
    } else {
        let c = s[i];
        let pre = name == "pre"@;
        if c == '<' {
            if i + 1 >= s.len() {
                Ok((out, s.len() - 1))
            } else if s[i + 1] == '/' {
                let o = if !pre && newline_in_space_before(s, i) { trim_end(out) } else { out };
                match find_from(s, i + 2, seq!['>']) {
                    None => Err((ErrorKind::UnclosedClosingTag, i + 1)),
                    Some(m) => {
                        let o2 = o + "</"@ + strip_ws(s.subrange(i + 2, m));
                        let end = if !pre && m + 1 < s.len() && s[m + 1] == '\n' {
                            skip_ws(s, m + 1) - 1
                        } else {
                            m
                        };
                        if ends_with(o2, name) {
                            Ok((o2.push('>'), end))
                        } else {
                            proof {
                                lemma_find_from(s, i + 2, seq!['>']);
                                lemma_skip_ws(s, m + 1);
                            }
                            content_from(s, end + 1, name, false, o2.push('>'))
                        }
                    },
                }
            } else if !is_ws(s[i + 1]) {
                match tag_at(s, i) {
                    Err(e) => Err(e),
                    Ok((t, used)) => content_from(
                        s,
                        clamp(i + used + 1, s.len() as int),
                        name,
                        false,
                        out + t,
                    ),
                }
            } else {
                content_from(s, i + 1, name, false, out.push(c))
            }
        } else if pre {
            content_from(s, i + 1, name, false, out.push(c))
        } else if skipping && is_ws(c) {
            content_from(s, i + 1, name, true, out)
        } else if c == '\n' {
            content_from(s, i + 1, name, false, out)
        } else if is_ws(c) {
            content_from(s, i + 1, name, true, if is_textual(name) { out.push(' ') } else { out })
        } else {
            content_from(s, i + 1, name, false, out.push(c))
        }
    }
}

/// The minified document from position `i` on, appended to `out`.
pub open spec fn html_from(s: Seq<char>, i: int, out: Seq<char>) -> Result<
    Seq<char>,
    (ErrorKind, int),
>
    decreases s.len() - i,
{
    if i < 0 || i >= s.len() {
        Ok(out)
    } else if s[i] == '<' {
        match tag_at(s, i) {
            Err(e) => Err(e),
            Ok((t, used)) => html_from(s, clamp(i + used + 1, s.len() as int), out + t),
        }
    } else {
        html_from(s, i + 1, out.push(s[i]))
    }
}

/// The minified form of an HTML document, or the error and the position it points at.
pub open spec fn html_minified(s: Seq<char>) -> Result<Seq<char>, (ErrorKind, int)> {
    html_from(s, 0, Seq::empty())
}

pub proof fn lemma_skip_ws(s: Seq<char>, i: int)
    requires
        0 <= i <= s.len(),
    ensures
        i <= skip_ws(s, i) <= s.len(),
    decreases s.len() - i,
{
    if i < s.len() && is_ws(s[i]) {
        lemma_skip_ws(s, i + 1);
    }
}

pub proof fn lemma_name_end(s: Seq<char>, i: int)
    requires
        0 <= i <= s.len(),
    ensures
        i <= name_end(s, i) <= s.len(),
    decreases s.len() - i,
{
    if i < s.len() && !is_ws(s[i]) && s[i] != '>' && !is_self_close(s, i) {
        lemma_name_end(s, i + 1);
    }
}

pub proof fn lemma_find_from(s: Seq<char>, i: int, p: Seq<char>)
    ensures
        find_from(s, i, p) matches Some(k) ==> i <= k && k + p.len() <= s.len() && occurs_at(
            s,
            k,
            p,
        ),
    decreases s.len() - i,
{
    if !(i < 0 || i >= s.len() || i + p.len() > s.len()) && !occurs_at(s, i, p) {
        lemma_find_from(s, i + 1, p);
    }
}

pub proof fn lemma_attrs_from(s: Seq<char>, i: int, mode: AttrScan, out: Seq<char>)
    requires
        0 <= i,
    ensures
        attrs_from(s, i, mode, out) matches Ok((o, k, open)) ==> (open ==> i < k <= s.len()),
    decreases s.len() - i, attr_rank(mode),
{
    if i < s.len() {
        let c = s[i];
        match mode {
            AttrScan::Between { skipping } => {
                if skipping && is_ws(c) {
                    lemma_attrs_from(s, i + 1, mode, out);
                } else if c == '\n' {
                    lemma_attrs_from(s, i + 1, AttrScan::Between { skipping: false }, out);
                } else if is_ws(c) {
                    lemma_attrs_from(s, i + 1, AttrScan::Between { skipping: true }, out.push(' '));
                } else {
                    lemma_attrs_from(s, i + 1, AttrScan::Name, out.push(c));
                }
            },
            AttrScan::Name => {
                if c == '=' {
                    lemma_attrs_from(s, i + 1, AttrScan::ValueStart, out.push(c));
                } else if is_ws(c) {
                    lemma_attrs_from(s, i + 1, AttrScan::NameSpace, out);
                } else {
                    lemma_attrs_from(s, i + 1, AttrScan::Name, out.push(c));
                }
            },
            AttrScan::NameSpace => {
                if is_ws(c) {
                    lemma_attrs_from(s, i + 1, AttrScan::NameSpace, out);
                } else if c == '=' {
                    lemma_attrs_from(s, i + 1, AttrScan::ValueStart, out.push(c));
                } else {
                    lemma_attrs_from(s, i, AttrScan::Between { skipping: true }, out.push(' '));
                }
            },
            AttrScan::ValueStart => {
                if is_ws(c) {
                    lemma_attrs_from(s, i + 1, AttrScan::ValueStart, out);
                } else if c == '\'' || c == '"' {
                    lemma_attrs_from(
                        s,
                        i + 1,
                        AttrScan::Quoted { quote: c, start: i as usize },
                        out.push(c),
                    );
                } else {
                    lemma_attrs_from(s, i + 1, AttrScan::Unquoted { start: i as usize }, out.push(c));
                }
            },
            AttrScan::Quoted { quote, start } => {
                if c == '\\' && i + 1 < s.len() {
                    lemma_attrs_from(s, i + 2, mode, out.push(c).push(s[i + 1]));
                } else if c == quote {
                    lemma_attrs_from(s, i + 1, AttrScan::Between { skipping: false }, out.push(c));
                } else {
                    lemma_attrs_from(s, i + 1, mode, out.push(c));
                }
            },
            AttrScan::Unquoted { start } => {
                if is_ws(c) {
                    lemma_attrs_from(s, i + 1, AttrScan::Between { skipping: true }, out.push(c));
                } else {
                    lemma_attrs_from(s, i + 1, mode, out.push(c));
                }
            },
        }
    }
}

/// `r` is the executable form of the result `t` of [`tag_at`].
pub open spec fn tag_result_is(
    r: Result<(Vec<char>, usize), (ErrorKind, usize)>,
    t: Result<(Seq<char>, nat), (ErrorKind, int)>,
) -> bool {
    match (r, t) {
        (Ok((o, u)), Ok((to, tu))) => o@ == to && u as nat == tu,
        (Err((k, e)), Err((tk, te))) => k == tk && e as int == te,
        _ => false,
    }
}

/// `r` is the executable form of the result `t` of [`attrs_from`].
pub open spec fn attrs_result_is(
    r: Result<(Vec<char>, usize, bool), (ErrorKind, usize)>,
    t: Result<(Seq<char>, int, bool), (ErrorKind, int)>,
) -> bool {
    match (r, t) {
        (Ok((o, k, open)), Ok((to, tk, topen))) => o@ == to && k as int == tk && open == topen,
        (Err((e, at)), Err((te, tat))) => e == te && at as int == tat,
        _ => false,
    }
}

pub fn find_pattern(s: &[char], i: usize, p: &[char]) -> (r: Option<usize>)
    ensures
        match find_from(s@, i as int, p@) {
            Some(k) => r == Some(k as usize) && i <= k && k + p@.len() <= s@.len(),
            None => r is None,
        },
        r matches Some(k) ==> i <= k && k + p@.len() <= s@.len(),
{
    proof {
        lemma_find_from(s@, i as int, p@);
    }
    if p.len() > s.len() {
        return None;
    }
    let last = s.len() - p.len();
    let mut k = i;
    while k < s.len() && k <= last
        invariant
            last == s@.len() - p@.len(),
            i <= k,
            find_from(s@, k as int, p@) == find_from(s@, i as int, p@),
        decreases s@.len() - k,
    {
        if is_at(s, k, p) {
            return Some(k);
        }
        k = k + 1;
    }
    None
}

/// `a` holds exactly the characters of `b`.
pub fn eq_lit(a: &[char], b: &str) -> (r: bool)
    ensures
        r == (a@ == b@),
{
    let bc = chars_of(b);
    if a.len() != bc.len() {
        return false;
    }
    let r = is_at(a, 0, bc.as_slice());
    proof {
        assert(a@.subrange(0, a@.len() as int) == a@);
    }
    r
}

/// Whether `name` is one of the tags that hold inline text.
pub fn is_textual_tag(name: &[char]) -> (r: bool)
    ensures
        r == is_textual(name@),
{
    eq_lit(name, "a") || eq_lit(name, "abbr") || eq_lit(name, "acronym") || eq_lit(name, "aside")
        || eq_lit(name, "b") || eq_lit(name, "bdi") || eq_lit(name, "bdo") || eq_lit(name, "big")
        || eq_lit(name, "blockquote") || eq_lit(name, "button") || eq_lit(name, "caption")
        || eq_lit(name, "cite") || eq_lit(name, "code") || eq_lit(name, "dd") || eq_lit(name, "del")
        || eq_lit(name, "details") || eq_lit(name, "dfn") || eq_lit(name, "dt") || eq_lit(name, "em")
        || eq_lit(name, "figcaption") || eq_lit(name, "h1") || eq_lit(name, "h2")
        || eq_lit(name, "h3") || eq_lit(name, "h4") || eq_lit(name, "h5") || eq_lit(name, "h6")
        || eq_lit(name, "i") || eq_lit(name, "ins") || eq_lit(name, "kbd") || eq_lit(name, "label")
        || eq_lit(name, "legend") || eq_lit(name, "li") || eq_lit(name, "mark")
        || eq_lit(name, "marquee") || eq_lit(name, "meter") || eq_lit(name, "nobr")
        || eq_lit(name, "option") || eq_lit(name, "output") || eq_lit(name, "p")
        || eq_lit(name, "pre") || eq_lit(name, "progress") || eq_lit(name, "q")
        || eq_lit(name, "rb") || eq_lit(name, "rp") || eq_lit(name, "rt") || eq_lit(name, "s")
        || eq_lit(name, "sample") || eq_lit(name, "small") || eq_lit(name, "span")
        || eq_lit(name, "strong") || eq_lit(name, "sub") || eq_lit(name, "summary")
        || eq_lit(name, "sup") || eq_lit(name, "td") || eq_lit(name, "textarea")
        || eq_lit(name, "th") || eq_lit(name, "time") || eq_lit(name, "title") || eq_lit(name, "u")
        || eq_lit(name, "var")
}

fn self_close(s: &[char], i: usize) -> (r: bool)
    ensures
        r == is_self_close(s@, i as int),
{
    i < s.len() && s[i] == '/' && s.len() - i > 1 && s[i + 1] == '>'
}

fn self_close_last(s: &[char], q: usize) -> (r: usize)
    requires
        is_self_close(s@, q as int),
    ensures
        r == self_close_end(s@, q as int),
        q < r < s@.len(),
{
    if s.len() - q > 2 && s[q + 2] == '\n' {
        let e = skip_whitespace(s, q + 2);
        proof {
            lemma_skip_ws(s@, q + 2);
        }
        e - 1
    } else {
        q + 1
    }
}

fn find_name_end(s: &[char], i: usize) -> (r: usize)
    requires
        i <= s@.len(),
    ensures
        r == name_end(s@, i as int),
        i <= r <= s@.len(),
{
    let mut j = i;
    while j < s.len() && !is_whitespace(s[j]) && s[j] != '>' && !self_close(s, j)
        invariant
            i <= j <= s@.len(),
            name_end(s@, j as int) == name_end(s@, i as int),
        decreases s@.len() - j,
    {
        j = j + 1;
    }
    j
}

/// Scans the properties of an opening tag from position `i`, appending them to `out`.
fn scan_attrs(s: &[char], i: usize, head: Vec<char>) -> (r: Result<
    (Vec<char>, usize, bool),
    (ErrorKind, usize),
>)
    requires
        i <= s@.len(),
        s@.len() > 0,
    ensures
        attrs_result_is(r, attrs_from(s@, i as int, AttrScan::Between { skipping: true }, head@)),
        r matches Ok((o, k, open)) ==> (if open { i < k <= s@.len() } else { k < s@.len() })
            && i <= k + 1,
        r matches Err((e, at)) ==> at < s@.len(),
{
    let n = s.len();
    let mut out = head;
    let mut mode = AttrScan::Between { skipping: true };
    let mut j = i;
    let ghost out0 = out@;
    while j < n
        invariant
            n == s@.len(),
            n > 0,
            out0 == head@,
            i <= j <= n,
            attrs_from(s@, j as int, mode, out@) == attrs_from(
                s@,
                i as int,
                AttrScan::Between { skipping: true },
                out0,
            ),
            mode matches AttrScan::Quoted { quote, start } ==> start < n,
            mode matches AttrScan::Unquoted { start } ==> start < n,
        decreases n - j, attr_rank(mode),
    {
        let c = s[j];
        match mode {
            AttrScan::Between { skipping } => {
                if skipping && is_whitespace(c) {
                    j = j + 1;
                } else if self_close(s, j) {
                    push_str(&mut out, "/>");
                    let e = self_close_last(s, j);
                    return Ok((out, e, false));
                } else if c == '>' {
                    out.push(c);
                    return Ok((out, j + 1, true));
                } else if c == '\n' {
                    mode = AttrScan::Between { skipping: false };
                    j = j + 1;
                } else if is_whitespace(c) {
                    out.push(' ');
                    mode = AttrScan::Between { skipping: true };
                    j = j + 1;
                } else {
                    out.push(c);
                    mode = AttrScan::Name;
                    j = j + 1;
                }
            },
            AttrScan::Name => {
                if c == '=' {
                    out.push(c);
                    mode = AttrScan::ValueStart;
                    j = j + 1;
                } else if self_close(s, j) {
                    push_str(&mut out, "/>");
                    let e = self_close_last(s, j);
                    return Ok((out, e, false));
                } else if c == '>' {
                    out.push(c);
                    return Ok((out, j + 1, true));
                } else if is_whitespace(c) {
                    mode = AttrScan::NameSpace;
                    j = j + 1;
                } else {
                    out.push(c);
                    j = j + 1;
                }
            },
            AttrScan::NameSpace => {
                if is_whitespace(c) {
                    j = j + 1;
                } else if c == '=' {
                    out.push(c);
                    mode = AttrScan::ValueStart;
                    j = j + 1;
                } else {
                    out.push(' ');
                    mode = AttrScan::Between { skipping: true };
                }
            },
            AttrScan::ValueStart => {
                if is_whitespace(c) {
                    j = j + 1;
                } else if c == '\'' || c == '"' {
                    out.push(c);
                    mode = AttrScan::Quoted { quote: c, start: j };
                    j = j + 1;
                } else {
                    out.push(c);
                    mode = AttrScan::Unquoted { start: j };
                    j = j + 1;
                }
            },
            AttrScan::Quoted { quote, start } => {
                out.push(c);
                if c == '\\' && j + 1 < n {
                    out.push(s[j + 1]);
                    j = j + 2;
                } else if c == quote {
                    mode = AttrScan::Between { skipping: false };
                    j = j + 1;
                } else {
                    j = j + 1;
                }
            },
            AttrScan::Unquoted { start } => {
                if self_close(s, j) {
                    push_str(&mut out, "/>");
                    let e = self_close_last(s, j);
                    return Ok((out, e, false));
                } else if c == '>' {
                    out.push(c);
                    return Ok((out, j + 1, true));
                } else if is_whitespace(c) {
                    out.push(c);
                    mode = AttrScan::Between { skipping: true };
                    j = j + 1;
                } else {
                    out.push(c);
                    j = j + 1;
                }
            },
        }
    }
    match mode {
        AttrScan::Quoted { quote, start } => Err((ErrorKind::UnclosedQuote, start)),
        AttrScan::Unquoted { start } => Err((ErrorKind::UnclosedQuote, start)),
        _ => Ok((out, n - 1, false)),
    }
}

fn newline_before(s: &[char], i: usize) -> (r: bool)
    requires
        i <= s@.len(),
    ensures
        r == newline_in_space_before(s@, i as int),
{
    let mut j = i;
    while j > 0 && is_whitespace(s[j - 1]) && s[j - 1] != '\n'
        invariant
            j <= i <= s@.len(),
            newline_in_space_before(s@, j as int) == newline_in_space_before(s@, i as int),
        decreases j,
    {
        j = j - 1;
    }
    j > 0 && s[j - 1] == '\n'
}

/// Appends the characters of `s[a..b]` that are not whitespace.
fn push_stripped(out: &mut Vec<char>, s: &[char], a: usize, b: usize)
    requires
        a <= b <= s@.len(),
    ensures
        final(out)@ == old(out)@ + strip_ws(s@.subrange(a as int, b as int)),
{
    let mut k = a;
    while k < b
        invariant
            a <= k <= b <= s@.len(),
            out@ == old(out)@ + strip_ws(s@.subrange(a as int, k as int)),
        decreases b - k,
    {
        proof {
            assert(s@.subrange(a as int, k + 1).drop_last() == s@.subrange(a as int, k as int));
        }
        if !is_whitespace(s[k]) {
            out.push(s[k]);
        }
        k = k + 1;
    }
}

fn ends_with_chars(out: &[char], name: &[char]) -> (r: bool)
    ensures
        r == ends_with(out@, name@),
{
    if name.len() > out.len() {
        false
    } else {
        is_at(out, out.len() - name.len(), name)
    }
}

/// `r` is the executable form of the result `t` of [`content_from`].
pub open spec fn content_result_is(
    r: Result<(Vec<char>, usize), (ErrorKind, usize)>,
    t: Result<(Seq<char>, int), (ErrorKind, int)>,
) -> bool {
    match (r, t) {
        (Ok((o, e)), Ok((to, te))) => o@ == to && e as int == te,
        (Err((k, e)), Err((tk, te))) => k == tk && e as int == te,
        _ => false,
    }
}

/// Minifies the tag that starts at position `p` (a `<`) and, for an element with content,
/// everything up to its closing tag. Gives the output and how many positions after `p`
/// it took, or the error and the position it points at.
fn handle_tag(s: &[char], p: usize) -> (r: Result<(Vec<char>, usize), (ErrorKind, usize)>)
    requires
        p < s@.len(),
    ensures
        tag_result_is(r, tag_at(s@, p as int)),
        r matches Ok((o, u)) ==> p + u < s@.len(),
        r matches Err((k, e)) ==> e < s@.len(),
    decreases s@.len() - p, 2nat,
{
    proof {
        reveal_strlit("<!--");
        reveal_strlit("-->");
        reveal_strlit("<![CDATA[");
        reveal_strlit("]]>");
    }
    let n = s.len();
    if p + 1 >= n || is_whitespace(s[p + 1]) {
        let mut lt: Vec<char> = Vec::new();
        lt.push('<');
        proof {
            assert(lt@ == seq!['<']);
        }
        return Ok((lt, 0));
    }
    let comment = chars_of("<!--");
    if is_at(s, p, comment.as_slice()) {
        let end = chars_of("-->");
        let f = find_pattern(s, p + 2, end.as_slice());
        if let Some(k) = f {
            let empty: Vec<char> = Vec::new();
            return Ok((empty, k + 2 - p));
        } else {
            return Err((ErrorKind::UnclosedComment, p));
        }
    }
    let cdata = chars_of("<![CDATA[");
    if is_at(s, p, cdata.as_slice()) {
        let end = chars_of("]]>");
        let f = find_pattern(s, p + 9, end.as_slice());
        if let Some(k) = f {
            let v = vstd::slice::slice_to_vec(vstd::slice::slice_subrange(s, p, k + 3));
            return Ok((v, k + 2 - p));
        } else {
            return Err((ErrorKind::UnclosedCdata, p));
        }
    }
    let q = find_name_end(s, p + 1);
    let name = vstd::slice::slice_subrange(s, p + 1, q);
    let mut head: Vec<char> = Vec::new();
    head.push('<');
    push_all(&mut head, name);
    proof {
        assert(seq!['<'] == Seq::<char>::empty().push('<'));
    }
    if q >= n {
        return Ok((head, n - 1 - p));
    }
    if self_close(s, q) {
        push_str(&mut head, "/>");
        let e = self_close_last(s, q);
        return Ok((head, e - p));
    }
    let a = if s[q] == '>' {
        head.push('>');
        Ok((head, q + 1, true))
    } else {
        head.push(' ');
        scan_attrs(s, q + 1, head)
    };
    proof {
        lemma_name_end(s@, p + 1);
    }
    match a {
        Err(e) => Err(e),
        Ok((out, k, open)) => {
            if !open {
                Ok((out, k - p))
            } else {
                element(s, p, name, out, k)
            }
        },
    }
}

/// What follows the opening tag of the element `name` that starts at `p`; `k` is the
/// position after the `>` of that tag, which `out` ends with.
fn element(s: &[char], p: usize, name: &[char], acc: Vec<char>, k: usize) -> (r: Result<
    (Vec<char>, usize),
    (ErrorKind, usize),
>)
    requires
        p < k <= s@.len(),
    ensures
        tag_result_is(r, element_body(s@, p as int, name@, acc@, k as int)),
        r matches Ok((o, u)) ==> p + u < s@.len(),
        r matches Err((e, at)) ==> at < s@.len(),
    decreases s@.len() - k, 4nat,
{
    proof {
        reveal_strlit("</script>");
        reveal_strlit("</style>");
    }
    let n = s.len();
    let k2 = if k < n && s[k] == '\n' {
        skip_whitespace(s, k)
    } else {
        k
    };
    let is_script = eq_lit(name, "script");
    let is_style = eq_lit(name, "style");
    if is_script || is_style {
        if k2 >= n {
            return Ok((acc, n - 1 - p));
        }
        let closer = if is_script {
            chars_of("</script>")
        } else {
            chars_of("</style>")
        };
        let f = find_pattern(s, k2, closer.as_slice());
        if let Some(c) = f {
            let mut out = acc;
            let body = vstd::slice::slice_subrange(s, k2, c + closer.len());
            if is_style {
                let m = minify_css_chars(body);
                push_all(&mut out, m.as_slice());
            } else {
                push_all(&mut out, body);
            }
            return Ok((out, c + closer.len() - 1 - p));
        } else {
            return Err((ErrorKind::UnclosedRawText, k2));
        }
    }
    match content(s, name, k2, acc) {
        Err(e) => Err(e),
        Ok((o, end)) => Ok((o, end - p)),
    }
}

/// The content of the element `name` from position `i0` on, up to and including its
/// closing tag, appended to `out`: the output and the last position taken.
fn content(s: &[char], name: &[char], i0: usize, acc: Vec<char>) -> (r: Result<
    (Vec<char>, usize),
    (ErrorKind, usize),
>)
    requires
        0 < i0 <= s@.len(),
    ensures
        content_result_is(r, content_from(s@, i0 as int, name@, false, acc@)),
        r matches Ok((o, end)) ==> i0 <= end + 1 && end < s@.len(),
        r matches Err((e, at)) ==> at < s@.len(),
    decreases s@.len() - i0, 3nat,
{
    let n = s.len();
    let pre = eq_lit(name, "pre");
    let textual = is_textual_tag(name);
    let mut gt: Vec<char> = Vec::new();
    gt.push('>');
    proof {
        assert(gt@ == seq!['>']);
    }
    let mut out = acc;
    let mut i = i0;
    let mut skipping = false;
    let ghost out0 = out@;
    while i < n
        invariant
            n == s@.len(),
            0 < i0 <= i <= n,
            out0 == acc@,
            pre == (name@ == "pre"@),
            textual == is_textual(name@),
            gt@ == seq!['>'],
            content_from(s@, i as int, name@, skipping, out@) == content_from(
                s@,
                i0 as int,
                name@,
                false,
                out0,
            ),
        decreases n - i,
    {
        let c = s[i];
        if c == '<' {
            if i + 1 >= n {
                return Ok((out, n - 1));
            }
            if s[i + 1] == '/' {
                if !pre && newline_before(s, i) {
                    trim_end_in_place(&mut out);
                }
                let f = find_pattern(s, i + 2, gt.as_slice());
                if let Some(m) = f {
                    push_str(&mut out, "</");
                    push_stripped(&mut out, s, i + 2, m);
                    let end = if !pre && m + 1 < n && s[m + 1] == '\n' {
                        let e = skip_whitespace(s, m + 1);
                        e - 1
                    } else {
                        m
                    };
                    let closes = ends_with_chars(out.as_slice(), name);
                    out.push('>');
                    if closes {
                        return Ok((out, end));
                    }
                    i = end + 1;
                    skipping = false;
                } else {
                    return Err((ErrorKind::UnclosedClosingTag, i + 1));
                }
            } else if !is_whitespace(s[i + 1]) {
                match handle_tag(s, i) {
                    Err(e) => {
                        return Err(e);
                    },
                    Ok((t, used)) => {
                        push_all(&mut out, t.as_slice());
                        i = i + used + 1;
                        skipping = false;
                    },
                }
            } else {
                out.push('<');
                i = i + 1;
                skipping = false;
            }
        } else if pre {
            out.push(c);
            i = i + 1;
            skipping = false;
        } else if skipping && is_whitespace(c) {
            i = i + 1;
        } else if c == '\n' {
            i = i + 1;
            skipping = false;
        } else if is_whitespace(c) {
            if textual {
                out.push(' ');
            }
            i = i + 1;
            skipping = true;
        } else {
            out.push(c);
            i = i + 1;
            skipping = false;
        }
    }
    Ok((out, n - 1))
}

/// The 1-based line of `text` that position `at` falls on (the last line past its end),
/// as far as `usize` reaches.
pub open spec fn line_of(text: Seq<char>, at: int) -> nat {
    let l = crate::newlines_before(text, if at > text.len() { text.len() as int } else { at })
        + 1;
    if l > usize::MAX { usize::MAX as nat } else { l }
}

/// The error of kind `kind` in the document `path`, on the line of `original` that
/// position `at` falls on.
pub fn error_at(kind: ErrorKind, path: &str, original: &[char], at: usize) -> (e: BuildError)
    ensures
        e.kind == kind,
        e.path@ == path@,
        e.line == line_of(original@, at as int),
{
    let o = if at > original.len() {
        original.len()
    } else {
        at
    };
    let n = crate::line_number_of_offset(original, o);
    let line = if n < usize::MAX {
        n + 1
    } else {
        n
    };
    BuildError { kind, path: path.to_owned(), line }
}

/// Minifies an HTML document given as characters.
pub fn minify_html_chars(s: &[char]) -> (r: Result<Vec<char>, (ErrorKind, usize)>)
    ensures
        match html_minified(s@) {
            Ok(o) => r is Ok && r->Ok_0@ == o,
            Err((k, at)) => r is Err && r->Err_0.0 == k && r->Err_0.1 as int == at,
        },
{
    let n = s.len();
    let mut out: Vec<char> = Vec::new();
    let mut i: usize = 0;
    while i < n
        invariant
            n == s@.len(),
            i <= n,
            html_from(s@, i as int, out@) == html_minified(s@),
        decreases n - i,
    {
        if s[i] == '<' {
            match handle_tag(s, i) {
                Err(e) => {
                    return Err(e);
                },
                Ok((t, used)) => {
                    push_all(&mut out, t.as_slice());
                    i = i + used + 1;
                },
            }
        } else {
            out.push(s[i]);
            i = i + 1;
        }
    }
    Ok(out)
}

/// Minifies an HTML document. Comments go; whitespace between tags and inside content
/// tags goes; inside inline text tags a whitespace run becomes one space; `pre` keeps
/// its whitespace; `<style>` bodies are minified as CSS. An error names `source_path`
/// and the line of `original` that the offending construct starts on.
pub fn minify_html(source_path: &str, source: &str, original: &str) -> (r: Result<
    String,
    BuildError,
>)
    ensures
        match html_minified(source@) {
            Ok(o) => r is Ok && r->Ok_0@ == o,
            Err((k, at)) => r is Err && r->Err_0.kind == k && r->Err_0.path@ == source_path@
                && r->Err_0.line == line_of(original@, at),
        },
{
    let s = chars_of(source);
    match minify_html_chars(s.as_slice()) {
        Ok(o) => Ok(string_of(o.as_slice())),
        Err((k, at)) => {
            let orig = chars_of(original);
            Err(error_at(k, source_path, orig.as_slice(), at))
        },
    }
}

} // verus!
