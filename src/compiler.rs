use vstd::prelude::*;
use crate::css::{css_minified, minify_css_chars};
use crate::error::{BuildError, ErrorKind};
use crate::external::{base64_of, base64_encode};
use crate::html::{lemma_find_from, find_from, find_pattern, eq_lit, html_minified, minify_html_chars, line_of, error_at};
use crate::text::{chars_of, string_of, push_all, push_str};
use vstd::slice::slice_subrange;

verus! {

broadcast use vstd::string::group_string_axioms;

/// What was read for an included file.
pub enum IncludeData {
    /// The file as text, for `INCLUDE`.
    Text(String),
    /// The file's bytes, for `INCLUDE_BASE64`.
    Bytes(Vec<u8>),
    /// The file could not be read.
    Unreadable,
}

/// A file that a document includes: the including document's path, the macro argument
/// that names the file, whether it is included as bytes, the file's own path and what
/// was read.
pub struct Include {
    pub from: String,
    pub arg: String,
    pub binary: bool,
    pub path: String,
    pub data: IncludeData,
}

/// The result of expanding the macros of a document: the text, or the file that has to
/// be read first.
pub enum Expansion {
    Done(String),
    NeedsFile { from: String, arg: String, binary: bool },
}

/// The mathematical form of an [`Expansion`].
pub enum Expanded {
    Text(Seq<char>),
    Need(Seq<char>, Seq<char>, bool),
}

/// The first of `files` from position `j` on that `from` includes by `arg` as text or as bytes.
pub open spec fn lookup(files: Seq<Include>, from: Seq<char>, arg: Seq<char>, binary: bool, j: int) -> Option<
    int,
>
    decreases files.len() - j,
{
    if j < 0 || j >= files.len() {
        None
    } else if files[j].from@ == from && files[j].arg@ == arg && files[j].binary == binary {
        Some(j)
    } else {
        lookup(files, from, arg, binary, j + 1)
    }
}

/// The position of the `)` that closes the parenthesis open at depth `depth` before `j`,
/// searching no further than `end`.
pub open spec fn close_paren(s: Seq<char>, j: int, end: int, depth: nat) -> Option<int>
    decreases end - j,
{
    if j < 0 || j >= end || end > s.len() {
        None
    } else if s[j] == '(' {
        close_paren(s, j + 1, end, depth + 1)
    } else if s[j] == ')' {
        if depth <= 1 {
            Some(j)
        } else {
            close_paren(s, j + 1, end, (depth - 1) as nat)
        }
    } else {
        close_paren(s, j + 1, end, depth)
    }
}

pub proof fn lemma_close_paren(s: Seq<char>, j: int, end: int, depth: nat)
    ensures
        close_paren(s, j, end, depth) matches Some(m) ==> j <= m < end,
    decreases end - j,
{
    if !(j < 0 || j >= end || end > s.len()) {
        if s[j] == '(' {
            lemma_close_paren(s, j + 1, end, depth + 1);
        } else if s[j] == ')' {
            if depth > 1 {
                lemma_close_paren(s, j + 1, end, (depth - 1) as nat);
            }
        } else {
            lemma_close_paren(s, j + 1, end, depth);
        }
    }
}

/// The input of a base64 encoding whose output length fits in `usize`.
pub open spec fn encodable(b: Seq<u8>) -> bool {
    (b.len() + 2) / 3 * 4 <= usize::MAX
}

/// The expansion of the macros in `s[i..end]` of the document `path`, appended to `out`;
/// `depth` is how many includes deep the document is. An error gives its kind, the
/// document and the line.
pub open spec fn expand_range(
    files: Seq<Include>,
    s: Seq<char>,
    path: Seq<char>,
    i: int,
    end: int,
    depth: nat,
    out: Seq<char>,
) -> Result<Expanded, (ErrorKind, Seq<char>, nat)>
    decreases files.len() - depth, end - i, 1int,
{
    if !(0 <= i <= end <= s.len()) || depth > files.len() {
        Ok(Expanded::Text(out))
    } else {
        proof {
            reveal_strlit("#!");
            reveal_strlit("(");
            lemma_find_from(s.subrange(0, end), i, "#!"@);
        }
        match find_from(s.subrange(0, end), i, "#!"@) {
            None => Ok(Expanded::Text(out + s.subrange(i, end))),
            Some(k) => {
                if k > i && s[k - 1] == '\\' {
                    expand_range(files, s, path, k + 2, end, depth, out + s.subrange(i, k - 1) + "#!"@)
                } else {
                    let here = out + s.subrange(i, k);
                    proof {
                        lemma_find_from(s.subrange(0, end), k + 2, "("@);
                        let po = find_from(s.subrange(0, end), k + 2, "("@);
                        if po is Some {
                            lemma_close_paren(s, po->Some_0 + 1, end, 1);
                        }
                    }
                    match find_from(s.subrange(0, end), k + 2, "("@) {
                        None => Err((ErrorKind::MissingOpenParen, path, line_of(s, k))),
                        Some(po) => match close_paren(s, po + 1, end, 1) {
                            None => Err((ErrorKind::MissingCloseParen, path, line_of(s, k))),
                            Some(pc) => {
                                let name = s.subrange(k + 2, po);
                                match expand_range(files, s, path, po + 1, pc, depth, Seq::empty()) {
                                    Err(e) => Err(e),
                                    Ok(Expanded::Need(f, a, b)) => Ok(Expanded::Need(f, a, b)),
                                    Ok(Expanded::Text(args)) => {
                                        match macro_value(files, s, path, k, name, args, depth) {
                                            Err(e) => Err(e),
                                            Ok(Expanded::Need(f, a, b)) => Ok(Expanded::Need(f, a, b)),
                                            Ok(Expanded::Text(x)) => expand_range(
                                                files,
                                                s,
                                                path,
                                                pc + 1,
                                                end,
                                                depth,
                                                here + x,
                                            ),
                                        }
                                    },
                                }
                            },
                        },
                    }
                }
            },
        }
    }
}

/// What the macro `name` with the expanded arguments `args`, invoked at position `k` of
/// the document `path`, puts in its place.
pub open spec fn macro_value(
    files: Seq<Include>,
    s: Seq<char>,
    path: Seq<char>,
    k: int,
    name: Seq<char>,
    args: Seq<char>,
    depth: nat,
) -> Result<Expanded, (ErrorKind, Seq<char>, nat)>
    decreases files.len() - depth, 0int, 0int,
{
    let line = line_of(s, k);
    if name == "INCLUDE"@ {
        match lookup(files, path, args, false, 0) {
            None => Ok(Expanded::Need(path, args, false)),
            Some(j) => {
                if depth >= files.len() {
                    Err((ErrorKind::IncludeCycle, path, line))
                } else {
                    match files[j].data {
                        IncludeData::Text(t) => expand_range(
                            files,
                            t@,
                            files[j].path@,
                            0,
                            t@.len() as int,
                            depth + 1,
                            Seq::empty(),
                        ),
                        _ => Err((ErrorKind::IncludeFailed, path, line)),
                    }
                }
            },
        }
    } else if name == "INCLUDE_BASE64"@ {
        match lookup(files, path, args, true, 0) {
            None => Ok(Expanded::Need(path, args, true)),
            Some(j) => match files[j].data {
                IncludeData::Bytes(b) => if encodable(b@) {
                    Ok(Expanded::Text(base64_of(b@)))
                } else {
                    Err((ErrorKind::TooLarge, path, line))
                },
                _ => Err((ErrorKind::IncludeFailed, path, line)),
            },
        }
    } else if name == "BASE64"@ {
        let b = vstd::utf8::encode_utf8(args);
        if encodable(b) {
            Ok(Expanded::Text(base64_of(b)))
        } else {
            Err((ErrorKind::TooLarge, path, line))
        }
    } else if name == "MINIFY"@ {
        match find_from(args, 0, ","@) {
            None => Err((ErrorKind::MissingMinifyCode, path, line)),
            Some(c) => {
                let ty = args.subrange(0, c);
                let code = args.subrange(c + 1, args.len() as int);
                if ty == "html"@ {
                    match html_minified(code) {
                        Ok(h) => Ok(Expanded::Text(h)),
                        Err((kind, at)) => Err((kind, path, line)),
                    }
                } else if ty == "css"@ {
                    Ok(Expanded::Text(css_minified(code)))
                } else {
                    Err((ErrorKind::UnknownMinifyType, path, line))
                }
            },
        }
    } else {
        Err((ErrorKind::UnknownMacro, path, line))
    }
}

/// `r` is the executable form of the result `t` of [`expand_range`].
pub open spec fn expansion_is(
    r: Result<Expansion, BuildError>,
    t: Result<Expanded, (ErrorKind, Seq<char>, nat)>,
) -> bool {
    match (r, t) {
        (Ok(Expansion::Done(x)), Ok(Expanded::Text(y))) => x@ == y,
        (Ok(Expansion::NeedsFile { from, arg, binary }), Ok(Expanded::Need(f, a, b))) => from@
            == f && arg@ == a && binary == b,
        (Err(e), Err((k, p, l))) => e.kind == k && e.path@ == p && e.line as nat == l,
        _ => false,
    }
}

pub proof fn lemma_lookup(files: Seq<Include>, from: Seq<char>, arg: Seq<char>, binary: bool, j: int)
    requires
        0 <= j,
    ensures
        lookup(files, from, arg, binary, j) matches Some(x) ==> j <= x < files.len(),
    decreases files.len() - j,
{
    if j < files.len() && !(files[j].from@ == from && files[j].arg@ == arg && files[j].binary
        == binary) {
        lemma_lookup(files, from, arg, binary, j + 1);
    }
}

fn find_include(files: &[Include], from: &String, arg: &String, binary: bool) -> (r: Option<usize>)
    ensures
        match lookup(files@, from@, arg@, binary, 0) {
            Some(j) => r == Some(j as usize) && 0 <= j < files@.len(),
            None => r is None,
        },
{
    proof {
        lemma_lookup(files@, from@, arg@, binary, 0);
    }
    let mut j: usize = 0;
    while j < files.len()
        invariant
            j <= files@.len(),
            lookup(files@, from@, arg@, binary, j as int) == lookup(files@, from@, arg@, binary, 0),
        decreases files@.len() - j,
    {
        if files[j].from == *from && files[j].arg == *arg && files[j].binary == binary {
            return Some(j);
        }
        j = j + 1;
    }
    None
}

fn find_close(s: &[char], j: usize, end: usize) -> (r: Option<usize>)
    requires
        0 < j <= end <= s@.len(),
    ensures
        match close_paren(s@, j as int, end as int, 1) {
            Some(m) => r == Some(m as usize) && j <= m < end,
            None => r is None,
        },
{
    proof {
        lemma_close_paren(s@, j as int, end as int, 1);
    }
    let mut depth: usize = 1;
    let mut m = j;
    while m < end
        invariant
            0 < j <= m <= end <= s@.len(),
            1 <= depth <= m - j + 1,
            close_paren(s@, m as int, end as int, depth as nat) == close_paren(
                s@,
                j as int,
                end as int,
                1,
            ),
        decreases end - m,
    {
        if s[m] == '(' {
            depth = depth + 1;
        } else if s[m] == ')' {
            if depth <= 1 {
                return Some(m);
            }
            depth = depth - 1;
        }
        m = m + 1;
    }
    None
}

/// Whether the base64 encoding of `b` has a length that fits in `usize`.
fn can_encode(b: &[u8]) -> (r: bool)
    ensures
        r == encodable(b@),
{
    let n = b.len();
    let chunks = n / 3 + if n % 3 == 0 {
        0
    } else {
        1
    };
    proof {
        assert((n + 2) / 3 == chunks) by (nonlinear_arith)
            requires
                chunks == n / 3 + if n % 3 == 0 { 0int } else { 1int },
        ;
        assert((chunks * 4 <= usize::MAX) == (chunks <= usize::MAX / 4)) by (nonlinear_arith);
    }
    chunks <= usize::MAX / 4
}

/// The expansion of the macros in the document `text` at `path`, given the included
/// files read so far.
pub open spec fn expanded(files: Seq<Include>, text: Seq<char>, path: Seq<char>) -> Result<
    Expanded,
    (ErrorKind, Seq<char>, nat),
> {
    expand_range(files, text, path, 0, text.len() as int, 0, Seq::empty())
}

fn macro_value_exec(
    files: &[Include],
    s: &[char],
    path: &String,
    k: usize,
    name: &[char],
    args: &[char],
    depth: usize,
) -> (r: Result<Expansion, BuildError>)
    requires
        depth <= files@.len(),
    ensures
        expansion_is(r, macro_value(files@, s@, path@, k as int, name@, args@, depth as nat)),
    decreases files@.len() - depth, 0int, 0int,
{
    proof {
        reveal_strlit(",");
    }
    if eq_lit(name, "INCLUDE") {
        let a = string_of(args);
        match find_include(files, path, &a, false) {
            None => Ok(Expansion::NeedsFile { from: path.clone(), arg: a, binary: false }),
            Some(j) => {
                if depth >= files.len() {
                    Err(error_at(ErrorKind::IncludeCycle, path.as_str(), s, k))
                } else {
                    match &files[j].data {
                        IncludeData::Text(t) => {
                            let tc = chars_of(t.as_str());
                            expand_range_exec(
                                files,
                                tc.as_slice(),
                                &files[j].path,
                                0,
                                tc.len(),
                                depth + 1,
                                Vec::new(),
                            )
                        },
                        _ => Err(error_at(ErrorKind::IncludeFailed, path.as_str(), s, k)),
                    }
                }
            },
        }
    } else if eq_lit(name, "INCLUDE_BASE64") {
        let a = string_of(args);
        match find_include(files, path, &a, true) {
            None => Ok(Expansion::NeedsFile { from: path.clone(), arg: a, binary: true }),
            Some(j) => match &files[j].data {
                IncludeData::Bytes(b) => {
                    if can_encode(b.as_slice()) {
                        Ok(Expansion::Done(base64_encode(b.as_slice())))
                    } else {
                        Err(error_at(ErrorKind::TooLarge, path.as_str(), s, k))
                    }
                },
                _ => Err(error_at(ErrorKind::IncludeFailed, path.as_str(), s, k)),
            },
        }
    } else if eq_lit(name, "BASE64") {
        let a = string_of(args);
        let bytes = a.as_str().as_bytes();
        if can_encode(bytes) {
            Ok(Expansion::Done(base64_encode(bytes)))
        } else {
            Err(error_at(ErrorKind::TooLarge, path.as_str(), s, k))
        }
    } else if eq_lit(name, "MINIFY") {
        let comma = chars_of(",");
        proof {
            reveal_strlit(",");
            assert(comma@.len() == 1);
        }
        let f = find_pattern(args, 0, comma.as_slice());
        match f {
            None => Err(error_at(ErrorKind::MissingMinifyCode, path.as_str(), s, k)),
            Some(c) => {
                assert(c + 1 <= args@.len() == args.len());
                let ty = slice_subrange(args, 0, c);
                let code = slice_subrange(args, c + 1, args.len());
                if eq_lit(ty, "html") {
                    match minify_html_chars(code) {
                        Ok(h) => Ok(Expansion::Done(string_of(h.as_slice()))),
                        Err((kind, at)) => Err(error_at(kind, path.as_str(), s, k)),
                    }
                } else if eq_lit(ty, "css") {
                    let m = minify_css_chars(code);
                    Ok(Expansion::Done(string_of(m.as_slice())))
                } else {
                    Err(error_at(ErrorKind::UnknownMinifyType, path.as_str(), s, k))
                }
            },
        }
    } else {
        Err(error_at(ErrorKind::UnknownMacro, path.as_str(), s, k))
    }
}

fn expand_range_exec(
    files: &[Include],
    s: &[char],
    path: &String,
    i: usize,
    end: usize,
    depth: usize,
    acc: Vec<char>,
) -> (r: Result<Expansion, BuildError>)
    requires
        i <= end <= s@.len(),
        depth <= files@.len(),
    ensures
        expansion_is(r, expand_range(files@, s@, path@, i as int, end as int, depth as nat, acc@)),
    decreases files@.len() - depth, end - i, 1int,
{
    proof {
        reveal_strlit("#!");
        reveal_strlit("(");
    }
    let sub = slice_subrange(s, 0, end);
    let marker = chars_of("#!");
    let open = chars_of("(");
    let mut out = acc;
    let ghost out0 = acc@;
    let mut j = i;
    while j < end
        invariant
            i <= j <= end <= s@.len(),
            depth <= files@.len(),
            sub@ == s@.subrange(0, end as int),
            marker@ == "#!"@,
            marker@.len() == 2,
            open@ == "("@,
            open@.len() == 1,
            out0 == acc@,
            expand_range(files@, s@, path@, j as int, end as int, depth as nat, out@)
                == expand_range(files@, s@, path@, i as int, end as int, depth as nat, out0),
        decreases end - j,
    {
        match find_pattern(sub, j, marker.as_slice()) {
            None => {
                push_all(&mut out, slice_subrange(s, j, end));
                return Ok(Expansion::Done(string_of(out.as_slice())));
            },
            Some(k) => {
                if k > j && s[k - 1] == '\\' {
                    push_all(&mut out, slice_subrange(s, j, k - 1));
                    push_str(&mut out, "#!");
                    j = k + 2;
                } else {
                    push_all(&mut out, slice_subrange(s, j, k));
                    let po = match find_pattern(sub, k + 2, open.as_slice()) {
                        None => {
                            return Err(error_at(ErrorKind::MissingOpenParen, path.as_str(), s, k));
                        },
                        Some(po) => po,
                    };
                    let pc = match find_close(s, po + 1, end) {
                        None => {
                            return Err(error_at(ErrorKind::MissingCloseParen, path.as_str(), s, k));
                        },
                        Some(pc) => pc,
                    };
                    let name = slice_subrange(s, k + 2, po);
                    let args = match expand_range_exec(files, s, path, po + 1, pc, depth, Vec::new()) {
                        Err(e) => {
                            return Err(e);
                        },
                        Ok(Expansion::NeedsFile { from, arg, binary }) => {
                            return Ok(Expansion::NeedsFile { from, arg, binary });
                        },
                        Ok(Expansion::Done(a)) => chars_of(a.as_str()),
                    };
                    match macro_value_exec(files, s, path, k, name, args.as_slice(), depth) {
                        Err(e) => {
                            return Err(e);
                        },
                        Ok(Expansion::NeedsFile { from, arg, binary }) => {
                            return Ok(Expansion::NeedsFile { from, arg, binary });
                        },
                        Ok(Expansion::Done(x)) => {
                            let xc = chars_of(x.as_str());
                            push_all(&mut out, xc.as_slice());
                        },
                    }
                    j = pc + 1;
                }
            },
        }
    }
    proof {
        assert(s@.subrange(j as int, end as int) == Seq::<char>::empty());
        assert(out@ + Seq::<char>::empty() == out@);
    }
    Ok(Expansion::Done(string_of(out.as_slice())))
}

/// Expands the macros of the document `original` at `source_path`: `#!NAME(ARGS)` is
/// replaced by what the macro makes of its expanded arguments, and `\#!` by `#!`. Where
/// an `INCLUDE` or `INCLUDE_BASE64` names a file that is not among `files`, the result
/// asks for that file; the caller reads it, adds it and calls again.
pub fn compile_macros(original: &str, source_path: &str, files: &[Include]) -> (r: Result<
    Expansion,
    BuildError,
>)
    ensures
        expansion_is(r, expanded(files@, original@, source_path@)),
{
    let s = chars_of(original);
    let path = source_path.to_owned();
    expand_range_exec(files, s.as_slice(), &path, 0, s.len(), 0, Vec::new())
}

} // verus!
