use vstd::prelude::*;
use vstd::slice::slice_subrange;
use crate::error::{BuildError, ErrorKind};
use crate::text::{
    skip_ws, word_end, occurs_at, chars_of, string_of, push_all, push_str, is_at,
    skip_whitespace, find_word_end,
};

verus! {

broadcast use vstd::string::group_string_axioms;

/// The block the Gemtext translator is in.
#[derive(Clone, Copy, PartialEq, Eq, Structural)]
pub enum GmiState {
    Text,
    List,
    Preformatted,
}

/// The HTML escape of one character: `<`, `>`, `"` and `&` become entities.
pub open spec fn escaped_char(c: char) -> Seq<char> {
    if c == '<' {
        "&lt;"@
    } else if c == '>' {
        "&gt;"@
    } else if c == '"' {
        "&quot;"@
    } else if c == '&' {
        "&amp;"@
    } else {
        seq![c]
    }
}

/// The HTML escape of a text.
pub open spec fn escaped(s: Seq<char>) -> Seq<char>
    decreases s.len(),
{
    if s.len() == 0 {
        Seq::empty()
    } else {
        escaped(s.drop_last()) + escaped_char(s.last())
    }
}

pub open spec fn digit(d: nat) -> char {
    if d == 0 { '0' } else if d == 1 { '1' } else if d == 2 { '2' } else if d == 3 { '3' }
    else if d == 4 { '4' } else if d == 5 { '5' } else if d == 6 { '6' } else if d == 7 { '7' }
    else if d == 8 { '8' } else { '9' }
}

/// `n` written in decimal.
pub open spec fn decimal(n: nat) -> Seq<char>
    decreases n,
{
    if n < 10 {
        seq![digit(n)]
    } else {
        decimal(n / 10).push(digit(n % 10))
    }
}

/// The position of the first line feed at or after `i` (or the end).
pub open spec fn line_break(s: Seq<char>, i: int) -> int
    decreases s.len() - i,
{
    if i < s.len() && s[i] != '\n' {
        line_break(s, i + 1)
    } else {
        i
    }
}

/// The line that starts at `i`, without its line ending (`\n` or `\r\n`).
pub open spec fn line_at(s: Seq<char>, i: int) -> Seq<char> {
    let j = line_break(s, i);
    if j < s.len() && j > i && s[j - 1] == '\r' {
        s.subrange(i, j - 1)
    } else {
        s.subrange(i, j)
    }
}

/// The number of `#` that `s` starts with.
pub open spec fn hashes(s: Seq<char>, i: int) -> int
    decreases s.len() - i,
{
    if 0 <= i < s.len() && s[i] == '#' {
        hashes(s, i + 1)
    } else {
        i
    }
}

/// The link line `=> URL [LABEL]` as HTML, given what follows `=>`; `None` without a URL.
pub open spec fn link_html(rest: Seq<char>) -> Option<Seq<char>> {
    let a = skip_ws(rest, 0);
    let b = word_end(rest, a);
    let c = skip_ws(rest, b);
    let d = word_end(rest, c);
    if a >= rest.len() {
        None
    } else {
        let url = rest.subrange(a, b);
        let label = if c >= rest.len() { url } else { rest.subrange(c, d) };
        Some("<a href=\""@ + escaped(url) + "\">"@ + escaped(label) + "</a><br>"@)
    }
}

/// One line of Gemtext in state `state`, appended to `out`: the next state and output,
/// or `None` for a link without a URL.
pub open spec fn gmi_line(line: Seq<char>, state: GmiState, out: Seq<char>) -> Option<
    (GmiState, Seq<char>),
> {
    let n = line.len() as int;
    if state == GmiState::Preformatted {
        if occurs_at(line, 0, "```"@) {
            Some((GmiState::Text, out + "</pre>"@))
        } else {
            Some((GmiState::Preformatted, out + escaped(line)))
        }
    } else if occurs_at(line, 0, "* "@) {
        let o = if state == GmiState::List { out } else { out + "<ul>"@ };
        Some((GmiState::List, o + "<li>"@ + escaped(line.subrange(2, n)) + "</li>"@))
    } else {
        let o = if state == GmiState::List { out + "</ul>"@ } else { out };
        if occurs_at(line, 0, "=>"@) {
            match link_html(line.subrange(2, n)) {
                Some(h) => Some((GmiState::Text, o + h)),
                None => None,
            }
        } else if occurs_at(line, 0, "```"@) {
            Some(
                (
                    GmiState::Preformatted,
                    o + "<pre alt=\""@ + escaped(line.subrange(3, n)) + "\">"@,
                ),
            )
        } else if occurs_at(line, 0, "> "@) {
            Some(
                (
                    GmiState::Text,
                    o + "<blockquote><p>"@ + escaped(line.subrange(2, n))
                        + "</p></blockquote>"@,
                ),
            )
        } else if n > 0 && line[0] == '#' {
            let level = hashes(line, 0);
            let title = line.subrange(skip_ws(line, level), n);
            Some(
                (
                    GmiState::Text,
                    o + "<h"@ + decimal(level as nat) + ">"@ + escaped(title) + "</h"@
                        + decimal(level as nat) + ">"@,
                ),
            )
        } else {
            Some((GmiState::Text, o + line))
        }
    }
}

/// The translation of the lines from position `i` on, where `num` is the 0-based number
/// of the line at `i`; an error holds the number of the offending line.
pub open spec fn gmi_from(s: Seq<char>, i: int, num: nat, state: GmiState, out: Seq<char>) -> Result<
    Seq<char>,
    nat,
>
    decreases s.len() + 1 - i,
{
    if i < 0 || i >= s.len() {
        let o = if state == GmiState::List { out + "</ul>"@ } else { out };
        Ok(o + "</p>"@)
    } else {
        proof {
            lemma_line_break(s, i);
        }
        match gmi_line(line_at(s, i), state, out) {
            None => Err(num),
            Some((st, o)) => gmi_from(s, line_break(s, i) + 1, num + 1, st, o),
        }
    }
}

pub proof fn lemma_line_break(s: Seq<char>, i: int)
    requires
        0 <= i <= s.len(),
    ensures
        i <= line_break(s, i) <= s.len(),
        forall|k: int| i <= k < line_break(s, i) ==> s[k] != '\n',
        line_break(s, i) < s.len() ==> s[line_break(s, i)] == '\n',
    decreases s.len() - i,
{
    if i < s.len() && s[i] != '\n' {
        lemma_line_break(s, i + 1);
    }
}

/// The HTML translation of a Gemtext document, or the 0-based number of the line that
/// holds a link without a URL.
pub open spec fn gmi_translated(s: Seq<char>) -> Result<Seq<char>, nat> {
    gmi_from(s, 0, 0, GmiState::Text, "<p>"@)
}

/// Appends the HTML escape of `input` to `out`.
pub fn html_escape_into(input: &[char], out: &mut Vec<char>)
    ensures
        final(out)@ == old(out)@ + escaped(input@),
{
    let mut i: usize = 0;
    while i < input.len()
        invariant
            i <= input@.len(),
            out@ == old(out)@ + escaped(input@.subrange(0, i as int)),
        decreases input@.len() - i,
    {
        let c = input[i];
        if c == '<' {
            push_str(out, "&lt;");
        } else if c == '>' {
            push_str(out, "&gt;");
        } else if c == '"' {
            push_str(out, "&quot;");
        } else if c == '&' {
            push_str(out, "&amp;");
        } else {
            out.push(c);
        }
        proof {
            let t = input@.subrange(0, i + 1);
            assert(t.drop_last() == input@.subrange(0, i as int));
            assert(seq![c] == Seq::<char>::empty().push(c));
        }
        i = i + 1;
    }
    proof {
        assert(input@.subrange(0, input@.len() as int) == input@);
    }
}

/// Appends `n` in decimal to `out`.
pub fn push_decimal(out: &mut Vec<char>, n: usize)
    ensures
        final(out)@ == old(out)@ + decimal(n as nat),
    decreases n,
{
    if n >= 10 {
        push_decimal(out, n / 10);
    }
    let d = n % 10;
    let c = if d == 0 { '0' } else if d == 1 { '1' } else if d == 2 { '2' } else if d == 3 {
        '3'
    } else if d == 4 { '4' } else if d == 5 { '5' } else if d == 6 { '6' } else if d == 7 {
        '7'
    } else if d == 8 { '8' } else { '9' };
    out.push(c);
    proof {
        if n < 10 {
            assert(seq![c] == Seq::<char>::empty().push(c));
        }
    }
}

fn find_line_break(s: &[char], i: usize) -> (r: usize)
    requires
        i <= s@.len(),
    ensures
        r == line_break(s@, i as int),
        i <= r <= s@.len(),
{
    let mut j = i;
    while j < s.len() && s[j] != '\n'
        invariant
            i <= j <= s@.len(),
            line_break(s@, j as int) == line_break(s@, i as int),
        decreases s@.len() - j,
    {
        j = j + 1;
    }
    j
}

fn count_hashes(s: &[char]) -> (r: usize)
    ensures
        r == hashes(s@, 0),
        r <= s@.len(),
{
    let mut j: usize = 0;
    while j < s.len() && s[j] == '#'
        invariant
            j <= s@.len(),
            hashes(s@, j as int) == hashes(s@, 0),
        decreases s@.len() - j,
    {
        j = j + 1;
    }
    j
}

/// Appends the HTML of a link line, given what follows `=>`; false where it has no URL.
fn translate_link(rest: &[char], out: &mut Vec<char>) -> (r: bool)
    ensures
        r == link_html(rest@) is Some,
        r ==> final(out)@ == old(out)@ + link_html(rest@)->Some_0,
{
    let a = skip_whitespace(rest, 0);
    let b = find_word_end(rest, a);
    let c = skip_whitespace(rest, b);
    let d = find_word_end(rest, c);
    if a >= rest.len() {
        return false;
    }
    let url = slice_subrange(rest, a, b);
    push_str(out, "<a href=\"");
    html_escape_into(url, out);
    push_str(out, "\">");
    if c >= rest.len() {
        html_escape_into(url, out);
    } else {
        html_escape_into(slice_subrange(rest, c, d), out);
    }
    push_str(out, "</a><br>");
    true
}

/// Translates one line in state `state`, appending to `out`: the next state, or `None`
/// for a link line without a URL.
fn translate_line(line: &[char], state: GmiState, out: &mut Vec<char>) -> (r: Option<GmiState>)
    ensures
        match gmi_line(line@, state, old(out)@) {
            None => r is None,
            Some((st, o)) => r == Some(st) && final(out)@ == o,
        },
{
    let n = line.len();
    proof {
        reveal_strlit("```");
        reveal_strlit("* ");
        reveal_strlit("=>");
        reveal_strlit("> ");
    }
    let fence = chars_of("```");
    if matches!(state, GmiState::Preformatted) {
        if is_at(line, 0, fence.as_slice()) {
            push_str(out, "</pre>");
            return Some(GmiState::Text);
        } else {
            html_escape_into(line, out);
            return Some(GmiState::Preformatted);
        }
    }
    let item = chars_of("* ");
    if is_at(line, 0, item.as_slice()) {
        if !matches!(state, GmiState::List) {
            push_str(out, "<ul>");
        }
        push_str(out, "<li>");
        html_escape_into(slice_subrange(line, 2, n), out);
        push_str(out, "</li>");
        return Some(GmiState::List);
    }
    if matches!(state, GmiState::List) {
        push_str(out, "</ul>");
    }
    let arrow = chars_of("=>");
    let quote = chars_of("> ");
    if is_at(line, 0, arrow.as_slice()) {
        if translate_link(slice_subrange(line, 2, n), out) {
            Some(GmiState::Text)
        } else {
            None
        }
    } else if is_at(line, 0, fence.as_slice()) {
        push_str(out, "<pre alt=\"");
        html_escape_into(slice_subrange(line, 3, n), out);
        push_str(out, "\">");
        Some(GmiState::Preformatted)
    } else if is_at(line, 0, quote.as_slice()) {
        push_str(out, "<blockquote><p>");
        html_escape_into(slice_subrange(line, 2, n), out);
        push_str(out, "</p></blockquote>");
        Some(GmiState::Text)
    } else if n > 0 && line[0] == '#' {
        let level = count_hashes(line);
        let start = skip_whitespace(line, level);
        push_str(out, "<h");
        push_decimal(out, level);
        push_str(out, ">");
        html_escape_into(slice_subrange(line, start, n), out);
        push_str(out, "</h");
        push_decimal(out, level);
        push_str(out, ">");
        Some(GmiState::Text)
    } else {
        push_all(out, line);
        Some(GmiState::Text)
    }
}

/// Translates a Gemtext document to HTML, wrapped in one paragraph. A link line without
/// a URL is an error that names `source_path` and the 0-based number of the line.
pub fn translate_gemtext(source_path: &str, source: &str) -> (r: Result<String, BuildError>)
    ensures
        match gmi_translated(source@) {
            Ok(o) => r is Ok && r->Ok_0@ == o,
            Err(num) => r is Err && r->Err_0.kind == ErrorKind::MissingLinkUrl
                && r->Err_0.path@ == source_path@ && r->Err_0.line == num,
        },
{
    let s = chars_of(source);
    let n = s.len();
    let mut out: Vec<char> = Vec::new();
    push_str(&mut out, "<p>");
    let mut state = GmiState::Text;
    let mut i: usize = 0;
    let mut num: usize = 0;
    while i < n
        invariant
            n == s@.len(),
            s@ == source@,
            i <= n,
            num <= i,
            gmi_from(s@, i as int, num as nat, state, out@) == gmi_translated(s@),
        decreases n - i,
    {
        let j = find_line_break(s.as_slice(), i);
        let e = if j < n && j > i && s[j - 1] == '\r' {
            j - 1
        } else {
            j
        };
        let line = slice_subrange(s.as_slice(), i, e);
        assert(line@ == line_at(s@, i as int));
        let ghost before = out@;
        let ghost st0 = state;
        proof {
            lemma_line_break(s@, i as int);
        }
        match translate_line(line, state, &mut out) {
            None => {
                return Err(
                    BuildError {
                        kind: ErrorKind::MissingLinkUrl,
                        path: source_path.to_owned(),
                        line: num,
                    },
                );
            },
            Some(st) => {
                state = st;
            },
        }
        proof {
            assert(gmi_from(s@, i as int, num as nat, st0, before) == gmi_from(
                s@,
                j + 1,
                (num + 1) as nat,
                state,
                out@,
            ));
            if j >= n {
                assert(gmi_from(s@, j + 1, (num + 1) as nat, state, out@) == gmi_from(
                    s@,
                    n as int,
                    (num + 1) as nat,
                    state,
                    out@,
                ));
            }
        }
        i = if j >= n {
            n
        } else {
            j + 1
        };
        num = num + 1;
    }
    if matches!(state, GmiState::List) {
        push_str(&mut out, "</ul>");
    }
    push_str(&mut out, "</p>");
    Ok(string_of(out.as_slice()))
}

} // verus!
