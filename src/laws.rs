use vstd::prelude::*;
use crate::compiler::{Include, expand_range, macro_value, close_paren, Expanded};
use crate::html::find_from;
use crate::text::{is_ws, occurs_at, skip_ws};
use crate::html::{html_from, html_minified, name_end, tag_at, is_self_close, content_from, strip_ws, element_body};

verus! {

broadcast use vstd::string::group_string_axioms;

/// `s` holds no macro marker `#!`.
pub open spec fn has_no_marker(s: Seq<char>) -> bool {
    forall|j: int| !#[trigger] occurs_at(s, j, "#!"@)
}

/// Where the first occurrence of a pattern at or after `i` is at `k`, that is what the
/// search finds.
pub proof fn lemma_find_first(s: Seq<char>, i: int, k: int, p: Seq<char>)
    requires
        0 <= i <= k,
        p.len() > 0,
        occurs_at(s, k, p),
        forall|j: int| i <= j < k ==> !occurs_at(s, j, p),
    ensures
        find_from(s, i, p) == Some(k),
    decreases k - i,
{
    if i < k {
        lemma_find_first(s, i + 1, k, p);
    }
}

/// A marker written `\#!` stands for itself: the expansion of `a\#!b` is `a#!` followed by
/// the expansion of `b`, and no macro is read at the marker.
pub proof fn escaped_marker_is_literal(
    files: Seq<Include>,
    path: Seq<char>,
    a: Seq<char>,
    b: Seq<char>,
)
    requires
        has_no_marker(a),
    ensures
        ({
            let s = a + "\\#!"@ + b;
            expand_range(files, s, path, 0, s.len() as int, 0, Seq::empty()) == expand_range(
                files,
                s,
                path,
                a.len() + 3int,
                s.len() as int,
                0,
                a + "#!"@,
            )
        }),
{
    reveal_strlit("\\#!");
    reveal_strlit("#!");
    let s = a + "\\#!"@ + b;
    let k = a.len() + 1int;
    let t = s.subrange(0, s.len() as int);
    assert(t == s);
    assert(s[k - 1] == '\\');
    assert(occurs_at(s, k, "#!"@)) by {
        assert(s.subrange(k, k + 2) =~= "#!"@);
    }
    assert forall|j: int| 0 <= j < k implies !occurs_at(s, j, "#!"@) by {
        if occurs_at(s, j, "#!"@) {
            assert(s.subrange(j, j + 2)[0] == '#');
            assert(s.subrange(j, j + 2)[1] == '!');
            assert(s[j] == '#' && s[j + 1] == '!');
            if j + 1 < a.len() {
                assert(a.subrange(j, j + 2) =~= "#!"@);
                assert(occurs_at(a, j, "#!"@));
            }
        }
    }
    lemma_find_first(s, 0, k, "#!"@);
    assert(Seq::<char>::empty() + s.subrange(0, k - 1) + "#!"@ == a + "#!"@) by {
        assert(s.subrange(0, k - 1) =~= a);
    }
}

pub proof fn lemma_find_none(s: Seq<char>, i: int, p: Seq<char>)
    requires
        0 <= i,
        forall|j: int| i <= j ==> !#[trigger] occurs_at(s, j, p),
    ensures
        find_from(s, i, p) is None,
    decreases s.len() - i,
{
    if !(i < 0 || i >= s.len() || i + p.len() > s.len()) {
        lemma_find_none(s, i + 1, p);
    }
}

/// In a text with no other marker, `\#!` comes out as `#!` and the rest as it stands:
/// the expansion of `a\#!b` is `a#!b`.
pub proof fn escaped_marker_in_plain_text(
    files: Seq<Include>,
    path: Seq<char>,
    a: Seq<char>,
    b: Seq<char>,
)
    requires
        has_no_marker(a),
        has_no_marker(b),
    ensures
        crate::compiler::expanded(files, a + "\\#!"@ + b, path) == Ok::<
            crate::compiler::Expanded,
            (crate::error::ErrorKind, Seq<char>, nat),
        >(crate::compiler::Expanded::Text(a + "#!"@ + b)),
{
    reveal_strlit("\\#!");
    reveal_strlit("#!");
    escaped_marker_is_literal(files, path, a, b);
    let s = a + "\\#!"@ + b;
    let n = s.len() as int;
    let i = a.len() + 3int;
    assert(s.subrange(0, n) == s);
    assert forall|j: int| i <= j implies !#[trigger] occurs_at(s, j, "#!"@) by {
        if occurs_at(s, j, "#!"@) {
            let m = j - i;
            assert(s.subrange(j, j + 2)[0] == '#');
            assert(s.subrange(j, j + 2)[1] == '!');
            assert(b.subrange(m, m + 2) =~= "#!"@);
            assert(occurs_at(b, m, "#!"@));
        }
    }
    lemma_find_none(s, i, "#!"@);
    assert(s.subrange(i, n) =~= b);
}

pub proof fn lemma_name_end_at(s: Seq<char>, i: int, q: int)
    requires
        0 <= i <= q < s.len(),
        forall|j: int| i <= j < q ==> !is_ws(s[j]) && s[j] != '>' && s[j] != '/',
        is_ws(s[q]) || s[q] == '>' || is_self_close(s, q),
    ensures
        name_end(s, i) == q,
    decreases q - i,
{
    if i < q {
        lemma_name_end_at(s, i + 1, q);
    }
}

pub proof fn lemma_skip_ws_at(s: Seq<char>, i: int, e: int)
    requires
        0 <= i <= e <= s.len(),
        forall|j: int| i <= j < e ==> is_ws(s[j]),
        e == s.len() || !is_ws(s[e]),
    ensures
        skip_ws(s, i) == e,
    decreases e - i,
{
    if i < e {
        lemma_skip_ws_at(s, i + 1, e);
    }
}

/// A self-closed tag followed by a line break takes the whole whitespace run that the
/// line break starts: the minified document goes on with what follows that run.
pub proof fn self_closing_tag_absorbs_whitespace(name: Seq<char>, w: Seq<char>, r: Seq<char>)
    requires
        name.len() > 0,
        name[0] != '!',
        forall|j: int| 0 <= j < name.len() ==> !is_ws(name[j]) && name[j] != '>' && name[j] != '/',
        forall|j: int| 0 <= j < w.len() ==> is_ws(w[j]),
        r.len() == 0 || !is_ws(r[0]),
    ensures
        ({
            let s = seq!['<'] + name + "/>\n"@ + w + r;
            &&& tag_at(s, 0) == Ok::<(Seq<char>, nat), (crate::error::ErrorKind, int)>(
                (seq!['<'] + name + "/>"@, (name.len() + 3 + w.len()) as nat),
            )
            &&& html_minified(s) == html_from(s, s.len() - r.len(), seq!['<'] + name + "/>"@)
        }),
{
    reveal_strlit("/>\n");
    reveal_strlit("/>");
    reveal_strlit("<!--");
    reveal_strlit("<![CDATA[");
    let s = seq!['<'] + name + "/>\n"@ + w + r;
    let q = name.len() + 1int;
    let e = q + 3 + w.len();
    assert(s[1] == name[0]);
    assert(!occurs_at(s, 0, "<!--"@)) by {
        if occurs_at(s, 0, "<!--"@) {
            assert(s.subrange(0, 4)[1] == '!');
        }
    }
    assert(!occurs_at(s, 0, "<![CDATA["@)) by {
        if occurs_at(s, 0, "<![CDATA["@) {
            assert(s.subrange(0, 9)[1] == '!');
        }
    }
    assert forall|j: int| 1 <= j < q implies !is_ws(s[j]) && s[j] != '>' && s[j] != '/' by {
        assert(s[j] == name[j - 1]);
    }
    assert(s[q] == '/' && s[q + 1] == '>' && s[q + 2] == '\n');
    lemma_name_end_at(s, 1, q);
    assert forall|j: int| q + 2 <= j < e implies is_ws(s[j]) by {
        if j > q + 2 {
            assert(s[j] == w[j - q - 3]);
        }
    }
    if r.len() > 0 {
        assert(s[e] == r[0]);
    }
    lemma_skip_ws_at(s, q + 2, e);
    assert(s.subrange(1, q) =~= name);
    assert(seq!['<'] + name + "/>"@ == Seq::<char>::empty() + (seq!['<'] + name + "/>"@));
}

pub proof fn lemma_pre_text(s: Seq<char>, i: int, j: int, out: Seq<char>)
    requires
        0 <= i <= j <= s.len(),
        forall|m: int| i <= m < j ==> s[m] != '<',
    ensures
        content_from(s, i, "pre"@, false, out) == content_from(s, j, "pre"@, false, out + s.subrange(i, j)),
    decreases j - i,
{
    if i < j {
        lemma_pre_text(s, i + 1, j, out.push(s[i]));
        assert(out.push(s[i]) + s.subrange(i + 1, j) =~= out + s.subrange(i, j));
    } else {
        assert(out + s.subrange(i, j) =~= out);
    }
}

/// A `pre` element whose text holds no tag keeps that text exactly, whitespace included.
pub proof fn pre_keeps_its_text(t: Seq<char>)
    requires
        forall|j: int| 0 <= j < t.len() ==> t[j] != '<',
        t.len() == 0 || t[0] != '\n',
    ensures
        html_minified("<pre>"@ + t + "</pre>"@) == Ok::<Seq<char>, (crate::error::ErrorKind, int)>(
            "<pre>"@ + t + "</pre>"@,
        ),
{
    reveal_strlit("<pre>");
    reveal_strlit("</pre>");
    reveal_strlit("pre");
    reveal_strlit("script");
    reveal_strlit("style");
    reveal_strlit("<!--");
    reveal_strlit("<![CDATA[");
    reveal_strlit("</");
    let s = "<pre>"@ + t + "</pre>"@;
    let n = s.len() as int;
    let i = 5 + t.len() as int;
    assert(s[0] == '<' && s[1] == 'p' && s[2] == 'r' && s[3] == 'e' && s[4] == '>');
    assert(s[i] == '<' && s[i + 1] == '/' && s[i + 2] == 'p' && s[i + 3] == 'r' && s[i + 4] == 'e'
        && s[i + 5] == '>');
    assert(!occurs_at(s, 0, "<!--"@)) by {
        if occurs_at(s, 0, "<!--"@) {
            assert(s.subrange(0, 4)[1] == '!');
        }
    }
    assert(!occurs_at(s, 0, "<![CDATA["@)) by {
        if occurs_at(s, 0, "<![CDATA["@) {
            assert(s.subrange(0, 9)[1] == '!');
        }
    }
    lemma_name_end_at(s, 1, 4);
    let name = s.subrange(1, 4);
    assert(name =~= "pre"@);
    let head = seq!['<'] + name;
    assert(head.push('>') =~= "<pre>"@);
    if t.len() > 0 {
        assert(s[5] == t[0]);
    }
    assert forall|m: int| 5 <= m < i implies s[m] != '<' by {
        assert(s[m] == t[m - 5]);
    }
    lemma_pre_text(s, 5, i, "<pre>"@);
    assert(s.subrange(5, i) =~= t);
    assert(occurs_at(s, i + 5, seq!['>'])) by {
        assert(s.subrange(i + 5, i + 6) =~= seq!['>']);
    }
    assert forall|m: int| i + 2 <= m < i + 5 implies !occurs_at(s, m, seq!['>']) by {
        if occurs_at(s, m, seq!['>']) {
            assert(s.subrange(m, m + 1)[0] == '>');
        }
    }
    lemma_find_first(s, i + 2, i + 5, seq!['>']);
    let closer = s.subrange(i + 2, i + 5);
    assert(closer =~= "pre"@);
    let c1 = closer.drop_last().drop_last();
    let c2 = closer.drop_last();
    assert(c1.drop_last() =~= Seq::<char>::empty());
    assert(strip_ws(c1.drop_last()) == Seq::<char>::empty());
    assert(c1.last() == 'p' && c2.last() == 'r' && closer.last() == 'e');
    assert(strip_ws(c1) =~= seq!['p']);
    assert(strip_ws(c2) =~= seq!['p', 'r']);
    assert(strip_ws(closer) =~= "pre"@);
    let o2 = "<pre>"@ + t + "</"@ + "pre"@;
    assert(o2.subrange(o2.len() - 3, o2.len() as int) =~= "pre"@);
    assert(o2.push('>') =~= s);
    assert(content_from(s, i, "pre"@, false, "<pre>"@ + t) == Ok::<(Seq<char>, int), (crate::error::ErrorKind, int)>((s, n - 1)));
    assert(element_body(s, 0, name, "<pre>"@, 5) == Ok::<(Seq<char>, nat), (crate::error::ErrorKind, int)>((s, (n - 1) as nat)));
    assert(tag_at(s, 0) == Ok::<(Seq<char>, nat), (crate::error::ErrorKind, int)>((s, (n - 1) as nat)));
    assert(Seq::<char>::empty() + s == s);
    assert(html_from(s, n, s) == Ok::<Seq<char>, (crate::error::ErrorKind, int)>(s));
    assert(html_from(s, 0, Seq::empty()) == html_from(s, n, s));
}

/// A text without a macro marker comes out of macro expansion unchanged.
pub proof fn text_without_markers_is_unchanged(files: Seq<Include>, path: Seq<char>, t: Seq<char>)
    requires
        has_no_marker(t),
    ensures
        crate::compiler::expanded(files, t, path) == Ok::<
            Expanded,
            (crate::error::ErrorKind, Seq<char>, nat),
        >(Expanded::Text(t)),
{
    let n = t.len() as int;
    assert(t.subrange(0, n) == t);
    lemma_find_none(t, 0, "#!"@);
    assert(Seq::<char>::empty() + t.subrange(0, n) == t);
}

/// Macros expand innermost first: a macro call `#!NAME(ARGS)` whose closing parenthesis
/// ends the text gives what `NAME` makes of the expansion of `ARGS`, so any macro inside
/// `ARGS` is expanded before `NAME` sees it.
pub proof fn arguments_expand_first(
    files: Seq<Include>,
    path: Seq<char>,
    name: Seq<char>,
    args: Seq<char>,
)
    requires
        forall|j: int| 0 <= j < name.len() ==> name[j] != '(',
        ({
            let s = "#!"@ + name + "("@ + args + ")"@;
            close_paren(s, name.len() + 3int, s.len() as int, 1) == Some(s.len() - 1)
        }),
    ensures
        ({
            let s = "#!"@ + name + "("@ + args + ")"@;
            let n = s.len() as int;
            crate::compiler::expanded(files, s, path) == match expand_range(
                files,
                s,
                path,
                name.len() + 3int,
                n - 1,
                0,
                Seq::empty(),
            ) {
                Err(e) => Err(e),
                Ok(Expanded::Need(f, a, b)) => Ok(Expanded::Need(f, a, b)),
                Ok(Expanded::Text(a)) => macro_value(files, s, path, 0, name, a, 0),
            }
        }),
{
    reveal_strlit("#!");
    reveal_strlit("(");
    reveal_strlit(")");
    let s = "#!"@ + name + "("@ + args + ")"@;
    let n = s.len() as int;
    let po = name.len() + 2int;
    assert(s.subrange(0, n) == s);
    assert(occurs_at(s, 0, "#!"@)) by {
        assert(s.subrange(0, 2) =~= "#!"@);
    }
    lemma_find_first(s, 0, 0, "#!"@);
    assert(occurs_at(s, po, "("@)) by {
        assert(s.subrange(po, po + 1) =~= "("@);
    }
    assert forall|j: int| 2 <= j < po implies !occurs_at(s, j, "("@) by {
        if occurs_at(s, j, "("@) {
            assert(s.subrange(j, j + 1)[0] == '(');
            assert(s[j] == name[j - 2]);
        }
    }
    lemma_find_first(s, 2, po, "("@);
    assert(s.subrange(2, po) =~= name);
    assert(Seq::<char>::empty() + s.subrange(0, 0) =~= Seq::<char>::empty());
    assert(find_from(s.subrange(0, n), 0, "#!"@) == Some(0int));
    assert(find_from(s.subrange(0, n), 2, "("@) == Some(po));
    assert(close_paren(s, po + 1, n, 1) == Some(n - 1));
    match expand_range(files, s, path, po + 1, n - 1, 0, Seq::empty()) {
        Err(e) => {},
        Ok(Expanded::Need(f, a, b)) => {},
        Ok(Expanded::Text(a)) => {
            match macro_value(files, s, path, 0, name, a, 0) {
                Ok(Expanded::Text(x)) => {
                    assert(s.subrange(n, n) =~= Seq::<char>::empty());
                    assert(expand_range(files, s, path, n, n, 0, x) == Ok::<Expanded, (crate::error::ErrorKind, Seq<char>, nat)>(Expanded::Text(x)));
                    assert(Seq::<char>::empty() + x =~= x);
                    assert(x + Seq::<char>::empty() =~= x);
                },
                _ => {},
            }
        },
    }
}

} // verus!
