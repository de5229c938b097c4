use webby::error::ErrorKind;
use webby::minify_html;

struct Tester {
    name: &'static str,
    source: &'static str,
    expected: &'static str,
}

impl Tester {
    fn test(self) {
        let result = minify_html("test/path", self.source, self.source).unwrap();
        assert_eq!(&result, self.expected, "Test name: {}", self.name);
    }
}

fn minified(source: &str) -> String {
    minify_html("test/path", source, source).unwrap()
}

#[test]
fn html_test() {
    let cases = [
        Tester {
            name: "Trim whitespace between tags",
            source: "<body>    <p>hi</p></body>",
            expected: "<body><p>hi</p></body>",
        },
        Tester {
            name: "Trim comments",
            source: "<body><!--commentcomment--><p>hi</p></body>",
            expected: "<body><p>hi</p></body>",
        },
        Tester {
            name: "Minimises whitespace in textual tags",
            source: "<p> This has   weird whitespace!!!\n</p>",
            expected: "<p> This has weird whitespace!!!</p>",
        },
        Tester {
            name: "Includes whitespace in preformatted tags",
            source: "<pre> This has   weird whitespace!!!\n</pre>",
            expected: "<pre> This has   weird whitespace!!!\n</pre>",
        },
        Tester {
            name: "Element properties",
            source: "<p string1='string1 string2' string2=\"string1 string2\" number=1 singleword=hi eek>hewwo</p>",
            expected: "<p string1='string1 string2' string2=\"string1 string2\" number=1 singleword=hi eek>hewwo</p>",
        },
        Tester {
            name: "Element properties 2",
            source: "<p string='string1 string2n\'t'>hewwo</p>",
            expected: "<p string='string1 string2n\'t'>hewwo</p>",
        },
        Tester {
            name: "Unclosed Elements",
            source: "<body>  <br/><img src='https://example.com/img.png'><p>hello</p>\n<br/></body>",
            expected: "<body><br/><img src='https://example.com/img.png'><p>hello</p><br/></body>",
        },
    ];

    for case in cases {
        case.test();
    }
}

#[test]
fn escaped_quote_in_property_round_trips() {
    let source = "<p string='a\\'b'>x</p>";
    assert_eq!(minified(source), source);
}

#[test]
fn pre_keeps_whitespace() {
    let source = "<pre>  a \t b\n   c  </pre>";
    assert_eq!(minified(source), source);
}

#[test]
fn textual_tag_collapses_whitespace_to_one_space() {
    assert_eq!(minified("<span>a  \t b</span>"), "<span>a b</span>");
}

#[test]
fn content_tag_drops_whitespace() {
    assert_eq!(minified("<div>  <b>x</b>   <i>y</i>  </div>"), "<div><b>x</b><i>y</i></div>");
}

#[test]
fn self_closing_tag_absorbs_newline_and_indent() {
    assert_eq!(minified("<br/>\n    \n  <p>x</p>"), "<br/><p>x</p>");
    assert_eq!(minified("<img src='x'/>\n   <p>x</p>"), "<img src='x'/><p>x</p>");
}

#[test]
fn body_with_unclosed_elements() {
    assert_eq!(
        minified("<body>  <br/><img src='x'><p>hi</p>\n<br/></body>"),
        "<body><br/><img src='x'><p>hi</p><br/></body>"
    );
}

#[test]
fn minifying_twice_changes_nothing() {
    let sources = [
        "<body>    <p>hi</p></body>",
        "<p> This has   weird whitespace!!!\n</p>",
        "<pre> This has   weird whitespace!!!\n</pre>",
        "<body>  <br/><img src='x'><p>hi</p>\n<br/></body>",
        "<div>\n  <style>\n a {\n color: red;\n }\n</style>\n</div>",
    ];
    for source in sources {
        let once = minified(source);
        assert_eq!(minified(&once), once, "source: {source}");
    }
}

#[test]
fn style_body_is_minified_as_css() {
    assert_eq!(
        minified("<head><style>a {\n  color: red;\n}</style></head>"),
        "<head><style>a{color:red;}</style></head>"
    );
}

#[test]
fn script_body_is_kept() {
    let source = "<script>if (a < b) { x(); }</script>";
    assert_eq!(minified(source), source);
}

#[test]
fn cdata_is_kept() {
    assert_eq!(minified("<div><![CDATA[ a  <b> ]]></div>"), "<div><![CDATA[ a  <b> ]]></div>");
}

#[test]
fn lone_angle_bracket_is_text() {
    assert_eq!(minified("<p>a < b</p>"), "<p>a < b</p>");
}

#[test]
fn unclosed_comment_is_an_error() {
    let e = minify_html("doc.html", "<p>\n<!-- x", "<p>\n<!-- x").unwrap_err();
    assert_eq!(e.kind, ErrorKind::UnclosedComment);
    assert_eq!(e.path, "doc.html");
    assert_eq!(e.line, 2);
}

#[test]
fn unclosed_cdata_is_an_error() {
    let e = minify_html("d", "<![CDATA[ x", "<![CDATA[ x").unwrap_err();
    assert_eq!(e.kind, ErrorKind::UnclosedCdata);
}

#[test]
fn unclosed_quote_is_an_error() {
    let e = minify_html("d", "<p a='x>", "<p a='x>").unwrap_err();
    assert_eq!(e.kind, ErrorKind::UnclosedQuote);
    assert_eq!(e.line, 1);
}

#[test]
fn unclosed_closing_tag_is_an_error() {
    let e = minify_html("d", "<p>x</p", "<p>x</p").unwrap_err();
    assert_eq!(e.kind, ErrorKind::UnclosedClosingTag);
}

#[test]
fn unclosed_script_is_an_error() {
    let e = minify_html("d", "<script>\nx\n", "<script>\nx\n").unwrap_err();
    assert_eq!(e.kind, ErrorKind::UnclosedRawText);
}
