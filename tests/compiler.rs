use webby::compiler::{compile_macros, Expansion, Include, IncludeData};
use webby::error::ErrorKind;
use webby::{compile_file, FileType};

fn expand(text: &str, files: &[Include]) -> String {
    match compile_macros(text, "dir/doc.html", files).unwrap() {
        Expansion::Done(t) => t,
        Expansion::NeedsFile { from, arg, .. } => panic!("asked for {arg} from {from}"),
    }
}

#[test]
fn escaped_marker_is_kept_literally() {
    assert_eq!(expand("a \\#!BASE64(x) b", &[]), "a #!BASE64(x) b");
}

#[test]
fn text_without_macros_is_unchanged() {
    assert_eq!(expand("plain (text) # !", &[]), "plain (text) # !");
}

#[test]
fn base64_encodes_its_argument() {
    assert_eq!(expand("<#!BASE64(hello)>", &[]), "<aGVsbG8=>");
}

#[test]
fn nested_macros_expand_innermost_first() {
    let out = expand("#!BASE64(#!BASE64(a))", &[]);
    assert_eq!(out, "WVE9PQ==");
    assert!(!out.contains("#!"));
}

#[test]
fn minify_css_macro_splices_its_result() {
    assert_eq!(
        expand("<style>#!MINIFY(css,a{color:red;})</style>", &[]),
        "<style>a{color:red;}</style>"
    );
}

#[test]
fn minify_html_macro_splices_its_result() {
    assert_eq!(expand("x#!MINIFY(html,<div> <p>a</p> </div>)y", &[]), "x<div><p>a</p></div>y");
}

#[test]
fn parentheses_nest_inside_arguments() {
    assert_eq!(expand("#!MINIFY(css,a{b:f(1, 2)})", &[]), "a{b:f(1,2)}");
}

#[test]
fn include_asks_for_the_file_then_splices_it() {
    let first = compile_macros("[#!INCLUDE(part.txt)]", "dir/doc.html", &[]).unwrap();
    match first {
        Expansion::NeedsFile { from, arg, binary } => {
            assert_eq!(from, "dir/doc.html");
            assert_eq!(arg, "part.txt");
            assert!(!binary);
        }
        Expansion::Done(_) => panic!("expected a request for the included file"),
    }
    let files = vec![Include {
        from: "dir/doc.html".to_string(),
        arg: "part.txt".to_string(),
        binary: false,
        path: "dir/part.txt".to_string(),
        data: IncludeData::Text("in #!BASE64(a)".to_string()),
    }];
    assert_eq!(expand("[#!INCLUDE(part.txt)]", &files), "[in YQ==]");
}

#[test]
fn include_base64_encodes_the_bytes() {
    let files = vec![Include {
        from: "dir/doc.html".to_string(),
        arg: "img.bin".to_string(),
        binary: true,
        path: "dir/img.bin".to_string(),
        data: IncludeData::Bytes(vec![0, 255, 16]),
    }];
    assert_eq!(expand("#!INCLUDE_BASE64(img.bin)", &files), "AP8Q");
}

#[test]
fn include_of_itself_is_an_error() {
    let files = vec![Include {
        from: "dir/doc.html".to_string(),
        arg: "doc.html".to_string(),
        binary: false,
        path: "dir/doc.html".to_string(),
        data: IncludeData::Text("#!INCLUDE(doc.html)".to_string()),
    }];
    let e = compile_macros("#!INCLUDE(doc.html)", "dir/doc.html", &files).err().unwrap();
    assert_eq!(e.kind, ErrorKind::IncludeCycle);
}

#[test]
fn unreadable_include_is_an_error() {
    let files = vec![Include {
        from: "dir/doc.html".to_string(),
        arg: "gone".to_string(),
        binary: false,
        path: "dir/gone".to_string(),
        data: IncludeData::Unreadable,
    }];
    let e = compile_macros("\n#!INCLUDE(gone)", "dir/doc.html", &files).err().unwrap();
    assert_eq!(e.kind, ErrorKind::IncludeFailed);
    assert_eq!(e.line, 2);
}

#[test]
fn macro_errors() {
    let kind = |t: &str| compile_macros(t, "d", &[]).err().unwrap().kind;
    assert_eq!(kind("#!BASE64"), ErrorKind::MissingOpenParen);
    assert_eq!(kind("#!BASE64(a"), ErrorKind::MissingCloseParen);
    assert_eq!(kind("#!NOPE(a)"), ErrorKind::UnknownMacro);
    assert_eq!(kind("#!MINIFY(js,x)"), ErrorKind::UnknownMinifyType);
    assert_eq!(kind("#!MINIFY(css)"), ErrorKind::MissingMinifyCode);
}

#[test]
fn compile_file_dispatches_by_type() {
    let done = |t: &str, ft: FileType| match compile_file(t, "d", ft, &[]).unwrap() {
        Expansion::Done(s) => s,
        Expansion::NeedsFile { .. } => panic!("unexpected request"),
    };
    assert_eq!(done("a {\n b: c;\n}", FileType::Css), "a{b:c;}");
    assert_eq!(done("### #!BASE64(a)", FileType::Gemtext), "<p><h3>YQ==</h3></p>");
    assert_eq!(done("<div>  <p>x</p></div>", FileType::Html), "<div><p>x</p></div>");
    assert_eq!(done("as  is", FileType::Unknown), "as  is");
    assert_eq!(done("# Hi", FileType::Markdown), "<h1>Hi</h1>");
}

#[test]
fn file_types_by_extension() {
    assert_eq!(FileType::from_extension("html"), FileType::Html);
    assert_eq!(FileType::from_extension("css"), FileType::Css);
    assert_eq!(FileType::from_extension("gmi"), FileType::Gemtext);
    assert_eq!(FileType::from_extension("gemtext"), FileType::Gemtext);
    assert_eq!(FileType::from_extension("md"), FileType::Markdown);
    assert_eq!(FileType::from_extension("markdown"), FileType::Markdown);
    assert_eq!(FileType::from_extension("txt"), FileType::Unknown);
}

#[test]
fn line_number_counts_line_breaks_before_the_offset() {
    let text: Vec<char> = "a\nb\n\nc".chars().collect();
    assert_eq!(webby::line_number_of_offset(&text, 0), 0);
    assert_eq!(webby::line_number_of_offset(&text, 2), 1);
    assert_eq!(webby::line_number_of_offset(&text, 6), 3);
}

#[test]
fn minifier_and_translator_paths() {
    assert_eq!(webby::minifier::minify_css("a { }"), "a{}");
    assert_eq!(webby::minifier::minify_html("p", "<b>x</b>", "<b>x</b>").unwrap(), "<b>x</b>");
    assert_eq!(webby::translator::translate_gemtext("g", "hi").unwrap(), "<p>hi</p>");
}
