use webby::minify_css;

#[test]
fn rule_block_loses_its_whitespace() {
    assert_eq!(minify_css("a {\n  color: red;\n}"), "a{color:red;}");
}

#[test]
fn comments_are_removed() {
    assert_eq!(minify_css("a/* note */{b:c}"), "a{b:c}");
    assert_eq!(minify_css("a{b:c}/* open"), "a{b:c}");
}

#[test]
fn quoted_strings_are_kept() {
    assert_eq!(minify_css("a { content: \"x  { y\"; }"), "a{content:\"x  { y\";}");
    assert_eq!(minify_css("a{content:'it\\'s'}"), "a{content:'it\\'s'}");
}

#[test]
fn newline_in_parentheses_becomes_a_space() {
    assert_eq!(minify_css("a{b:f(1,\n  2)}"), "a{b:f(1,2)}");
    assert_eq!(minify_css("a{b:x\n  y;}"), "a{b:x y;}");
}

#[test]
fn newline_outside_a_rule_is_dropped() {
    assert_eq!(minify_css("a{b:c;}\n\nd{e:f;}"), "a{b:c;}d{e:f;}");
}

#[test]
fn minifying_css_twice_changes_nothing() {
    for source in ["a {\n  color: red;\n}", "a , b { c : d ( 1 , 2 ) }\n", "x{y:'a  b'}"] {
        let once = minify_css(source);
        assert_eq!(minify_css(&once), once, "source: {source}");
    }
}
