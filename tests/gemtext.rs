use webby::error::ErrorKind;
use webby::translate_gemtext;

fn html(source: &str) -> String {
    translate_gemtext("doc.gmi", source).unwrap()
}

#[test]
fn list_items_share_one_list() {
    assert_eq!(html("* a\n* b"), "<p><ul><li>a</li><li>b</li></ul></p>");
}

#[test]
fn list_closes_before_text() {
    assert_eq!(html("* a\ntext"), "<p><ul><li>a</li></ul>text</p>");
}

#[test]
fn heading_level_is_the_number_of_hashes() {
    assert_eq!(html("### Title"), "<p><h3>Title</h3></p>");
    assert_eq!(html("#######  Deep"), "<p><h7>Deep</h7></p>");
    assert_eq!(html("############ x"), "<p><h12>x</h12></p>");
}

#[test]
fn link_with_label() {
    assert_eq!(html("=> url label"), "<p><a href=\"url\">label</a><br></p>");
}

#[test]
fn link_without_label_shows_the_url() {
    assert_eq!(html("=>https://a.b"), "<p><a href=\"https://a.b\">https://a.b</a><br></p>");
}

#[test]
fn link_without_url_is_an_error() {
    let e = translate_gemtext("doc.gmi", "text\n\n=>   ").unwrap_err();
    assert_eq!(e.kind, ErrorKind::MissingLinkUrl);
    assert_eq!(e.path, "doc.gmi");
    assert_eq!(e.line, 2);
}

#[test]
fn preformatted_block_is_escaped() {
    assert_eq!(
        html("```alt \"x\"\n<b> & \"q\"\n```\nafter"),
        "<p><pre alt=\"alt &quot;x&quot;\">&lt;b&gt; &amp; &quot;q&quot;</pre>after</p>"
    );
}

#[test]
fn quote_line() {
    assert_eq!(html("> wise <words>"), "<p><blockquote><p>wise &lt;words&gt;</p></blockquote></p>");
}

#[test]
fn plain_text_passes_through_unescaped() {
    assert_eq!(html("<b>bold</b>\r\nnext"), "<p><b>bold</b>next</p>");
}

#[test]
fn empty_document_is_an_empty_paragraph() {
    assert_eq!(html(""), "<p></p>");
}
