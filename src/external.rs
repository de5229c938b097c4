use vstd::prelude::*;
use base64::Engine;

verus! {

/// The standard base64 encoding (with padding) of `b`.
pub uninterp spec fn base64_of(b: Seq<u8>) -> Seq<char>;

/// The HTML that the Markdown converter makes of `s` with this library's option set.
pub uninterp spec fn markdown_html_of(s: Seq<char>) -> Seq<char>;

/// Relies on `base64::Engine::encode` of `base64::engine::general_purpose::STANDARD`: the
/// padded standard encoding; it panics only where the encoded length overflows `usize`.
#[verifier::external_body]
pub(crate) fn base64_encode(b: &[u8]) -> (r: String)
    requires
        (b@.len() + 2) / 3 * 4 <= usize::MAX,
    ensures
        r@ == base64_of(b@),
{
    base64::engine::general_purpose::STANDARD.encode(b)
}

/// Relies on `markdown::to_html_with_options` with the GFM constructs, raw HTML and
/// protocols allowed, the tag filter off and task list items checkable. It only fails on
/// MDX constructs, which these options leave off.
#[verifier::external_body]
pub fn translate_markdown(src: &str) -> (r: String)
    ensures
        r@ == markdown_html_of(src@),
{
    let mut options = markdown::Options::gfm();
    options.compile.allow_dangerous_html = true;
    options.compile.allow_dangerous_protocol = true;
    options.compile.gfm_tagfilter = false;
    options.compile.gfm_task_list_item_checkable = true;
    markdown::to_html_with_options(src, &options).unwrap_or_default()
}

} // verus!
