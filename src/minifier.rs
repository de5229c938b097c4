pub use crate::css::minify_css;
pub use crate::html::minify_html;
