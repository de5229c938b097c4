pub use crate::external::translate_markdown;
pub use crate::gemtext::translate_gemtext;
