pub mod cache;
pub mod parser;

pub use cache::MemoizingCache;
pub use cache::cached_parse;
pub use cache::try_cached_parse;
pub use parser::ParseFailure;
pub use parser::ParsedDocument;
pub use parser::has_block_string;
pub use parser::has_wide_whitespace;
pub use parser::is_unsupported_text;
pub use parser::parse;
pub use parser::try_parse;
