//! Reflow for mixed-script Markdown-like text.
//!
//! The crate tokenizes a document into runs of Chinese, English and numeric
//! text, inline and block math, inline code, fenced code blocks, headings and
//! newlines; it then reassembles the tokens, inserting spacing between scripts
//! and normalizing blank lines around block-level constructs.  Fenced code
//! blocks are handed to external formatting tools chosen per language; their
//! results are supplied to the render pass, which falls back to the original
//! content when a tool is unavailable.

pub mod config;
pub mod dispatch;
pub mod laws;
pub mod parser;
pub mod pipeline;
pub mod render;
pub mod text;
pub mod tokens;

pub use config::Config;
pub use dispatch::get_formatter_command;
pub use dispatch::normalize_language;
pub use dispatch::plan_block;
pub use dispatch::BlockAction;
pub use parser::Parser;
pub use pipeline::format_string;
pub use render::finish_block;
pub use render::render_code_fence;
pub use render::Formatter;
pub use text::str_to_chars;
pub use tokens::CodeBlock;
pub use tokens::Token;
