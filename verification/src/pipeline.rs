//! The whole pipeline as one call: tokenize, then render.
//!
//! The caller supplies one optional outside result per extracted code
//! block, in block order — the output of the block's external tool, of
//! the LaTeX layout routine, or of a nested run of this pipeline for a
//! block of Markdown — and one optional LaTeX layout per block math
//! region, in region order.  Where an entry is absent the content passes
//! through unchanged, so the document is always produced in full.

use vstd::prelude::*;

use crate::config::CfgV;
use crate::config::Config;
use crate::parser::lex_all;
use crate::parser::Parser;
use crate::render::fenced_list;
use crate::render::opts_of;
use crate::render::render_toks;
use crate::render::Formatter;

verus! {

/// The text the pipeline produces for `input` under `cfg`, with the given
/// outside results spliced into the code blocks and block math regions.
pub open spec fn format_doc_spec(
    input: Seq<char>,
    cfg: CfgV,
    results: Seq<Option<Seq<char>>>,
    math_results: Seq<Option<Seq<char>>>,
) -> Seq<char> {
    let st = lex_all(input);
    render_toks(
        cfg,
        st.toks,
        fenced_list(cfg, st.blocks, results),
        math_results,
        0,
        Option::None,
        0,
        0,
        Seq::empty(),
    )
}

/// Tokenizes `input` and renders it back, splicing `tool_results` into
/// the code blocks and `math_results` into the block math regions, each
/// in order.
pub fn format_string(
    input: &str,
    config: &Config,
    tool_results: &Vec<Option<Vec<char>>>,
    math_results: &Vec<Option<Vec<char>>>,
) -> (r: Vec<char>)
    ensures
        r@ == format_doc_spec(
            input@,
            config@,
            opts_of(tool_results@),
            opts_of(math_results@),
        ),
{
    let mut parser = Parser::new(input);
    parser.parse();
    let mut formatter = Formatter::new(config);
    formatter.format(parser.get_tokens(), parser.get_code_blocks(), tool_results, math_results);
    formatter.get_output()
}

} // verus!
