//! The render engine: from tokens back to text.
//!
//! One sequential pass walks the token sequence, keeping the previously
//! emitted token to decide whether a single space is owed between adjacent
//! runs ([`needs_space`]).  Block-level constructs — headings, block math,
//! code blocks — are surrounded by exactly one blank line, except at the
//! very start of the document ([`ensure_empty_line_seq`]).  Newline runs
//! collapse so that the output never gains more than one blank line in a
//! row.  Code blocks are spliced in from a precomputed list: the content
//! of each block is finished first ([`finish_block`]) — kept as it is, or
//! replaced by the outside formatter's result when the caller supplies
//! one — and then fenced ([`render_code_fence`]).  Block math regions are
//! likewise paired, in order, with an optional outside layout each; a
//! region without one keeps its content.  The pass itself never fails:
//! whatever the outside formatters did, the document is produced in full.

use vstd::prelude::*;

use crate::config::CfgV;
use crate::config::Config;
use crate::dispatch::plan_block;
use crate::dispatch::plan_spec;
use crate::dispatch::ActionV;
use crate::dispatch::BlockAction;
use crate::text::copy_chars;
use crate::text::push_chars;
use crate::tokens::blks_of;
use crate::tokens::lemma_toks_of;
use crate::tokens::toks_of;
use crate::tokens::Blk;
use crate::tokens::CodeBlock;
use crate::tokens::Tok;
use crate::tokens::Token;
use vstd::std_specs::vec::vec_index;

verus! {

// ---------------------------------------------------------------------------
// Spacing and blank lines
// ---------------------------------------------------------------------------

/// Whether a single space is owed between the previously emitted token and
/// the one being emitted.  Spacing around inline math is unconditional;
/// spacing between scripts and before inline code follows the toggles.
pub open spec fn needs_space(cfg: CfgV, prev: Option<Tok>, cur: Tok) -> bool {
    match prev {
        Option::None => false,
        Option::Some(p) => match cur {
            Tok::Chinese(_) => (cfg.zh_en && p is English) || (cfg.zh_num && p is Number) || p
                is InlineMath || p is InlineCode,
            Tok::English(_) => (cfg.zh_en && p is Chinese) || p is InlineMath || p is InlineCode,
            Tok::Number(_) => (cfg.zh_num && p is Chinese) || p is InlineMath || p is InlineCode,
            Tok::InlineMath(_) => p is Chinese || p is English || p is Number,
            Tok::InlineCode(_) => cfg.code_text && (p is Chinese || p is English || p is Number),
            _ => false,
        },
    }
}

/// `s` without its trailing line feeds.
pub open spec fn strip_nl(s: Seq<char>) -> Seq<char>
    decreases s,
{
    if s.len() > 0 && s.last() == '\n' {
        strip_nl(s.drop_last())
    } else {
        s
    }
}

/// `s` ending in exactly one blank line; an empty `s` stays empty, so no
/// blank line opens a document.
pub open spec fn ensure_empty_line_seq(s: Seq<char>) -> Seq<char> {
    if s.len() == 0 {
        s
    } else {
        strip_nl(s) + seq!['\n', '\n']
    }
}

/// Whether `s` already ends with a blank line.
pub open spec fn ends_blank(s: Seq<char>) -> bool {
    s.len() >= 2 && s[s.len() - 1] == '\n' && s[s.len() - 2] == '\n'
}

// ---------------------------------------------------------------------------
// Code-block assembly
// ---------------------------------------------------------------------------

/// The model of one optional outside result.
pub open spec fn opt_of(o: Option<Vec<char>>) -> Option<Seq<char>> {
    match o {
        Option::Some(v) => Option::Some(v@),
        Option::None => Option::None,
    }
}

/// The models of a list of optional outside results, in order.
pub open spec fn opts_of(rs: Seq<Option<Vec<char>>>) -> Seq<Option<Seq<char>>> {
    Seq::new(rs.len(), |i: int| opt_of(rs[i]))
}

/// The finished content of a code block: what the fences will wrap.
/// Formatting off, or no tool known: the content as it stands.  LaTeX
/// layout, a nested document, or an external tool: the outside result,
/// or the content unchanged when there is none.
pub open spec fn finish_inner(cfg: CfgV, b: Blk, outside: Option<Seq<char>>) -> Seq<char> {
    match plan_spec(cfg, b.language) {
        ActionV::Passthrough => b.content,
        ActionV::Tex => match outside {
            Option::Some(r) => r,
            Option::None => b.content,
        },
        ActionV::Markdown => match outside {
            Option::Some(r) => r,
            Option::None => b.content,
        },
        ActionV::Tool(c, a) => match outside {
            Option::Some(r) => r,
            Option::None => b.content,
        },
    }
}

/// The fenced form of a block: ``` ``` ``` and the language tag, the inner
/// text on its own lines, and a closing ``` ``` ```.
pub open spec fn fence_seq(b: Blk, inner: Seq<char>) -> Seq<char> {
    let head = seq!['`', '`', '`'] + b.language + (if b.content.len() > 0 && b.content[0] == '\n' {
        Seq::<char>::empty()
    } else {
        seq!['\n']
    }) + inner;
    head + (if head.last() == '\n' {
        Seq::<char>::empty()
    } else {
        seq!['\n']
    }) + seq!['`', '`', '`']
}

/// The complete rendering of one code block under `cfg`.
pub open spec fn fenced_block(cfg: CfgV, b: Blk, outside: Option<Seq<char>>) -> Seq<char> {
    fence_seq(b, finish_inner(cfg, b, outside))
}

/// The complete renderings of a code-block list, each paired with its
/// outside result when one was supplied.
pub open spec fn fenced_list(cfg: CfgV, bs: Seq<Blk>, rs: Seq<Option<Seq<char>>>) -> Seq<
    Seq<char>,
> {
    Seq::new(
        bs.len(),
        |i: int|
            fenced_block(
                cfg,
                bs[i],
                if 0 <= i < rs.len() {
                    rs[i]
                } else {
                    Option::None
                },
            ),
    )
}

/// Finishes one code block's content: keeps it, or takes the outside
/// result, as [`finish_inner`] says.
pub fn finish_block(config: &Config, block: &CodeBlock, outside: Option<Vec<char>>) -> (r: Vec<
    char,
>)
    ensures
        r@ == finish_inner(config@, block@, opt_of(outside)),
{
    match plan_block(config, &block.language) {
        BlockAction::Passthrough => copy_chars(&block.content),
        BlockAction::Tex => match outside {
            Option::Some(r) => r,
            Option::None => copy_chars(&block.content),
        },
        BlockAction::Markdown => match outside {
            Option::Some(r) => r,
            Option::None => copy_chars(&block.content),
        },
        BlockAction::Tool(c, a) => match outside {
            Option::Some(r) => r,
            Option::None => copy_chars(&block.content),
        },
    }
}

/// Wraps finished content in fences, with the language tag on the opening
/// fence line and the content closed off by a line feed.
pub fn render_code_fence(block: &CodeBlock, inner: &Vec<char>) -> (r: Vec<char>)
    ensures
        r@ == fence_seq(block@, inner@),
{
    let mut out: Vec<char> = Vec::new();
    out.push('`');
    out.push('`');
    out.push('`');
    push_chars(&mut out, &block.language);
    if !(block.content.len() > 0 && block.content[0] == '\n') {
        out.push('\n');
    }
    push_chars(&mut out, inner);
    proof {
        assert(out@ =~= seq!['`', '`', '`'] + block@.language + (if block@.content.len() > 0
            && block@.content[0] == '\n' {
            Seq::<char>::empty()
        } else {
            seq!['\n']
        }) + inner@);
    }
    let ghost head = out@;
    if !(out.len() > 0 && out[out.len() - 1] == '\n') {
        out.push('\n');
    }
    out.push('`');
    out.push('`');
    out.push('`');
    proof {
        assert(out@ =~= head + (if head.last() == '\n' {
            Seq::<char>::empty()
        } else {
            seq!['\n']
        }) + seq!['`', '`', '`']);
    }
    out
}

// ---------------------------------------------------------------------------
// The render pass
// ---------------------------------------------------------------------------

/// A single space when `b` holds, else nothing.
pub open spec fn space_if(b: bool) -> Seq<char> {
    if b {
        seq![' ']
    } else {
        Seq::empty()
    }
}

/// `level` heading marks.
pub open spec fn hashes(level: nat) -> Seq<char> {
    Seq::new(level, |i: int| '#')
}

/// The token before index `i`, if any.
pub open spec fn prev_of(toks: Seq<Tok>, i: int) -> Option<Tok> {
    if i <= 0 {
        Option::None
    } else {
        Option::Some(toks[i - 1])
    }
}

/// What a block math region wraps between its `$$` fences: its outside
/// layout when entry `m` supplies one, else its own content.
pub open spec fn math_inner(s: Seq<char>, math: Seq<Option<Seq<char>>>, m: int) -> Seq<char> {
    if 0 <= m < math.len() {
        match math[m] {
            Option::Some(r) => r,
            Option::None => s,
        }
    } else {
        s
    }
}

/// The render pass from token `i` on: `prev` is the last emitted token,
/// `k` the index of the next code block, `m` the index of the next block
/// math region, `out` the text built so far.  Headings render their own
/// tokens into an empty buffer with no code blocks and no math layouts,
/// then stand between blank lines like the other block-level constructs.
pub open spec fn render_toks(
    cfg: CfgV,
    toks: Seq<Tok>,
    fenced: Seq<Seq<char>>,
    math: Seq<Option<Seq<char>>>,
    i: int,
    prev: Option<Tok>,
    k: int,
    m: int,
    out: Seq<char>,
) -> Seq<char>
    decreases toks, toks.len() - i,
        via render_toks_decreases
{
    if !(0 <= i < toks.len()) {
        out
    } else {
        let t = toks[i];
        match t {
            Tok::Text(s) => render_toks(
                cfg,
                toks,
                fenced,
                math,
                i + 1,
                Option::Some(t),
                k,
                m,
                out + s,
            ),
            Tok::Chinese(s) => render_toks(
                cfg,
                toks,
                fenced,
                math,
                i + 1,
                Option::Some(t),
                k,
                m,
                out + space_if(needs_space(cfg, prev, t)) + s,
            ),
            Tok::English(s) => render_toks(
                cfg,
                toks,
                fenced,
                math,
                i + 1,
                Option::Some(t),
                k,
                m,
                out + space_if(needs_space(cfg, prev, t)) + s,
            ),
            Tok::Number(s) => render_toks(
                cfg,
                toks,
                fenced,
                math,
                i + 1,
                Option::Some(t),
                k,
                m,
                out + space_if(needs_space(cfg, prev, t)) + s,
            ),
            Tok::InlineMath(s) => render_toks(
                cfg,
                toks,
                fenced,
                math,
                i + 1,
                Option::Some(t),
                k,
                m,
                out + space_if(needs_space(cfg, prev, t)) + seq!['$'] + s + seq!['$'],
            ),
            Tok::InlineCode(s) => render_toks(
                cfg,
                toks,
                fenced,
                math,
                i + 1,
                Option::Some(t),
                k,
                m,
                out + space_if(needs_space(cfg, prev, t)) + seq!['`'] + s + seq!['`'],
            ),
            Tok::BlockMath(s) => render_toks(
                cfg,
                toks,
                fenced,
                math,
                i + 1,
                Option::Some(t),
                k,
                m + 1,
                ensure_empty_line_seq(
                    ensure_empty_line_seq(out) + seq!['$', '$', '\n'] + math_inner(s, math, m)
                        + seq!['\n', '$', '$'],
                ),
            ),
            Tok::NewLine => render_toks(
                cfg,
                toks,
                fenced,
                math,
                i + 1,
                Option::Some(t),
                k,
                m,
                if ends_blank(out) {
                    out
                } else {
                    out + seq!['\n']
                },
            ),
            Tok::CodeBlockPlaceholder => render_toks(
                cfg,
                toks,
                fenced,
                math,
                i + 1,
                Option::Some(t),
                k + 1,
                m,
                ensure_empty_line_seq(
                    if 0 <= k < fenced.len() {
                        ensure_empty_line_seq(out) + fenced[k]
                    } else {
                        ensure_empty_line_seq(out)
                    },
                ),
            ),
            Tok::Title(sub, level) => render_toks(
                cfg,
                toks,
                fenced,
                math,
                i + 1,
                Option::Some(t),
                k,
                m,
                ensure_empty_line_seq(
                    ensure_empty_line_seq(out) + hashes(level) + seq![' '] + render_toks(
                        cfg,
                        sub,
                        Seq::empty(),
                        Seq::empty(),
                        0,
                        Option::None,
                        0,
                        0,
                        Seq::empty(),
                    ),
                ),
            ),
        }
    }
}

#[via_fn]
proof fn render_toks_decreases(
    cfg: CfgV,
    toks: Seq<Tok>,
    fenced: Seq<Seq<char>>,
    math: Seq<Option<Seq<char>>>,
    i: int,
    prev: Option<Tok>,
    k: int,
    m: int,
    out: Seq<char>,
) {
    if 0 <= i < toks.len() {
        let t = toks[i];
        if t is Title {
            assert(decreases_to!(toks => toks[i]));
            assert(decreases_to!(t => t->Title_0));
        }
    }
}

/// The model of an optional borrowed token.
pub open spec fn opt_tok_of(p: Option<&Token>) -> Option<Tok> {
    match p {
        Option::Some(t) => Option::Some(t@),
        Option::None => Option::None,
    }
}

/// The render engine: the configuration it reads and the text it grows.
pub struct Formatter<'a> {
    config: &'a Config,
    output: Vec<char>,
}

impl<'a> Formatter<'a> {
    /// The configuration the pass reads.
    pub closed spec fn cfg(self) -> CfgV {
        self.config@
    }

    /// The text built so far.
    pub closed spec fn out(self) -> Seq<char> {
        self.output@
    }

    /// A fresh render pass over an empty buffer.
    pub fn new(config: &'a Config) -> (r: Formatter<'a>)
        ensures
            r.cfg() == config@,
            r.out() == Seq::<char>::empty(),
    {
        Formatter { config, output: Vec::new() }
    }

    /// Hands the built text over.
    pub fn get_output(self) -> (r: Vec<char>)
        ensures
            r@ == self.out(),
    {
        self.output
    }

    /// Collapses the buffer's trailing line feeds to exactly one blank
    /// line; an empty buffer stays empty.
    fn ensure_empty_line(&mut self)
        ensures
            final(self).cfg() == old(self).cfg(),
            final(self).config == old(self).config,
            final(self).out() == ensure_empty_line_seq(old(self).out()),
    {
        if self.output.len() == 0 {
            return ;
        }
        while self.output.len() > 0 && self.output[self.output.len() - 1] == '\n'
            invariant
                strip_nl(old(self).output@) == strip_nl(self.output@),
                self.config == old(self).config,
            decreases self.output@.len(),
        {
            self.output.pop();
        }
        self.output.push('\n');
        self.output.push('\n');
        proof {
            assert(self.output@ =~= strip_nl(old(self).output@) + seq!['\n', '\n']);
        }
    }

    /// Whether a space is owed before `cur`, after `prev`.
    fn space_needed(config: &Config, prev: Option<&Token>, cur: &Token) -> (r: bool)
        ensures
            r == needs_space(config@, opt_tok_of(prev), cur@),
    {
        let prev_ch = matches!(prev, Option::Some(Token::Chinese(_)));
        let prev_en = matches!(prev, Option::Some(Token::English(_)));
        let prev_num = matches!(prev, Option::Some(Token::Number(_)));
        let prev_im = matches!(prev, Option::Some(Token::InlineMath(_)));
        let prev_ic = matches!(prev, Option::Some(Token::InlineCode(_)));
        match cur {
            Token::Chinese(_) => (config.space_between_zh_and_en && prev_en) || (
            config.space_between_zh_and_num && prev_num) || prev_im || prev_ic,
            Token::English(_) => (config.space_between_zh_and_en && prev_ch) || prev_im || prev_ic,
            Token::Number(_) => (config.space_between_zh_and_num && prev_ch) || prev_im || prev_ic,
            Token::InlineMath(_) => prev_ch || prev_en || prev_num,
            Token::InlineCode(_) => config.space_between_code_and_text && (prev_ch || prev_en
                || prev_num),
            _ => false,
        }
    }

    /// Renders the tokens into the buffer, splicing each code block in
    /// from `code_blocks` finished against its entry of `tool_results`,
    /// and each block math region against its entry of `math_results`.
    pub fn format(
        &mut self,
        tokens: &Vec<Token>,
        code_blocks: &Vec<CodeBlock>,
        tool_results: &Vec<Option<Vec<char>>>,
        math_results: &Vec<Option<Vec<char>>>,
    )
        ensures
            final(self).cfg() == old(self).cfg(),
            final(self).out() == render_toks(
                old(self).cfg(),
                toks_of(tokens@),
                fenced_list(old(self).cfg(), blks_of(code_blocks@), opts_of(tool_results@)),
                opts_of(math_results@),
                0,
                Option::None,
                0,
                0,
                old(self).out(),
            ),
        decreases tokens@,
    {
        let ghost cfgv = self.config@;
        let ghost tv = toks_of(tokens@);
        let ghost fv = fenced_list(cfgv, blks_of(code_blocks@), opts_of(tool_results@));
        let ghost mv = opts_of(math_results@);
        let mut rendered: Vec<Vec<char>> = Vec::new();
        let mut bi: usize = 0;
        while bi < code_blocks.len()
            invariant
                0 <= bi <= code_blocks@.len(),
                rendered@.len() == bi,
                forall|x: int| 0 <= x < bi ==> #[trigger] rendered@[x]@ == fv[x],
                fv == fenced_list(cfgv, blks_of(code_blocks@), opts_of(tool_results@)),
                cfgv == self.config@,
                self.config == old(self).config,
                self.output == old(self).output,
            decreases code_blocks@.len() - bi,
        {
            let b = vec_index(code_blocks, bi);
            let outside: Option<Vec<char>> = if bi < tool_results.len() {
                match vec_index(tool_results, bi) {
                    Option::Some(v) => Option::Some(copy_chars(v)),
                    Option::None => Option::None,
                }
            } else {
                Option::None
            };
            proof {
                assert(opt_of(outside) == (if bi < opts_of(tool_results@).len() {
                    opts_of(tool_results@)[bi as int]
                } else {
                    Option::<Seq<char>>::None
                }));
            }
            let inner = finish_block(self.config, b, outside);
            let fb = render_code_fence(b, &inner);
            rendered.push(fb);
            bi = bi + 1;
        }
        let ghost out0 = self.output@;
        proof {
            lemma_toks_of(tokens@);
        }
        let mut i: usize = 0;
        let mut k: usize = 0;
        let mut m: usize = 0;
        while i < tokens.len()
            invariant
                0 <= i <= tokens@.len(),
                0 <= k <= i,
                0 <= m <= i,
                tv == toks_of(tokens@),
                tv.len() == tokens@.len(),
                forall|x: int| 0 <= x < tokens@.len() ==> tv[x] == tokens@[x]@,
                fv == fenced_list(cfgv, blks_of(code_blocks@), opts_of(tool_results@)),
                mv == opts_of(math_results@),
                mv.len() == math_results@.len(),
                rendered@.len() == fv.len(),
                forall|x: int| 0 <= x < fv.len() ==> #[trigger] rendered@[x]@ == fv[x],
                cfgv == self.config@,
                self.config == old(self).config,
                render_toks(
                    cfgv,
                    tv,
                    fv,
                    mv,
                    i as int,
                    prev_of(tv, i as int),
                    k as int,
                    m as int,
                    self.output@,
                ) == render_toks(cfgv, tv, fv, mv, 0, Option::None, 0, 0, out0),
            decreases tokens@.len() - i,
        {
            let ghost out_pre = self.output@;
            let t = vec_index(tokens, i);
            let prev: Option<&Token> = if i == 0 {
                Option::None
            } else {
                Option::Some(vec_index(tokens, i - 1))
            };
            proof {
                assert(opt_tok_of(prev) == prev_of(tv, i as int));
            }
            match t {
                Token::Text(s) => {
                    push_chars(&mut self.output, s);
                },
                Token::Chinese(s) => {
                    if Self::space_needed(self.config, prev, t) {
                        self.output.push(' ');
                    }
                    push_chars(&mut self.output, s);
                    proof {
                        assert(self.output@ =~= out_pre + space_if(
                            needs_space(cfgv, prev_of(tv, i as int), tv[i as int]),
                        ) + s@);
                    }
                },
                Token::English(s) => {
                    if Self::space_needed(self.config, prev, t) {
                        self.output.push(' ');
                    }
                    push_chars(&mut self.output, s);
                    proof {
                        assert(self.output@ =~= out_pre + space_if(
                            needs_space(cfgv, prev_of(tv, i as int), tv[i as int]),
                        ) + s@);
                    }
                },
                Token::Number(s) => {
                    if Self::space_needed(self.config, prev, t) {
                        self.output.push(' ');
                    }
                    push_chars(&mut self.output, s);
                    proof {
                        assert(self.output@ =~= out_pre + space_if(
                            needs_space(cfgv, prev_of(tv, i as int), tv[i as int]),
                        ) + s@);
                    }
                },
                Token::InlineMath(s) => {
                    if Self::space_needed(self.config, prev, t) {
                        self.output.push(' ');
                    }
                    self.output.push('$');
                    push_chars(&mut self.output, s);
                    self.output.push('$');
                    proof {
                        assert(self.output@ =~= out_pre + space_if(
                            needs_space(cfgv, prev_of(tv, i as int), tv[i as int]),
                        ) + seq!['$'] + s@ + seq!['$']);
                    }
                },
                Token::InlineCode(s) => {
                    if Self::space_needed(self.config, prev, t) {
                        self.output.push(' ');
                    }
                    self.output.push('`');
                    push_chars(&mut self.output, s);
                    self.output.push('`');
                    proof {
                        assert(self.output@ =~= out_pre + space_if(
                            needs_space(cfgv, prev_of(tv, i as int), tv[i as int]),
                        ) + seq!['`'] + s@ + seq!['`']);
                    }
                },
                Token::BlockMath(s) => {
                    self.ensure_empty_line();
                    self.output.push('$');
                    self.output.push('$');
                    self.output.push('\n');
                    let inner: &Vec<char> = if m < math_results.len() {
                        match vec_index(math_results, m) {
                            Option::Some(r) => r,
                            Option::None => s,
                        }
                    } else {
                        s
                    };
                    push_chars(&mut self.output, inner);
                    self.output.push('\n');
                    self.output.push('$');
                    self.output.push('$');
                    proof {
                        assert(inner@ == math_inner(s@, mv, m as int));
                        assert(self.output@ =~= ensure_empty_line_seq(out_pre) + seq![
                            '$',
                            '$',
                            '\n',
                        ] + math_inner(s@, mv, m as int) + seq!['\n', '$', '$']);
                    }
                    self.ensure_empty_line();
                    m = m + 1;
                },
                Token::NewLine => {
                    let len: usize = self.output.len();
                    if !(len >= 2 && self.output[len - 1] == '\n' && self.output[len - 2] == '\n') {
                        self.output.push('\n');
                        proof {
                            assert(self.output@ =~= out_pre + seq!['\n']);
                        }
                    }
                },
                Token::CodeBlockPlaceholder => {
                    self.ensure_empty_line();
                    if k < rendered.len() {
                        let fb = vec_index(&rendered, k);
                        push_chars(&mut self.output, fb);
                    }
                    self.ensure_empty_line();
                    k = k + 1;
                },
                Token::Title(ts, level) => {
                    proof {
                        assert(decreases_to!(tokens@ => tokens@[i as int]));
                        assert(tokens@[i as int] == Token::Title(*ts, *level));
                        assert(decreases_to!(tokens@[i as int] => tokens@[i as int]->Title_0));
                        assert(tokens@[i as int]->Title_0 == *ts);
                        assert(decreases_to!(*ts => ts@));
                    }
                    let mut sub = Formatter::new(self.config);
                    let no_blocks: Vec<CodeBlock> = Vec::new();
                    let no_results: Vec<Option<Vec<char>>> = Vec::new();
                    let no_math: Vec<Option<Vec<char>>> = Vec::new();
                    sub.format(ts, &no_blocks, &no_results, &no_math);
                    proof {
                        assert(fenced_list(cfgv, blks_of(no_blocks@), opts_of(no_results@)) =~= Seq::<
                            Seq<char>,
                        >::empty());
                        assert(opts_of(no_math@) =~= Seq::<Option<Seq<char>>>::empty());
                    }
                    self.ensure_empty_line();
                    let lvl: usize = *level;
                    let mut hs: Vec<char> = Vec::new();
                    let mut h: usize = 0;
                    while h < lvl
                        invariant
                            0 <= h <= lvl,
                            hs@.len() == h,
                            forall|x: int| 0 <= x < h ==> hs@[x] == '#',
                        decreases lvl - h,
                    {
                        hs.push('#');
                        h = h + 1;
                    }
                    proof {
                        assert(hs@ =~= hashes(lvl as nat));
                    }
                    push_chars(&mut self.output, &hs);
                    self.output.push(' ');
                    let body = sub.get_output();
                    push_chars(&mut self.output, &body);
                    proof {
                        assert(self.output@ =~= ensure_empty_line_seq(out_pre) + hashes(
                            lvl as nat,
                        ) + seq![' '] + render_toks(
                            cfgv,
                            toks_of(ts@),
                            Seq::empty(),
                            Seq::empty(),
                            0,
                            Option::None,
                            0,
                            0,
                            Seq::empty(),
                        ));
                    }
                    self.ensure_empty_line();
                },
            }
            i = i + 1;
        }
    }
}

} // verus!
