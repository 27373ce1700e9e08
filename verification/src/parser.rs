//! The tokenizer: one forward pass from characters to tokens.
//!
//! The pass is specified by the recursive function [`lex`] over a small
//! cursor state.  Structural markers (`>`, `$`, `` ` ``, `#`, line breaks)
//! take precedence over character-class runs; everything else accumulates
//! into a pending `Text` run that is flushed when a marker or run begins.
//! A `>` on an otherwise blank line arms a quote flag that suppresses
//! block-level math and code fences until the next line feed.  Headings
//! recursively tokenize the rest of their line as a sub-document.
//! Unterminated constructs consume the remaining input and never fail.

use vstd::prelude::*;
use vstd::std_specs::vec::vec_index;

use crate::dispatch::normalize_language;
use crate::dispatch::normalize_language_spec;
use crate::text::char_at_from;
use crate::text::double_dollar_at;
use crate::text::is_chinese;
use crate::text::is_chinese_char;
use crate::text::is_digit;
use crate::text::is_digit_char;
use crate::text::is_letter;
use crate::text::is_letter_char;
use crate::text::is_space;
use crate::text::is_space_char;
use crate::text::lemma_char_at_from_bounds;
use crate::text::lemma_double_dollar_at_bounds;
use crate::text::lemma_line_break_at_bounds;
use crate::text::lemma_non_chinese_at_bounds;
use crate::text::lemma_non_hash_at_bounds;
use crate::text::lemma_non_letter_at_bounds;
use crate::text::lemma_non_number_at_bounds;
use crate::text::lemma_trim_seq_len;
use crate::text::lemma_triple_tick_at_bounds;
use crate::text::line_break_at;
use crate::text::non_chinese_at;
use crate::text::non_hash_at;
use crate::text::non_letter_at;
use crate::text::non_number_at;
use crate::text::scan_char;
use crate::text::scan_double_dollar;
use crate::text::scan_line_break;
use crate::text::scan_non_chinese;
use crate::text::scan_non_hash;
use crate::text::scan_non_letter;
use crate::text::scan_non_number;
use crate::text::scan_triple_tick;
use crate::text::str_to_chars;
use crate::text::subrange_chars;
use crate::text::trim_chars;
use crate::text::trim_seq;
use crate::text::triple_tick_at;
use crate::text::ws_only;
use crate::text::ws_only_chars;
use crate::tokens::Blk;
use crate::tokens::CodeBlock;
use crate::tokens::Tok;
use crate::tokens::Token;
use crate::tokens::blks_of;
use crate::tokens::lemma_blks_of_push;
use crate::tokens::lemma_toks_of;
use crate::tokens::lemma_toks_of_push;
use crate::tokens::toks_of;

verus! {

/// The tokenizer's cursor state: position, start of the pending text run,
/// the quote flag, and what has been produced so far.
#[verifier::ext_equal]
pub struct LexState {
    /// Index of the next character to classify.
    pub pos: int,
    /// Start of the pending, not yet flushed, `Text` run.
    pub start: int,
    /// Whether the cursor stands inside a block quote on the current line.
    pub quote: bool,
    /// The tokens produced so far.
    pub toks: Seq<Tok>,
    /// The code blocks extracted so far.
    pub blocks: Seq<Blk>,
}

/// The state a tokenization starts from.
pub open spec fn init_state() -> LexState {
    LexState { pos: 0, start: 0, quote: false, toks: Seq::empty(), blocks: Seq::empty() }
}

/// Pushes the pending text run, if any, as a `Text` token.
pub open spec fn flush(input: Seq<char>, s: LexState) -> LexState {
    if s.start < s.pos {
        LexState {
            pos: s.pos,
            start: s.pos,
            quote: s.quote,
            toks: s.toks.push(Tok::Text(input.subrange(s.start, s.pos))),
            blocks: s.blocks,
        }
    } else {
        LexState { pos: s.pos, start: s.pos, quote: s.quote, toks: s.toks, blocks: s.blocks }
    }
}

/// Whether the line being read holds only white space so far: every token
/// back to the nearest line feed (or the start of the document) is a
/// white-space-only `Text`.
pub open spec fn line_blank(toks: Seq<Tok>) -> bool
    decreases toks,
{
    if toks.len() == 0 {
        true
    } else {
        match toks.last() {
            Tok::NewLine => true,
            Tok::Text(s) => ws_only(s) && line_blank(toks.drop_last()),
            _ => false,
        }
    }
}

/// One step of the tokenizer on any character but `#`, which [`lex`]
/// handles itself.  Requires `0 <= s.pos < input.len()` to be meaningful.
pub open spec fn lex_step(input: Seq<char>, s: LexState) -> LexState {
    let c = input[s.pos];
    let n = input.len() as int;
    let f = flush(input, s);
    if c == '>' {
        LexState {
            pos: s.pos + 1,
            start: s.pos,
            quote: f.quote || line_blank(f.toks),
            toks: f.toks,
            blocks: f.blocks,
        }
    } else if c == '$' {
        if s.pos + 1 < n && input[s.pos + 1] == '$' {
            if s.quote {
                LexState { pos: s.pos + 2, start: s.pos, quote: f.quote, toks: f.toks, blocks: f.blocks }
            } else {
                let j = double_dollar_at(input, s.pos + 2);
                if j < n {
                    LexState {
                        pos: j + 2,
                        start: j + 2,
                        quote: f.quote,
                        toks: f.toks.push(Tok::BlockMath(input.subrange(s.pos + 2, j))),
                        blocks: f.blocks,
                    }
                } else {
                    LexState {
                        pos: n,
                        start: n,
                        quote: f.quote,
                        toks: f.toks.push(Tok::BlockMath(input.subrange(s.pos + 2, n))),
                        blocks: f.blocks,
                    }
                }
            }
        } else {
            let j = char_at_from(input, s.pos + 1, '$');
            if j < n {
                LexState {
                    pos: j + 1,
                    start: j + 1,
                    quote: f.quote,
                    toks: f.toks.push(Tok::InlineMath(input.subrange(s.pos + 1, j))),
                    blocks: f.blocks,
                }
            } else {
                LexState {
                    pos: n,
                    start: n,
                    quote: f.quote,
                    toks: f.toks.push(Tok::InlineMath(trim_seq(input.subrange(s.pos + 1, n)))),
                    blocks: f.blocks,
                }
            }
        }
    } else if c == '`' {
        if s.pos + 2 < n && input[s.pos + 1] == '`' && input[s.pos + 2] == '`' {
            if s.quote {
                LexState { pos: s.pos + 3, start: s.pos, quote: f.quote, toks: f.toks, blocks: f.blocks }
            } else {
                let j = char_at_from(input, s.pos + 3, '\n');
                let lang_raw = if j < n {
                    input.subrange(s.pos + 3, j)
                } else {
                    Seq::<char>::empty()
                };
                let cstart = if j < n {
                    j + 1
                } else {
                    n
                };
                let k = triple_tick_at(input, cstart);
                let content = if k < n {
                    input.subrange(cstart, k)
                } else {
                    input.subrange(cstart, n)
                };
                let after = if k < n {
                    k + 3
                } else {
                    n
                };
                LexState {
                    pos: after,
                    start: after,
                    quote: f.quote,
                    toks: f.toks.push(Tok::CodeBlockPlaceholder),
                    blocks: f.blocks.push(
                        Blk { language: normalize_language_spec(trim_seq(lang_raw)), content },
                    ),
                }
            }
        } else {
            let j = char_at_from(input, s.pos + 1, '`');
            if j < n {
                LexState {
                    pos: j + 1,
                    start: j + 1,
                    quote: f.quote,
                    toks: f.toks.push(Tok::InlineCode(trim_seq(input.subrange(s.pos + 1, j)))),
                    blocks: f.blocks,
                }
            } else {
                LexState {
                    pos: n,
                    start: n,
                    quote: f.quote,
                    toks: f.toks.push(Tok::InlineCode(input.subrange(s.pos + 1, n))),
                    blocks: f.blocks,
                }
            }
        }
    } else if c == '\r' {
        LexState { pos: s.pos + 1, start: s.pos + 1, quote: f.quote, toks: f.toks, blocks: f.blocks }
    } else if c == '\n' {
        LexState {
            pos: s.pos + 1,
            start: s.pos + 1,
            quote: false,
            toks: f.toks.push(Tok::NewLine),
            blocks: f.blocks,
        }
    } else if is_letter_char(c) {
        let j = non_letter_at(input, s.pos);
        LexState {
            pos: j,
            start: j,
            quote: f.quote,
            toks: f.toks.push(Tok::English(input.subrange(s.pos, j))),
            blocks: f.blocks,
        }
    } else if is_digit_char(c) {
        let j = non_number_at(input, s.pos);
        LexState {
            pos: j,
            start: j,
            quote: f.quote,
            toks: f.toks.push(Tok::Number(input.subrange(s.pos, j))),
            blocks: f.blocks,
        }
    } else if is_chinese_char(c) {
        let j = non_chinese_at(input, s.pos);
        LexState {
            pos: j,
            start: j,
            quote: f.quote,
            toks: f.toks.push(Tok::Chinese(input.subrange(s.pos, j))),
            blocks: f.blocks,
        }
    } else {
        LexState { pos: s.pos + 1, start: s.start, quote: s.quote, toks: s.toks, blocks: s.blocks }
    }
}

/// Runs the tokenizer from `s` to the end of `input`.  A `#` run is
/// examined here: it opens a heading only when the following character is
/// white space (or the input ends) and the line so far is blank; the rest
/// of the line, trimmed, is then tokenized as a sub-document.
pub open spec fn lex(input: Seq<char>, s: LexState) -> LexState
    decreases input.len(), input.len() - s.pos, 1int,
        via lex_decreases
{
    if !(0 <= s.pos < input.len()) {
        flush(input, s)
    } else if input[s.pos] == '#' {
        let n = input.len() as int;
        let f = flush(input, s);
        let he = non_hash_at(input, s.pos);
        if (he < n && !is_space_char(input[he])) || !line_blank(f.toks) {
            lex(
                input,
                LexState { pos: he, start: s.pos, quote: f.quote, toks: f.toks, blocks: f.blocks },
            )
        } else {
            let le = line_break_at(input, he);
            let sub = lex_all(trim_seq(input.subrange(he, le)));
            lex(
                input,
                LexState {
                    pos: le,
                    start: le,
                    quote: f.quote,
                    toks: f.toks.push(Tok::Title(sub.toks, (he - s.pos) as nat)),
                    blocks: f.blocks,
                },
            )
        }
    } else {
        lex(input, lex_step(input, s))
    }
}

/// The tokenization of a whole document.
pub open spec fn lex_all(input: Seq<char>) -> LexState
    decreases input.len(), input.len() + 1, 0int,
{
    lex(input, init_state())
}

/// After one step the cursor has advanced and still stands inside the input.
pub proof fn lemma_step_pos(input: Seq<char>, s: LexState)
    requires
        0 <= s.pos < input.len(),
        input[s.pos] != '#',
    ensures
        s.pos < lex_step(input, s).pos <= input.len(),
{
    let c = input[s.pos];
    let n = input.len() as int;
    if c == '$' {
        if s.pos + 1 < n && input[s.pos + 1] == '$' {
            if !s.quote {
                lemma_double_dollar_at_bounds(input, s.pos + 2);
            }
        } else {
            lemma_char_at_from_bounds(input, s.pos + 1, '$');
        }
    } else if c == '`' {
        if s.pos + 2 < n && input[s.pos + 1] == '`' && input[s.pos + 2] == '`' {
            if !s.quote {
                lemma_char_at_from_bounds(input, s.pos + 3, '\n');
                let j = char_at_from(input, s.pos + 3, '\n');
                let cstart = if j < n {
                    j + 1
                } else {
                    n
                };
                lemma_triple_tick_at_bounds(input, cstart);
            }
        } else {
            lemma_char_at_from_bounds(input, s.pos + 1, '`');
        }
    } else if is_letter_char(c) {
        lemma_non_letter_at_bounds(input, s.pos + 1);
        assert(non_letter_at(input, s.pos) == non_letter_at(input, s.pos + 1));
    } else if is_digit_char(c) {
        lemma_non_number_at_bounds(input, s.pos + 1);
        assert(non_number_at(input, s.pos) == non_number_at(input, s.pos + 1));
    } else if is_chinese_char(c) {
        lemma_non_chinese_at_bounds(input, s.pos + 1);
        assert(non_chinese_at(input, s.pos) == non_chinese_at(input, s.pos + 1));
    }
}

#[via_fn]
proof fn lex_decreases(input: Seq<char>, s: LexState) {
    if 0 <= s.pos < input.len() {
        if input[s.pos] == '#' {
            let n = input.len() as int;
            let he = non_hash_at(input, s.pos);
            lemma_non_hash_at_bounds(input, s.pos + 1);
            assert(he == non_hash_at(input, s.pos + 1));
            lemma_line_break_at_bounds(input, he);
            let le = line_break_at(input, he);
            lemma_trim_seq_len(input.subrange(he, le));
        } else {
            lemma_step_pos(input, s);
        }
    }
}

/// The tokenizer's step on a `#` run: what [`lex`] does there, as one state.
pub open spec fn hash_step(input: Seq<char>, s: LexState) -> LexState {
    let n = input.len() as int;
    let f = flush(input, s);
    let he = non_hash_at(input, s.pos);
    if (he < n && !is_space_char(input[he])) || !line_blank(f.toks) {
        LexState { pos: he, start: s.pos, quote: f.quote, toks: f.toks, blocks: f.blocks }
    } else {
        let le = line_break_at(input, he);
        let sub = lex_all(trim_seq(input.subrange(he, le)));
        LexState {
            pos: le,
            start: le,
            quote: f.quote,
            toks: f.toks.push(Tok::Title(sub.toks, (he - s.pos) as nat)),
            blocks: f.blocks,
        }
    }
}

/// One pass of [`lex`] from a state with the cursor on a character unfolds
/// to one pass from the state after the step on that character.
pub proof fn lemma_lex_unfold_step(input: Seq<char>, s: LexState)
    requires
        0 <= s.pos < input.len(),
        input[s.pos] != '#',
    ensures
        lex(input, s) == lex(input, lex_step(input, s)),
{
}

/// Like [`lemma_lex_unfold_step`], for a `#` run.
pub proof fn lemma_lex_unfold_hash(input: Seq<char>, s: LexState)
    requires
        0 <= s.pos < input.len(),
        input[s.pos] == '#',
    ensures
        lex(input, s) == lex(input, hash_step(input, s)),
{
}

/// The tokenizer: a cursor over the input and what it has produced.
pub struct Parser {
    input: Vec<char>,
    pos: usize,
    start: usize,
    quote: bool,
    tokens: Vec<Token>,
    code_blocks: Vec<CodeBlock>,
}

impl Parser {
    /// The input being tokenized.
    pub closed spec fn inp(self) -> Seq<char> {
        self.input@
    }

    /// The cursor state, as the specification sees it.
    pub closed spec fn st(self) -> LexState {
        LexState {
            pos: self.pos as int,
            start: self.start as int,
            quote: self.quote,
            toks: toks_of(self.tokens@),
            blocks: blks_of(self.code_blocks@),
        }
    }

    /// The cursor stands inside the input, behind the pending run's start.
    pub closed spec fn wf(self) -> bool {
        self.start <= self.pos <= self.input@.len()
    }

    /// A fresh parser over the given characters.
    pub fn new_from_chars(input: Vec<char>) -> (r: Parser)
        ensures
            r.wf(),
            r.inp() == input@,
            r.st() == init_state(),
    {
        let r = Parser {
            input,
            pos: 0,
            start: 0,
            quote: false,
            tokens: Vec::new(),
            code_blocks: Vec::new(),
        };
        proof {
            assert(blks_of(r.code_blocks@) =~= Seq::<crate::tokens::Blk>::empty());
            assert(r.st() =~= init_state());
        }
        r
    }

    /// A fresh parser over the characters of `input`.
    pub fn new(input: &str) -> (r: Parser)
        ensures
            r.wf(),
            r.inp() == input@,
            r.st() == init_state(),
    {
        Parser::new_from_chars(str_to_chars(input))
    }

    /// The tokens produced so far.
    pub fn get_tokens(&self) -> (r: &Vec<Token>)
        ensures
            toks_of(r@) == self.st().toks,
    {
        &self.tokens
    }

    /// The code blocks extracted so far, in placeholder order.
    pub fn get_code_blocks(&self) -> (r: &Vec<CodeBlock>)
        ensures
            blks_of(r@) == self.st().blocks,
    {
        &self.code_blocks
    }

    /// Pushes the pending text run, if any, as a `Text` token.
    fn flush_text(&mut self)
        requires
            old(self).wf(),
        ensures
            final(self).wf(),
            final(self).inp() == old(self).inp(),
            final(self).st() == flush(old(self).inp(), old(self).st()),
            final(self).pos == old(self).pos,
            final(self).input == old(self).input,
    {
        if self.start < self.pos {
            let t = subrange_chars(&self.input, self.start, self.pos);
            proof {
                lemma_toks_of_push(self.tokens@, Token::Text(t));
            }
            self.tokens.push(Token::Text(t));
        }
        self.start = self.pos;
        proof {
            assert(final(self).st() =~= flush(old(self).inp(), old(self).st()));
        }
    }

    /// Whether the line being read holds only white space so far.
    fn line_blank_exec(&self) -> (r: bool)
        ensures
            r == line_blank(toks_of(self.tokens@)),
    {
        proof {
            lemma_toks_of(self.tokens@);
            assert(toks_of(self.tokens@).take(self.tokens@.len() as int) =~= toks_of(
                self.tokens@,
            ));
        }
        let mut i: usize = self.tokens.len();
        loop
            invariant
                0 <= i <= self.tokens@.len(),
                line_blank(toks_of(self.tokens@)) == line_blank(
                    toks_of(self.tokens@).take(i as int),
                ),
            decreases i,
        {
            if i == 0 {
                proof {
                    assert(toks_of(self.tokens@).take(0).len() == 0);
                }
                return true;
            }
            let ghost all = toks_of(self.tokens@);
            proof {
                lemma_toks_of(self.tokens@);
                assert(all.take(i as int).last() == all[i - 1]);
                assert(all.take(i as int).drop_last() =~= all.take(i - 1));
            }
            let t = vec_index(&self.tokens, i - 1);
            match t {
                Token::NewLine => {
                    return true;
                },
                Token::Text(s) => {
                    if ws_only_chars(s) {
                        i = i - 1;
                    } else {
                        return false;
                    }
                },
                _ => {
                    return false;
                },
            }
        }
    }

    /// Handles a `>`: arms the quote flag when the line so far is blank.
    fn judge_quote_start(&mut self)
        requires
            old(self).wf(),
            old(self).pos < old(self).input@.len(),
            old(self).input@[old(self).pos as int] == '>',
        ensures
            final(self).wf(),
            final(self).inp() == old(self).inp(),
            old(self).pos < final(self).pos,
            final(self).st() == lex_step(old(self).inp(), old(self).st()),
    {
        let ghost s0 = self.st();
        let ghost inp = self.inp();
        self.flush_text();
        let blank = self.line_blank_exec();
        self.quote = self.quote || blank;
        proof {
            vstd::std_specs::vec::axiom_spec_len(&self.input);
        }
        self.pos = self.pos + 1;
        proof {
            assert(self.st() =~= lex_step(inp, s0));
        }
    }

    /// Handles a `$`: block math, inline math, or a suppressed `$$` inside
    /// a quote.
    fn parse_math(&mut self)
        requires
            old(self).wf(),
            old(self).pos < old(self).input@.len(),
            old(self).input@[old(self).pos as int] == '$',
        ensures
            final(self).wf(),
            final(self).inp() == old(self).inp(),
            old(self).pos < final(self).pos,
            final(self).st() == lex_step(old(self).inp(), old(self).st()),
    {
        let ghost s0 = self.st();
        let ghost inp = self.inp();
        self.flush_text();
        let p: usize = self.pos;
        let n: usize = self.input.len();
        if p + 1 < n && self.input[p + 1] == '$' {
            if self.quote {
                self.pos = p + 2;
            } else {
                self.pos = p + 2;
                self.start = p + 2;
                self.parse_block_math();
            }
        } else {
            self.pos = p + 1;
            self.start = p + 1;
            self.parse_inline_math();
        }
        proof {
            assert(self.st() =~= lex_step(inp, s0));
        }
    }

    /// Reads inline math after its opening `$`: to the closing `$`, or,
    /// left unterminated, to the end of the input, trimmed.
    fn parse_inline_math(&mut self)
        requires
            old(self).wf(),
        ensures
            final(self).wf(),
            final(self).inp() == old(self).inp(),
            final(self).quote == old(self).quote,
            old(self).pos <= final(self).pos,
            final(self).st().blocks == old(self).st().blocks,
            ({
                let inp = old(self).inp();
                let p = old(self).pos as int;
                let n = inp.len() as int;
                let j = char_at_from(inp, p, '$');
                &&& final(self).st().toks == old(self).st().toks.push(
                    if j < n {
                        Tok::InlineMath(inp.subrange(p, j))
                    } else {
                        Tok::InlineMath(trim_seq(inp.subrange(p, n)))
                    },
                )
                &&& final(self).pos == if j < n {
                    j + 1
                } else {
                    n
                }
                &&& final(self).start == final(self).pos
            }),
    {
        let p: usize = self.pos;
        let n: usize = self.input.len();
        let j: usize = scan_char(&self.input, p, '$');
        if j < n {
            let t = subrange_chars(&self.input, p, j);
            proof {
                lemma_toks_of_push(self.tokens@, Token::InlineMath(t));
            }
            self.tokens.push(Token::InlineMath(t));
            self.pos = j + 1;
            self.start = j + 1;
        } else {
            let raw = subrange_chars(&self.input, p, n);
            let t = trim_chars(&raw);
            proof {
                lemma_toks_of_push(self.tokens@, Token::InlineMath(t));
            }
            self.tokens.push(Token::InlineMath(t));
            self.pos = n;
            self.start = n;
        }
    }

    /// Reads block math after its opening `$$`: to the closing `$$`, or,
    /// left unterminated, to the end of the input.
    fn parse_block_math(&mut self)
        requires
            old(self).wf(),
        ensures
            final(self).wf(),
            final(self).inp() == old(self).inp(),
            final(self).quote == old(self).quote,
            old(self).pos <= final(self).pos,
            final(self).st().blocks == old(self).st().blocks,
            ({
                let inp = old(self).inp();
                let p = old(self).pos as int;
                let n = inp.len() as int;
                let j = double_dollar_at(inp, p);
                &&& final(self).st().toks == old(self).st().toks.push(
                    if j < n {
                        Tok::BlockMath(inp.subrange(p, j))
                    } else {
                        Tok::BlockMath(inp.subrange(p, n))
                    },
                )
                &&& final(self).pos == if j < n {
                    j + 2
                } else {
                    n
                }
                &&& final(self).start == final(self).pos
            }),
    {
        let p: usize = self.pos;
        let n: usize = self.input.len();
        let j: usize = scan_double_dollar(&self.input, p);
        proof {
            lemma_double_dollar_at_bounds(self.input@, p as int);
        }
        if j < n {
            let t = subrange_chars(&self.input, p, j);
            proof {
                lemma_toks_of_push(self.tokens@, Token::BlockMath(t));
            }
            self.tokens.push(Token::BlockMath(t));
            self.pos = j + 2;
            self.start = j + 2;
        } else {
            let t = subrange_chars(&self.input, p, n);
            proof {
                lemma_toks_of_push(self.tokens@, Token::BlockMath(t));
            }
            self.tokens.push(Token::BlockMath(t));
            self.pos = n;
            self.start = n;
        }
    }

    /// Handles a backtick: a fenced code block, inline code, or a
    /// suppressed fence inside a quote.
    fn parse_code(&mut self)
        requires
            old(self).wf(),
            old(self).pos < old(self).input@.len(),
            old(self).input@[old(self).pos as int] == '`',
        ensures
            final(self).wf(),
            final(self).inp() == old(self).inp(),
            old(self).pos < final(self).pos,
            final(self).st() == lex_step(old(self).inp(), old(self).st()),
    {
        let ghost s0 = self.st();
        let ghost inp = self.inp();
        self.flush_text();
        let p: usize = self.pos;
        let n: usize = self.input.len();
        if n - p > 2 && self.input[p + 1] == '`' && self.input[p + 2] == '`' {
            if self.quote {
                self.pos = p + 3;
            } else {
                self.pos = p + 3;
                self.start = p + 3;
                self.parse_code_block();
            }
        } else {
            self.pos = p + 1;
            self.start = p + 1;
            self.parse_inline_code();
        }
        proof {
            assert(self.st() =~= lex_step(inp, s0));
        }
    }

    /// Reads inline code after its opening backtick: to the closing
    /// backtick, trimmed, or, left unterminated, to the end of the input.
    fn parse_inline_code(&mut self)
        requires
            old(self).wf(),
        ensures
            final(self).wf(),
            final(self).inp() == old(self).inp(),
            final(self).quote == old(self).quote,
            old(self).pos <= final(self).pos,
            final(self).st().blocks == old(self).st().blocks,
            ({
                let inp = old(self).inp();
                let p = old(self).pos as int;
                let n = inp.len() as int;
                let j = char_at_from(inp, p, '`');
                &&& final(self).st().toks == old(self).st().toks.push(
                    if j < n {
                        Tok::InlineCode(trim_seq(inp.subrange(p, j)))
                    } else {
                        Tok::InlineCode(inp.subrange(p, n))
                    },
                )
                &&& final(self).pos == if j < n {
                    j + 1
                } else {
                    n
                }
                &&& final(self).start == final(self).pos
            }),
    {
        let p: usize = self.pos;
        let n: usize = self.input.len();
        let j: usize = scan_char(&self.input, p, '`');
        if j < n {
            let raw = subrange_chars(&self.input, p, j);
            let t = trim_chars(&raw);
            proof {
                lemma_toks_of_push(self.tokens@, Token::InlineCode(t));
            }
            self.tokens.push(Token::InlineCode(t));
            self.pos = j + 1;
            self.start = j + 1;
        } else {
            let t = subrange_chars(&self.input, p, n);
            proof {
                lemma_toks_of_push(self.tokens@, Token::InlineCode(t));
            }
            self.tokens.push(Token::InlineCode(t));
            self.pos = n;
            self.start = n;
        }
    }

    /// Reads a fenced block after its opening ``` ``` ```: the language
    /// tag to the end of its line, the content to the closing fence or,
    /// left unterminated, to the end of the input; records the entry and
    /// leaves a placeholder token in its place.
    fn parse_code_block(&mut self)
        requires
            old(self).wf(),
        ensures
            final(self).wf(),
            final(self).inp() == old(self).inp(),
            final(self).quote == old(self).quote,
            old(self).pos <= final(self).pos,
            ({
                let inp = old(self).inp();
                let p = old(self).pos as int;
                let n = inp.len() as int;
                let j = char_at_from(inp, p, '\n');
                let lang_raw = if j < n {
                    inp.subrange(p, j)
                } else {
                    Seq::<char>::empty()
                };
                let cstart = if j < n {
                    j + 1
                } else {
                    n
                };
                let k = triple_tick_at(inp, cstart);
                let content = if k < n {
                    inp.subrange(cstart, k)
                } else {
                    inp.subrange(cstart, n)
                };
                &&& final(self).st().toks == old(self).st().toks.push(Tok::CodeBlockPlaceholder)
                &&& final(self).st().blocks == old(self).st().blocks.push(
                    Blk {
                        language: normalize_language_spec(trim_seq(lang_raw)),
                        content,
                    },
                )
                &&& final(self).pos == if k < n {
                    k + 3
                } else {
                    n
                }
                &&& final(self).start == final(self).pos
            }),
    {
        let p: usize = self.pos;
        let n: usize = self.input.len();
        let j: usize = scan_char(&self.input, p, '\n');
        let lang_raw: Vec<char> = if j < n {
            subrange_chars(&self.input, p, j)
        } else {
            Vec::new()
        };
        let cstart: usize = if j < n {
            j + 1
        } else {
            n
        };
        let trimmed = trim_chars(&lang_raw);
        let lang = normalize_language(&trimmed);
        let k: usize = scan_triple_tick(&self.input, cstart);
        proof {
            lemma_triple_tick_at_bounds(self.input@, cstart as int);
        }
        let content: Vec<char> = if k < n {
            subrange_chars(&self.input, cstart, k)
        } else {
            subrange_chars(&self.input, cstart, n)
        };
        let blk = CodeBlock { language: lang, content };
        proof {
            lemma_blks_of_push(self.code_blocks@, blk);
            lemma_toks_of_push(self.tokens@, Token::CodeBlockPlaceholder);
        }
        self.code_blocks.push(blk);
        self.tokens.push(Token::CodeBlockPlaceholder);
        let after: usize = if k < n {
            k + 3
        } else {
            n
        };
        self.pos = after;
        self.start = after;
    }

    /// Handles a `#` run: opens a heading when the run is followed by white
    /// space (or the input ends) and the line so far is blank, tokenizing
    /// the rest of the line as a sub-document; otherwise the run stays
    /// literal text.
    fn parse_title(&mut self)
        requires
            old(self).wf(),
            old(self).pos < old(self).input@.len(),
            old(self).input@[old(self).pos as int] == '#',
        ensures
            final(self).wf(),
            final(self).inp() == old(self).inp(),
            old(self).pos < final(self).pos,
            final(self).st() == hash_step(old(self).inp(), old(self).st()),
        decreases old(self).input@.len(), 0int,
    {
        let ghost s0 = self.st();
        let ghost inp = self.inp();
        self.flush_text();
        let p: usize = self.pos;
        let n: usize = self.input.len();
        let he: usize = scan_non_hash(&self.input, p);
        proof {
            assert(non_hash_at(inp, p as int) == non_hash_at(inp, p as int + 1));
            lemma_non_hash_at_bounds(inp, p as int + 1);
        }
        if he < n && !is_space(self.input[he]) {
            self.pos = he;
            proof {
                assert(self.st() =~= hash_step(inp, s0));
            }
            return ;
        }
        if !self.line_blank_exec() {
            self.pos = he;
            proof {
                assert(self.st() =~= hash_step(inp, s0));
            }
            return ;
        }
        let le: usize = scan_line_break(&self.input, he);
        let raw = subrange_chars(&self.input, he, le);
        let ttext = trim_chars(&raw);
        proof {
            lemma_trim_seq_len(raw@);
        }
        let mut sub = Parser::new_from_chars(ttext);
        sub.parse();
        let level: usize = he - p;
        let title = Token::Title(sub.tokens, level);
        proof {
            lemma_toks_of_push(self.tokens@, title);
        }
        self.tokens.push(title);
        self.pos = le;
        self.start = le;
        proof {
            assert(self.st() =~= hash_step(inp, s0));
        }
    }

    /// Handles a run of ASCII letters.
    fn parse_english(&mut self)
        requires
            old(self).wf(),
            old(self).pos < old(self).input@.len(),
            is_letter_char(old(self).input@[old(self).pos as int]),
        ensures
            final(self).wf(),
            final(self).inp() == old(self).inp(),
            old(self).pos < final(self).pos,
            final(self).st() == lex_step(old(self).inp(), old(self).st()),
    {
        let ghost s0 = self.st();
        let ghost inp = self.inp();
        self.flush_text();
        let p: usize = self.pos;
        let j: usize = scan_non_letter(&self.input, p);
        proof {
            assert(non_letter_at(inp, p as int) == non_letter_at(inp, p as int + 1));
            lemma_non_letter_at_bounds(inp, p as int + 1);
        }
        let t = subrange_chars(&self.input, p, j);
        proof {
            lemma_toks_of_push(self.tokens@, Token::English(t));
        }
        self.tokens.push(Token::English(t));
        self.pos = j;
        self.start = j;
        proof {
            assert(self.st() =~= lex_step(inp, s0));
        }
    }

    /// Handles a run of digits and decimal points opened by a digit.
    fn parse_number(&mut self)
        requires
            old(self).wf(),
            old(self).pos < old(self).input@.len(),
            is_digit_char(old(self).input@[old(self).pos as int]),
        ensures
            final(self).wf(),
            final(self).inp() == old(self).inp(),
            old(self).pos < final(self).pos,
            final(self).st() == lex_step(old(self).inp(), old(self).st()),
    {
        let ghost s0 = self.st();
        let ghost inp = self.inp();
        self.flush_text();
        let p: usize = self.pos;
        let j: usize = scan_non_number(&self.input, p);
        proof {
            assert(non_number_at(inp, p as int) == non_number_at(inp, p as int + 1));
            lemma_non_number_at_bounds(inp, p as int + 1);
        }
        let t = subrange_chars(&self.input, p, j);
        proof {
            lemma_toks_of_push(self.tokens@, Token::Number(t));
        }
        self.tokens.push(Token::Number(t));
        self.pos = j;
        self.start = j;
        proof {
            assert(self.st() =~= lex_step(inp, s0));
        }
    }

    /// Handles a run of CJK ideographs.
    fn parse_chinese(&mut self)
        requires
            old(self).wf(),
            old(self).pos < old(self).input@.len(),
            is_chinese_char(old(self).input@[old(self).pos as int]),
        ensures
            final(self).wf(),
            final(self).inp() == old(self).inp(),
            old(self).pos < final(self).pos,
            final(self).st() == lex_step(old(self).inp(), old(self).st()),
    {
        let ghost s0 = self.st();
        let ghost inp = self.inp();
        self.flush_text();
        let p: usize = self.pos;
        let j: usize = scan_non_chinese(&self.input, p);
        proof {
            assert(non_chinese_at(inp, p as int) == non_chinese_at(inp, p as int + 1));
            lemma_non_chinese_at_bounds(inp, p as int + 1);
        }
        let t = subrange_chars(&self.input, p, j);
        proof {
            lemma_toks_of_push(self.tokens@, Token::Chinese(t));
        }
        self.tokens.push(Token::Chinese(t));
        self.pos = j;
        self.start = j;
        proof {
            assert(self.st() =~= lex_step(inp, s0));
        }
    }

    /// Tokenizes the input from the cursor to its end.
    pub fn parse(&mut self)
        requires
            old(self).wf(),
        ensures
            final(self).wf(),
            final(self).inp() == old(self).inp(),
            final(self).st() == lex(old(self).inp(), old(self).st()),
        decreases old(self).inp().len(), 1int,
    {
        while self.pos < self.input.len()
            invariant
                self.wf(),
                self.inp() == old(self).inp(),
                self.input@.len() == old(self).input@.len(),
                lex(self.inp(), self.st()) == lex(old(self).inp(), old(self).st()),
            decreases self.input@.len() - self.pos,
        {
            let ghost pre = self.st();
            let ghost inp = self.inp();
            let c: char = self.input[self.pos];
            if c == '#' {
                self.parse_title();
                proof {
                    lemma_lex_unfold_hash(inp, pre);
                }
            } else {
                if c == '>' {
                    self.judge_quote_start();
                } else if c == '$' {
                    self.parse_math();
                } else if c == '`' {
                    self.parse_code();
                } else if c == '\r' {
                    self.flush_text();
                    self.pos = self.pos + 1;
                    self.start = self.pos;
                    proof {
                        assert(self.st() =~= lex_step(inp, pre));
                    }
                } else if c == '\n' {
                    self.flush_text();
                    proof {
                        lemma_toks_of_push(self.tokens@, Token::NewLine);
                    }
                    self.tokens.push(Token::NewLine);
                    self.pos = self.pos + 1;
                    self.start = self.pos;
                    self.quote = false;
                    proof {
                        assert(self.st() =~= lex_step(inp, pre));
                    }
                } else if is_letter(c) {
                    self.parse_english();
                } else if is_digit(c) {
                    self.parse_number();
                } else if is_chinese(c) {
                    self.parse_chinese();
                } else {
                    self.pos = self.pos + 1;
                    proof {
                        assert(self.st() =~= lex_step(inp, pre));
                    }
                }
                proof {
                    lemma_lex_unfold_step(inp, pre);
                }
            }
        }
        let ghost exit_st = self.st();
        let ghost inp = self.inp();
        self.flush_text();
        proof {
            assert(lex(inp, exit_st) == flush(inp, exit_st));
        }
    }
}

} // verus!
