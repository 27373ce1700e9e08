//! Properties that hold of the pipeline as a whole, stated and proved over
//! the specification functions the contracts use.

use vstd::prelude::*;

use crate::config::CfgV;
use crate::parser::flush;
use crate::parser::init_state;
use crate::parser::lex;
use crate::parser::lex_all;
use crate::parser::lex_step;
use crate::parser::lemma_step_pos;
use crate::parser::line_blank;
use crate::parser::LexState;
use crate::render::ends_blank;
use crate::render::ensure_empty_line_seq;
use crate::render::needs_space;
use crate::render::render_toks;
use crate::render::space_if;
use crate::render::strip_nl;
use crate::text::char_at_from;
use crate::text::double_dollar_at;
use crate::text::is_chinese_char;
use crate::text::is_digit_char;
use crate::text::is_letter_char;
use crate::text::is_space_char;
use crate::text::lemma_line_break_at_bounds;
use crate::text::lemma_non_hash_at_bounds;
use crate::text::lemma_trim_seq_len;
use crate::text::line_break_at;
use crate::text::non_hash_at;
use crate::text::trim_seq;
use crate::tokens::lemma_placeholder_count_push;
use crate::tokens::placeholder_count;
use crate::tokens::Tok;

verus! {

/// Any pass of the tokenizer keeps the count of placeholder tokens in step
/// with the count of extracted code blocks: each fenced block contributes
/// exactly one of each, and nothing else contributes either.
pub proof fn lemma_lex_placeholder_balance(input: Seq<char>, s: LexState)
    requires
        placeholder_count(s.toks) == s.blocks.len(),
    ensures
        placeholder_count(lex(input, s).toks) == lex(input, s).blocks.len(),
    decreases input.len(), input.len() - s.pos, 1int,
{
    let f = flush(input, s);
    if s.start < s.pos {
        lemma_placeholder_count_push(s.toks, Tok::Text(input.subrange(s.start, s.pos)));
    }
    if !(0 <= s.pos < input.len()) {
    } else if input[s.pos] == '#' {
        let n = input.len() as int;
        let he = non_hash_at(input, s.pos);
        lemma_non_hash_at_bounds(input, s.pos + 1);
        assert(he == non_hash_at(input, s.pos + 1));
        lemma_line_break_at_bounds(input, he);
        let le = line_break_at(input, he);
        lemma_trim_seq_len(input.subrange(he, le));
        if (he < n && !is_space_char(input[he])) || !line_blank(f.toks) {
            lemma_lex_placeholder_balance(
                input,
                LexState { pos: he, start: s.pos, quote: f.quote, toks: f.toks, blocks: f.blocks },
            );
        } else {
            let sub = lex_all(trim_seq(input.subrange(he, le)));
            let title = Tok::Title(sub.toks, (he - s.pos) as nat);
            lemma_placeholder_count_push(f.toks, title);
            lemma_lex_placeholder_balance(
                input,
                LexState {
                    pos: le,
                    start: le,
                    quote: f.quote,
                    toks: f.toks.push(title),
                    blocks: f.blocks,
                },
            );
        }
    } else {
        lemma_step_pos(input, s);
        let s2 = lex_step(input, s);
        let c = input[s.pos];
        let n = input.len() as int;
        if c == '>' {
        } else if c == '$' {
            if s.pos + 1 < n && input[s.pos + 1] == '$' {
                if !s.quote {
                    let j = double_dollar_at(input, s.pos + 2);
                    if j < n {
                        lemma_placeholder_count_push(
                            f.toks,
                            Tok::BlockMath(input.subrange(s.pos + 2, j)),
                        );
                    } else {
                        lemma_placeholder_count_push(
                            f.toks,
                            Tok::BlockMath(input.subrange(s.pos + 2, n)),
                        );
                    }
                }
            } else {
                let j = char_at_from(input, s.pos + 1, '$');
                if j < n {
                    lemma_placeholder_count_push(
                        f.toks,
                        Tok::InlineMath(input.subrange(s.pos + 1, j)),
                    );
                } else {
                    lemma_placeholder_count_push(
                        f.toks,
                        Tok::InlineMath(trim_seq(input.subrange(s.pos + 1, n))),
                    );
                }
            }
        } else if c == '`' {
            if s.pos + 2 < n && input[s.pos + 1] == '`' && input[s.pos + 2] == '`' {
                if !s.quote {
                    lemma_placeholder_count_push(f.toks, Tok::CodeBlockPlaceholder);
                }
            } else {
                let j = char_at_from(input, s.pos + 1, '`');
                if j < n {
                    lemma_placeholder_count_push(
                        f.toks,
                        Tok::InlineCode(trim_seq(input.subrange(s.pos + 1, j))),
                    );
                } else {
                    lemma_placeholder_count_push(
                        f.toks,
                        Tok::InlineCode(input.subrange(s.pos + 1, n)),
                    );
                }
            }
        } else if c == '\r' {
        } else if c == '\n' {
            lemma_placeholder_count_push(f.toks, Tok::NewLine);
        } else if is_letter_char(c) {
            lemma_placeholder_count_push(
                f.toks,
                Tok::English(input.subrange(s.pos, s2.pos)),
            );
        } else if is_digit_char(c) {
            lemma_placeholder_count_push(
                f.toks,
                Tok::Number(input.subrange(s.pos, s2.pos)),
            );
        } else if is_chinese_char(c) {
            lemma_placeholder_count_push(
                f.toks,
                Tok::Chinese(input.subrange(s.pos, s2.pos)),
            );
        }
        assert(placeholder_count(s2.toks) == s2.blocks.len());
        lemma_lex_placeholder_balance(input, s2);
    }
}

/// For every document, the tokenizer produces exactly as many placeholder
/// tokens as code-block entries; the renderer pairs the k-th placeholder
/// with the k-th entry by construction.
pub proof fn lemma_placeholders_match_blocks(input: Seq<char>)
    ensures
        placeholder_count(lex_all(input).toks) == lex_all(input).blocks.len(),
{
    lemma_lex_placeholder_balance(input, init_state());
}

/// While the quote flag is armed, no step of the tokenizer extracts a
/// code block: a fence inside a block quote degrades to literal text.
pub proof fn lemma_quote_suppresses_fences(input: Seq<char>, s: LexState)
    requires
        0 <= s.pos < input.len(),
        s.quote,
    ensures
        lex_step(input, s).blocks == s.blocks,
{
}

/// The pass only appends tokens: everything already produced stays in
/// place.
pub proof fn lemma_lex_extends(input: Seq<char>, s: LexState)
    ensures
        lex(input, s).toks.len() >= s.toks.len(),
        forall|k: int| 0 <= k < s.toks.len() ==> lex(input, s).toks[k] == s.toks[k],
    decreases input.len(), input.len() - s.pos, 1int,
{
    if !(0 <= s.pos < input.len()) {
    } else if input[s.pos] == '#' {
        let he = non_hash_at(input, s.pos);
        lemma_non_hash_at_bounds(input, s.pos + 1);
        assert(he == non_hash_at(input, s.pos + 1));
        lemma_line_break_at_bounds(input, he);
        lemma_trim_seq_len(input.subrange(he, line_break_at(input, he)));
        let s1 = crate::parser::hash_step(input, s);
        crate::parser::lemma_lex_unfold_hash(input, s);
        assert(s1.toks.len() >= s.toks.len() && forall|k: int|
            0 <= k < s.toks.len() ==> s1.toks[k] == s.toks[k]);
        lemma_lex_extends(input, s1);
    } else {
        lemma_step_pos(input, s);
        let s2 = lex_step(input, s);
        crate::parser::lemma_lex_unfold_step(input, s);
        assert(s2.toks.len() >= s.toks.len() && forall|k: int|
            0 <= k < s.toks.len() ==> s2.toks[k] == s.toks[k]);
        lemma_lex_extends(input, s2);
    }
}

/// From any state with the quote flag armed, every placeholder token the
/// rest of the pass produces comes after a line feed token it also
/// produces: a fence on a quoted line opens no code block.
pub proof fn lemma_quote_suppresses_rest(input: Seq<char>, s: LexState)
    requires
        s.quote,
    ensures
        forall|k: int|
            s.toks.len() <= k < lex(input, s).toks.len() && lex(input, s).toks[k]
                is CodeBlockPlaceholder ==> exists|j: int|
                s.toks.len() <= j < k && lex(input, s).toks[j] is NewLine,
    decreases input.len(), input.len() - s.pos, 1int,
{
    let fin = lex(input, s);
    if !(0 <= s.pos < input.len()) {
        assert forall|k: int|
            s.toks.len() <= k < fin.toks.len() && fin.toks[k]
                is CodeBlockPlaceholder implies exists|j: int|
            s.toks.len() <= j < k && fin.toks[j] is NewLine by {
            assert(fin.toks[k] is Text);
        }
    } else if input[s.pos] == '#' {
        let n = input.len() as int;
        let he = non_hash_at(input, s.pos);
        lemma_non_hash_at_bounds(input, s.pos + 1);
        assert(he == non_hash_at(input, s.pos + 1));
        lemma_line_break_at_bounds(input, he);
        let le = line_break_at(input, he);
        lemma_trim_seq_len(input.subrange(he, le));
        let s1 = crate::parser::hash_step(input, s);
        crate::parser::lemma_lex_unfold_hash(input, s);
        lemma_lex_extends(input, s1);
        lemma_quote_suppresses_rest(input, s1);
        assert forall|k: int|
            s.toks.len() <= k < fin.toks.len() && fin.toks[k]
                is CodeBlockPlaceholder implies exists|j: int|
            s.toks.len() <= j < k && fin.toks[j] is NewLine by {
            if k < s1.toks.len() {
                assert(fin.toks[k] == s1.toks[k]);
                assert(!(s1.toks[k] is CodeBlockPlaceholder));
            }
        }
    } else {
        lemma_step_pos(input, s);
        let s2 = lex_step(input, s);
        crate::parser::lemma_lex_unfold_step(input, s);
        lemma_lex_extends(input, s2);
        if input[s.pos] == '\n' {
            let jn = s2.toks.len() - 1;
            assert(s2.toks[jn] is NewLine);
            assert(fin.toks[jn] == s2.toks[jn]);
            assert forall|k: int|
                s.toks.len() <= k < fin.toks.len() && fin.toks[k]
                    is CodeBlockPlaceholder implies exists|j: int|
                s.toks.len() <= j < k && fin.toks[j] is NewLine by {
                if k < s2.toks.len() {
                    assert(fin.toks[k] == s2.toks[k]);
                    assert(!(s2.toks[k] is CodeBlockPlaceholder));
                } else {
                    assert(s.toks.len() <= jn < k && fin.toks[jn] is NewLine);
                }
            }
        } else {
            assert(s2.quote);
            lemma_quote_suppresses_rest(input, s2);
            assert forall|k: int|
                s.toks.len() <= k < fin.toks.len() && fin.toks[k]
                    is CodeBlockPlaceholder implies exists|j: int|
                s.toks.len() <= j < k && fin.toks[j] is NewLine by {
                if k < s2.toks.len() {
                    assert(fin.toks[k] == s2.toks[k]);
                    assert(!(s2.toks[k] is CodeBlockPlaceholder));
                }
            }
        }
    }
}

/// Spacing between an English run and a following Chinese run follows the
/// zh-en toggle: one space when it is on, none when it is off; and the
/// mirrored pair behaves the same.
pub proof fn lemma_zh_en_spacing(
    cfg: CfgV,
    en: Seq<char>,
    zh: Seq<char>,
    fenced: Seq<Seq<char>>,
    math: Seq<Option<Seq<char>>>,
)
    ensures
        render_toks(
            cfg,
            seq![Tok::English(en), Tok::Chinese(zh)],
            fenced,
            math,
            0,
            Option::None,
            0,
            0,
            Seq::empty(),
        ) == en + space_if(cfg.zh_en) + zh,
        render_toks(
            cfg,
            seq![Tok::Chinese(zh), Tok::English(en)],
            fenced,
            math,
            0,
            Option::None,
            0,
            0,
            Seq::empty(),
        ) == zh + space_if(cfg.zh_en) + en,
{
    reveal_with_fuel(render_toks, 4);
    assert(Seq::<char>::empty() + space_if(false) + en =~= en);
    assert(Seq::<char>::empty() + space_if(false) + zh =~= zh);
}

/// Spacing between a Chinese run and a following numeric run follows the
/// zh-num toggle: one space when it is on, none when it is off.
pub proof fn lemma_zh_num_spacing(
    cfg: CfgV,
    zh: Seq<char>,
    num: Seq<char>,
    fenced: Seq<Seq<char>>,
    math: Seq<Option<Seq<char>>>,
)
    ensures
        render_toks(
            cfg,
            seq![Tok::Chinese(zh), Tok::Number(num)],
            fenced,
            math,
            0,
            Option::None,
            0,
            0,
            Seq::empty(),
        ) == zh + space_if(cfg.zh_num) + num,
{
    reveal_with_fuel(render_toks, 4);
    assert(Seq::<char>::empty() + space_if(false) + zh =~= zh);
}

/// Spacing between a Chinese run and adjacent inline math is owed under
/// every configuration, whatever the toggles say.
pub proof fn lemma_math_spacing_unconditional(
    cfg: CfgV,
    zh: Seq<char>,
    m: Seq<char>,
    fenced: Seq<Seq<char>>,
    math: Seq<Option<Seq<char>>>,
)
    ensures
        render_toks(
            cfg,
            seq![Tok::Chinese(zh), Tok::InlineMath(m)],
            fenced,
            math,
            0,
            Option::None,
            0,
            0,
            Seq::empty(),
        ) == zh + seq![' ', '$'] + m + seq!['$'],
{
    reveal_with_fuel(render_toks, 4);
    assert(needs_space(cfg, Option::Some(Tok::Chinese(zh)), Tok::InlineMath(m)));
    assert(Seq::<char>::empty() + space_if(false) + zh =~= zh);
    assert(zh + space_if(true) + seq!['$'] + m + seq!['$'] =~= zh + seq![' ', '$'] + m + seq![
        '$',
    ]);
}

/// Rendering a line feed onto a buffer that already ends with a blank line
/// leaves the buffer unchanged: newline runs collapse to one blank line.
pub proof fn lemma_newline_collapse(
    cfg: CfgV,
    toks: Seq<Tok>,
    fenced: Seq<Seq<char>>,
    math: Seq<Option<Seq<char>>>,
    i: int,
    prev: Option<Tok>,
    k: int,
    m: int,
    out: Seq<char>,
)
    requires
        0 <= i < toks.len(),
        toks[i] is NewLine,
        ends_blank(out),
    ensures
        render_toks(cfg, toks, fenced, math, i, prev, k, m, out) == render_toks(
            cfg,
            toks,
            fenced,
            math,
            i + 1,
            Option::Some(toks[i]),
            k,
            m,
            out,
        ),
{
}

/// A run of line feed tokens.
pub open spec fn newlines(n: nat) -> Seq<Tok> {
    Seq::new(n, |i: int| Tok::NewLine)
}

/// Rendering line feeds onto a buffer that ends with a blank line leaves
/// the buffer unchanged.
pub proof fn lemma_newlines_noop(
    cfg: CfgV,
    toks: Seq<Tok>,
    fenced: Seq<Seq<char>>,
    math: Seq<Option<Seq<char>>>,
    i: int,
    prev: Option<Tok>,
    k: int,
    m: int,
    out: Seq<char>,
)
    requires
        ends_blank(out),
        0 <= i <= toks.len(),
        forall|x: int| i <= x < toks.len() ==> toks[x] is NewLine,
    ensures
        render_toks(cfg, toks, fenced, math, i, prev, k, m, out) == out,
    decreases toks.len() - i,
{
    if i < toks.len() {
        lemma_newlines_noop(cfg, toks, fenced, math, i + 1, Option::Some(toks[i]), k, m, out);
    }
}

/// A run of two or more line feeds renders exactly as a run of two: the
/// input's newline runs collapse to at most one blank line in the output.
pub proof fn lemma_newline_run_collapses(
    cfg: CfgV,
    fenced: Seq<Seq<char>>,
    math: Seq<Option<Seq<char>>>,
    n: nat,
    prev: Option<Tok>,
    k: int,
    m: int,
    out: Seq<char>,
)
    requires
        n >= 2,
    ensures
        render_toks(cfg, newlines(n), fenced, math, 0, prev, k, m, out) == render_toks(
            cfg,
            newlines(2),
            fenced,
            math,
            0,
            prev,
            k,
            m,
            out,
        ),
{
    let out1 = if ends_blank(out) {
        out
    } else {
        out + seq!['\n']
    };
    let out2 = if ends_blank(out1) {
        out1
    } else {
        out1 + seq!['\n']
    };
    assert(ends_blank(out2));
    reveal_with_fuel(render_toks, 3);
    assert(render_toks(cfg, newlines(n), fenced, math, 0, prev, k, m, out) == render_toks(
        cfg,
        newlines(n),
        fenced,
        math,
        2,
        Option::Some(Tok::NewLine),
        k,
        m,
        out2,
    ));
    assert(render_toks(cfg, newlines(2), fenced, math, 0, prev, k, m, out) == render_toks(
        cfg,
        newlines(2),
        fenced,
        math,
        2,
        Option::Some(Tok::NewLine),
        k,
        m,
        out2,
    ));
    lemma_newlines_noop(
        cfg,
        newlines(n),
        fenced,
        math,
        2,
        Option::Some(Tok::NewLine),
        k,
        m,
        out2,
    );
    lemma_newlines_noop(
        cfg,
        newlines(2),
        fenced,
        math,
        2,
        Option::Some(Tok::NewLine),
        k,
        m,
        out2,
    );
}

/// Stripping trailing line feeds leaves a text that ends in none.
pub proof fn lemma_strip_nl_no_tail(s: Seq<char>)
    ensures
        strip_nl(s).len() == 0 || strip_nl(s).last() != '\n',
        strip_nl(s).len() <= s.len(),
    decreases s,
{
    if s.len() > 0 && s.last() == '\n' {
        lemma_strip_nl_no_tail(s.drop_last());
    }
}

/// The blank line ensured around a block-level construct is exact: the
/// collapsed buffer ends with two line feeds and never with three.
pub proof fn lemma_ensure_empty_line_exact(out: Seq<char>)
    requires
        out.len() > 0,
    ensures
        ends_blank(ensure_empty_line_seq(out)),
        ensure_empty_line_seq(out).len() >= 3 ==> ensure_empty_line_seq(out)[ensure_empty_line_seq(
            out,
        ).len() - 3] != '\n',
{
    lemma_strip_nl_no_tail(out);
}

} // verus!

