//! The token model: what the tokenizer produces and what rendering consumes.
//!
//! A document becomes an ordered sequence of [`Token`]s plus a side list of
//! [`CodeBlock`] entries; the `CodeBlockPlaceholder` tokens stand in for the
//! entries in order.  Each executable value has a mathematical model ([`Tok`],
//! [`Blk`]) over `Seq<char>`, reached through the view operator.

use vstd::prelude::*;

verus! {

/// Mathematical model of a token.
pub enum Tok {
    /// An opaque run: anything no other class claims.
    Text(Seq<char>),
    /// A maximal run of CJK ideographs.
    Chinese(Seq<char>),
    /// A maximal run of ASCII letters.
    English(Seq<char>),
    /// A maximal run of ASCII digits and decimal points.
    Number(Seq<char>),
    /// Content between single `$` delimiters.
    InlineMath(Seq<char>),
    /// Content between single backticks.
    InlineCode(Seq<char>),
    /// Content between `$$` delimiters.
    BlockMath(Seq<char>),
    /// A line feed.
    NewLine,
    /// A heading: its own token sequence and its level.
    Title(Seq<Tok>, nat),
    /// Stands in for the next entry of the code-block list.
    CodeBlockPlaceholder,
}

/// A token of the document.  Leaf payloads are the characters of the run.
#[derive(Debug, PartialEq)]
pub enum Token {
    /// An opaque run: anything no other class claims.
    Text(Vec<char>),
    /// A maximal run of CJK ideographs.
    Chinese(Vec<char>),
    /// A maximal run of ASCII letters.
    English(Vec<char>),
    /// A maximal run of ASCII digits and decimal points.
    Number(Vec<char>),
    /// Content between single `$` delimiters.
    InlineMath(Vec<char>),
    /// Content between single backticks.
    InlineCode(Vec<char>),
    /// Content between `$$` delimiters.
    BlockMath(Vec<char>),
    /// A line feed.
    NewLine,
    /// A heading: the tokens of the heading text and the heading level.
    Title(Vec<Token>, usize),
    /// Stands in for the next entry of the code-block list.
    CodeBlockPlaceholder,
}

impl Token {
    /// The model of one token.
    pub open spec fn model(self) -> Tok
        decreases self,
    {
        match self {
            Token::Text(s) => Tok::Text(s@),
            Token::Chinese(s) => Tok::Chinese(s@),
            Token::English(s) => Tok::English(s@),
            Token::Number(s) => Tok::Number(s@),
            Token::InlineMath(s) => Tok::InlineMath(s@),
            Token::InlineCode(s) => Tok::InlineCode(s@),
            Token::BlockMath(s) => Tok::BlockMath(s@),
            Token::NewLine => Tok::NewLine,
            Token::Title(ts, level) => Tok::Title(toks_of(ts@), level as nat),
            Token::CodeBlockPlaceholder => Tok::CodeBlockPlaceholder,
        }
    }
}

impl View for Token {
    type V = Tok;

    open spec fn view(&self) -> Tok {
        self.model()
    }
}

/// The models of a token sequence, in order.
pub open spec fn toks_of(ts: Seq<Token>) -> Seq<Tok>
    decreases ts,
{
    if ts.len() == 0 {
        Seq::empty()
    } else {
        toks_of(ts.drop_last()).push(ts.last().model())
    }
}

pub proof fn lemma_toks_of(ts: Seq<Token>)
    ensures
        toks_of(ts).len() == ts.len(),
        forall|i: int| 0 <= i < ts.len() ==> toks_of(ts)[i] == ts[i].model(),
    decreases ts,
{
    if ts.len() > 0 {
        lemma_toks_of(ts.drop_last());
    }
}

pub proof fn lemma_toks_of_push(ts: Seq<Token>, t: Token)
    ensures
        toks_of(ts.push(t)) == toks_of(ts).push(t.model()),
{
    assert(ts.push(t).drop_last() =~= ts);
    assert(ts.push(t).last() == t);
}

/// One extracted code block: its normalized language tag and its content.
pub struct CodeBlock {
    /// The language tag of the opening fence, trimmed and alias-folded.
    pub language: Vec<char>,
    /// The characters between the fences.
    pub content: Vec<char>,
}

/// Mathematical model of a code block entry.
pub struct Blk {
    /// The language tag of the opening fence, trimmed and alias-folded.
    pub language: Seq<char>,
    /// The characters between the fences.
    pub content: Seq<char>,
}

impl View for CodeBlock {
    type V = Blk;

    open spec fn view(&self) -> Blk {
        Blk { language: self.language@, content: self.content@ }
    }
}

/// The models of a code-block list, in order.
pub open spec fn blks_of(bs: Seq<CodeBlock>) -> Seq<Blk> {
    Seq::new(bs.len(), |i: int| bs[i]@)
}

pub proof fn lemma_blks_of_push(bs: Seq<CodeBlock>, b: CodeBlock)
    ensures
        blks_of(bs.push(b)) == blks_of(bs).push(b@),
{
    assert(blks_of(bs.push(b)) =~= blks_of(bs).push(b@));
}

/// How many placeholder tokens a sequence holds at its own level.
pub open spec fn placeholder_count(ts: Seq<Tok>) -> nat
    decreases ts,
{
    if ts.len() == 0 {
        0
    } else {
        placeholder_count(ts.drop_last()) + (if ts.last() is CodeBlockPlaceholder {
            1nat
        } else {
            0nat
        })
    }
}

pub proof fn lemma_placeholder_count_push(ts: Seq<Tok>, t: Tok)
    ensures
        placeholder_count(ts.push(t)) == placeholder_count(ts) + (if t is CodeBlockPlaceholder {
            1nat
        } else {
            0nat
        }),
{
    assert(ts.push(t).drop_last() =~= ts);
    assert(ts.push(t).last() == t);
}

} // verus!
