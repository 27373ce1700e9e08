use mdreflow::normalize_language;
use mdreflow::str_to_chars;
use mdreflow::Parser;
use mdreflow::Token;

fn chars(s: &str) -> Vec<char> {
    s.chars().collect()
}

fn text(v: &Vec<char>) -> String {
    v.iter().collect()
}

fn parse(input: &str) -> Parser {
    let mut p = Parser::new(input);
    p.parse();
    p
}

fn count_placeholders(tokens: &Vec<Token>) -> usize {
    tokens
        .iter()
        .filter(|t| matches!(t, Token::CodeBlockPlaceholder))
        .count()
}

#[test]
fn classifies_scripts_into_runs() {
    let p = parse("Hello\u{4f60}\u{597d}123");
    let tokens = p.get_tokens();
    assert_eq!(tokens.len(), 3);
    assert_eq!(tokens[0], Token::English(chars("Hello")));
    assert_eq!(tokens[1], Token::Chinese(chars("\u{4f60}\u{597d}")));
    assert_eq!(tokens[2], Token::Number(chars("123")));
}

#[test]
fn number_runs_keep_decimal_points() {
    let p = parse("1.2.3");
    assert_eq!(p.get_tokens()[0], Token::Number(chars("1.2.3")));
}

#[test]
fn punctuation_accumulates_as_text() {
    let p = parse("a, b!");
    let tokens = p.get_tokens();
    assert_eq!(tokens[0], Token::English(chars("a")));
    assert_eq!(tokens[1], Token::Text(chars(", ")));
    assert_eq!(tokens[2], Token::English(chars("b")));
    assert_eq!(tokens[3], Token::Text(chars("!")));
}

#[test]
fn heading_at_document_start_becomes_title() {
    let p = parse("# Title");
    let tokens = p.get_tokens();
    assert_eq!(tokens.len(), 1);
    match &tokens[0] {
        Token::Title(inner, level) => {
            assert_eq!(*level, 1);
            assert_eq!(inner.len(), 1);
            assert_eq!(inner[0], Token::English(chars("Title")));
        }
        other => panic!("expected a title, got {:?}", other),
    }
}

#[test]
fn heading_level_counts_marks() {
    let p = parse("x\n### deep");
    let tokens = p.get_tokens();
    assert!(matches!(tokens[2], Token::Title(_, 3)));
}

#[test]
fn hash_inside_line_stays_literal() {
    let p = parse("a#b");
    let tokens = p.get_tokens();
    assert!(tokens.iter().all(|t| !matches!(t, Token::Title(_, _))));
    assert_eq!(tokens[0], Token::English(chars("a")));
    assert_eq!(tokens[1], Token::Text(chars("#")));
    assert_eq!(tokens[2], Token::English(chars("b")));
}

#[test]
fn hash_without_following_space_stays_literal() {
    let p = parse("#tag");
    let tokens = p.get_tokens();
    assert!(tokens.iter().all(|t| !matches!(t, Token::Title(_, _))));
}

#[test]
fn heading_after_text_on_same_line_stays_literal() {
    let p = parse("a # b");
    let tokens = p.get_tokens();
    assert!(tokens.iter().all(|t| !matches!(t, Token::Title(_, _))));
}

#[test]
fn inline_math_is_delimited_by_single_dollars() {
    let p = parse("a$x+y$b");
    let tokens = p.get_tokens();
    assert_eq!(tokens[1], Token::InlineMath(chars("x+y")));
}

#[test]
fn unterminated_inline_math_takes_rest_trimmed() {
    let p = parse("$x ");
    assert_eq!(p.get_tokens()[0], Token::InlineMath(chars("x")));
}

#[test]
fn block_math_is_delimited_by_double_dollars() {
    let p = parse("$$x^2$$");
    assert_eq!(p.get_tokens()[0], Token::BlockMath(chars("x^2")));
}

#[test]
fn inline_code_is_trimmed_when_closed() {
    let p = parse("` code `");
    assert_eq!(p.get_tokens()[0], Token::InlineCode(chars("code")));
}

#[test]
fn code_block_yields_placeholder_and_entry() {
    let p = parse("```rust\nlet a;\n```");
    let tokens = p.get_tokens();
    let blocks = p.get_code_blocks();
    assert_eq!(tokens.len(), 1);
    assert!(matches!(tokens[0], Token::CodeBlockPlaceholder));
    assert_eq!(blocks.len(), 1);
    assert_eq!(text(&blocks[0].language), "rust");
    assert_eq!(text(&blocks[0].content), "let a;\n");
}

#[test]
fn code_block_language_is_normalized() {
    let p = parse("```JavaScript\nx\n```");
    assert_eq!(text(&p.get_code_blocks()[0].language), "js");
}

#[test]
fn unterminated_code_block_takes_rest() {
    let p = parse("```py\nprint");
    let blocks = p.get_code_blocks();
    assert_eq!(text(&blocks[0].language), "py");
    assert_eq!(text(&blocks[0].content), "print");
}

#[test]
fn placeholder_count_matches_entries() {
    let p = parse("a\n```js\nx\n```\nmid\n```py\ny\n```\n$$m$$\nend");
    let tokens = p.get_tokens();
    let blocks = p.get_code_blocks();
    assert_eq!(count_placeholders(tokens), blocks.len());
    assert_eq!(blocks.len(), 2);
    assert_eq!(text(&blocks[0].language), "js");
    assert_eq!(text(&blocks[1].language), "py");
}

#[test]
fn quoted_fence_does_not_open_code_block() {
    let p = parse("> ```rust\nx");
    assert_eq!(p.get_code_blocks().len(), 0);
    assert_eq!(count_placeholders(p.get_tokens()), 0);
}

#[test]
fn quoted_fence_after_earlier_lines_stays_literal() {
    let p = parse("before\n> ```rust\nafter");
    assert_eq!(p.get_code_blocks().len(), 0);
}

#[test]
fn quote_flag_clears_on_next_line() {
    let p = parse("> quoted\n```rust\nx\n```");
    assert_eq!(p.get_code_blocks().len(), 1);
}

#[test]
fn quoted_double_dollar_stays_literal() {
    let p = parse("> $$x$$");
    let tokens = p.get_tokens();
    assert!(tokens.iter().all(|t| !matches!(t, Token::BlockMath(_))));
}

#[test]
fn quote_marker_needs_blank_prefix() {
    let p = parse("a > ```rust\nx\n```");
    assert_eq!(p.get_code_blocks().len(), 1);
}

#[test]
fn carriage_returns_are_dropped() {
    let p = parse("a\r\nb");
    let tokens = p.get_tokens();
    assert_eq!(tokens[0], Token::English(chars("a")));
    assert_eq!(tokens[1], Token::NewLine);
    assert_eq!(tokens[2], Token::English(chars("b")));
}

#[test]
fn double_backtick_is_an_empty_inline_code() {
    let p = parse("a``b");
    assert_eq!(p.get_tokens()[1], Token::InlineCode(chars("")));
}

#[test]
fn unterminated_inline_code_takes_rest_untrimmed() {
    let p = parse("`x ");
    assert_eq!(p.get_tokens()[0], Token::InlineCode(chars("x ")));
}

#[test]
fn unterminated_block_math_takes_rest() {
    let p = parse("$$x");
    assert_eq!(p.get_tokens()[0], Token::BlockMath(chars("x")));
}

#[test]
fn code_block_without_language_line_is_empty() {
    let p = parse("```rust");
    let blocks = p.get_code_blocks();
    assert_eq!(blocks.len(), 1);
    assert_eq!(text(&blocks[0].language), "");
    assert_eq!(text(&blocks[0].content), "");
}

#[test]
fn heading_tokens_nest_for_spacing() {
    let p = parse("# Hello\u{4f60}\u{597d}");
    match &p.get_tokens()[0] {
        Token::Title(inner, 1) => {
            assert_eq!(inner[0], Token::English(chars("Hello")));
            assert_eq!(inner[1], Token::Chinese(chars("\u{4f60}\u{597d}")));
        }
        other => panic!("expected a title, got {:?}", other),
    }
}

#[test]
fn normalize_language_folds_known_aliases() {
    let cases = [
        ("javascript", "js"),
        ("TypeScript", "ts"),
        ("Python", "py"),
        ("c++", "cpp"),
        ("cxx", "cpp"),
        ("golang", "go"),
        ("rb", "ruby"),
        ("yaml", "yml"),
        ("latex", "tex"),
        ("markdown", "md"),
        ("sqlite", "sql"),
        ("shell", "sh"),
        ("bash", "sh"),
        ("zsh", "sh"),
        ("kt", "kotlin"),
        ("sass", "scss"),
    ];
    for (given, expected) in cases {
        assert_eq!(text(&normalize_language(&str_to_chars(given))), expected);
    }
}

#[test]
fn normalize_language_keeps_unknown_tags_as_given() {
    assert_eq!(text(&normalize_language(&str_to_chars("Rust"))), "Rust");
    assert_eq!(text(&normalize_language(&str_to_chars(""))), "");
}
