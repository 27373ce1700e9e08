use mdreflow::finish_block;
use mdreflow::format_string;
use mdreflow::get_formatter_command;
use mdreflow::plan_block;
use mdreflow::render_code_fence;
use mdreflow::str_to_chars;
use mdreflow::BlockAction;
use mdreflow::CodeBlock;
use mdreflow::Config;

fn chars(s: &str) -> Vec<char> {
    s.chars().collect()
}

fn text(v: &Vec<char>) -> String {
    v.iter().collect()
}

fn run(input: &str, config: &Config) -> String {
    text(&format_string(input, config, &Vec::new(), &Vec::new()))
}

fn run_with(input: &str, config: &Config, results: Vec<Option<Vec<char>>>) -> String {
    text(&format_string(input, config, &results, &Vec::new()))
}

fn run_with_math(input: &str, config: &Config, math: Vec<Option<Vec<char>>>) -> String {
    text(&format_string(input, config, &Vec::new(), &math))
}

#[test]
fn zh_en_spacing_on() {
    let config = Config::default();
    assert_eq!(run("Hello\u{4f60}\u{597d}", &config), "Hello \u{4f60}\u{597d}");
    assert_eq!(run("\u{4f60}\u{597d}Hello", &config), "\u{4f60}\u{597d} Hello");
}

#[test]
fn zh_en_spacing_off() {
    let config = Config { space_between_zh_and_en: false, ..Config::default() };
    assert_eq!(run("Hello\u{4f60}\u{597d}", &config), "Hello\u{4f60}\u{597d}");
}

#[test]
fn zh_num_spacing_on() {
    let config = Config::default();
    assert_eq!(run("\u{4f60}\u{597d}123", &config), "\u{4f60}\u{597d} 123");
}

#[test]
fn zh_num_spacing_off() {
    let config = Config { space_between_zh_and_num: false, ..Config::default() };
    assert_eq!(run("\u{4f60}\u{597d}123", &config), "\u{4f60}\u{597d}123");
}

#[test]
fn math_spacing_ignores_toggles() {
    let config = Config {
        space_between_zh_and_en: false,
        space_between_zh_and_num: false,
        ..Config::default()
    };
    assert_eq!(run("\u{4f60}\u{597d}$x$", &config), "\u{4f60}\u{597d} $x$");
    assert_eq!(run("$x$\u{4f60}\u{597d}", &config), "$x$ \u{4f60}\u{597d}");
}

#[test]
fn inline_code_spacing_follows_toggle() {
    let on = Config::default();
    assert_eq!(run("\u{4f60}\u{597d}`c`", &on), "\u{4f60}\u{597d} `c`");
    let off = Config { space_between_code_and_text: false, ..Config::default() };
    assert_eq!(run("\u{4f60}\u{597d}`c`", &off), "\u{4f60}\u{597d}`c`");
    assert_eq!(run("`c`\u{4f60}\u{597d}", &off), "`c` \u{4f60}\u{597d}");
}

#[test]
fn blank_lines_collapse_to_one() {
    let config = Config::default();
    assert_eq!(run("a\n\n\n\nb", &config), "a\n\nb");
    assert_eq!(run("a\nb", &config), "a\nb");
}

#[test]
fn empty_input_stays_empty() {
    assert_eq!(run("", &Config::default()), "");
}

#[test]
fn heading_renders_marks_and_spacing() {
    let config = Config::default();
    assert_eq!(
        run("# Hello\u{4f60}\u{597d}", &config),
        "# Hello \u{4f60}\u{597d}\n\n",
    );
}

#[test]
fn literal_hash_run_is_kept() {
    assert_eq!(run("a#b", &Config::default()), "a#b");
}

#[test]
fn code_block_is_fenced_between_blank_lines() {
    let config = Config::default();
    assert_eq!(
        run("x\n```js\na\n```\ny", &config),
        "x\n\n```js\na\n```\n\ny",
    );
}

#[test]
fn missing_tool_output_passes_content_through() {
    let config = Config::default();
    assert_eq!(
        run_with("```rust\nlet a;\n```", &config, vec![None]),
        "```rust\nlet a;\n```\n\n",
    );
    assert_eq!(
        run_with("```rust\nlet a;\n```", &config, Vec::new()),
        "```rust\nlet a;\n```\n\n",
    );
}

#[test]
fn supplied_tool_output_is_spliced() {
    let config = Config::default();
    assert_eq!(
        run_with("```rust\nlet a;\n```", &config, vec![Some(chars("let a ;\n"))]),
        "```rust\nlet a ;\n```\n\n",
    );
}

#[test]
fn markdown_block_takes_nested_result() {
    let config = Config::default();
    assert_eq!(
        run_with("```md\nt\n```", &config, vec![Some(chars("t2\n"))]),
        "```md\nt2\n```\n\n",
    );
    assert_eq!(run_with("```md\nt\n```", &config, vec![None]), "```md\nt\n```\n\n");
}

#[test]
fn formatting_disabled_keeps_every_block() {
    let config = Config { format_code_block: false, ..Config::default() };
    assert_eq!(
        run_with("```rust\nlet a;\n```", &config, vec![Some(chars("ignored"))]),
        "```rust\nlet a;\n```\n\n",
    );
}

#[test]
fn quoted_fence_renders_literally() {
    let config = Config::default();
    assert_eq!(run("> ```rust\nx", &config), "> ```rust\nx");
}

fn tex_layout(content: &str) -> String {
    tex_fmt::format::format_file(
        content,
        std::path::Path::new("tex-fmt.log"),
        &tex_fmt::args::Args::default(),
        &mut Vec::new(),
    )
}

#[test]
fn tex_block_takes_the_latex_layout() {
    let config = Config::default();
    let content = "\\begin{itemize}\na\n\\end{itemize}\n";
    let laid_out = tex_layout(content);
    assert!(laid_out.contains("\n    a\n"), "got {:?}", laid_out);
    let out = run_with(
        "```tex\n\\begin{itemize}\na\n\\end{itemize}\n```",
        &config,
        vec![Some(laid_out.chars().collect())],
    );
    assert_eq!(out, format!("```tex\n{}```\n\n", laid_out));
}

#[test]
fn tex_block_without_layout_passes_through() {
    let config = Config::default();
    assert_eq!(
        run_with("```tex\nx\n```", &config, vec![None]),
        "```tex\nx\n```\n\n",
    );
}

#[test]
fn block_math_takes_the_latex_layout() {
    let out = run_with_math("$$x$$", &Config::default(), vec![Some(chars("x\n"))]);
    assert_eq!(out, "$$\nx\n\n$$\n\n");
}

#[test]
fn block_math_without_layout_keeps_its_content() {
    let out = run("$$x$$", &Config::default());
    assert_eq!(out, "$$\nx\n$$\n\n");
}

#[test]
fn block_math_regions_pair_with_layouts_in_order() {
    let out = run_with_math(
        "$$a$$x$$b$$",
        &Config::default(),
        vec![Some(chars("first")), Some(chars("second"))],
    );
    assert_eq!(out, "$$\nfirst\n$$\n\nx\n\n$$\nsecond\n$$\n\n");
}

#[test]
fn plan_uses_default_map() {
    let config = Config::default();
    match plan_block(&config, &str_to_chars("rust")) {
        BlockAction::Tool(cmd, args) => {
            assert_eq!(text(&cmd), "rustfmt");
            let args: Vec<String> = args.iter().map(text).collect();
            assert_eq!(args, ["--edition", "2021"]);
        }
        other => panic!("expected a tool, got {:?}", plan_name(&other)),
    }
    assert!(matches!(plan_block(&config, &str_to_chars("tex")), BlockAction::Tex));
    assert!(matches!(plan_block(&config, &str_to_chars("md")), BlockAction::Markdown));
    assert!(matches!(
        plan_block(&config, &str_to_chars("unknown")),
        BlockAction::Passthrough
    ));
}

fn plan_name(a: &BlockAction) -> &'static str {
    match a {
        BlockAction::Passthrough => "passthrough",
        BlockAction::Tex => "tex",
        BlockAction::Markdown => "markdown",
        BlockAction::Tool(_, _) => "tool",
    }
}

#[test]
fn plan_is_passthrough_when_formatting_is_off() {
    let config = Config { format_code_block: false, ..Config::default() };
    assert!(matches!(
        plan_block(&config, &str_to_chars("rust")),
        BlockAction::Passthrough
    ));
}

#[test]
fn formatter_commands_vary_by_language() {
    let (cmd, args) = get_formatter_command(&str_to_chars("prettier"), &str_to_chars("js"))
        .expect("prettier knows js");
    assert_eq!(text(&cmd), "prettier");
    let args: Vec<String> = args.iter().map(text).collect();
    assert_eq!(args, ["--std", "--parser", "babel"]);

    assert!(get_formatter_command(&str_to_chars("prettier"), &str_to_chars("rust")).is_none());

    let (_, args) = get_formatter_command(&str_to_chars("clang-format"), &str_to_chars("java"))
        .expect("clang-format knows java");
    let args: Vec<String> = args.iter().map(text).collect();
    assert_eq!(args, ["--style=Google"]);

    let (_, args) = get_formatter_command(&str_to_chars("clang-format"), &str_to_chars("tcl"))
        .expect("clang-format has a fallback style");
    let args: Vec<String> = args.iter().map(text).collect();
    assert_eq!(args, ["--style=LLVM"]);

    assert!(get_formatter_command(&str_to_chars("no-such-tool"), &str_to_chars("js")).is_none());
}

#[test]
fn finish_block_keeps_content_without_outside_result() {
    let config = Config::default();
    let block = CodeBlock { language: chars("rust"), content: chars("let a;\n") };
    assert_eq!(text(&finish_block(&config, &block, None)), "let a;\n");
    assert_eq!(
        text(&finish_block(&config, &block, Some(chars("done\n")))),
        "done\n",
    );
}

#[test]
fn fence_wraps_inner_text() {
    let block = CodeBlock { language: chars("js"), content: chars("a") };
    assert_eq!(text(&render_code_fence(&block, &chars("b"))), "```js\nb\n```");
    let nl = CodeBlock { language: chars("js"), content: chars("\na") };
    assert_eq!(text(&render_code_fence(&nl, &chars("\na"))), "```js\na\n```");
}

#[test]
fn default_config_toggles_are_on() {
    let config = Config::default();
    assert!(config.space_between_zh_and_en);
    assert!(config.space_between_zh_and_num);
    assert!(config.format_code_block);
    assert!(config.space_between_code_and_text);
    assert_eq!(config.code_formatters.len(), 30);
}
