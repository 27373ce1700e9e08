//! Mapping a code block's language to its formatting action.
//!
//! A language tag is first folded through a fixed alias table
//! ([`normalize_language`]); the configuration then names a tool for it,
//! and the tool and language select a fixed executable-and-arguments
//! profile ([`get_formatter_command`]).  [`plan_block`] combines the three
//! lookups into one decision: keep the content, lay it out as LaTeX, treat
//! it as a nested document, or run an external tool.

use vstd::prelude::*;

use crate::config::lookup;
use crate::config::lookup_spec;
use crate::config::CfgV;
use crate::config::Config;
use crate::text::copy_chars;
use crate::text::eq_str;
use crate::text::lower_chars;
use crate::text::lower_seq;
use crate::text::str_to_chars;

verus! {

/// A fixed alias table folds common synonyms of a language tag; a tag
/// without an alias is returned unchanged, keeping its letter case.
pub open spec fn normalize_language_spec(lang: Seq<char>) -> Seq<char> {
    let l = lower_seq(lang);
    if l == "javascript"@ {
        "js"@
    } else if l == "typescript"@ {
        "ts"@
    } else if l == "python"@ {
        "py"@
    } else if l == "c++"@ || l == "cxx"@ {
        "cpp"@
    } else if l == "golang"@ {
        "go"@
    } else if l == "rb"@ {
        "ruby"@
    } else if l == "yaml"@ {
        "yml"@
    } else if l == "latex"@ {
        "tex"@
    } else if l == "markdown"@ {
        "md"@
    } else if l == "sqlite"@ {
        "sql"@
    } else if l == "shell"@ || l == "bash"@ || l == "zsh"@ {
        "sh"@
    } else if l == "kt"@ {
        "kotlin"@
    } else if l == "sass"@ {
        "scss"@
    } else {
        lang
    }
}

/// Folds common synonyms of a language tag through the fixed alias table.
pub fn normalize_language(lang: &Vec<char>) -> (r: Vec<char>)
    ensures
        r@ == normalize_language_spec(lang@),
{
    let l = lower_chars(lang);
    if eq_str(&l, "javascript") {
        str_to_chars("js")
    } else if eq_str(&l, "typescript") {
        str_to_chars("ts")
    } else if eq_str(&l, "python") {
        str_to_chars("py")
    } else if eq_str(&l, "c++") || eq_str(&l, "cxx") {
        str_to_chars("cpp")
    } else if eq_str(&l, "golang") {
        str_to_chars("go")
    } else if eq_str(&l, "rb") {
        str_to_chars("ruby")
    } else if eq_str(&l, "yaml") {
        str_to_chars("yml")
    } else if eq_str(&l, "latex") {
        str_to_chars("tex")
    } else if eq_str(&l, "markdown") {
        str_to_chars("md")
    } else if eq_str(&l, "sqlite") {
        str_to_chars("sql")
    } else if eq_str(&l, "shell") || eq_str(&l, "bash") || eq_str(&l, "zsh") {
        str_to_chars("sh")
    } else if eq_str(&l, "kt") {
        str_to_chars("kotlin")
    } else if eq_str(&l, "sass") {
        str_to_chars("scss")
    } else {
        copy_chars(lang)
    }
}

/// The models of a list of argument strings, in order.
pub open spec fn strs_of(a: Seq<Vec<char>>) -> Seq<Seq<char>> {
    Seq::new(a.len(), |i: int| a[i]@)
}

/// The fixed executable and argument profile of `(formatter, language)`;
/// `None` when the tool does not know the language.
pub open spec fn formatter_command_spec(formatter: Seq<char>, language: Seq<char>) -> Option<
    (Seq<char>, Seq<Seq<char>>),
> {
    if formatter == "prettier"@ {
        if language == "js"@ {
            Some(("prettier"@, seq!["--std"@, "--parser"@, "babel"@]))
        } else if language == "ts"@ {
            Some(("prettier"@, seq!["--std"@, "--parser"@, "typescript"@]))
        } else if language == "css"@ {
            Some(("prettier"@, seq!["--std"@, "--parser"@, "css"@]))
        } else if language == "scss"@ {
            Some(("prettier"@, seq!["--std"@, "--parser"@, "scss"@]))
        } else if language == "less"@ {
            Some(("prettier"@, seq!["--std"@, "--parser"@, "less"@]))
        } else if language == "html"@ {
            Some(("prettier"@, seq!["--std"@, "--parser"@, "html"@]))
        } else if language == "json"@ {
            Some(("prettier"@, seq!["--std"@, "--parser"@, "json"@]))
        } else if language == "yml"@ {
            Some(("prettier"@, seq!["--std"@, "--parser"@, "yaml"@]))
        } else if language == "graphql"@ || language == "gql"@ {
            Some(("prettier"@, seq!["--std"@, "--parser"@, "graphql"@]))
        } else if language == "vue"@ {
            Some(("prettier"@, seq!["--std"@, "--parser"@, "vue"@]))
        } else if language == "angular"@ {
            Some(("prettier"@, seq!["--std"@, "--parser"@, "angular"@]))
        } else {
            None
        }
    } else if formatter == "rustfmt"@ {
        Some(("rustfmt"@, seq!["--edition"@, "2021"@]))
    } else if formatter == "gofmt"@ {
        Some(("gofmt"@, Seq::empty()))
    } else if formatter == "black"@ {
        Some(("black"@, seq!["-"@]))
    } else if formatter == "clang-format"@ {
        if language == "c"@ || language == "cpp"@ || language == "c++"@ || language == "java"@
            || language == "js"@ || language == "javascript"@ {
            Some(("clang-format"@, seq!["--style=Google"@]))
        } else {
            Some(("clang-format"@, seq!["--style=LLVM"@]))
        }
    } else if formatter == "shfmt"@ {
        Some(("shfmt"@, seq!["-i"@, "2"@]))
    } else if formatter == "sqlfmt"@ {
        Some(("sqlfmt"@, seq!["-"@]))
    } else if formatter == "terraform"@ {
        Some(("terraform"@, seq!["fmt"@, "-"@]))
    } else if formatter == "stylua"@ {
        Some(("stylua"@, seq!["-"@]))
    } else if formatter == "dartfmt"@ {
        Some(("dart"@, seq!["format"@]))
    } else if formatter == "php-cs-fixer"@ {
        Some(("php-cs-fixer"@, seq!["fix"@, "--using-cache=no"@, "-"@]))
    } else if formatter == "isort"@ {
        Some(("isort"@, seq!["-"@]))
    } else if formatter == "autopep8"@ {
        Some(("autopep8"@, seq!["-"@]))
    } else if formatter == "yapf"@ {
        Some(("yapf"@, seq!["-"@]))
    } else if formatter == "scalafmt"@ {
        Some(("scalafmt"@, seq!["--stdin"@]))
    } else if formatter == "ktfmt"@ {
        Some(("ktfmt"@, seq!["--stdin"@]))
    } else {
        None
    }
}

fn cmd0(c: &str) -> (r: (Vec<char>, Vec<Vec<char>>))
    ensures
        r.0@ == c@,
        strs_of(r.1@) =~= Seq::<Seq<char>>::empty(),
{
    (str_to_chars(c), Vec::new())
}

fn cmd1(c: &str, a1: &str) -> (r: (Vec<char>, Vec<Vec<char>>))
    ensures
        r.0@ == c@,
        strs_of(r.1@) =~= seq![a1@],
{
    let mut args: Vec<Vec<char>> = Vec::new();
    args.push(str_to_chars(a1));
    (str_to_chars(c), args)
}

fn cmd2(c: &str, a1: &str, a2: &str) -> (r: (Vec<char>, Vec<Vec<char>>))
    ensures
        r.0@ == c@,
        strs_of(r.1@) =~= seq![a1@, a2@],
{
    let mut args: Vec<Vec<char>> = Vec::new();
    args.push(str_to_chars(a1));
    args.push(str_to_chars(a2));
    (str_to_chars(c), args)
}

fn cmd3(c: &str, a1: &str, a2: &str, a3: &str) -> (r: (Vec<char>, Vec<Vec<char>>))
    ensures
        r.0@ == c@,
        strs_of(r.1@) =~= seq![a1@, a2@, a3@],
{
    let mut args: Vec<Vec<char>> = Vec::new();
    args.push(str_to_chars(a1));
    args.push(str_to_chars(a2));
    args.push(str_to_chars(a3));
    (str_to_chars(c), args)
}

/// The fixed executable and argument profile of `(formatter, language)`;
/// `None` when the tool does not know the language.
pub fn get_formatter_command(formatter: &Vec<char>, language: &Vec<char>) -> (r: Option<
    (Vec<char>, Vec<Vec<char>>),
>)
    ensures
        match r {
            Some(p) => formatter_command_spec(formatter@, language@) == Some(
                (p.0@, strs_of(p.1@)),
            ),
            None => formatter_command_spec(formatter@, language@) is None,
        },
{
    if eq_str(formatter, "prettier") {
        if eq_str(language, "js") {
            Some(cmd3("prettier", "--std", "--parser", "babel"))
        } else if eq_str(language, "ts") {
            Some(cmd3("prettier", "--std", "--parser", "typescript"))
        } else if eq_str(language, "css") {
            Some(cmd3("prettier", "--std", "--parser", "css"))
        } else if eq_str(language, "scss") {
            Some(cmd3("prettier", "--std", "--parser", "scss"))
        } else if eq_str(language, "less") {
            Some(cmd3("prettier", "--std", "--parser", "less"))
        } else if eq_str(language, "html") {
            Some(cmd3("prettier", "--std", "--parser", "html"))
        } else if eq_str(language, "json") {
            Some(cmd3("prettier", "--std", "--parser", "json"))
        } else if eq_str(language, "yml") {
            Some(cmd3("prettier", "--std", "--parser", "yaml"))
        } else if eq_str(language, "graphql") || eq_str(language, "gql") {
            Some(cmd3("prettier", "--std", "--parser", "graphql"))
        } else if eq_str(language, "vue") {
            Some(cmd3("prettier", "--std", "--parser", "vue"))
        } else if eq_str(language, "angular") {
            Some(cmd3("prettier", "--std", "--parser", "angular"))
        } else {
            None
        }
    } else if eq_str(formatter, "rustfmt") {
        Some(cmd2("rustfmt", "--edition", "2021"))
    } else if eq_str(formatter, "gofmt") {
        Some(cmd0("gofmt"))
    } else if eq_str(formatter, "black") {
        Some(cmd1("black", "-"))
    } else if eq_str(formatter, "clang-format") {
        if eq_str(language, "c") || eq_str(language, "cpp") || eq_str(language, "c++") || eq_str(
            language,
            "java",
        ) || eq_str(language, "js") || eq_str(language, "javascript") {
            Some(cmd1("clang-format", "--style=Google"))
        } else {
            Some(cmd1("clang-format", "--style=LLVM"))
        }
    } else if eq_str(formatter, "shfmt") {
        Some(cmd2("shfmt", "-i", "2"))
    } else if eq_str(formatter, "sqlfmt") {
        Some(cmd1("sqlfmt", "-"))
    } else if eq_str(formatter, "terraform") {
        Some(cmd2("terraform", "fmt", "-"))
    } else if eq_str(formatter, "stylua") {
        Some(cmd1("stylua", "-"))
    } else if eq_str(formatter, "dartfmt") {
        Some(cmd1("dart", "format"))
    } else if eq_str(formatter, "php-cs-fixer") {
        Some(cmd3("php-cs-fixer", "fix", "--using-cache=no", "-"))
    } else if eq_str(formatter, "isort") {
        Some(cmd1("isort", "-"))
    } else if eq_str(formatter, "autopep8") {
        Some(cmd1("autopep8", "-"))
    } else if eq_str(formatter, "yapf") {
        Some(cmd1("yapf", "-"))
    } else if eq_str(formatter, "scalafmt") {
        Some(cmd1("scalafmt", "--stdin"))
    } else if eq_str(formatter, "ktfmt") {
        Some(cmd1("ktfmt", "--stdin"))
    } else {
        None
    }
}

/// Mathematical model of a block's formatting decision.
pub enum ActionV {
    /// Keep the content as it stands.
    Passthrough,
    /// Hand the content to the LaTeX layout routine.
    Tex,
    /// Treat the content as a nested document of this same pipeline.
    Markdown,
    /// Run the named executable with the given arguments.
    Tool(Seq<char>, Seq<Seq<char>>),
}

/// What is to be done with one code block's content.
pub enum BlockAction {
    /// Keep the content as it stands.
    Passthrough,
    /// Hand the content to the LaTeX layout routine.
    Tex,
    /// Treat the content as a nested document of this same pipeline.
    Markdown,
    /// Run the named executable with the given arguments.
    Tool(Vec<char>, Vec<Vec<char>>),
}

impl View for BlockAction {
    type V = ActionV;

    open spec fn view(&self) -> ActionV {
        match self {
            BlockAction::Passthrough => ActionV::Passthrough,
            BlockAction::Tex => ActionV::Tex,
            BlockAction::Markdown => ActionV::Markdown,
            BlockAction::Tool(c, a) => ActionV::Tool(c@, strs_of(a@)),
        }
    }
}

/// The decision for a block with the given (normalized) language tag.
pub open spec fn plan_spec(cfg: CfgV, language: Seq<char>) -> ActionV {
    if !cfg.format_code {
        ActionV::Passthrough
    } else if language == "tex"@ {
        ActionV::Tex
    } else if language == "md"@ {
        ActionV::Markdown
    } else {
        match lookup_spec(cfg.formatters, language) {
            Option::None => ActionV::Passthrough,
            Option::Some(f) => match formatter_command_spec(f, language) {
                Option::None => ActionV::Passthrough,
                Option::Some(p) => ActionV::Tool(p.0, p.1),
            },
        }
    }
}

/// Decides what to do with a code block of the given language under `config`.
pub fn plan_block(config: &Config, language: &Vec<char>) -> (r: BlockAction)
    ensures
        r@ == plan_spec(config@, language@),
{
    if !config.format_code_block {
        BlockAction::Passthrough
    } else if eq_str(language, "tex") {
        BlockAction::Tex
    } else if eq_str(language, "md") {
        BlockAction::Markdown
    } else {
        match lookup(&config.code_formatters, language) {
            Option::None => BlockAction::Passthrough,
            Option::Some(f) => match get_formatter_command(&f, language) {
                Option::None => BlockAction::Passthrough,
                Option::Some(p) => BlockAction::Tool(p.0, p.1),
            },
        }
    }
}

} // verus!
