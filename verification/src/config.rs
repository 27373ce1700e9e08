//! The configuration shared by the whole pipeline.
//!
//! A [`Config`] is constructed once and read everywhere: the spacing
//! toggles, whether code blocks are formatted at all, and the map from
//! language tag to formatter tool, kept as an association list whose first
//! matching entry wins.

use vstd::prelude::*;

use crate::text::eq_chars;
use crate::text::str_to_chars;

verus! {

/// Mathematical model of a configuration.
pub struct CfgV {
    /// Insert a space between adjacent Chinese and English runs.
    pub zh_en: bool,
    /// Insert a space between adjacent Chinese and numeric runs.
    pub zh_num: bool,
    /// Hand code blocks to their formatter at all.
    pub format_code: bool,
    /// Insert a space between a text run and a following inline code span.
    pub code_text: bool,
    /// Language tag to formatter tool name, first match winning.
    pub formatters: Seq<(Seq<char>, Seq<char>)>,
}

/// Toggles for the spacing rules, the code-block formatting switch, and the
/// language-to-tool map.
pub struct Config {
    /// Insert a space between adjacent Chinese and English runs.
    pub space_between_zh_and_en: bool,
    /// Insert a space between adjacent Chinese and numeric runs.
    pub space_between_zh_and_num: bool,
    /// Hand code blocks to their formatter at all.
    pub format_code_block: bool,
    /// Insert a space between a text run and a following inline code span.
    pub space_between_code_and_text: bool,
    /// Language tag to formatter tool name, first match winning.
    pub code_formatters: Vec<(Vec<char>, Vec<char>)>,
}

/// The models of an association list's entries, in order.
pub open spec fn pairs_of(m: Seq<(Vec<char>, Vec<char>)>) -> Seq<(Seq<char>, Seq<char>)> {
    Seq::new(m.len(), |i: int| (m[i].0@, m[i].1@))
}

impl View for Config {
    type V = CfgV;

    open spec fn view(&self) -> CfgV {
        CfgV {
            zh_en: self.space_between_zh_and_en,
            zh_num: self.space_between_zh_and_num,
            format_code: self.format_code_block,
            code_text: self.space_between_code_and_text,
            formatters: pairs_of(self.code_formatters@),
        }
    }
}

/// The value of the first entry whose key is `key`.
pub open spec fn lookup_spec(m: Seq<(Seq<char>, Seq<char>)>, key: Seq<char>) -> Option<Seq<char>>
    decreases m.len(),
{
    if m.len() == 0 {
        None
    } else if m[0].0 == key {
        Some(m[0].1)
    } else {
        lookup_spec(m.drop_first(), key)
    }
}

/// Looks `key` up in an association list, first match winning.
pub fn lookup(m: &Vec<(Vec<char>, Vec<char>)>, key: &Vec<char>) -> (r: Option<Vec<char>>)
    ensures
        match r {
            Some(v) => lookup_spec(pairs_of(m@), key@) == Some(v@),
            None => lookup_spec(pairs_of(m@), key@) is None,
        },
{
    proof {
        assert(pairs_of(m@).subrange(0, m@.len() as int) =~= pairs_of(m@));
    }
    let mut i: usize = 0;
    while i < m.len()
        invariant
            0 <= i <= m@.len(),
            lookup_spec(pairs_of(m@), key@) == lookup_spec(
                pairs_of(m@).subrange(i as int, m@.len() as int),
                key@,
            ),
        decreases m@.len() - i,
    {
        let entry = vstd::std_specs::vec::vec_index(m, i);
        proof {
            let rest = pairs_of(m@).subrange(i as int, m@.len() as int);
            assert(rest[0] == (m@[i as int].0@, m@[i as int].1@));
            assert(rest.drop_first() =~= pairs_of(m@).subrange(i + 1, m@.len() as int));
        }
        if eq_chars(&entry.0, key) {
            return Some(crate::text::copy_chars(&entry.1));
        }
        i = i + 1;
    }
    proof {
        assert(pairs_of(m@).subrange(m@.len() as int, m@.len() as int) =~= Seq::<(
            Seq<char>,
            Seq<char>,
        )>::empty());
    }
    None
}

/// The built-in language-to-tool map.
pub open spec fn default_formatters() -> Seq<(Seq<char>, Seq<char>)> {
    seq![
        ("rust"@, "rustfmt"@),
        ("js"@, "prettier"@),
        ("ts"@, "prettier"@),
        ("css"@, "prettier"@),
        ("scss"@, "prettier"@),
        ("sass"@, "prettier"@),
        ("less"@, "prettier"@),
        ("html"@, "prettier"@),
        ("json"@, "prettier"@),
        ("yml"@, "prettier"@),
        ("graphql"@, "prettier"@),
        ("gql"@, "prettier"@),
        ("vue"@, "prettier"@),
        ("angular"@, "prettier"@),
        ("c"@, "clang-format"@),
        ("cpp"@, "clang-format"@),
        ("java"@, "clang-format"@),
        ("go"@, "gofmt"@),
        ("py"@, "black"@),
        ("sh"@, "shfmt"@),
        ("sql"@, "sqlfmt"@),
        ("tf"@, "terraform"@),
        ("lua"@, "stylua"@),
        ("dart"@, "dartfmt"@),
        ("php"@, "php-cs-fixer"@),
        ("isort"@, "isort"@),
        ("autopep8"@, "autopep8"@),
        ("yapf"@, "yapf"@),
        ("scala"@, "scalafmt"@),
        ("kotlin"@, "ktfmt"@),
    ]
}

/// The default configuration: every toggle on, the built-in tool map.
pub open spec fn default_cfg() -> CfgV {
    CfgV {
        zh_en: true,
        zh_num: true,
        format_code: true,
        code_text: true,
        formatters: default_formatters(),
    }
}

fn pair(k: &str, v: &str) -> (r: (Vec<char>, Vec<char>))
    ensures
        r.0@ == k@,
        r.1@ == v@,
{
    (str_to_chars(k), str_to_chars(v))
}

impl Default for Config {
    /// The default configuration: every toggle on, the built-in tool map.
    fn default() -> (r: Config)
        ensures
            r@ == default_cfg(),
    {
        let mut m: Vec<(Vec<char>, Vec<char>)> = Vec::new();
        m.push(pair("rust", "rustfmt"));
        m.push(pair("js", "prettier"));
        m.push(pair("ts", "prettier"));
        m.push(pair("css", "prettier"));
        m.push(pair("scss", "prettier"));
        m.push(pair("sass", "prettier"));
        m.push(pair("less", "prettier"));
        m.push(pair("html", "prettier"));
        m.push(pair("json", "prettier"));
        m.push(pair("yml", "prettier"));
        m.push(pair("graphql", "prettier"));
        m.push(pair("gql", "prettier"));
        m.push(pair("vue", "prettier"));
        m.push(pair("angular", "prettier"));
        m.push(pair("c", "clang-format"));
        m.push(pair("cpp", "clang-format"));
        m.push(pair("java", "clang-format"));
        m.push(pair("go", "gofmt"));
        m.push(pair("py", "black"));
        m.push(pair("sh", "shfmt"));
        m.push(pair("sql", "sqlfmt"));
        m.push(pair("tf", "terraform"));
        m.push(pair("lua", "stylua"));
        m.push(pair("dart", "dartfmt"));
        m.push(pair("php", "php-cs-fixer"));
        m.push(pair("isort", "isort"));
        m.push(pair("autopep8", "autopep8"));
        m.push(pair("yapf", "yapf"));
        m.push(pair("scala", "scalafmt"));
        m.push(pair("kotlin", "ktfmt"));
        let r = Config {
            space_between_zh_and_en: true,
            space_between_zh_and_num: true,
            format_code_block: true,
            space_between_code_and_text: true,
            code_formatters: m,
        };
        proof {
            assert(pairs_of(r.code_formatters@) =~= default_formatters());
        }
        r
    }
}

} // verus!
