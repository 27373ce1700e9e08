//! Character classes, scanning primitives and small `Vec<char>` utilities.
//!
//! The whole crate works on sequences of Unicode scalar values: a document is
//! a `Vec<char>`, its mathematical model a `Seq<char>`.  This module defines
//! the character classes the tokenizer distinguishes, "first index such that"
//! scanning functions together with their executable counterparts, trimming,
//! ASCII case folding, and helpers to move between `&str` and `Vec<char>`.

use vstd::prelude::*;
use vstd::string::StrSliceExecFns;

verus! {

// ---------------------------------------------------------------------------
// Character classes
// ---------------------------------------------------------------------------

/// The Unicode white-space characters (the set `char::is_whitespace` accepts).
pub open spec fn is_space_char(c: char) -> bool {
    (c as u32) == 0x20 || ((c as u32) >= 0x09 && (c as u32) <= 0x0d) || (c as u32) == 0x85 || (
    c as u32) == 0xa0 || (c as u32) == 0x1680 || ((c as u32) >= 0x2000 && (c as u32) <= 0x200a) || (
    c as u32) == 0x2028 || (c as u32) == 0x2029 || (c as u32) == 0x202f || (c as u32) == 0x205f || (
    c as u32) == 0x3000
}

pub fn is_space(c: char) -> (r: bool)
    ensures
        r == is_space_char(c),
{
    let u: u32 = c as u32;
    u == 0x20 || (u >= 0x09 && u <= 0x0d) || u == 0x85 || u == 0xa0 || u == 0x1680 || (u >= 0x2000
        && u <= 0x200a) || u == 0x2028 || u == 0x2029 || u == 0x202f || u == 0x205f || u == 0x3000
}

/// ASCII letters, the material of `English` runs.
pub open spec fn is_letter_char(c: char) -> bool {
    ((c as u32) >= 0x41 && (c as u32) <= 0x5a) || ((c as u32) >= 0x61 && (c as u32) <= 0x7a)
}

pub fn is_letter(c: char) -> (r: bool)
    ensures
        r == is_letter_char(c),
{
    let u: u32 = c as u32;
    (u >= 0x41 && u <= 0x5a) || (u >= 0x61 && u <= 0x7a)
}

/// ASCII digits, which may open a `Number` run.
pub open spec fn is_digit_char(c: char) -> bool {
    (c as u32) >= 0x30 && (c as u32) <= 0x39
}

pub fn is_digit(c: char) -> (r: bool)
    ensures
        r == is_digit_char(c),
{
    let u: u32 = c as u32;
    u >= 0x30 && u <= 0x39
}

/// Characters that may continue a `Number` run: digits and the decimal point.
pub open spec fn is_number_char(c: char) -> bool {
    is_digit_char(c) || c == '.'
}

pub fn is_number(c: char) -> (r: bool)
    ensures
        r == is_number_char(c),
{
    is_digit(c) || c == '.'
}

/// The CJK unified ideographs, the material of `Chinese` runs.
pub open spec fn is_chinese_char(c: char) -> bool {
    (c as u32) >= 0x4e00 && (c as u32) <= 0x9fff
}

pub fn is_chinese(c: char) -> (r: bool)
    ensures
        r == is_chinese_char(c),
{
    let u: u32 = c as u32;
    u >= 0x4e00 && u <= 0x9fff
}

/// A sequence made of white space alone.
pub open spec fn ws_only(s: Seq<char>) -> bool {
    forall|i: int| 0 <= i < s.len() ==> is_space_char(s[i])
}

// ---------------------------------------------------------------------------
// First-index scans
// ---------------------------------------------------------------------------

/// First index at or after `i` holding a non-white-space character.
pub open spec fn non_space_at(s: Seq<char>, i: int) -> int
    decreases s.len() - i,
{
    if i < 0 || i >= s.len() {
        s.len() as int
    } else if !is_space_char(s[i]) {
        i
    } else {
        non_space_at(s, i + 1)
    }
}

/// First index at or after `i` holding a character no ASCII-letter run keeps.
pub open spec fn non_letter_at(s: Seq<char>, i: int) -> int
    decreases s.len() - i,
{
    if i < 0 || i >= s.len() {
        s.len() as int
    } else if !is_letter_char(s[i]) {
        i
    } else {
        non_letter_at(s, i + 1)
    }
}

/// First index at or after `i` holding neither a digit nor a decimal point.
pub open spec fn non_number_at(s: Seq<char>, i: int) -> int
    decreases s.len() - i,
{
    if i < 0 || i >= s.len() {
        s.len() as int
    } else if !is_number_char(s[i]) {
        i
    } else {
        non_number_at(s, i + 1)
    }
}

/// First index at or after `i` holding a character outside the CJK range.
pub open spec fn non_chinese_at(s: Seq<char>, i: int) -> int
    decreases s.len() - i,
{
    if i < 0 || i >= s.len() {
        s.len() as int
    } else if !is_chinese_char(s[i]) {
        i
    } else {
        non_chinese_at(s, i + 1)
    }
}

/// First index at or after `i` holding a character other than `#`.
pub open spec fn non_hash_at(s: Seq<char>, i: int) -> int
    decreases s.len() - i,
{
    if i < 0 || i >= s.len() {
        s.len() as int
    } else if s[i] != '#' {
        i
    } else {
        non_hash_at(s, i + 1)
    }
}

/// First index at or after `i` holding exactly `c`; `s.len()` if none does.
pub open spec fn char_at_from(s: Seq<char>, i: int, c: char) -> int
    decreases s.len() - i,
{
    if i < 0 || i >= s.len() {
        s.len() as int
    } else if s[i] == c {
        i
    } else {
        char_at_from(s, i + 1, c)
    }
}

/// First index at or after `i` holding a line break (`\n` or `\r`).
pub open spec fn line_break_at(s: Seq<char>, i: int) -> int
    decreases s.len() - i,
{
    if i < 0 || i >= s.len() {
        s.len() as int
    } else if s[i] == '\n' || s[i] == '\r' {
        i
    } else {
        line_break_at(s, i + 1)
    }
}

/// First index at or after `i` where `$$` begins; `s.len()` if none does.
pub open spec fn double_dollar_at(s: Seq<char>, i: int) -> int
    decreases s.len() - i,
{
    if i < 0 || i + 1 >= s.len() {
        s.len() as int
    } else if s[i] == '$' && s[i + 1] == '$' {
        i
    } else {
        double_dollar_at(s, i + 1)
    }
}

/// First index at or after `i` where ``` ``` ``` begins; `s.len()` if none does.
pub open spec fn triple_tick_at(s: Seq<char>, i: int) -> int
    decreases s.len() - i,
{
    if i < 0 || i + 2 >= s.len() {
        s.len() as int
    } else if s[i] == '`' && s[i + 1] == '`' && s[i + 2] == '`' {
        i
    } else {
        triple_tick_at(s, i + 1)
    }
}

// Bounds of the scans, for spec-level reasoning.

pub proof fn lemma_non_space_at_bounds(s: Seq<char>, i: int)
    requires
        0 <= i <= s.len(),
    ensures
        i <= non_space_at(s, i) <= s.len(),
    decreases s.len() - i,
{
    if i < s.len() && is_space_char(s[i]) {
        lemma_non_space_at_bounds(s, i + 1);
    }
}

pub proof fn lemma_non_letter_at_bounds(s: Seq<char>, i: int)
    requires
        0 <= i <= s.len(),
    ensures
        i <= non_letter_at(s, i) <= s.len(),
    decreases s.len() - i,
{
    if i < s.len() && is_letter_char(s[i]) {
        lemma_non_letter_at_bounds(s, i + 1);
    }
}

pub proof fn lemma_non_number_at_bounds(s: Seq<char>, i: int)
    requires
        0 <= i <= s.len(),
    ensures
        i <= non_number_at(s, i) <= s.len(),
    decreases s.len() - i,
{
    if i < s.len() && is_number_char(s[i]) {
        lemma_non_number_at_bounds(s, i + 1);
    }
}

pub proof fn lemma_non_chinese_at_bounds(s: Seq<char>, i: int)
    requires
        0 <= i <= s.len(),
    ensures
        i <= non_chinese_at(s, i) <= s.len(),
    decreases s.len() - i,
{
    if i < s.len() && is_chinese_char(s[i]) {
        lemma_non_chinese_at_bounds(s, i + 1);
    }
}

pub proof fn lemma_non_hash_at_bounds(s: Seq<char>, i: int)
    requires
        0 <= i <= s.len(),
    ensures
        i <= non_hash_at(s, i) <= s.len(),
    decreases s.len() - i,
{
    if i < s.len() && s[i] == '#' {
        lemma_non_hash_at_bounds(s, i + 1);
    }
}

pub proof fn lemma_char_at_from_bounds(s: Seq<char>, i: int, c: char)
    requires
        0 <= i <= s.len(),
    ensures
        i <= char_at_from(s, i, c) <= s.len(),
    decreases s.len() - i,
{
    if i < s.len() && s[i] != c {
        lemma_char_at_from_bounds(s, i + 1, c);
    }
}

pub proof fn lemma_line_break_at_bounds(s: Seq<char>, i: int)
    requires
        0 <= i <= s.len(),
    ensures
        i <= line_break_at(s, i) <= s.len(),
    decreases s.len() - i,
{
    if i < s.len() && !(s[i] == '\n' || s[i] == '\r') {
        lemma_line_break_at_bounds(s, i + 1);
    }
}

pub proof fn lemma_double_dollar_at_bounds(s: Seq<char>, i: int)
    requires
        0 <= i <= s.len(),
    ensures
        i <= double_dollar_at(s, i) <= s.len(),
        double_dollar_at(s, i) < s.len() ==> double_dollar_at(s, i) + 1 < s.len(),
    decreases s.len() - i,
{
    if i + 1 < s.len() && !(s[i] == '$' && s[i + 1] == '$') {
        lemma_double_dollar_at_bounds(s, i + 1);
    }
}

pub proof fn lemma_triple_tick_at_bounds(s: Seq<char>, i: int)
    requires
        0 <= i <= s.len(),
    ensures
        i <= triple_tick_at(s, i) <= s.len(),
        triple_tick_at(s, i) < s.len() ==> triple_tick_at(s, i) + 2 < s.len(),
    decreases s.len() - i,
{
    if i + 2 < s.len() && !(s[i] == '`' && s[i + 1] == '`' && s[i + 2] == '`') {
        lemma_triple_tick_at_bounds(s, i + 1);
    }
}

// ---------------------------------------------------------------------------
// Executable scanners
// ---------------------------------------------------------------------------

pub fn scan_non_space(v: &Vec<char>, from: usize) -> (r: usize)
    requires
        from <= v@.len(),
    ensures
        r == non_space_at(v@, from as int),
        from <= r <= v@.len(),
{
    let mut j: usize = from;
    loop
        invariant
            from <= j <= v@.len(),
            non_space_at(v@, from as int) == non_space_at(v@, j as int),
        decreases v@.len() - j,
    {
        if j >= v.len() {
            return j;
        }
        if !is_space(v[j]) {
            return j;
        }
        j = j + 1;
    }
}

pub fn scan_non_letter(v: &Vec<char>, from: usize) -> (r: usize)
    requires
        from <= v@.len(),
    ensures
        r == non_letter_at(v@, from as int),
        from <= r <= v@.len(),
{
    let mut j: usize = from;
    loop
        invariant
            from <= j <= v@.len(),
            non_letter_at(v@, from as int) == non_letter_at(v@, j as int),
        decreases v@.len() - j,
    {
        if j >= v.len() {
            return j;
        }
        if !is_letter(v[j]) {
            return j;
        }
        j = j + 1;
    }
}

pub fn scan_non_number(v: &Vec<char>, from: usize) -> (r: usize)
    requires
        from <= v@.len(),
    ensures
        r == non_number_at(v@, from as int),
        from <= r <= v@.len(),
{
    let mut j: usize = from;
    loop
        invariant
            from <= j <= v@.len(),
            non_number_at(v@, from as int) == non_number_at(v@, j as int),
        decreases v@.len() - j,
    {
        if j >= v.len() {
            return j;
        }
        if !is_number(v[j]) {
            return j;
        }
        j = j + 1;
    }
}

pub fn scan_non_chinese(v: &Vec<char>, from: usize) -> (r: usize)
    requires
        from <= v@.len(),
    ensures
        r == non_chinese_at(v@, from as int),
        from <= r <= v@.len(),
{
    let mut j: usize = from;
    loop
        invariant
            from <= j <= v@.len(),
            non_chinese_at(v@, from as int) == non_chinese_at(v@, j as int),
        decreases v@.len() - j,
    {
        if j >= v.len() {
            return j;
        }
        if !is_chinese(v[j]) {
            return j;
        }
        j = j + 1;
    }
}

pub fn scan_non_hash(v: &Vec<char>, from: usize) -> (r: usize)
    requires
        from <= v@.len(),
    ensures
        r == non_hash_at(v@, from as int),
        from <= r <= v@.len(),
{
    let mut j: usize = from;
    loop
        invariant
            from <= j <= v@.len(),
            non_hash_at(v@, from as int) == non_hash_at(v@, j as int),
        decreases v@.len() - j,
    {
        if j >= v.len() {
            return j;
        }
        if v[j] != '#' {
            return j;
        }
        j = j + 1;
    }
}

pub fn scan_char(v: &Vec<char>, from: usize, c: char) -> (r: usize)
    requires
        from <= v@.len(),
    ensures
        r == char_at_from(v@, from as int, c),
        from <= r <= v@.len(),
{
    let mut j: usize = from;
    loop
        invariant
            from <= j <= v@.len(),
            char_at_from(v@, from as int, c) == char_at_from(v@, j as int, c),
        decreases v@.len() - j,
    {
        if j >= v.len() {
            return j;
        }
        if v[j] == c {
            return j;
        }
        j = j + 1;
    }
}

pub fn scan_line_break(v: &Vec<char>, from: usize) -> (r: usize)
    requires
        from <= v@.len(),
    ensures
        r == line_break_at(v@, from as int),
        from <= r <= v@.len(),
{
    let mut j: usize = from;
    loop
        invariant
            from <= j <= v@.len(),
            line_break_at(v@, from as int) == line_break_at(v@, j as int),
        decreases v@.len() - j,
    {
        if j >= v.len() {
            return j;
        }
        if v[j] == '\n' || v[j] == '\r' {
            return j;
        }
        j = j + 1;
    }
}

pub fn scan_double_dollar(v: &Vec<char>, from: usize) -> (r: usize)
    requires
        from <= v@.len(),
    ensures
        r == double_dollar_at(v@, from as int),
        from <= r <= v@.len(),
{
    let mut j: usize = from;
    loop
        invariant
            from <= j <= v@.len(),
            double_dollar_at(v@, from as int) == double_dollar_at(v@, j as int),
        decreases v@.len() - j,
    {
        if j >= v.len() || j + 1 >= v.len() {
            return v.len();
        }
        if v[j] == '$' && v[j + 1] == '$' {
            return j;
        }
        j = j + 1;
    }
}

pub fn scan_triple_tick(v: &Vec<char>, from: usize) -> (r: usize)
    requires
        from <= v@.len(),
    ensures
        r == triple_tick_at(v@, from as int),
        from <= r <= v@.len(),
{
    let mut j: usize = from;
    loop
        invariant
            from <= j <= v@.len(),
            triple_tick_at(v@, from as int) == triple_tick_at(v@, j as int),
        decreases v@.len() - j,
    {
        if j >= v.len() || v.len() - j < 3 {
            return v.len();
        }
        if v[j] == '`' && v[j + 1] == '`' && v[j + 2] == '`' {
            return j;
        }
        j = j + 1;
    }
}

// ---------------------------------------------------------------------------
// Trimming
// ---------------------------------------------------------------------------

/// Index just past the last non-white-space character of `s` below `j`;
/// 0 when there is none.
pub open spec fn trim_end_idx(s: Seq<char>, j: int) -> int
    decreases j,
{
    if j <= 0 {
        0
    } else if is_space_char(s[j - 1]) {
        trim_end_idx(s, j - 1)
    } else {
        j
    }
}

pub proof fn lemma_trim_end_idx_bounds(s: Seq<char>, j: int)
    requires
        0 <= j <= s.len(),
    ensures
        0 <= trim_end_idx(s, j) <= j,
    decreases j,
{
    if j > 0 && is_space_char(s[j - 1]) {
        lemma_trim_end_idx_bounds(s, j - 1);
    }
}

/// `s` without leading and trailing white space.
pub open spec fn trim_seq(s: Seq<char>) -> Seq<char> {
    let a = non_space_at(s, 0);
    let b = trim_end_idx(s, s.len() as int);
    if a >= b {
        Seq::empty()
    } else {
        s.subrange(a, b)
    }
}

pub fn trim_chars(v: &Vec<char>) -> (r: Vec<char>)
    ensures
        r@ == trim_seq(v@),
{
    let a: usize = scan_non_space(v, 0);
    let mut b: usize = v.len();
    while b > 0 && is_space(v[b - 1])
        invariant
            0 <= b <= v@.len(),
            trim_end_idx(v@, v@.len() as int) == trim_end_idx(v@, b as int),
        decreases b,
    {
        b = b - 1;
    }
    if a >= b {
        Vec::new()
    } else {
        subrange_chars(v, a, b)
    }
}

pub proof fn lemma_trim_seq_len(s: Seq<char>)
    ensures
        trim_seq(s).len() <= s.len(),
{
    lemma_non_space_at_bounds(s, 0);
    lemma_trim_end_idx_bounds(s, s.len() as int);
}

/// Whether `v` is made of white space alone.
pub fn ws_only_chars(v: &Vec<char>) -> (r: bool)
    ensures
        r == ws_only(v@),
{
    let mut i: usize = 0;
    while i < v.len()
        invariant
            0 <= i <= v@.len(),
            forall|k: int| 0 <= k < i ==> is_space_char(v@[k]),
        decreases v@.len() - i,
    {
        if !is_space(v[i]) {
            return false;
        }
        i = i + 1;
    }
    true
}

// ---------------------------------------------------------------------------
// ASCII case folding
// ---------------------------------------------------------------------------

/// `c` with an ASCII capital folded to its small form; others unchanged.
pub open spec fn lower_char(c: char) -> char {
    if c == 'A' {
        'a'
    } else if c == 'B' {
        'b'
    } else if c == 'C' {
        'c'
    } else if c == 'D' {
        'd'
    } else if c == 'E' {
        'e'
    } else if c == 'F' {
        'f'
    } else if c == 'G' {
        'g'
    } else if c == 'H' {
        'h'
    } else if c == 'I' {
        'i'
    } else if c == 'J' {
        'j'
    } else if c == 'K' {
        'k'
    } else if c == 'L' {
        'l'
    } else if c == 'M' {
        'm'
    } else if c == 'N' {
        'n'
    } else if c == 'O' {
        'o'
    } else if c == 'P' {
        'p'
    } else if c == 'Q' {
        'q'
    } else if c == 'R' {
        'r'
    } else if c == 'S' {
        's'
    } else if c == 'T' {
        't'
    } else if c == 'U' {
        'u'
    } else if c == 'V' {
        'v'
    } else if c == 'W' {
        'w'
    } else if c == 'X' {
        'x'
    } else if c == 'Y' {
        'y'
    } else if c == 'Z' {
        'z'
    } else {
        c
    }
}

pub fn lower_char_exec(c: char) -> (r: char)
    ensures
        r == lower_char(c),
{
    match c {
        'A' => 'a',
        'B' => 'b',
        'C' => 'c',
        'D' => 'd',
        'E' => 'e',
        'F' => 'f',
        'G' => 'g',
        'H' => 'h',
        'I' => 'i',
        'J' => 'j',
        'K' => 'k',
        'L' => 'l',
        'M' => 'm',
        'N' => 'n',
        'O' => 'o',
        'P' => 'p',
        'Q' => 'q',
        'R' => 'r',
        'S' => 's',
        'T' => 't',
        'U' => 'u',
        'V' => 'v',
        'W' => 'w',
        'X' => 'x',
        'Y' => 'y',
        'Z' => 'z',
        _ => c,
    }
}

/// `s` folded character by character through [`lower_char`].
pub open spec fn lower_seq(s: Seq<char>) -> Seq<char> {
    s.map(|i: int, c: char| lower_char(c))
}

pub fn lower_chars(v: &Vec<char>) -> (r: Vec<char>)
    ensures
        r@ == lower_seq(v@),
{
    let mut out: Vec<char> = Vec::new();
    let mut i: usize = 0;
    while i < v.len()
        invariant
            0 <= i <= v@.len(),
            out@.len() == i,
            forall|k: int| 0 <= k < i ==> out@[k] == lower_char(v@[k]),
        decreases v@.len() - i,
    {
        out.push(lower_char_exec(v[i]));
        i = i + 1;
    }
    proof {
        assert(out@ =~= lower_seq(v@));
    }
    out
}

// ---------------------------------------------------------------------------
// Vec<char> utilities
// ---------------------------------------------------------------------------

/// A copy of `v[a..b]`.
pub fn subrange_chars(v: &Vec<char>, a: usize, b: usize) -> (r: Vec<char>)
    requires
        a <= b <= v@.len(),
    ensures
        r@ == v@.subrange(a as int, b as int),
{
    let mut out: Vec<char> = Vec::new();
    let mut i: usize = a;
    while i < b
        invariant
            a <= i <= b <= v@.len(),
            out@.len() == i - a,
            forall|k: int| 0 <= k < out@.len() ==> out@[k] == v@[a + k],
        decreases b - i,
    {
        out.push(v[i]);
        i = i + 1;
    }
    proof {
        assert(out@ =~= v@.subrange(a as int, b as int));
    }
    out
}

/// A copy of `v`.
pub fn copy_chars(v: &Vec<char>) -> (r: Vec<char>)
    ensures
        r@ == v@,
{
    let r = subrange_chars(v, 0, v.len());
    proof {
        assert(v@.subrange(0, v@.len() as int) =~= v@);
    }
    r
}

/// Appends a copy of `s` to `out`.
pub fn push_chars(out: &mut Vec<char>, s: &Vec<char>)
    ensures
        final(out)@ == old(out)@ + s@,
{
    let ghost base = out@;
    let mut i: usize = 0;
    while i < s.len()
        invariant
            0 <= i <= s@.len(),
            out@ == base + s@.subrange(0, i as int),
        decreases s@.len() - i,
    {
        proof {
            assert(base + s@.subrange(0, i + 1 as int) =~= (base + s@.subrange(0, i as int)).push(
                s@[i as int],
            ));
        }
        out.push(s[i]);
        i = i + 1;
    }
    proof {
        assert(out@ =~= base + s@);
    }
}

/// Appends the characters of the literal `s` to `out`.
pub fn push_str_chars(out: &mut Vec<char>, s: &str)
    ensures
        final(out)@ == old(out)@ + s@,
{
    let ghost base = out@;
    let n: usize = s.unicode_len();
    let mut i: usize = 0;
    while i < n
        invariant
            0 <= i <= n,
            n == s@.len(),
            out@ == base + s@.subrange(0, i as int),
        decreases n - i,
    {
        let c: char = s.get_char(i);
        proof {
            assert(base + s@.subrange(0, i + 1 as int) =~= (base + s@.subrange(0, i as int)).push(
                s@[i as int],
            ));
        }
        out.push(c);
        i = i + 1;
    }
    proof {
        assert(out@ =~= base + s@);
    }
}

/// The characters of `s` as a vector.
pub fn str_to_chars(s: &str) -> (r: Vec<char>)
    ensures
        r@ == s@,
{
    let mut out: Vec<char> = Vec::new();
    push_str_chars(&mut out, s);
    out
}

/// Whether `v` holds exactly the characters of the literal `s`.
pub fn eq_str(v: &Vec<char>, s: &str) -> (r: bool)
    ensures
        r == (v@ == s@),
{
    let n: usize = s.unicode_len();
    if v.len() != n {
        proof {
            assert(v@.len() != s@.len());
        }
        return false;
    }
    let mut i: usize = 0;
    while i < n
        invariant
            0 <= i <= n,
            n == s@.len(),
            v@.len() == n,
            forall|k: int| 0 <= k < i ==> v@[k] == s@[k],
        decreases n - i,
    {
        if v[i] != s.get_char(i) {
            return false;
        }
        i = i + 1;
    }
    proof {
        assert(v@ =~= s@);
    }
    true
}

/// Whether two character vectors hold the same characters.
pub fn eq_chars(a: &Vec<char>, b: &Vec<char>) -> (r: bool)
    ensures
        r == (a@ == b@),
{
    if a.len() != b.len() {
        proof {
            assert(a@.len() != b@.len());
        }
        return false;
    }
    let mut i: usize = 0;
    while i < a.len()
        invariant
            0 <= i <= a@.len(),
            a@.len() == b@.len(),
            forall|k: int| 0 <= k < i ==> a@[k] == b@[k],
        decreases a@.len() - i,
    {
        if a[i] != b[i] {
            return false;
        }
        i = i + 1;
    }
    proof {
        assert(a@ =~= b@);
    }
    true
}

} // verus!
