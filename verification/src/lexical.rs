//! The lexical classifier: a deterministic, ordered chain of mutually
//! exclusive predicates over the trimmed line text, first match wins. It works
//! for any language family and serves as the reference and fallback strategy.

use vstd::prelude::*;
use vstd::string::StringExecFns;
use vstd::string::StringSliceAdditionalSpecFns;
use vstd::utf8::encode_utf8;

use crate::symbol::Category;
use crate::symbol::ClassifyResult;
use crate::symbol::PrefixSymbol;
use crate::symbol::make_result;
use crate::symbol::result_matches;
use crate::symbol::spec_cat_symbol;
use crate::symbol::spec_gutter_str;
use crate::symbol::spec_to_bits;
use crate::text::contains_bytes;
use crate::text::contains_seq;
use crate::text::pack_codes;
use crate::text::pack_nibbles;
use crate::text::spec_line_count;
use crate::text::spec_lines;
use crate::text::spec_trim;
use crate::text::split_lines;
use crate::text::starts_with_bytes;
use crate::text::starts_with_seq;
use crate::text::trim_bytes;
use crate::text::views_of;
use crate::text::bytes_eq;

verus! {

/// A byte that may legally follow a matched keyword: space, `(`, `{`, `:`,
/// `<`, `[`, tab, `!`, `.`.
pub open spec fn is_kw_boundary(b: u8) -> bool {
    b == 32 || b == 40 || b == 123 || b == 58 || b == 60 || b == 91 || b == 9 || b == 33 || b == 46
}

/// The line is exactly the keyword, or the keyword followed by a boundary
/// byte.
pub open spec fn kw_at(t: Seq<u8>, p: Seq<u8>) -> bool {
    starts_with_seq(t, p) && (t.len() == p.len() || is_kw_boundary(t[p.len() as int]))
}

/// The byte form of the C preprocessor file-inclusion directive.
pub open spec fn inc_directive() -> Seq<u8> {
    encode_utf8("#inclu"@ + "de"@)
}

/// The byte form of the C foreign-linkage keyword.
pub open spec fn linkage_kw() -> Seq<u8> {
    encode_utf8("ext"@ + "ern"@)
}

/// The byte form of the Rust macro-definition opener.
pub open spec fn macro_def_kw() -> Seq<u8> {
    encode_utf8("macro_"@ + "rules!"@)
}

/// Comment sigils: `#`, `//`, `/*`, `--`, triple quotes, `;;`, an HTML
/// comment opener, or a literal `REM ` prefix.
pub open spec fn is_comment_line(t: Seq<u8>) -> bool {
    ||| t.len() >= 1 && t[0] == 35
    ||| t.len() >= 2 && t[0] == 47 && (t[1] == 47 || t[1] == 42)
    ||| t.len() >= 2 && t[0] == 45 && t[1] == 45
    ||| t.len() >= 3 && t[0] == 39 && t[1] == 39 && t[2] == 39
    ||| t.len() >= 3 && t[0] == 34 && t[1] == 34 && t[2] == 34
    ||| t.len() >= 2 && t[0] == 59 && t[1] == 59
    ||| t.len() >= 3 && t[0] == 60 && t[1] == 33 && t[2] == 45
    ||| starts_with_seq(t, "REM ".spec_bytes())
}

/// Import forms: import keywords at the start of the line, or a preprocessor
/// or at-rule import directive.
pub open spec fn is_import_line(t: Seq<u8>) -> bool {
    ||| kw_at(t, "import".spec_bytes())
    ||| kw_at(t, "from".spec_bytes())
    ||| kw_at(t, "use".spec_bytes())
    ||| kw_at(t, "require".spec_bytes())
    ||| starts_with_seq(t, inc_directive())
    ||| starts_with_seq(t, "@import".spec_bytes())
    ||| kw_at(t, "using".spec_bytes())
    ||| kw_at(t, linkage_kw())
    ||| kw_at(t, "mod".spec_bytes())
    ||| kw_at(t, "package".spec_bytes())
}

/// Declaration keywords: type and value definitions.
pub open spec fn is_declaration_line(t: Seq<u8>) -> bool {
    ||| kw_at(t, "fn".spec_bytes())
    ||| kw_at(t, "function".spec_bytes())
    ||| kw_at(t, "def".spec_bytes())
    ||| kw_at(t, "class".spec_bytes())
    ||| kw_at(t, "struct".spec_bytes())
    ||| kw_at(t, "enum".spec_bytes())
    ||| kw_at(t, "trait".spec_bytes())
    ||| kw_at(t, "interface".spec_bytes())
    ||| kw_at(t, "type".spec_bytes())
    ||| kw_at(t, "const".spec_bytes())
    ||| kw_at(t, "let".spec_bytes())
    ||| kw_at(t, "var".spec_bytes())
    ||| kw_at(t, "val".spec_bytes())
    ||| kw_at(t, "static".spec_bytes())
    ||| kw_at(t, "pub fn".spec_bytes())
    ||| kw_at(t, "pub struct".spec_bytes())
    ||| kw_at(t, "pub enum".spec_bytes())
    ||| kw_at(t, "pub trait".spec_bytes())
    ||| kw_at(t, "export".spec_bytes())
    ||| kw_at(t, "async fn".spec_bytes())
    ||| kw_at(t, "impl".spec_bytes())
    ||| kw_at(t, "protocol".spec_bytes())
    ||| kw_at(t, "typedef".spec_bytes())
    ||| kw_at(t, macro_def_kw())
}

/// Control-flow keywords, plus the brace-continuation form `} else`.
pub open spec fn is_logic_line(t: Seq<u8>) -> bool {
    ||| kw_at(t, "if".spec_bytes())
    ||| kw_at(t, "else".spec_bytes())
    ||| kw_at(t, "elif".spec_bytes())
    ||| kw_at(t, "for".spec_bytes())
    ||| kw_at(t, "while".spec_bytes())
    ||| kw_at(t, "loop".spec_bytes())
    ||| kw_at(t, "match".spec_bytes())
    ||| kw_at(t, "switch".spec_bytes())
    ||| kw_at(t, "case".spec_bytes())
    ||| kw_at(t, "when".spec_bytes())
    ||| kw_at(t, "guard".spec_bytes())
    ||| kw_at(t, "try".spec_bytes())
    ||| kw_at(t, "catch".spec_bytes())
    ||| kw_at(t, "except".spec_bytes())
    ||| kw_at(t, "finally".spec_bytes())
    ||| kw_at(t, "do".spec_bytes())
    ||| starts_with_seq(t, "} else".spec_bytes())
}

/// Flow-modifier keywords.
pub open spec fn is_modifier_line(t: Seq<u8>) -> bool {
    ||| kw_at(t, "return".spec_bytes())
    ||| kw_at(t, "yield".spec_bytes())
    ||| kw_at(t, "break".spec_bytes())
    ||| kw_at(t, "continue".spec_bytes())
    ||| kw_at(t, "throw".spec_bytes())
    ||| kw_at(t, "raise".spec_bytes())
    ||| kw_at(t, "panic!".spec_bytes())
    ||| kw_at(t, "assert".spec_bytes())
    ||| kw_at(t, "defer".spec_bytes())
    ||| kw_at(t, "await".spec_bytes())
}

/// Substring patterns that mark a line as performing I/O.
pub open spec fn has_io_pattern(t: Seq<u8>) -> bool {
    ||| contains_seq(t, "print".spec_bytes())
    ||| contains_seq(t, "println".spec_bytes())
    ||| contains_seq(t, "console.".spec_bytes())
    ||| contains_seq(t, ".log(".spec_bytes())
    ||| contains_seq(t, ".warn(".spec_bytes())
    ||| contains_seq(t, ".error(".spec_bytes())
    ||| contains_seq(t, "write(".spec_bytes())
    ||| contains_seq(t, "writeln!".spec_bytes())
    ||| contains_seq(t, "read(".spec_bytes())
    ||| contains_seq(t, "readline".spec_bytes())
    ||| contains_seq(t, "fetch(".spec_bytes())
    ||| contains_seq(t, "XMLHttpRequest".spec_bytes())
    ||| contains_seq(t, "stdin".spec_bytes())
    ||| contains_seq(t, "stdout".spec_bytes())
    ||| contains_seq(t, "stderr".spec_bytes())
    ||| contains_seq(t, "fs.read".spec_bytes())
    ||| contains_seq(t, "fs.write".spec_bytes())
    ||| contains_seq(t, "open(".spec_bytes())
    ||| contains_seq(t, "socket".spec_bytes())
    ||| contains_seq(t, "http.".spec_bytes())
}

/// The fixed I/O substring patterns of `has_io_pattern`, in rule order.
pub open spec fn io_pattern_list() -> Seq<Seq<u8>> {
    seq![
        "print".spec_bytes(),
        "println".spec_bytes(),
        "console.".spec_bytes(),
        ".log(".spec_bytes(),
        ".warn(".spec_bytes(),
        ".error(".spec_bytes(),
        "write(".spec_bytes(),
        "writeln!".spec_bytes(),
        "read(".spec_bytes(),
        "readline".spec_bytes(),
        "fetch(".spec_bytes(),
        "XMLHttpRequest".spec_bytes(),
        "stdin".spec_bytes(),
        "stdout".spec_bytes(),
        "stderr".spec_bytes(),
        "fs.read".spec_bytes(),
        "fs.write".spec_bytes(),
        "open(".spec_bytes(),
        "socket".spec_bytes(),
        "http.".spec_bytes(),
    ]
}

/// A standalone `=`: not immediately preceded and not immediately followed
/// by another `=` (so `==` and `===` never match, while `=`, `+=`, `:=` do).
pub open spec fn has_assignment(t: Seq<u8>) -> bool {
    exists|i: int|
        0 <= i < t.len() && #[trigger] t[i] == 61 && (i == 0 || t[i - 1] != 61) && (i + 1
            == t.len() || t[i + 1] != 61)
}

/// Bare closing delimiters and block-end keywords.
pub open spec fn is_closing_line(t: Seq<u8>) -> bool {
    ||| t == "}".spec_bytes()
    ||| t == "};".spec_bytes()
    ||| t == ")".spec_bytes()
    ||| t == "]".spec_bytes()
    ||| t == "end".spec_bytes()
    ||| t == "fi".spec_bytes()
    ||| t == "done".spec_bytes()
    ||| t == "})".spec_bytes()
}

/// Rules four to eleven of the ordered chain: what a line that is neither a
/// preprocessor directive nor a comment classifies to. The byte-dispatch
/// classifier's deep pass repeats exactly this precedence.
pub open spec fn lex_rest(t: Seq<u8>) -> Category {
    if is_import_line(t) {
        Category::Import
    } else if is_declaration_line(t) {
        Category::Declaration
    } else if is_logic_line(t) {
        Category::Logic
    } else if is_modifier_line(t) {
        Category::Modifier
    } else if has_io_pattern(t) {
        Category::IO
    } else if has_assignment(t) {
        Category::Assignment
    } else if is_closing_line(t) {
        Category::Neutral
    } else {
        Category::Unknown
    }
}

/// The ordered rule chain over an already-trimmed line.
pub open spec fn lex_category_trimmed(t: Seq<u8>) -> Category {
    if t.len() == 0 {
        Category::Neutral
    } else if starts_with_seq(t, inc_directive()) || starts_with_seq(t, "#import".spec_bytes()) {
        Category::Import
    } else if is_comment_line(t) {
        Category::Comment
    } else {
        lex_rest(t)
    }
}

/// The category the lexical classifier assigns to a raw line.
pub open spec fn lex_category(line: Seq<u8>) -> Category {
    lex_category_trimmed(spec_trim(line))
}

/// The per-line categories of a whole text under the lexical classifier.
pub open spec fn lex_line_cats(src: Seq<u8>) -> Seq<Category> {
    spec_lines(src).map_values(|l: Seq<u8>| lex_category(l))
}

/// The per-line 4-bit codes of a whole text under the lexical classifier.
pub open spec fn lex_codes(src: Seq<u8>) -> Seq<u8> {
    spec_lines(src).map_values(|l: Seq<u8>| spec_to_bits(spec_cat_symbol(lex_category(l))))
}

/// Law: the classification outcome is a function of the line alone, so two
/// calls of `classify` on equal lines — on the same instance or on fresh
/// ones — yield identical results: any two outcomes that satisfy its
/// contract coincide.
pub proof fn lemma_classify_deterministic(
    line1: Seq<u8>,
    line2: Seq<u8>,
    r1: (PrefixSymbol, Category),
    r2: (PrefixSymbol, Category),
)
    requires
        line1 == line2,
        r1.1 == lex_category(line1),
        r1.0 == spec_cat_symbol(r1.1),
        r2.1 == lex_category(line2),
        r2.0 == spec_cat_symbol(r2.1),
    ensures
        r1 == r2,
{
}

/// Concatenate two text fragments.
fn glue(a: &str, b: &str) -> (r: String)
    ensures
        r@ == a@ + b@,
{
    let mut s = String::from_str(a);
    s.append(b);
    s
}

fn is_kw_boundary_exec(b: u8) -> (r: bool)
    ensures
        r == is_kw_boundary(b),
{
    b == 32 || b == 40 || b == 123 || b == 58 || b == 60 || b == 91 || b == 9 || b == 33 || b == 46
}

/// Boundary-checked keyword match at the start of a line.
fn starts_with_keyword(t: &[u8], p: &[u8]) -> (r: bool)
    ensures
        r == kw_at(t@, p@),
{
    if !starts_with_bytes(t, p) {
        return false;
    }
    if t.len() == p.len() {
        return true;
    }
    is_kw_boundary_exec(t[p.len()])
}

pub(crate) fn is_comment_exec(t: &[u8]) -> (r: bool)
    ensures
        r == is_comment_line(t@),
{
    let n = t.len();
    if n >= 1 && t[0] == 35 {
        return true;
    }
    if n >= 2 && t[0] == 47 && (t[1] == 47 || t[1] == 42) {
        return true;
    }
    if n >= 2 && t[0] == 45 && t[1] == 45 {
        return true;
    }
    if n >= 3 && t[0] == 39 && t[1] == 39 && t[2] == 39 {
        return true;
    }
    if n >= 3 && t[0] == 34 && t[1] == 34 && t[2] == 34 {
        return true;
    }
    if n >= 2 && t[0] == 59 && t[1] == 59 {
        return true;
    }
    if n >= 3 && t[0] == 60 && t[1] == 33 && t[2] == 45 {
        return true;
    }
    starts_with_bytes(t, "REM ".as_bytes())
}

pub(crate) fn is_import_exec(t: &[u8]) -> (r: bool)
    ensures
        r == is_import_line(t@),
{
    let inc = glue("#inclu", "de");
    let lnk = glue("ext", "ern");
    starts_with_keyword(t, "import".as_bytes()) || starts_with_keyword(t, "from".as_bytes())
        || starts_with_keyword(t, "use".as_bytes()) || starts_with_keyword(
        t,
        "require".as_bytes(),
    ) || starts_with_bytes(t, inc.as_str().as_bytes()) || starts_with_bytes(
        t,
        "@import".as_bytes(),
    ) || starts_with_keyword(t, "using".as_bytes()) || starts_with_keyword(
        t,
        lnk.as_str().as_bytes(),
    ) || starts_with_keyword(t, "mod".as_bytes()) || starts_with_keyword(t, "package".as_bytes())
}

pub(crate) fn is_declaration_exec(t: &[u8]) -> (r: bool)
    ensures
        r == is_declaration_line(t@),
{
    let mac = glue("macro_", "rules!");
    starts_with_keyword(t, "fn".as_bytes()) || starts_with_keyword(t, "function".as_bytes())
        || starts_with_keyword(t, "def".as_bytes()) || starts_with_keyword(t, "class".as_bytes())
        || starts_with_keyword(t, "struct".as_bytes()) || starts_with_keyword(
        t,
        "enum".as_bytes(),
    ) || starts_with_keyword(t, "trait".as_bytes()) || starts_with_keyword(
        t,
        "interface".as_bytes(),
    ) || starts_with_keyword(t, "type".as_bytes()) || starts_with_keyword(t, "const".as_bytes())
        || starts_with_keyword(t, "let".as_bytes()) || starts_with_keyword(t, "var".as_bytes())
        || starts_with_keyword(t, "val".as_bytes()) || starts_with_keyword(t, "static".as_bytes())
        || starts_with_keyword(t, "pub fn".as_bytes()) || starts_with_keyword(
        t,
        "pub struct".as_bytes(),
    ) || starts_with_keyword(t, "pub enum".as_bytes()) || starts_with_keyword(
        t,
        "pub trait".as_bytes(),
    ) || starts_with_keyword(t, "export".as_bytes()) || starts_with_keyword(
        t,
        "async fn".as_bytes(),
    ) || starts_with_keyword(t, "impl".as_bytes()) || starts_with_keyword(
        t,
        "protocol".as_bytes(),
    ) || starts_with_keyword(t, "typedef".as_bytes()) || starts_with_keyword(
        t,
        mac.as_str().as_bytes(),
    )
}

pub(crate) fn is_logic_exec(t: &[u8]) -> (r: bool)
    ensures
        r == is_logic_line(t@),
{
    starts_with_keyword(t, "if".as_bytes()) || starts_with_keyword(t, "else".as_bytes())
        || starts_with_keyword(t, "elif".as_bytes()) || starts_with_keyword(t, "for".as_bytes())
        || starts_with_keyword(t, "while".as_bytes()) || starts_with_keyword(
        t,
        "loop".as_bytes(),
    ) || starts_with_keyword(t, "match".as_bytes()) || starts_with_keyword(
        t,
        "switch".as_bytes(),
    ) || starts_with_keyword(t, "case".as_bytes()) || starts_with_keyword(t, "when".as_bytes())
        || starts_with_keyword(t, "guard".as_bytes()) || starts_with_keyword(t, "try".as_bytes())
        || starts_with_keyword(t, "catch".as_bytes()) || starts_with_keyword(
        t,
        "except".as_bytes(),
    ) || starts_with_keyword(t, "finally".as_bytes()) || starts_with_keyword(t, "do".as_bytes())
        || starts_with_bytes(t, "} else".as_bytes())
}

pub(crate) fn is_modifier_exec(t: &[u8]) -> (r: bool)
    ensures
        r == is_modifier_line(t@),
{
    starts_with_keyword(t, "return".as_bytes()) || starts_with_keyword(t, "yield".as_bytes())
        || starts_with_keyword(t, "break".as_bytes()) || starts_with_keyword(
        t,
        "continue".as_bytes(),
    ) || starts_with_keyword(t, "throw".as_bytes()) || starts_with_keyword(t, "raise".as_bytes())
        || starts_with_keyword(t, "panic!".as_bytes()) || starts_with_keyword(
        t,
        "assert".as_bytes(),
    ) || starts_with_keyword(t, "defer".as_bytes()) || starts_with_keyword(t, "await".as_bytes())
}

/// Substring match against the fixed I/O call patterns.
pub(crate) fn contains_io_pattern(t: &[u8]) -> (r: bool)
    ensures
        r == has_io_pattern(t@),
{
    contains_bytes(t, "print".as_bytes()) || contains_bytes(t, "println".as_bytes())
        || contains_bytes(t, "console.".as_bytes()) || contains_bytes(t, ".log(".as_bytes())
        || contains_bytes(t, ".warn(".as_bytes()) || contains_bytes(t, ".error(".as_bytes())
        || contains_bytes(t, "write(".as_bytes()) || contains_bytes(t, "writeln!".as_bytes())
        || contains_bytes(t, "read(".as_bytes()) || contains_bytes(t, "readline".as_bytes())
        || contains_bytes(t, "fetch(".as_bytes()) || contains_bytes(t, "XMLHttpRequest".as_bytes())
        || contains_bytes(t, "stdin".as_bytes()) || contains_bytes(t, "stdout".as_bytes())
        || contains_bytes(t, "stderr".as_bytes()) || contains_bytes(t, "fs.read".as_bytes())
        || contains_bytes(t, "fs.write".as_bytes()) || contains_bytes(t, "open(".as_bytes())
        || contains_bytes(t, "socket".as_bytes()) || contains_bytes(t, "http.".as_bytes())
}

/// Scan for a standalone assignment operator.
pub(crate) fn contains_assignment(t: &[u8]) -> (r: bool)
    ensures
        r == has_assignment(t@),
{
    let n = t.len();
    let mut i: usize = 0;
    while i < n
        invariant
            i <= n,
            n == t@.len(),
            forall|k: int|
                0 <= k < i ==> !(#[trigger] t@[k] == 61 && (k == 0 || t@[k - 1] != 61) && (k + 1
                    == n || t@[k + 1] != 61)),
        decreases n - i,
    {
        if t[i] == 61 {
            let prev_eq = i > 0 && t[i - 1] == 61;
            let next_eq = i + 1 < n && t[i + 1] == 61;
            if !prev_eq && !next_eq {
                return true;
            }
        }
        i += 1;
    }
    false
}

pub(crate) fn is_closing_exec(t: &[u8]) -> (r: bool)
    ensures
        r == is_closing_line(t@),
{
    bytes_eq(t, "}".as_bytes()) || bytes_eq(t, "};".as_bytes()) || bytes_eq(t, ")".as_bytes())
        || bytes_eq(t, "]".as_bytes()) || bytes_eq(t, "end".as_bytes()) || bytes_eq(
        t,
        "fi".as_bytes(),
    ) || bytes_eq(t, "done".as_bytes()) || bytes_eq(t, "})".as_bytes())
}

/// Rules four to eleven of the ordered chain, first match wins.
pub(crate) fn classify_rest(t: &[u8]) -> (c: Category)
    ensures
        c == lex_rest(t@),
{
    if is_import_exec(t) {
        return Category::Import;
    }
    if is_declaration_exec(t) {
        return Category::Declaration;
    }
    if is_logic_exec(t) {
        return Category::Logic;
    }
    if is_modifier_exec(t) {
        return Category::Modifier;
    }
    if contains_io_pattern(t) {
        return Category::IO;
    }
    if contains_assignment(t) {
        return Category::Assignment;
    }
    if is_closing_exec(t) {
        return Category::Neutral;
    }
    Category::Unknown
}

/// The ordered rule chain over an already-trimmed line.
fn classify_trimmed(t: &[u8]) -> (c: Category)
    ensures
        c == lex_category_trimmed(t@),
{
    if t.len() == 0 {
        return Category::Neutral;
    }
    let inc = glue("#inclu", "de");
    if starts_with_bytes(t, inc.as_str().as_bytes()) || starts_with_bytes(
        t,
        "#import".as_bytes(),
    ) {
        return Category::Import;
    }
    if is_comment_exec(t) {
        return Category::Comment;
    }
    classify_rest(t)
}

/// The category the lexical classifier assigns to a raw line of bytes.
pub fn classify_line_bytes(line: &[u8]) -> (c: Category)
    ensures
        c == lex_category(line@),
{
    let t = trim_bytes(line);
    classify_trimmed(t.as_slice())
}

/// The lexical classifier. It holds only fixed rule tables; every
/// classification is a pure function of the line alone.
pub struct PrefixClassifier {}

impl Default for PrefixClassifier {
    fn default() -> (r: Self)
        ensures
            true,
    {
        Self::new()
    }
}

impl PrefixClassifier {
    pub fn new() -> (r: Self)
        ensures
            true,
    {
        PrefixClassifier {  }
    }

    /// Classify a single line; the returned symbol is always the canonical
    /// symbol of the returned category.
    pub fn classify(&self, line: &str) -> (r: (PrefixSymbol, Category))
        ensures
            r.1 == lex_category(line.spec_bytes()),
            r.0 == spec_cat_symbol(r.1),
    {
        let cat = classify_line_bytes(line.as_bytes());
        (cat.symbol(), cat)
    }

    /// Classify a single line into a structured record.
    pub fn classify_line(&self, line: &str, line_num: usize) -> (r: ClassifyResult)
        ensures
            result_matches(r, lex_category(line.spec_bytes()), line_num as int),
    {
        let (_, cat) = self.classify(line);
        make_result(cat, line_num)
    }

    /// Classify every line of a text, in input order, 1-indexed.
    pub fn classify_batch(&self, source: &str) -> (r: Vec<ClassifyResult>)
        ensures
            r@.len() == spec_line_count(source.spec_bytes()),
            forall|i: int|
                0 <= i < r@.len() ==> result_matches(
                    r@[i],
                    lex_line_cats(source.spec_bytes())[i],
                    i + 1,
                ),
    {
        let lines = split_lines(source.as_bytes());
        let n = lines.len();
        let mut results: Vec<ClassifyResult> = Vec::new();
        let mut i: usize = 0;
        while i < n
            invariant
                i <= n,
                n == lines@.len(),
                views_of(lines@) == spec_lines(source.spec_bytes()),
                results@.len() == i,
                forall|k: int|
                    0 <= k < i ==> result_matches(
                        results@[k],
                        lex_line_cats(source.spec_bytes())[k],
                        k + 1,
                    ),
            decreases n - i,
        {
            let cat = classify_line_bytes(lines[i].as_slice());
            assert(lines@[i as int]@ == views_of(lines@)[i as int]);
            results.push(make_result(cat, i + 1));
            i += 1;
        }
        results
    }

    /// Classify every line and pack the 4-bit codes two per byte, first
    /// line's code in the high half; an odd final line's partner is zero.
    pub fn classify_binary(&self, source: &str) -> (r: Vec<u8>)
        ensures
            r@ == pack_nibbles(lex_codes(source.spec_bytes())),
            r@.len() == (spec_line_count(source.spec_bytes()) + 1) / 2,
    {
        let lines = split_lines(source.as_bytes());
        let n = lines.len();
        let mut codes: Vec<u8> = Vec::new();
        let mut i: usize = 0;
        while i < n
            invariant
                i <= n,
                n == lines@.len(),
                views_of(lines@) == spec_lines(source.spec_bytes()),
                codes@.len() == i,
                forall|k: int| 0 <= k < i ==> codes@[k] == lex_codes(source.spec_bytes())[k],
                forall|k: int| 0 <= k < i ==> codes@[k] <= 8,
            decreases n - i,
        {
            let cat = classify_line_bytes(lines[i].as_slice());
            assert(lines@[i as int]@ == views_of(lines@)[i as int]);
            codes.push(cat.symbol().to_bits());
            i += 1;
        }
        proof {
            assert(codes@ =~= lex_codes(source.spec_bytes()));
        }
        pack_codes(&codes)
    }

    /// One display string per line, the symbol right-justified to width two.
    pub fn gutter(&self, source: &str) -> (r: Vec<String>)
        ensures
            r@.len() == spec_line_count(source.spec_bytes()),
            forall|i: int|
                0 <= i < r@.len() ==> r@[i]@ == spec_gutter_str(
                    spec_cat_symbol(lex_line_cats(source.spec_bytes())[i]),
                ),
    {
        let lines = split_lines(source.as_bytes());
        let n = lines.len();
        let mut out: Vec<String> = Vec::new();
        let mut i: usize = 0;
        while i < n
            invariant
                i <= n,
                n == lines@.len(),
                views_of(lines@) == spec_lines(source.spec_bytes()),
                out@.len() == i,
                forall|k: int|
                    0 <= k < i ==> out@[k]@ == spec_gutter_str(
                        spec_cat_symbol(lex_line_cats(source.spec_bytes())[k]),
                    ),
            decreases n - i,
        {
            let cat = classify_line_bytes(lines[i].as_slice());
            assert(lines@[i as int]@ == views_of(lines@)[i as int]);
            out.push(cat.symbol().gutter_str().to_owned());
            i += 1;
        }
        out
    }
}

} // verus!
