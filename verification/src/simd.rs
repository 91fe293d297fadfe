//! The byte-dispatch classifier: a throughput-oriented variant of the lexical
//! rule chain. A 256-entry table keyed by the trimmed line's first byte routes
//! to a direct comment classification, a second-byte check, or a deep pass
//! that repeats the lexical rule precedence with fixed-length prefix
//! comparisons. The deep pass carries exactly the lexical rules; the only
//! deviations are the table's direct comment routes, stated in
//! `lemma_dispatch_agrees_with_lexical`.

use vstd::prelude::*;
use vstd::string::StringSliceAdditionalSpecFns;
use vstd::utf8::is_ascii_chars;
use vstd::utf8::is_ascii_chars_encode_utf8;

use crate::lexical::contains_assignment;
use crate::lexical::has_assignment;
use crate::lexical::has_io_pattern;
use crate::lexical::inc_directive;
use crate::lexical::io_pattern_list;
use crate::lexical::is_declaration_exec;
use crate::lexical::is_closing_exec;
use crate::lexical::is_import_exec;
use crate::lexical::is_kw_boundary;
use crate::lexical::is_logic_exec;
use crate::lexical::is_modifier_exec;
use crate::lexical::lex_category;
use crate::lexical::lex_rest;
use crate::symbol::Category;
use crate::symbol::ClassifyResult;
use crate::symbol::PrefixSymbol;
use crate::symbol::make_result;
use crate::symbol::result_matches;
use crate::symbol::spec_cat_symbol;
use crate::symbol::spec_gutter_str;
use crate::symbol::spec_to_bits;
use crate::text::contains_seq;
use crate::text::contains_bytes;
use crate::text::pack_codes;
use crate::text::pack_nibbles;
use crate::text::spec_line_count;
use crate::text::spec_lines;
use crate::text::spec_trim;
use crate::text::split_lines;
use crate::text::starts_with_seq;
use crate::text::trim_bytes;
use crate::text::views_of;

verus! {

/// First-byte dispatch values: 5 routes straight to comment, 254/253/252 ask
/// for a second-byte check (`/`, `-`, `<`), 255 falls through to the deep
/// pass.
pub open spec fn dispatch_of(b: u8) -> u8 {
    if b == 35 || b == 59 {
        5
    } else if b == 47 {
        254
    } else if b == 45 {
        253
    } else if b == 60 {
        252
    } else {
        255
    }
}

/// The category the dispatch table routes an already-trimmed line to: the
/// direct and second-byte comment routes first, the full lexical precedence
/// of rules four to eleven otherwise.
pub open spec fn simd_category_trimmed(t: Seq<u8>) -> Category {
    if t.len() == 0 {
        Category::Neutral
    } else {
        let d = dispatch_of(t[0]);
        if d == 5 {
            Category::Comment
        } else if d == 254 {
            if t.len() >= 2 && (t[1] == 47 || t[1] == 42) {
                Category::Comment
            } else {
                lex_rest(t)
            }
        } else if d == 253 {
            if t.len() >= 2 && t[1] == 45 {
                Category::Comment
            } else {
                lex_rest(t)
            }
        } else if d == 252 {
            if t.len() >= 4 && t[1] == 33 && t[2] == 45 && t[3] == 45 {
                Category::Comment
            } else {
                lex_rest(t)
            }
        } else {
            lex_rest(t)
        }
    }
}

/// The category the byte-dispatch classifier assigns to a raw line.
pub open spec fn simd_category(line: Seq<u8>) -> Category {
    simd_category_trimmed(spec_trim(line))
}

/// The per-line categories of a whole text under the byte-dispatch
/// classifier.
pub open spec fn simd_line_cats(src: Seq<u8>) -> Seq<Category> {
    spec_lines(src).map_values(|l: Seq<u8>| simd_category(l))
}

/// The per-line 4-bit codes of a whole text under the byte-dispatch
/// classifier.
pub open spec fn simd_codes(src: Seq<u8>) -> Seq<u8> {
    spec_lines(src).map_values(|l: Seq<u8>| spec_to_bits(spec_cat_symbol(simd_category(l))))
}

proof fn lemma_pattern_first_bytes()
    ensures
        inc_directive().len() >= 1,
        inc_directive()[0] == 35,
        "#import".spec_bytes().len() >= 1,
        "#import".spec_bytes()[0] == 35,
        "REM ".spec_bytes().len() >= 1,
        "REM ".spec_bytes()[0] == 82,
{
    reveal_strlit("#inclu");
    reveal_strlit("de");
    reveal_strlit("#import");
    reveal_strlit("REM ");
    let cs = "#inclu"@ + "de"@;
    assert(is_ascii_chars(cs));
    is_ascii_chars_encode_utf8(cs);
    assert(cs[0] == '#');
    let c2 = "#import"@;
    assert(is_ascii_chars(c2));
    is_ascii_chars_encode_utf8(c2);
    let c3 = "REM "@;
    assert(is_ascii_chars(c3));
    is_ascii_chars_encode_utf8(c3);
}

/// The trimmed line does not begin with a byte that the dispatch table's
/// comment routes or the prefix-matched comment sigils treat specially
/// (`"`, `#`, `'`, `;`, `<`, `R`).
pub open spec fn outside_comment_shortcuts(l: Seq<u8>) -> bool {
    let t = spec_trim(l);
    t.len() == 0 || (t[0] != 34 && t[0] != 35 && t[0] != 39 && t[0] != 59 && t[0] != 60 && t[0]
        != 82)
}

/// Law: the byte-dispatch classifier agrees with the lexical classifier on
/// every line whose trimmed text does not begin with a byte the dispatch
/// table or the comment sigils treat specially; within the excluded bytes, a
/// leading `#` or `;` always takes the table's direct comment route — the
/// deliberately documented shortcut.
pub proof fn lemma_dispatch_agrees_with_lexical(line: Seq<u8>)
    ensures
        outside_comment_shortcuts(line) ==> simd_category(line) == lex_category(line),
        ({
            let t = spec_trim(line);
            t.len() > 0 && (t[0] == 35 || t[0] == 59) ==> simd_category(line) == Category::Comment
        }),
{
    let t = spec_trim(line);
    lemma_pattern_first_bytes();
    if t.len() > 0 && t[0] != 34 && t[0] != 35 && t[0] != 39 && t[0] != 59 && t[0] != 60 && t[0]
        != 82 {
        if starts_with_seq(t, inc_directive()) {
            assert(t.subrange(0, inc_directive().len() as int)[0] == t[0]);
            assert(false);
        }
        if starts_with_seq(t, "#import".spec_bytes()) {
            assert(t.subrange(0, "#import".spec_bytes().len() as int)[0] == t[0]);
            assert(false);
        }
        if starts_with_seq(t, "REM ".spec_bytes()) {
            assert(t.subrange(0, "REM ".spec_bytes().len() as int)[0] == t[0]);
            assert(false);
        }
    }
}

/// Law: over a text none of whose lines begins, after trimming, with a
/// shortcut byte, the byte-dispatch classifier's per-line categories and
/// 4-bit codes equal the lexical classifier's — so its batch, gutter and
/// binary-packed forms coincide with the lexical ones.
pub proof fn lemma_line_models_agree(src: Seq<u8>)
    requires
        forall|i: int|
            0 <= i < spec_lines(src).len() ==> outside_comment_shortcuts(
                #[trigger] spec_lines(src)[i],
            ),
    ensures
        simd_line_cats(src) == crate::lexical::lex_line_cats(src),
        simd_codes(src) == crate::lexical::lex_codes(src),
{
    assert forall|i: int| 0 <= i < spec_lines(src).len() implies simd_category(
        spec_lines(src)[i],
    ) == lex_category(spec_lines(src)[i]) by {
        lemma_dispatch_agrees_with_lexical(spec_lines(src)[i]);
    }
    assert(simd_line_cats(src) =~= crate::lexical::lex_line_cats(src));
    assert(simd_codes(src) =~= crate::lexical::lex_codes(src));
}

/// Whether a byte may legally follow a matched keyword; the deep pass uses
/// the same boundary set as the lexical rules.
pub fn is_boundary(b: u8) -> (r: bool)
    ensures
        r == is_kw_boundary(b),
{
    b == 32 || b == 40 || b == 123 || b == 58 || b == 60 || b == 91 || b == 9 || b == 33 || b == 46
}

/// Multi-pattern substring search: whether any pattern occurs in the
/// haystack. A direct window scan per pattern.
fn contains_any_simd_friendly(haystack: &[u8], patterns: &Vec<&[u8]>) -> (r: bool)
    ensures
        r == exists|k: int|
            0 <= k < patterns@.len() && contains_seq(haystack@, #[trigger] patterns@[k]@),
{
    let n = patterns.len();
    let mut k: usize = 0;
    while k < n
        invariant
            k <= n,
            n == patterns@.len(),
            forall|j: int| 0 <= j < k ==> !contains_seq(haystack@, #[trigger] patterns@[j]@),
        decreases n - k,
    {
        if contains_bytes(haystack, patterns[k]) {
            return true;
        }
        k += 1;
    }
    false
}

/// The I/O substring check of the deep pass, over the same pattern list as
/// the lexical rules.
fn deep_io(t: &[u8]) -> (r: bool)
    ensures
        r == has_io_pattern(t@),
{
    let mut pats: Vec<&[u8]> = Vec::new();
    pats.push("print".as_bytes());
    pats.push("println".as_bytes());
    pats.push("console.".as_bytes());
    pats.push(".log(".as_bytes());
    pats.push(".warn(".as_bytes());
    pats.push(".error(".as_bytes());
    pats.push("write(".as_bytes());
    pats.push("writeln!".as_bytes());
    pats.push("read(".as_bytes());
    pats.push("readline".as_bytes());
    pats.push("fetch(".as_bytes());
    pats.push("XMLHttpRequest".as_bytes());
    pats.push("stdin".as_bytes());
    pats.push("stdout".as_bytes());
    pats.push("stderr".as_bytes());
    pats.push("fs.read".as_bytes());
    pats.push("fs.write".as_bytes());
    pats.push("open(".as_bytes());
    pats.push("socket".as_bytes());
    pats.push("http.".as_bytes());
    proof {
        assert(forall|k: int| 0 <= k < 20 ==> #[trigger] pats@[k]@ == io_pattern_list()[k]);
    }
    let found = contains_any_simd_friendly(t, &pats);
    proof {
        if found {
            let k = choose|k: int|
                0 <= k < pats@.len() && contains_seq(t@, #[trigger] pats@[k]@);
            assert(contains_seq(t@, io_pattern_list()[k]));
        }
        if has_io_pattern(t@) {
            let k = choose|k: int|
                0 <= k < io_pattern_list().len() && contains_seq(
                    t@,
                    #[trigger] io_pattern_list()[k],
                );
            assert(contains_seq(t@, pats@[k]@));
        }
    }
    found
}

/// Scan for a standalone `=`, as the lexical assignment rule states.
fn contains_assignment_fast(bytes: &[u8]) -> (r: bool)
    ensures
        r == has_assignment(bytes@),
{
    contains_assignment(bytes)
}

/// The byte-dispatch classifier; it holds only the construction-time
/// first-byte dispatch table.
pub struct SimdClassifier {
    first_byte_table: Vec<u8>,
}

impl Default for SimdClassifier {
    fn default() -> (r: Self)
        ensures
            r.wf(),
    {
        Self::new()
    }
}

impl SimdClassifier {
    /// The dispatch table holds exactly the routing values for all 256 first
    /// bytes.
    pub closed spec fn wf(&self) -> bool {
        &&& self.first_byte_table@.len() == 256
        &&& forall|i: int|
            0 <= i < 256 ==> self.first_byte_table@[i] == dispatch_of(i as u8)
    }

    pub fn new() -> (r: Self)
        ensures
            r.wf(),
    {
        let mut table: Vec<u8> = Vec::new();
        let mut i: usize = 0;
        while i < 256
            invariant
                i <= 256,
                table@.len() == i,
                forall|k: int| 0 <= k < i ==> table@[k] == dispatch_of(k as u8),
            decreases 256 - i,
        {
            let b = i as u8;
            let v: u8 = if b == 35 || b == 59 {
                5
            } else if b == 47 {
                254
            } else if b == 45 {
                253
            } else if b == 60 {
                252
            } else {
                255
            };
            table.push(v);
            i += 1;
        }
        SimdClassifier { first_byte_table: table }
    }

    /// The deep pass over an already-trimmed line: the lexical precedence of
    /// rules four to eleven, with prefix comparisons.
    fn classify_deep(&self, trimmed: &[u8]) -> (c: Category)
        ensures
            c == lex_rest(trimmed@),
    {
        if is_import_exec(trimmed) {
            return Category::Import;
        }
        if is_declaration_exec(trimmed) {
            return Category::Declaration;
        }
        if is_logic_exec(trimmed) {
            return Category::Logic;
        }
        if is_modifier_exec(trimmed) {
            return Category::Modifier;
        }
        if deep_io(trimmed) {
            return Category::IO;
        }
        if contains_assignment_fast(trimmed) {
            return Category::Assignment;
        }
        if is_closing_exec(trimmed) {
            return Category::Neutral;
        }
        Category::Unknown
    }

    /// Route a raw line of bytes through the dispatch table.
    fn classify_raw(&self, line: &[u8]) -> (c: Category)
        requires
            self.wf(),
        ensures
            c == simd_category(line@),
    {
        let t = trim_bytes(line);
        let ts = t.as_slice();
        if ts.len() == 0 {
            return Category::Neutral;
        }
        let first = ts[0];
        let d = self.first_byte_table[first as usize];
        if d == 5 {
            return Category::Comment;
        }
        if d == 254 {
            if ts.len() >= 2 && (ts[1] == 47 || ts[1] == 42) {
                return Category::Comment;
            }
            return self.classify_deep(ts);
        }
        if d == 253 {
            if ts.len() >= 2 && ts[1] == 45 {
                return Category::Comment;
            }
            return self.classify_deep(ts);
        }
        if d == 252 {
            if ts.len() >= 4 && ts[1] == 33 && ts[2] == 45 && ts[3] == 45 {
                return Category::Comment;
            }
            return self.classify_deep(ts);
        }
        self.classify_deep(ts)
    }

    /// Fast single-line classification through the first-byte dispatch table;
    /// the returned symbol is always the canonical symbol of the category.
    pub fn classify_line_fast(&self, line: &str) -> (r: (PrefixSymbol, Category))
        requires
            self.wf(),
        ensures
            r.1 == simd_category(line.spec_bytes()),
            r.0 == spec_cat_symbol(r.1),
    {
        let cat = self.classify_raw(line.as_bytes());
        (cat.symbol(), cat)
    }

    /// Classify a batch of pre-split lines, in order, 1-indexed.
    pub fn classify_batch(&self, lines: &[&str]) -> (r: Vec<ClassifyResult>)
        requires
            self.wf(),
        ensures
            r@.len() == lines@.len(),
            forall|i: int|
                0 <= i < r@.len() ==> result_matches(
                    r@[i],
                    simd_category(lines@[i].spec_bytes()),
                    i + 1,
                ),
    {
        let n = lines.len();
        let mut results: Vec<ClassifyResult> = Vec::new();
        let mut i: usize = 0;
        while i < n
            invariant
                i <= n,
                n == lines@.len(),
                self.wf(),
                results@.len() == i,
                forall|k: int|
                    0 <= k < i ==> result_matches(
                        results@[k],
                        simd_category(lines@[k].spec_bytes()),
                        k + 1,
                    ),
            decreases n - i,
        {
            let line: &str = lines[i];
            let cat = self.classify_raw(line.as_bytes());
            results.push(make_result(cat, i + 1));
            i += 1;
        }
        results
    }

    /// Classify every line of a full source text, in order, 1-indexed.
    pub fn classify_source(&self, source: &str) -> (r: Vec<ClassifyResult>)
        requires
            self.wf(),
        ensures
            r@.len() == spec_line_count(source.spec_bytes()),
            forall|i: int|
                0 <= i < r@.len() ==> result_matches(
                    r@[i],
                    simd_line_cats(source.spec_bytes())[i],
                    i + 1,
                ),
    {
        let lines = split_lines(source.as_bytes());
        let n = lines.len();
        let mut results: Vec<ClassifyResult> = Vec::new();
        let mut i: usize = 0;
        while i < n
            invariant
                i <= n,
                n == lines@.len(),
                self.wf(),
                views_of(lines@) == spec_lines(source.spec_bytes()),
                results@.len() == i,
                forall|k: int|
                    0 <= k < i ==> result_matches(
                        results@[k],
                        simd_line_cats(source.spec_bytes())[k],
                        k + 1,
                    ),
            decreases n - i,
        {
            let cat = self.classify_raw(lines[i].as_slice());
            assert(lines@[i as int]@ == views_of(lines@)[i as int]);
            results.push(make_result(cat, i + 1));
            i += 1;
        }
        results
    }

    /// One display string per line, the symbol right-justified to width two.
    pub fn gutter(&self, source: &str) -> (r: Vec<String>)
        requires
            self.wf(),
        ensures
            r@.len() == spec_line_count(source.spec_bytes()),
            forall|i: int|
                0 <= i < r@.len() ==> r@[i]@ == spec_gutter_str(
                    spec_cat_symbol(simd_line_cats(source.spec_bytes())[i]),
                ),
    {
        let lines = split_lines(source.as_bytes());
        let n = lines.len();
        let mut out: Vec<String> = Vec::new();
        let mut i: usize = 0;
        while i < n
            invariant
                i <= n,
                n == lines@.len(),
                self.wf(),
                views_of(lines@) == spec_lines(source.spec_bytes()),
                out@.len() == i,
                forall|k: int|
                    0 <= k < i ==> out@[k]@ == spec_gutter_str(
                        spec_cat_symbol(simd_line_cats(source.spec_bytes())[k]),
                    ),
            decreases n - i,
        {
            let cat = self.classify_raw(lines[i].as_slice());
            assert(lines@[i as int]@ == views_of(lines@)[i as int]);
            out.push(cat.symbol().gutter_str().to_owned());
            i += 1;
        }
        out
    }

    /// Classify every line and pack the 4-bit codes two per byte, first
    /// line's code in the high half; an odd final line's partner is zero.
    pub fn classify_binary(&self, source: &str) -> (r: Vec<u8>)
        requires
            self.wf(),
        ensures
            r@ == pack_nibbles(simd_codes(source.spec_bytes())),
            r@.len() == (spec_line_count(source.spec_bytes()) + 1) / 2,
    {
        let lines = split_lines(source.as_bytes());
        let n = lines.len();
        let mut codes: Vec<u8> = Vec::new();
        let mut i: usize = 0;
        while i < n
            invariant
                i <= n,
                n == lines@.len(),
                self.wf(),
                views_of(lines@) == spec_lines(source.spec_bytes()),
                codes@.len() == i,
                forall|k: int| 0 <= k < i ==> codes@[k] == simd_codes(source.spec_bytes())[k],
                forall|k: int| 0 <= k < i ==> codes@[k] <= 8,
            decreases n - i,
        {
            let cat = self.classify_raw(lines[i].as_slice());
            assert(lines@[i as int]@ == views_of(lines@)[i as int]);
            codes.push(cat.symbol().to_bits());
            i += 1;
        }
        proof {
            assert(codes@ =~= simd_codes(source.spec_bytes()));
        }
        pack_codes(&codes)
    }
}

/// Law: the dispatch outcome is a function of the line alone, so two calls
/// of `classify_line_fast` on equal lines — on the same instance or on fresh
/// ones — yield identical results: any two outcomes that satisfy its
/// contract coincide.
pub proof fn lemma_classify_fast_deterministic(
    line1: Seq<u8>,
    line2: Seq<u8>,
    r1: (PrefixSymbol, Category),
    r2: (PrefixSymbol, Category),
)
    requires
        line1 == line2,
        r1.1 == simd_category(line1),
        r1.0 == spec_cat_symbol(r1.1),
        r2.1 == simd_category(line2),
        r2.0 == spec_cat_symbol(r2.1),
    ensures
        r1 == r2,
{
}

} // verus!
