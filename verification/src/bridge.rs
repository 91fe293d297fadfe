//! The pure compute parts of the inter-process bridge: structured single-line
//! and batch responses, gutter generation, and the aggregate counts of a file
//! classification. The surrounding process glue (file reading, serialization,
//! timing) lives outside the library and hands in plain text.

use vstd::prelude::*;
use vstd::utf8::encode_utf8;

use crate::ast::count_classified;
use crate::ast::result_classified;
use crate::lexical::PrefixClassifier;
use crate::lexical::lex_category;
use crate::lexical::lex_line_cats;
use crate::symbol::Category;
use crate::symbol::ClassifyResult;
use crate::symbol::spec_cat_str;
use crate::symbol::spec_cat_symbol;
use crate::symbol::spec_gutter_str;
use crate::symbol::spec_sym_str;
use crate::symbol::spec_to_3d;
use crate::symbol::spec_to_bits;
use crate::text::spec_line_count;

verus! {

/// The response to a single-line classification request.
pub struct ClassifyLineResponse {
    pub symbol: String,
    pub category: String,
    pub bits: u8,
    pub coords: (i8, i8, i8),
}

/// The response to a gutter request: one display string per line.
pub struct GutterResponse {
    pub gutter: Vec<String>,
    pub total_lines: usize,
}

/// A response carries exactly the fields that category `c` encodes to.
pub open spec fn line_response_matches(r: ClassifyLineResponse, c: Category) -> bool {
    &&& r.symbol@ == spec_sym_str(spec_cat_symbol(c))
    &&& r.category@ == spec_cat_str(c)
    &&& r.bits == spec_to_bits(spec_cat_symbol(c))
    &&& r.coords == spec_to_3d(spec_cat_symbol(c))
}

/// Classify a single line with the lexical engine. The language tag is
/// accepted for interface compatibility and has no effect.
pub fn classify_line(line: String, _language: Option<String>) -> (r: ClassifyLineResponse)
    ensures
        line_response_matches(r, lex_category(encode_utf8(line@))),
{
    let classifier = PrefixClassifier::new();
    let (sym, cat) = classifier.classify(line.as_str());
    ClassifyLineResponse {
        symbol: sym.as_str().to_owned(),
        category: cat.as_str().to_owned(),
        bits: sym.to_bits(),
        coords: sym.to_3d(),
    }
}

/// Classify a batch of independent lines, in order.
pub fn classify_lines(lines: Vec<String>) -> (r: Vec<ClassifyLineResponse>)
    ensures
        r@.len() == lines@.len(),
        forall|i: int|
            0 <= i < r@.len() ==> line_response_matches(
                r@[i],
                lex_category(encode_utf8(lines@[i]@)),
            ),
{
    let classifier = PrefixClassifier::new();
    let n = lines.len();
    let mut out: Vec<ClassifyLineResponse> = Vec::new();
    let mut i: usize = 0;
    while i < n
        invariant
            i <= n,
            n == lines@.len(),
            out@.len() == i,
            forall|k: int|
                0 <= k < i ==> line_response_matches(
                    out@[k],
                    lex_category(encode_utf8(lines@[k]@)),
                ),
        decreases n - i,
    {
        let (sym, cat) = classifier.classify(lines[i].as_str());
        out.push(
            ClassifyLineResponse {
                symbol: sym.as_str().to_owned(),
                category: cat.as_str().to_owned(),
                bits: sym.to_bits(),
                coords: sym.to_3d(),
            },
        );
        i += 1;
    }
    out
}

/// Generate the gutter strings for a source text.
pub fn generate_gutter(source: String) -> (r: GutterResponse)
    ensures
        r.total_lines == spec_line_count(encode_utf8(source@)),
        r.gutter@.len() == r.total_lines,
        forall|i: int|
            0 <= i < r.gutter@.len() ==> r.gutter@[i]@ == spec_gutter_str(
                spec_cat_symbol(lex_line_cats(encode_utf8(source@))[i]),
            ),
{
    let classifier = PrefixClassifier::new();
    let gutter = classifier.gutter(source.as_str());
    let total = gutter.len();
    GutterResponse { gutter, total_lines: total }
}

/// The number of records classified as something other than neutral or
/// unknown.
pub fn classified_count(results: &Vec<ClassifyResult>) -> (r: usize)
    ensures
        r == count_classified(results@, results@.len() as int),
        r <= results@.len(),
{
    let neutral_name = "neutral".to_owned();
    let unknown_name = "unknown".to_owned();
    let n = results.len();
    let mut count: usize = 0;
    let mut i: usize = 0;
    while i < n
        invariant
            i <= n,
            n == results@.len(),
            neutral_name@ == "neutral"@,
            unknown_name@ == "unknown"@,
            count == count_classified(results@, i as int),
            count <= i,
        decreases n - i,
    {
        if !(results[i].category == neutral_name) && !(results[i].category == unknown_name) {
            count += 1;
        }
        proof {
            assert(count_classified(results@, i as int + 1) == count_classified(
                results@,
                i as int,
            ) + (if result_classified(results@[i as int]) {
                1int
            } else {
                0int
            }));
        }
        i += 1;
    }
    count
}

/// The number of records below `n` whose 4-bit code is `b`.
pub open spec fn count_bits(a: Seq<ClassifyResult>, b: u8, n: int) -> int
    decreases n,
{
    if n <= 0 {
        0
    } else {
        count_bits(a, b, n - 1) + (if a[n - 1].bits == b {
            1int
        } else {
            0int
        })
    }
}

/// Totals of the records by 4-bit code: one bucket per code in `[0, 8]`.
/// Codes outside that range fall in no bucket.
pub fn category_counts(results: &Vec<ClassifyResult>) -> (r: Vec<usize>)
    ensures
        r@.len() == 9,
        forall|b: int| 0 <= b < 9 ==> r@[b] == count_bits(results@, b as u8, results@.len() as int),
{
    let mut counts: Vec<usize> = Vec::new();
    let mut j: usize = 0;
    while j < 9
        invariant
            j <= 9,
            counts@.len() == j,
            forall|b: int| 0 <= b < j ==> counts@[b] == 0,
        decreases 9 - j,
    {
        counts.push(0);
        j += 1;
    }
    let n = results.len();
    let mut i: usize = 0;
    while i < n
        invariant
            i <= n,
            n == results@.len(),
            counts@.len() == 9,
            forall|b: int| 0 <= b < 9 ==> counts@[b] == count_bits(results@, b as u8, i as int),
            forall|b: int| 0 <= b < 9 ==> counts@[b] <= i,
        decreases n - i,
    {
        let bits = results[i].bits;
        if bits <= 8 {
            let idx = bits as usize;
            let cur = counts[idx];
            counts.set(idx, cur + 1);
        }
        proof {
            assert forall|b: int| 0 <= b < 9 implies counts@[b] == count_bits(
                results@,
                b as u8,
                i as int + 1,
            ) by {
                assert(count_bits(results@, b as u8, i as int + 1) == count_bits(
                    results@,
                    b as u8,
                    i as int,
                ) + (if results@[i as int].bits == b as u8 {
                    1int
                } else {
                    0int
                }));
            }
        }
        i += 1;
    }
    counts
}

} // verus!
