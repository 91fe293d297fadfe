use uvspeed_prefix_engine::PrefixSymbol;
use uvspeed_prefix_engine::simd::SimdClassifier;
use uvspeed_prefix_engine::simd::is_boundary;

#[test]
fn test_simd_empty() {
    let c = SimdClassifier::new();
    assert_eq!(c.classify_line_fast("").0, PrefixSymbol::Zero);
    assert_eq!(c.classify_line_fast("   ").0, PrefixSymbol::Zero);
}

#[test]
fn test_simd_comments() {
    let c = SimdClassifier::new();
    assert_eq!(c.classify_line_fast("# comment").0, PrefixSymbol::MinusZero);
    assert_eq!(
        c.classify_line_fast("// comment").0,
        PrefixSymbol::MinusZero
    );
    assert_eq!(
        c.classify_line_fast("/* block */").0,
        PrefixSymbol::MinusZero
    );
    assert_eq!(c.classify_line_fast("-- sql").0, PrefixSymbol::MinusZero);
}

#[test]
fn test_simd_imports() {
    let c = SimdClassifier::new();
    assert_eq!(c.classify_line_fast("import os").0, PrefixSymbol::N);
    assert_eq!(
        c.classify_line_fast("from pathlib import Path").0,
        PrefixSymbol::N
    );
    assert_eq!(c.classify_line_fast("use std::io;").0, PrefixSymbol::N);
}

#[test]
fn test_simd_declarations() {
    let c = SimdClassifier::new();
    assert_eq!(c.classify_line_fast("fn main() {").0, PrefixSymbol::PlusOne);
    assert_eq!(
        c.classify_line_fast("function hello() {").0,
        PrefixSymbol::PlusOne
    );
    assert_eq!(c.classify_line_fast("class Foo:").0, PrefixSymbol::PlusOne);
    assert_eq!(
        c.classify_line_fast("const X = 5;").0,
        PrefixSymbol::PlusOne
    );
}

#[test]
fn test_simd_batch() {
    let c = SimdClassifier::new();
    let lines = vec![
        "import os",
        "",
        "def main():",
        "    print('hello')",
        "    x = 42",
        "    return x",
    ];
    let results = c.classify_batch(&lines);
    assert_eq!(results.len(), 6);
    assert_eq!(results[0].symbol, "n");
    assert_eq!(results[1].symbol, "0");
    assert_eq!(results[2].symbol, "+1");
    assert_eq!(results[3].symbol, "-1");
    assert_eq!(results[4].symbol, "+0");
    assert_eq!(results[5].symbol, "+n");
}

#[test]
fn test_simd_io_patterns() {
    let c = SimdClassifier::new();
    assert_eq!(
        c.classify_line_fast("    print('hello')").0,
        PrefixSymbol::MinusOne
    );
    assert_eq!(
        c.classify_line_fast("    console.log(x)").0,
        PrefixSymbol::MinusOne
    );
    assert_eq!(
        c.classify_line_fast("    fetch('/api/data')").0,
        PrefixSymbol::MinusOne
    );
}

#[test]
fn test_simd_assignment() {
    let c = SimdClassifier::new();
    assert_eq!(c.classify_line_fast("x = 42").0, PrefixSymbol::PlusZero);
    assert_eq!(c.classify_line_fast("count += 1").0, PrefixSymbol::PlusZero);
}

#[test]
fn test_boundary_check() {
    assert!(is_boundary(b' '));
    assert!(is_boundary(b'('));
    assert!(!is_boundary(b'a'));
}

#[test]
fn test_simd_matches_lexical_rules() {
    // The deep pass carries the full lexical rule set; outside the dispatch
    // table's comment shortcuts the two classifiers agree.
    let fast = SimdClassifier::new();
    let lex = uvspeed_prefix_engine::PrefixClassifier::new();
    let lines = [
        "val x = 5",
        "case 1:",
        "when x > 0",
        "guard x else {",
        "typedef int x;",
        "await f()",
        "panic!(\"x\")",
        "assert x == 1",
        "@import 'a.css';",
        "fs.readFile('x')",
        "XMLHttpRequest()",
        "})",
        "x =",
        "=",
        "interface Foo {",
        "protocol P {",
        "pub trait T {",
        "except ValueError:",
        "finally:",
        "do {",
    ];
    for line in lines {
        assert_eq!(
            fast.classify_line_fast(line),
            lex.classify(line),
            "line: {:?}",
            line
        );
    }
}

#[test]
fn test_simd_comment_shortcut() {
    // The dispatch table routes a leading ';' straight to comment.
    let fast = SimdClassifier::new();
    assert_eq!(
        fast.classify_line_fast("; lone semicolon").0,
        PrefixSymbol::MinusZero
    );
}

#[test]
fn test_boundary_excludes_separators() {
    // The boundary set is the lexical one: comma and semicolon are not in it.
    assert!(!is_boundary(b','));
    assert!(!is_boundary(b';'));
    assert!(is_boundary(b'.'));
    assert!(is_boundary(b'\t'));
}

#[test]
fn test_simd_source_gutter_binary() {
    let c = SimdClassifier::new();
    let source = "import os\n\nx = 42";
    let results = c.classify_source(source);
    assert_eq!(results.len(), 3);
    assert_eq!(results[0].symbol, "n");
    assert_eq!(results[0].line_num, 1);
    assert_eq!(results[2].symbol, "+0");
    let gutter = c.gutter(source);
    assert_eq!(gutter, vec![" n", " 0", "+0"]);
    let packed = c.classify_binary(source);
    assert_eq!(packed.len(), 2);
    assert_eq!(packed[0], (7 << 4) | 4);
    assert_eq!(packed[1], 3 << 4);
}

#[test]
fn test_simd_line_numbers() {
    let c = SimdClassifier::new();
    let lines = vec!["x = 1", "y = 2"];
    let results = c.classify_batch(&lines);
    assert_eq!(results[0].line_num, 1);
    assert_eq!(results[1].line_num, 2);
}
