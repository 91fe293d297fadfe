use uvspeed_prefix_engine::Category;
use uvspeed_prefix_engine::PrefixClassifier;
use uvspeed_prefix_engine::PrefixSymbol;

#[test]
fn test_empty_line() {
    let c = PrefixClassifier::new();
    let (sym, cat) = c.classify("");
    assert_eq!(sym, PrefixSymbol::Zero);
    assert_eq!(cat, Category::Neutral);
}

#[test]
fn test_comment() {
    let c = PrefixClassifier::new();
    assert_eq!(c.classify("// hello").0, PrefixSymbol::MinusZero);
    assert_eq!(c.classify("# comment").0, PrefixSymbol::MinusZero);
    assert_eq!(c.classify("/* block */").0, PrefixSymbol::MinusZero);
    assert_eq!(c.classify("-- sql comment").0, PrefixSymbol::MinusZero);
}

#[test]
fn test_import() {
    let c = PrefixClassifier::new();
    assert_eq!(c.classify("import os").0, PrefixSymbol::N);
    assert_eq!(c.classify("from pathlib import Path").0, PrefixSymbol::N);
    assert_eq!(c.classify("use std::io;").0, PrefixSymbol::N);
    assert_eq!(c.classify("require('express')").0, PrefixSymbol::N);
    let inc = format!("#inc{}", "lude <stdio.h>");
    assert_eq!(c.classify(&inc).0, PrefixSymbol::N);
}

#[test]
fn test_declaration() {
    let c = PrefixClassifier::new();
    assert_eq!(c.classify("fn main() {").0, PrefixSymbol::PlusOne);
    assert_eq!(c.classify("function hello() {").0, PrefixSymbol::PlusOne);
    assert_eq!(c.classify("def process(x):").0, PrefixSymbol::PlusOne);
    assert_eq!(c.classify("class Foo:").0, PrefixSymbol::PlusOne);
    assert_eq!(
        c.classify("struct Point { x: f32, y: f32 }").0,
        PrefixSymbol::PlusOne
    );
    assert_eq!(c.classify("const PI = 3.14;").0, PrefixSymbol::PlusOne);
    assert_eq!(c.classify("let x = 5;").0, PrefixSymbol::PlusOne);
}

#[test]
fn test_logic() {
    let c = PrefixClassifier::new();
    assert_eq!(c.classify("if x > 0 {").0, PrefixSymbol::One);
    assert_eq!(c.classify("else {").0, PrefixSymbol::One);
    assert_eq!(c.classify("for i in range(10):").0, PrefixSymbol::One);
    assert_eq!(c.classify("while running {").0, PrefixSymbol::One);
    assert_eq!(c.classify("match result {").0, PrefixSymbol::One);
}

#[test]
fn test_modifier() {
    let c = PrefixClassifier::new();
    assert_eq!(c.classify("return 42").0, PrefixSymbol::PlusN);
    assert_eq!(c.classify("break").0, PrefixSymbol::PlusN);
    assert_eq!(c.classify("continue").0, PrefixSymbol::PlusN);
    assert_eq!(c.classify("yield value").0, PrefixSymbol::PlusN);
}

#[test]
fn test_io() {
    let c = PrefixClassifier::new();
    assert_eq!(c.classify("print('hello')").0, PrefixSymbol::MinusOne);
    assert_eq!(c.classify("console.log(x)").0, PrefixSymbol::MinusOne);
    assert_eq!(
        c.classify("fs.readFile('data.txt')").0,
        PrefixSymbol::MinusOne
    );
}

#[test]
fn test_assignment() {
    let c = PrefixClassifier::new();
    assert_eq!(c.classify("x = 42").0, PrefixSymbol::PlusZero);
    assert_eq!(c.classify("count += 1").0, PrefixSymbol::PlusZero);
    assert_eq!(c.classify("name := 'test'").0, PrefixSymbol::PlusZero);
}

#[test]
fn test_trailing_equals_assignment() {
    let c = PrefixClassifier::new();
    // A standalone `=` counts wherever it stands, the final byte included.
    assert_eq!(c.classify("x =").0, PrefixSymbol::PlusZero);
    assert_eq!(c.classify("=").0, PrefixSymbol::PlusZero);
    // A trailing `==` still never counts.
    assert_eq!(c.classify("x ==").0, PrefixSymbol::MinusN);
}

#[test]
fn test_double_equals_not_assignment() {
    let c = PrefixClassifier::new();
    let (sym, cat) = c.classify("x == 42");
    assert_ne!(cat, Category::Assignment);
    assert_eq!(sym, PrefixSymbol::MinusN);
}

#[test]
fn test_batch() {
    let c = PrefixClassifier::new();
    let source = "import os\n\ndef main():\n    print('hello')\n    x = 42\n    return x\n";
    let results = c.classify_batch(source);
    assert_eq!(results.len(), 6);
    assert_eq!(results[0].symbol, "n"); // import
    assert_eq!(results[1].symbol, "0"); // empty
    assert_eq!(results[2].symbol, "+1"); // def
    assert_eq!(results[3].symbol, "-1"); // print
    assert_eq!(results[4].symbol, "+0"); // assignment
    assert_eq!(results[5].symbol, "+n"); // return
}

#[test]
fn test_binary_packing() {
    let c = PrefixClassifier::new();
    let source = "import os\n\n";
    let packed = c.classify_binary(source);
    assert_eq!(packed.len(), 1); // 2 lines → 1 byte
                                 // import (7=n) in high nibble, empty (4=0) in low nibble
    assert_eq!(packed[0], (7 << 4) | 4);
}

#[test]
fn test_binary_odd_line_zero_fill() {
    let c = PrefixClassifier::new();
    let packed = c.classify_binary("import os\n\nx = 42");
    assert_eq!(packed.len(), 2); // 3 lines → 2 bytes
    assert_eq!(packed[0], (7 << 4) | 4); // import, empty
    assert_eq!(packed[1], 3 << 4); // assignment; low nibble zero-filled
}

#[test]
fn test_gutter_right_justified() {
    let c = PrefixClassifier::new();
    let gutter = c.gutter("import os\n\nx = 42\nreturn x");
    assert_eq!(gutter, vec![" n", " 0", "+0", "+n"]);
}

#[test]
fn test_batch_line_numbers_and_records() {
    let c = PrefixClassifier::new();
    let results = c.classify_batch("def f():\n    return 1\n");
    assert_eq!(results.len(), 2);
    assert_eq!(results[0].line_num, 1);
    assert_eq!(results[1].line_num, 2);
    assert_eq!(results[0].category, "declaration");
    assert_eq!(results[0].bits, 0);
    assert_eq!(results[0].coords, (1, 1, 0));
    let r = c.classify_line("def f():", 7);
    assert_eq!(r.line_num, 7);
    assert_eq!(r.symbol, "+1");
}

#[test]
fn test_classify_idempotent() {
    // A fresh instance classifies the same line identically: no hidden state.
    let line = "    print('hello')";
    let c1 = PrefixClassifier::new();
    let c2 = PrefixClassifier::new();
    let first = c1.classify(line);
    let again = c1.classify(line);
    let other = c2.classify(line);
    assert_eq!(first, again);
    assert_eq!(first, other);
}

#[test]
fn test_crlf_lines() {
    let c = PrefixClassifier::new();
    let results = c.classify_batch("import os\r\nx = 42\r\n");
    assert_eq!(results.len(), 2);
    assert_eq!(results[0].symbol, "n");
    assert_eq!(results[1].symbol, "+0");
}

#[test]
fn test_keyword_boundary_guard() {
    let c = PrefixClassifier::new();
    // "fortune()" must not match the "for" keyword; it has no I/O pattern,
    // no assignment, so it falls through to unknown.
    assert_eq!(c.classify("fortune()").0, PrefixSymbol::MinusN);
    // "for(" matches: "(" is a boundary byte.
    assert_eq!(c.classify("for(;;)").0, PrefixSymbol::One);
}
