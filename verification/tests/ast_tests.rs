use uvspeed_prefix_engine::Category;
use uvspeed_prefix_engine::PrefixClassifier;
use uvspeed_prefix_engine::ast::AstClassifier;
use uvspeed_prefix_engine::ast::AstLanguage;
use uvspeed_prefix_engine::ast::NodeInfo;
use uvspeed_prefix_engine::ast::classify_from_nodes;
use uvspeed_prefix_engine::ast::classify_node_kind;
use uvspeed_prefix_engine::ast::compare_results;

#[test]
fn test_python_ast() {
    let classifier = AstClassifier::new();
    let source = r#"import os
from pathlib import Path

def main():
    x = 42
    print(x)
    if x > 0:
        return x
    for i in range(10):
        pass
"#;
    let results = classifier.classify_source(source, AstLanguage::Python);
    assert!(!results.is_empty());
    assert_eq!(results[0].category, "import"); // import os
    assert_eq!(results[1].category, "import"); // from pathlib
                                               // line 2 = empty
    assert_eq!(results[3].category, "declaration"); // def main
}

#[test]
fn test_javascript_ast() {
    let classifier = AstClassifier::new();
    let source = r#"import React from 'react';

function App() {
    const x = 42;
    console.log(x);
    if (x > 0) {
        return x;
    }
}
"#;
    let results = classifier.classify_source(source, AstLanguage::JavaScript);
    assert!(!results.is_empty());
    assert_eq!(results[0].category, "import");
}

#[test]
fn test_rust_ast() {
    let classifier = AstClassifier::new();
    let source = r#"use std::io;

fn main() {
    let x = 42;
    println!("{}", x);
    if x > 0 {
        return;
    }
}
"#;
    let results = classifier.classify_source(source, AstLanguage::Rust);
    assert!(!results.is_empty());
    assert_eq!(results[0].category, "import"); // use std::io
}

#[test]
fn test_compare_methods() {
    let classifier = AstClassifier::new();
    let source = "import os\n\ndef main():\n    print('hello')\n    x = 42\n    return x\n";
    let report = classifier.compare_methods(source, AstLanguage::Python);
    assert_eq!(report.total_lines, 6);
    let ast_coverage = (report.ast_classified as f64 / report.total_lines as f64) * 100.0;
    assert!(ast_coverage > 50.0);
}

#[test]
fn test_compare_methods_agreement_threshold() {
    let classifier = AstClassifier::new();
    let source = "import os\n\ndef main():\n    print('hello')\n    x = 42\n    return x\n";
    let report = classifier.compare_methods(source, AstLanguage::Python);
    assert_eq!(report.total_lines, 6);
    let agreement = (report.agreement_count as f64 / report.total_lines as f64) * 100.0;
    assert!(agreement > 50.0);
    assert_eq!(
        report.agreement_count + report.disagreements.len(),
        report.total_lines
    );
    let regex_coverage = (report.regex_classified as f64 / report.total_lines as f64) * 100.0;
    assert!(regex_coverage > 50.0);
}

#[test]
fn test_auto_classify() {
    let classifier = AstClassifier::new();
    let source = "import os\ndef hello():\n    pass\n";
    let results = classifier.classify_auto(source, "python");
    assert_eq!(results.len(), 3);
    assert_eq!(results[0].category, "import");
}

#[test]
fn test_unsupported_lang_falls_back() {
    let classifier = AstClassifier::new();
    let source = "PRINT 'Hello'\n";
    let results = classifier.classify_auto(source, "basic");
    // Falls back to the lexical classifier
    assert_eq!(results.len(), 1);
}

#[test]
fn test_unsupported_lang_equals_lexical() {
    let classifier = AstClassifier::new();
    let lexical = PrefixClassifier::new();
    let source = "import os\n\ndef main():\n    print('hello')\n    x = 42\n    return x\n";
    let auto = classifier.classify_auto(source, "basic");
    let direct = lexical.classify_batch(source);
    assert_eq!(auto.len(), direct.len());
    for (a, d) in auto.iter().zip(direct.iter()) {
        assert_eq!(a.symbol, d.symbol);
        assert_eq!(a.category, d.category);
        assert_eq!(a.bits, d.bits);
        assert_eq!(a.coords, d.coords);
        assert_eq!(a.line_num, d.line_num);
    }
}

#[test]
fn test_from_str_aliases() {
    assert_eq!(AstLanguage::from_str("python"), Some(AstLanguage::Python));
    assert_eq!(AstLanguage::from_str("PY"), Some(AstLanguage::Python));
    assert_eq!(AstLanguage::from_str("js"), Some(AstLanguage::JavaScript));
    assert_eq!(
        AstLanguage::from_str("TypeScript"),
        Some(AstLanguage::TypeScript)
    );
    assert_eq!(AstLanguage::from_str("rs"), Some(AstLanguage::Rust));
    assert_eq!(AstLanguage::from_str("GO"), Some(AstLanguage::Go));
    assert_eq!(AstLanguage::from_str("h"), Some(AstLanguage::C));
    assert_eq!(AstLanguage::from_str("basic"), None);
    assert_eq!(AstLanguage::from_str(""), None);
}

#[test]
fn test_classify_node_kind_table() {
    assert_eq!(
        classify_node_kind("function_definition"),
        Category::Declaration
    );
    assert_eq!(classify_node_kind("comment"), Category::Comment);
    assert_eq!(classify_node_kind("import_statement"), Category::Import);
    assert_eq!(classify_node_kind("if_statement"), Category::Logic);
    assert_eq!(classify_node_kind("return_statement"), Category::Modifier);
    assert_eq!(
        classify_node_kind("assignment_expression"),
        Category::Assignment
    );
    assert_eq!(classify_node_kind("call_expression"), Category::Unknown);
    assert_eq!(classify_node_kind("block"), Category::Neutral);
    assert_eq!(classify_node_kind("no_such_kind"), Category::Unknown);
}

#[test]
fn test_is_io_call() {
    assert!(AstClassifier::is_io_call("println"));
    assert!(AstClassifier::is_io_call("console.log"));
    assert!(AstClassifier::is_io_call("fs.readFile"));
    assert!(!AstClassifier::is_io_call("compute"));
    assert!(!AstClassifier::is_io_call(""));
}

#[test]
fn test_classify_from_nodes_overwrite_last_wins() {
    let nodes = vec![
        NodeInfo {
            kind: b"import_statement".to_vec(),
            row: 0,
            child_kind: None,
            child_text: None,
            grandchild_text: None,
        },
        NodeInfo {
            kind: b"if_statement".to_vec(),
            row: 2,
            child_kind: None,
            child_text: None,
            grandchild_text: None,
        },
        NodeInfo {
            kind: b"return_statement".to_vec(),
            row: 2,
            child_kind: None,
            child_text: None,
            grandchild_text: None,
        },
    ];
    let results = classify_from_nodes(&nodes, 3);
    assert_eq!(results.len(), 3);
    assert_eq!(results[0].category, "import");
    assert_eq!(results[1].category, "neutral"); // untouched line stays neutral
    assert_eq!(results[2].category, "modifier"); // the later node wins
    assert_eq!(results[2].line_num, 3);
}

#[test]
fn test_classify_from_nodes_call_refinement() {
    let nodes = vec![
        NodeInfo {
            kind: b"call_expression".to_vec(),
            row: 0,
            child_kind: Some(b"identifier".to_vec()),
            child_text: Some(b"println".to_vec()),
            grandchild_text: None,
        },
        NodeInfo {
            kind: b"call_expression".to_vec(),
            row: 1,
            child_kind: Some(b"identifier".to_vec()),
            child_text: Some(b"compute".to_vec()),
            grandchild_text: None,
        },
        NodeInfo {
            kind: b"expression_statement".to_vec(),
            row: 2,
            child_kind: Some(b"call".to_vec()),
            child_text: Some(b"open".to_vec()),
            grandchild_text: Some(b"open".to_vec()),
        },
    ];
    let results = classify_from_nodes(&nodes, 3);
    assert_eq!(results[0].category, "io"); // io callee
    assert_eq!(results[1].category, "neutral"); // unknown call writes nothing
    assert_eq!(results[2].category, "io"); // inherited through the statement
}

#[test]
fn test_classify_from_nodes_ignores_rows_out_of_range() {
    let nodes = vec![NodeInfo {
        kind: b"return_statement".to_vec(),
        row: 9,
        child_kind: None,
        child_text: None,
        grandchild_text: None,
    }];
    let results = classify_from_nodes(&nodes, 2);
    assert_eq!(results.len(), 2);
    assert_eq!(results[0].category, "neutral");
    assert_eq!(results[1].category, "neutral");
}

#[test]
fn test_compare_results_counts() {
    let lexical = PrefixClassifier::new();
    let source = "import os\n\nx = 42\n";
    let a = lexical.classify_batch(source);
    let b = lexical.classify_batch(source);
    let report = compare_results(&a, &b);
    assert_eq!(report.total_lines, 3);
    assert_eq!(report.agreement_count, 3);
    assert_eq!(report.disagreements.len(), 0);
    assert_eq!(report.ast_classified, 2); // the empty line is neutral
    assert_eq!(report.regex_classified, 2);
}

#[test]
fn test_go_and_c_ast() {
    let classifier = AstClassifier::new();
    let go_source = "package main\n\nfunc main() {\n\treturn\n}\n";
    let go_results = classifier.classify_source(go_source, AstLanguage::Go);
    assert_eq!(go_results.len(), 5);
    assert_eq!(go_results[0].category, "import"); // package clause
    let c_source = "int main(void) {\n    return 0;\n}\n";
    let c_results = classifier.classify_source(c_source, AstLanguage::C);
    assert_eq!(c_results.len(), 3);
    assert_eq!(c_results[1].category, "modifier"); // return 0;
}
