use uvspeed_prefix_engine::PrefixClassifier;
use uvspeed_prefix_engine::bridge::category_counts;
use uvspeed_prefix_engine::bridge::classified_count;
use uvspeed_prefix_engine::bridge::classify_line;
use uvspeed_prefix_engine::bridge::classify_lines;
use uvspeed_prefix_engine::bridge::generate_gutter;

#[test]
fn test_bridge_classify_line() {
    let r = classify_line("def process(x):".to_string(), None);
    assert_eq!(r.symbol, "+1");
    assert_eq!(r.category, "declaration");
    assert_eq!(r.bits, 0);
    assert_eq!(r.coords, (1, 1, 0));
    let r2 = classify_line("x = 42".to_string(), Some("python".to_string()));
    assert_eq!(r2.symbol, "+0");
    assert_eq!(r2.category, "assignment");
}

#[test]
fn test_bridge_classify_lines() {
    let lines = vec![
        "import os".to_string(),
        "if x > 0:".to_string(),
        "".to_string(),
    ];
    let rs = classify_lines(lines);
    assert_eq!(rs.len(), 3);
    assert_eq!(rs[0].symbol, "n");
    assert_eq!(rs[1].symbol, "1");
    assert_eq!(rs[2].symbol, "0");
}

#[test]
fn test_bridge_generate_gutter() {
    let r = generate_gutter("import os\n\nx = 42".to_string());
    assert_eq!(r.total_lines, 3);
    assert_eq!(r.gutter, vec![" n", " 0", "+0"]);
}

#[test]
fn test_bridge_file_stats() {
    let c = PrefixClassifier::new();
    let source = "import os\n\ndef main():\n    print('hello')\n    x = 42\n    return x\n";
    let results = c.classify_batch(source);
    assert_eq!(results.len(), 6);
    assert_eq!(classified_count(&results), 5); // all but the empty line
    let counts = category_counts(&results);
    assert_eq!(counts.len(), 9);
    assert_eq!(counts[7], 1); // one import line
    assert_eq!(counts[4], 1); // one neutral line
    assert_eq!(counts[0], 1); // one declaration line
    assert_eq!(counts[2], 1); // one i/o line
    assert_eq!(counts[3], 1); // one assignment line
    assert_eq!(counts[6], 1); // one modifier line
    assert_eq!(counts[1], 0);
    assert_eq!(counts[5], 0);
    assert_eq!(counts[8], 0);
}
