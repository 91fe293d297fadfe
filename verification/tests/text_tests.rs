use uvspeed_prefix_engine::text::split_lines;

#[test]
fn test_split_lines_terminators() {
    assert_eq!(split_lines(b"a\r\nb\n"), vec![b"a".to_vec(), b"b".to_vec()]);
    assert_eq!(split_lines(b"a\n\n"), vec![b"a".to_vec(), b"".to_vec()]);
    assert_eq!(split_lines(b"a"), vec![b"a".to_vec()]);
    assert_eq!(split_lines(b""), Vec::<Vec<u8>>::new());
}

#[test]
fn test_split_lines_lone_carriage_return() {
    // A carriage return not followed by a line feed stays in its line.
    assert_eq!(split_lines(b"a\rb"), vec![b"a\rb".to_vec()]);
    assert_eq!(split_lines(b"a\r"), vec![b"a\r".to_vec()]);
}
