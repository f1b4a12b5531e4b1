use create_kml_file::tokenize::split_whitespace_n;

#[test]
fn split_whitespace() {
    let data = "how now brown cow";
    let mut it = split_whitespace_n(&data, 3);
    let mut parts: Vec<&str> = Vec::new();
    while let Some(p) = it.next() {
        parts.push(p);
    }
    assert_eq!(parts[0], "how");
    assert_eq!(parts[1], "now");
    assert_eq!(parts[2], "brown cow");
}

#[test]
fn split_whitespace_tuple() {
    let data = "how now brown cow";
    let mut it = split_whitespace_n(&data, 3);
    let (Some(p1), Some(p2), Some(p3)) = (it.next(), it.next(), it.next()) else {
        panic!("failed to collect tuple");
    };
    assert_eq!(p1, "how");
    assert_eq!(p2, "now");
    assert_eq!(p3, "brown cow");
}

#[test]
fn split_whitespace_exhausts_after_times() {
    let data = "a b c d";
    let mut it = split_whitespace_n(&data, 2);
    assert_eq!(it.next(), Some("a"));
    assert_eq!(it.next(), Some("b c d"));
    assert_eq!(it.next(), None);
    assert_eq!(it.next(), None);
}

#[test]
fn split_whitespace_short_line_yields_empty_fields() {
    let data = "a b";
    let mut it = split_whitespace_n(&data, 4);
    assert_eq!(it.next(), Some("a"));
    assert_eq!(it.next(), Some("b"));
    assert_eq!(it.next(), Some(""));
    assert_eq!(it.next(), Some(""));
    assert_eq!(it.next(), None);
}

#[test]
fn split_whitespace_mixed_whitespace_runs() {
    let data = "  \t one \t two  three four  ";
    let mut it = split_whitespace_n(&data, 3);
    assert_eq!(it.next(), Some("one"));
    assert_eq!(it.next(), Some("two"));
    // the final field is the raw remainder, trailing whitespace included
    assert_eq!(it.next(), Some("three four  "));
}
