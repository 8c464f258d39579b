use dlrs::strutil::{i64_to_dec, split_char};

#[test]
fn split_preserves_empty_segments() {
    let segs = split_char("a//b", '/');
    assert_eq!(segs.len(), 3);
    assert!(segs[0] == "a");
    assert!(segs[1] == "");
    assert!(segs[2] == "b");
}

#[test]
fn split_of_empty_string_is_one_empty_segment() {
    let segs = split_char("", '/');
    assert_eq!(segs.len(), 1);
    assert!(segs[0] == "");
}

#[test]
fn split_with_leading_and_trailing_separator() {
    let segs = split_char("/a/", '/');
    assert_eq!(segs.len(), 3);
    assert!(segs[0] == "");
    assert!(segs[1] == "a");
    assert!(segs[2] == "");
}

#[test]
fn split_matches_std_split() {
    for s in ["https://boards.4chan.org/g/thread/1", "", "/", "x", "a/b/c/"] {
        let mine = split_char(s, '/');
        let std_segs: Vec<&str> = s.split('/').collect();
        assert_eq!(mine.len(), std_segs.len());
        for i in 0..mine.len() {
            assert!(mine[i].as_str() == std_segs[i]);
        }
    }
}

#[test]
fn decimal_rendering_exact_values() {
    assert!(i64_to_dec(0) == "0");
    assert!(i64_to_dec(7) == "7");
    assert!(i64_to_dec(10) == "10");
    assert!(i64_to_dec(1546293487650) == "1546293487650");
    assert!(i64_to_dec(-1) == "-1");
    assert!(i64_to_dec(i64::MAX) == "9223372036854775807");
    assert!(i64_to_dec(i64::MIN) == "-9223372036854775808");
}
