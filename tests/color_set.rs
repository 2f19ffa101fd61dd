use colorlut::codec::HPixel;
use colorlut::color_set::{hmify, parse_record, ColorSet, RecordError};

fn lines(v: &[&str]) -> Vec<String> {
    v.iter().map(|s| s.to_string()).collect()
}

#[test]
fn build_keeps_good_lines_and_lists_bad_ones() {
    let (set, faults) = hmify(&lines(&["FF0000,Red", "00FF00,Green", ",Bad", "0000FF"]));
    assert_eq!(set.len(), 2);
    assert_eq!(set.name_of(&HPixel::from_packed(0xFF0000)), Some("Red".to_string()));
    assert_eq!(set.name_of(&HPixel::from_packed(0x00FF00)), Some("Green".to_string()));
    assert!(!set.contains(&HPixel::from_packed(0x0000FF)));
    assert_eq!(
        faults,
        vec![
            (2, RecordError::BadHex(String::new())),
            (3, RecordError::MissingName("0000FF".to_string())),
        ]
    );
}

#[test]
fn later_duplicate_replaces_earlier_name() {
    let (set, faults) = hmify(&lines(&["112233,First", "112233,Second"]));
    assert_eq!(set.len(), 1);
    assert_eq!(set.name_of(&HPixel::from_packed(0x112233)), Some("Second".to_string()));
    assert!(faults.is_empty());
}

#[test]
fn empty_line_is_skipped() {
    let (set, faults) = hmify(&lines(&["", "abcdef,Thing", ""]));
    assert_eq!(set.len(), 1);
    assert_eq!(faults, vec![(0, RecordError::EmptyLine), (2, RecordError::EmptyLine)]);
}

#[test]
fn bad_hex_is_skipped_with_its_text() {
    let (set, faults) = hmify(&lines(&["zz1122,Nope", "123,Ok"]));
    assert_eq!(set.len(), 1);
    assert!(set.contains(&HPixel::new(0x23, 0x01, 0)));
    assert_eq!(faults, vec![(0, RecordError::BadHex("zz1122".to_string()))]);
}

#[test]
fn wide_values_keep_their_low_24_bits() {
    let (set, _) = hmify(&lines(&["1ABCDEF,Wide"]));
    assert_eq!(set.name_of(&HPixel::from_packed(0xABCDEF)), Some("Wide".to_string()));
}

#[test]
fn record_splits_at_the_first_delimiter() {
    assert_eq!(
        parse_record("112233,a,b"),
        Ok((HPixel::new(0x33, 0x22, 0x11), "a,b".to_string()))
    );
    assert_eq!(parse_record("ABCDEF,"), Ok((HPixel::new(0xEF, 0xCD, 0xAB), String::new())));
    assert_eq!(parse_record(""), Err(RecordError::EmptyLine));
    assert_eq!(parse_record("abc"), Err(RecordError::MissingName("abc".to_string())));
    assert_eq!(parse_record("q,x"), Err(RecordError::BadHex("q".to_string())));
}

#[test]
fn set_insert_and_lookup() {
    let mut set = ColorSet::new();
    assert_eq!(set.len(), 0);
    let c = HPixel::new(1, 2, 3);
    set.insert(c, "One".to_string());
    set.insert(c, "Two".to_string());
    assert_eq!(set.len(), 1);
    assert!(set.contains(&c));
    assert_eq!(set.name_of(&c), Some("Two".to_string()));
    assert_eq!(set.name_of(&HPixel::new(3, 2, 1)), None);
}
