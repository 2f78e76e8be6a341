use vswhere::{ParseError, Version};

fn v(major: u16, minor: u16, revision: u16, build: u16) -> Version {
    Version { major, minor, revision, build }
}

#[test]
fn parse_full_four_segments() {
    assert_eq!(Version::parse("1.2.3.4"), Ok(v(1, 2, 3, 4)));
}

#[test]
fn parse_defaults_missing_trailing_segments() {
    assert_eq!(Version::parse("16.0"), Ok(v(16, 0, 0, 0)));
    assert_eq!(Version::parse("7"), Ok(v(7, 0, 0, 0)));
    assert_eq!(Version::parse("1.2.3"), Ok(v(1, 2, 3, 0)));
}

#[test]
fn parse_roundtrips_to_canonical_form() {
    let parsed = Version::parse("16.0").unwrap();
    assert_eq!(parsed.to_text(), "16.0.0.0");
    let reparsed = Version::parse(&parsed.to_text()).unwrap();
    assert_eq!(reparsed, parsed);
}

#[test]
fn parse_accepts_maximum_segments() {
    assert_eq!(
        Version::parse("65535.65535.65535.65535"),
        Ok(v(65535, 65535, 65535, 65535))
    );
}

#[test]
fn parse_accepts_leading_zeros() {
    assert_eq!(Version::parse("016.00"), Ok(v(16, 0, 0, 0)));
}

#[test]
fn parse_rejects_empty_string() {
    assert_eq!(Version::parse(""), Err(ParseError::InvalidSegment));
}

#[test]
fn parse_rejects_five_segments() {
    assert_eq!(Version::parse("1.2.3.4.5"), Err(ParseError::TooManySegments));
}

#[test]
fn parse_rejects_non_numeric_segment() {
    assert_eq!(Version::parse("1.a"), Err(ParseError::InvalidSegment));
}

#[test]
fn parse_rejects_negative_segment() {
    assert_eq!(Version::parse("-1.0.0.0"), Err(ParseError::InvalidSegment));
}

#[test]
fn parse_rejects_overflowing_segment() {
    assert_eq!(Version::parse("65536.0.0.0"), Err(ParseError::InvalidSegment));
}

#[test]
fn parse_rejects_empty_segment_inside() {
    assert_eq!(Version::parse("1..2"), Err(ParseError::InvalidSegment));
    assert_eq!(Version::parse("1.2."), Err(ParseError::InvalidSegment));
}

#[test]
fn text_always_emits_four_segments() {
    assert_eq!(v(0, 0, 0, 0).to_text(), "0.0.0.0");
    assert_eq!(v(16, 4, 31823, 19).to_text(), "16.4.31823.19");
    assert_eq!(v(65535, 65535, 65535, 65535).to_text(), "65535.65535.65535.65535");
}

#[test]
fn default_is_zero_version() {
    assert_eq!(Version::default(), v(0, 0, 0, 0));
}

#[test]
fn ordering_is_lexicographic_most_significant_first() {
    assert!(v(1, 9, 9, 9) < v(2, 0, 0, 0));
    assert!(v(2, 0, 0, 1) > v(2, 0, 0, 0));
    assert!(v(2, 1, 0, 0) > v(2, 0, 9, 9));
    assert!(v(2, 0, 3, 0) > v(2, 0, 2, 9));
    assert!(v(1, 2, 3, 4) <= v(1, 2, 3, 4));
    assert_eq!(v(1, 2, 3, 4), v(1, 2, 3, 4));
    assert_ne!(v(1, 2, 3, 4), v(1, 2, 3, 5));
}
