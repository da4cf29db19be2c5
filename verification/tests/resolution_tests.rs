use movie_wallpaper::resolution::{Resolution, ResolutionSet};

// Parsing yields the listed resolutions, in order.
#[test]
fn parse_two_resolutions_in_order() {
    let rs = ResolutionSet::parse("1920x1080,2560x1440").unwrap();
    assert_eq!(
        rs.items,
        vec![
            Resolution { width: 1920, height: 1080 },
            Resolution { width: 2560, height: 1440 },
        ]
    );
}

// Parsing is a left-inverse of formatting.
#[test]
fn parse_inverts_format() {
    let rs = ResolutionSet {
        items: vec![
            Resolution { width: 1920, height: 1080 },
            Resolution { width: 2560, height: 1440 },
            Resolution { width: 1, height: 7 },
        ],
    };
    let text = rs.format();
    assert_eq!(text, "1920x1080,2560x1440,1x7");
    let back = ResolutionSet::parse(&text).unwrap();
    assert_eq!(back.items, rs.items);
}

#[test]
fn parse_single_resolution() {
    let rs = ResolutionSet::parse("3840x2160").unwrap();
    assert_eq!(rs.items, vec![Resolution { width: 3840, height: 2160 }]);
}

// Surrounding whitespace is stripped, as a shell-quoted argument may
// carry it.
#[test]
fn parse_trims_surrounding_whitespace() {
    let rs = ResolutionSet::parse(" 1920x1080\n").unwrap();
    assert_eq!(rs.items, vec![Resolution { width: 1920, height: 1080 }]);
}

// A token with a missing height names itself in the error.
#[test]
fn malformed_token_missing_height() {
    let e = ResolutionSet::parse("1920x").unwrap_err();
    assert_eq!(e.token, "1920x");
}

// A non-numeric width names the token too.
#[test]
fn malformed_token_non_numeric_width() {
    let e = ResolutionSet::parse("abcx1080").unwrap_err();
    assert_eq!(e.token, "abcx1080");
}

// The first malformed token of a longer list is the one reported.
#[test]
fn malformed_token_in_list_is_named() {
    let e = ResolutionSet::parse("1920x1080,2560x,640x480").unwrap_err();
    assert_eq!(e.token, "2560x");
}

// Zero dimensions are malformed, not accepted.
#[test]
fn zero_dimension_is_malformed() {
    assert!(ResolutionSet::parse("0x1080").is_err());
    assert!(ResolutionSet::parse("1920x0").is_err());
}

// A missing separator is malformed.
#[test]
fn missing_separator_is_malformed() {
    let e = ResolutionSet::parse("19201080").unwrap_err();
    assert_eq!(e.token, "19201080");
}

// A second separator leaves a non-numeric remainder.
#[test]
fn extra_separator_is_malformed() {
    let e = ResolutionSet::parse("1x2x3").unwrap_err();
    assert_eq!(e.token, "1x2x3");
}

// The separator is case-sensitive.
#[test]
fn capital_separator_is_malformed() {
    assert!(ResolutionSet::parse("1920X1080").is_err());
}

// The empty string holds one empty token, which is malformed.
#[test]
fn empty_input_is_malformed() {
    let e = ResolutionSet::parse("").unwrap_err();
    assert_eq!(e.token, "");
}

// An empty token between commas is malformed and names itself.
#[test]
fn empty_token_between_commas() {
    let e = ResolutionSet::parse("1920x1080,,640x480").unwrap_err();
    assert_eq!(e.token, "");
}

// A value beyond u64 fails rather than wrapping.
#[test]
fn oversized_value_is_malformed() {
    let e = ResolutionSet::parse("99999999999999999999x1").unwrap_err();
    assert_eq!(e.token, "99999999999999999999x1");
    // the largest value still parses
    let rs = ResolutionSet::parse("18446744073709551615x1").unwrap();
    assert_eq!(rs.items[0].width, u64::MAX);
}

// Leading zeros are digits, so they parse.
#[test]
fn leading_zeros_parse() {
    let rs = ResolutionSet::parse("01920x001080").unwrap();
    assert_eq!(rs.items, vec![Resolution { width: 1920, height: 1080 }]);
}

#[test]
fn format_one_resolution() {
    let r = Resolution { width: 640, height: 480 };
    assert_eq!(r.format(), "640x480");
}

#[test]
fn resolution_set_len() {
    let rs = ResolutionSet::parse("1x1,2x2,3x3").unwrap();
    assert_eq!(rs.len(), 3);
}
