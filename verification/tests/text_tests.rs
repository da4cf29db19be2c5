use movie_wallpaper::text::u64_to_string;

#[test]
fn decimal_spelling_of_zero() {
    assert_eq!(u64_to_string(0), "0");
}

#[test]
fn decimal_spelling_has_no_leading_zeros() {
    assert_eq!(u64_to_string(1080), "1080");
    assert_eq!(u64_to_string(1000000), "1000000");
}

#[test]
fn decimal_spelling_of_largest_value() {
    assert_eq!(u64_to_string(u64::MAX), "18446744073709551615");
}
