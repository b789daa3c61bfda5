use flood_notify::file_identity;

#[test]
fn numeric_id_is_its_value() {
    assert_eq!(file_identity("10971"), 10971);
    assert_eq!(file_identity("0"), 0);
    assert_eq!(file_identity("7"), 7);
}

#[test]
fn leading_zeros_read_in_base_ten() {
    assert_eq!(file_identity("0047"), 47);
    assert_eq!(file_identity("000"), 0);
}

#[test]
fn non_numeric_id_collapses_to_zero() {
    assert_eq!(file_identity("abc"), 0);
    assert_eq!(file_identity("12a"), 0);
    assert_eq!(file_identity("a12"), 0);
    assert_eq!(file_identity(""), 0);
    assert_eq!(file_identity("-5"), 0);
    assert_eq!(file_identity("1 2"), 0);
}

#[test]
fn one_leading_plus_sign_is_accepted() {
    assert_eq!(file_identity("+5"), 5);
    assert_eq!(file_identity("+10971"), 10971);
    assert_eq!(file_identity("+2147483647"), 2147483647);
    assert_eq!(file_identity("+"), 0);
    assert_eq!(file_identity("++5"), 0);
    assert_eq!(file_identity("5+"), 0);
}

#[test]
fn values_beyond_the_key_space_collapse_to_zero() {
    assert_eq!(file_identity("2147483647"), 2147483647);
    assert_eq!(file_identity("2147483648"), 0);
    assert_eq!(file_identity("99999999999999999999"), 0);
}
