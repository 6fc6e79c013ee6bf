use ramag_dbclient::sql_text::is_simple_identifier;

#[test]
fn simple_identifiers_are_unicode_letters_digits_underscore_and_dollar() {
    assert!(is_simple_identifier("user_id"));
    assert!(is_simple_identifier(" 名字2 "));
    assert!(is_simple_identifier("a$b"));
    assert!(!is_simple_identifier("a-b"));
    assert!(!is_simple_identifier("lower(email)"));
    assert!(!is_simple_identifier("   "));
}
