use zero_shell::prompt::open_quote;

#[test]
fn quote_stays_open_until_its_like_closes_it() {
    assert_eq!(open_quote("echo hello", None), None);
    assert_eq!(open_quote("echo 'hello", None), Some('\''));
    assert_eq!(open_quote("world'", Some('\'')), None);
    assert_eq!(open_quote("echo \"it's", None), Some('"'));
    assert_eq!(open_quote("fine\" 'x", Some('"')), Some('\''));
    assert_eq!(open_quote("", Some('"')), Some('"'));
    assert_eq!(open_quote("'a' \"b\" 'c'", None), None);
    assert_eq!(open_quote("\\'", None), Some('\''));
}
