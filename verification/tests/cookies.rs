use coco::common::get_cookie_value;

#[test]
fn the_value_of_a_key() {
    let cookie = b"coco_participant_id=5; coco_access_token=abcDEF123";
    assert_eq!(get_cookie_value(cookie, b"coco_participant_id"), Some("5"));
    assert_eq!(get_cookie_value(cookie, b"coco_access_token"), Some("abcDEF123"));
    assert_eq!(get_cookie_value(cookie, b"coco_admin_token"), None);
}

#[test]
fn white_space_around_a_pair_is_passed_over() {
    assert_eq!(get_cookie_value(b"a=1;\t  key=value", b"key"), Some("value"));
    assert_eq!(get_cookie_value(b" \r\n\x0ckey=value ", b"key"), Some("value "));
    assert_eq!(get_cookie_value(b"a=1; key =value", b"key"), Some("value"));
    assert_eq!(get_cookie_value(b"key=value", b" key"), None);
    assert_eq!(get_cookie_value(b"  ab  ", b"ab "), None);
}

#[test]
fn the_first_pair_that_begins_with_the_key_decides() {
    assert_eq!(get_cookie_value(b"key=1; key=2", b"key"), Some("1"));
    assert_eq!(get_cookie_value(b"keyring=1; key=2", b"key"), Some("1"));
    assert_eq!(get_cookie_value(b"key; key=2", b"key"), None);
    assert_eq!(get_cookie_value(b"monkey=1; key=2", b"key"), Some("2"));
}

#[test]
fn the_value_ends_at_a_second_separator() {
    assert_eq!(get_cookie_value(b"key=a=b", b"key"), Some("a"));
    assert_eq!(get_cookie_value(b"key=", b"key"), Some(""));
    assert_eq!(get_cookie_value(b"key==x", b"key"), Some(""));
    assert_eq!(get_cookie_value(b"key=a;b", b"key"), Some("a"));
}

#[test]
fn empty_input() {
    assert_eq!(get_cookie_value(b"", b"key"), None);
    assert_eq!(get_cookie_value(b"", b""), None);
    assert_eq!(get_cookie_value(b"=v", b""), Some("v"));
    assert_eq!(get_cookie_value(b"a=1;", b"a"), Some("1"));
    assert_eq!(get_cookie_value(b";;a=1", b"a"), Some("1"));
}

#[test]
fn a_value_that_is_not_text_is_no_value() {
    assert_eq!(get_cookie_value(b"key=\xff\xfe", b"key"), None);
    assert_eq!(get_cookie_value(b"key=\xc3\xa9", b"key"), Some("\u{e9}"));
}
