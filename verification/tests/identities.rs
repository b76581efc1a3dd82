use coco::admin::is_admin_password;
use coco::common::{
    extract_requesting_admin_session, extract_requesting_credentials,
    extract_requesting_participant,
};
use coco::frontend::FileKind;
use coco::participant::is_registration_password;
use coco::state::RequestingCredentials;

fn participant(cookie: &[u8]) -> Option<(usize, String)> {
    extract_requesting_participant(cookie).map(|found| (found.id, found.token))
}

fn with_id(id: &str) -> Option<usize> {
    let cookie = format!("coco_participant_id={id}; coco_access_token=t");
    participant(cookie.as_bytes()).map(|(id, _)| id)
}

#[test]
fn a_participant_from_a_cookie_header() {
    assert_eq!(
        participant(b"coco_participant_id=5; coco_access_token=abcDEF123"),
        Some((5, String::from("abcDEF123")))
    );
    assert_eq!(
        participant(b"coco_access_token=tok; other=1; coco_participant_id=12"),
        Some((12, String::from("tok")))
    );
    assert_eq!(participant(b"coco_participant_id=5"), None);
    assert_eq!(participant(b"coco_access_token=abc"), None);
    assert_eq!(participant(b""), None);
    assert_eq!(participant(b"coco_admin_session_id=5; coco_admin_token=abc"), None);
}

#[test]
fn an_id_is_a_decimal_number() {
    assert_eq!(with_id("0"), Some(0));
    assert_eq!(with_id("42"), Some(42));
    assert_eq!(with_id("007"), Some(7));
    assert_eq!(with_id("+7"), Some(7));
    assert_eq!(with_id(""), None);
    assert_eq!(with_id("+"), None);
    assert_eq!(with_id("++7"), None);
    assert_eq!(with_id("-1"), None);
    assert_eq!(with_id("7+"), None);
    assert_eq!(with_id(" 7"), None);
    assert_eq!(with_id("7 "), None);
    assert_eq!(with_id("1x"), None);
    assert_eq!(with_id("0x10"), None);
    assert_eq!(with_id("1.5"), None);
}

#[test]
fn an_id_fits_the_machine_word() {
    let largest = usize::MAX.to_string();
    assert_eq!(with_id(&largest), Some(usize::MAX));
    assert_eq!(with_id(&format!("000{largest}")), Some(usize::MAX));
    let mut beyond = largest.clone();
    beyond.push('0');
    assert_eq!(with_id(&beyond), None);
    let digits: Vec<char> = largest.chars().collect();
    let last = digits[digits.len() - 1].to_digit(10).unwrap();
    if last < 9 {
        let mut next: String = digits[..digits.len() - 1].iter().collect();
        next.push(char::from_digit(last + 1, 10).unwrap());
        assert_eq!(with_id(&next), None);
    }
    assert_eq!(with_id("99999999999999999999999999999999"), None);
}

#[test]
fn ids_are_read_as_the_standard_library_reads_them() {
    let samples = [
        "0", "1", "10", "+0", "+19", "0019", "", "+", "-", "-0", "a", "1a", "a1", "١", "1_000",
        "18446744073709551615", "18446744073709551616", "4294967295", "4294967296",
    ];
    for sample in samples {
        assert_eq!(with_id(sample), sample.parse::<usize>().ok());
    }
}

#[test]
fn an_admin_session_from_a_cookie_header() {
    let found =
        extract_requesting_admin_session(b"coco_admin_session_id=3; coco_admin_token=xyz").unwrap();
    assert_eq!((found.id, found.token.as_str()), (3, "xyz"));
    assert!(extract_requesting_admin_session(b"coco_admin_session_id=3").is_none());
    assert!(extract_requesting_admin_session(b"coco_participant_id=3; coco_access_token=t")
        .is_none());
}

#[test]
fn credentials_of_either_kind_from_a_cookie_header() {
    match extract_requesting_credentials(b"coco_participant_id=1; coco_access_token=p") {
        Some(RequestingCredentials::Normal(found)) => {
            assert_eq!((found.id, found.token.as_str()), (1, "p"))
        }
        other => panic!("{other:?}"),
    }
    match extract_requesting_credentials(b"coco_admin_session_id=2; coco_admin_token=a") {
        Some(RequestingCredentials::Admin(found)) => {
            assert_eq!((found.id, found.token.as_str()), (2, "a"))
        }
        other => panic!("{other:?}"),
    }
    let both = b"coco_admin_session_id=2; coco_admin_token=a; coco_participant_id=1; coco_access_token=p";
    assert!(matches!(
        extract_requesting_credentials(both),
        Some(RequestingCredentials::Normal(_))
    ));
    assert!(extract_requesting_credentials(b"coco_participant_id=1; coco_admin_token=a").is_none());
}

#[test]
fn passwords() {
    assert!(is_admin_password(&String::from("abcd")));
    assert!(!is_admin_password(&String::from("abc")));
    assert!(!is_admin_password(&String::new()));
    assert!(is_registration_password(&String::from("abc")));
    assert!(!is_registration_password(&String::from("abcd")));
    assert!(!is_registration_password(&String::from("Abc")));
}

#[test]
fn every_kind_of_file_is_served() {
    let kinds =
        [FileKind::Html, FileKind::Css, FileKind::Js, FileKind::Ts, FileKind::JsMap, FileKind::Ico];
    for kind in kinds {
        assert!(kind.is_served());
    }
}
