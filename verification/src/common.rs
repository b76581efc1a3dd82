use vstd::prelude::*;
use vstd::slice::slice_subrange;
use vstd::string::StringSliceAdditionalSpecFns;
use vstd::utf8::{encode_utf8, encode_utf8_valid_utf8, valid_utf8};

use crate::admin::{AdminSession, ADMIN_SESSION_ID_COOKIE_KEY, ADMIN_TOKEN_COOKIE_KEY};
use crate::participant::{
    ParticipantCredentials, ACCESS_TOKEN_COOKIE_KEY, PARTICIPANT_ID_COOKIE_KEY,
};
use crate::state::RequestingCredentials;

verus! {

/// The byte that parts the pairs of a cookie header.
pub const PAIR_SEPARATOR: u8 = 59;

/// The byte that parts a key from its value.
pub const VALUE_SEPARATOR: u8 = 61;

/// Whether `byte` is ASCII white space: a space, a tab, a line feed, a form
/// feed or a carriage return.
pub open spec fn is_ascii_whitespace(byte: u8) -> bool {
    byte == 32 || byte == 9 || byte == 10 || byte == 12 || byte == 13
}

/// The position of the first `wanted` in `bytes` at or after `from`, or the
/// length of `bytes` where there is none.
pub open spec fn first_at(bytes: Seq<u8>, from: int, wanted: u8) -> int
    decreases bytes.len() - from,
{
    if from < 0 || from >= bytes.len() {
        bytes.len() as int
    } else if bytes[from] == wanted {
        from
    } else {
        first_at(bytes, from + 1, wanted)
    }
}

/// `bytes` without the white space at its start.
pub open spec fn trim_start(bytes: Seq<u8>) -> Seq<u8>
    decreases bytes.len(),
{
    if bytes.len() > 0 && is_ascii_whitespace(bytes.first()) {
        trim_start(bytes.drop_first())
    } else {
        bytes
    }
}

/// `bytes` without the white space at its end.
pub open spec fn trim_end(bytes: Seq<u8>) -> Seq<u8>
    decreases bytes.len(),
{
    if bytes.len() > 0 && is_ascii_whitespace(bytes.last()) {
        trim_end(bytes.drop_last())
    } else {
        bytes
    }
}

/// `bytes` without the white space at its start and at its end.
pub open spec fn trim(bytes: Seq<u8>) -> Seq<u8> {
    trim_end(trim_start(bytes))
}

/// Whether `bytes` begins with `prefix`.
pub open spec fn starts_with(bytes: Seq<u8>, prefix: Seq<u8>) -> bool {
    prefix.len() <= bytes.len() && bytes.subrange(0, prefix.len() as int) == prefix
}

/// The value of one pair: what stands between its first value separator
/// and its second, or its end where there is no second. A pair without a
/// value separator has no value.
pub open spec fn pair_value(pair: Seq<u8>) -> Option<Seq<u8>> {
    let first = first_at(pair, 0, VALUE_SEPARATOR);
    if first >= pair.len() {
        None
    } else {
        Some(pair.subrange(first + 1, first_at(pair, first + 1, VALUE_SEPARATOR)))
    }
}

/// The value of the first pair of `cookie` at or after `from` that, trimmed
/// of white space, begins with `key`.
pub open spec fn cookie_value_from(cookie: Seq<u8>, from: int, key: Seq<u8>) -> Option<Seq<u8>>
    decreases cookie.len() - from,
    via cookie_value_from_ends
{
    if from < 0 || from > cookie.len() {
        None
    } else {
        let end = first_at(cookie, from, PAIR_SEPARATOR);
        let pair = cookie.subrange(from, end);
        if starts_with(trim(pair), key) {
            pair_value(pair)
        } else if end >= cookie.len() {
            None
        } else {
            cookie_value_from(cookie, end + 1, key)
        }
    }
}

#[via_fn]
proof fn cookie_value_from_ends(cookie: Seq<u8>, from: int, key: Seq<u8>) {
    if 0 <= from <= cookie.len() {
        lemma_first_at_bounds(cookie, from, PAIR_SEPARATOR);
    }
}

/// The bytes of the value that `cookie` gives for `key`: the pairs are
/// parted by `;`, the first pair that begins with `key` once it is trimmed
/// decides, and its value is what follows its first `=`.
pub open spec fn cookie_value(cookie: Seq<u8>, key: Seq<u8>) -> Option<Seq<u8>> {
    cookie_value_from(cookie, 0, key)
}

/// The value that `cookie` gives for `key`, where that value is text.
pub open spec fn cookie_text(cookie: Seq<u8>, key: Seq<u8>) -> Option<Seq<u8>> {
    match cookie_value(cookie, key) {
        Some(bytes) => if valid_utf8(bytes) {
            Some(bytes)
        } else {
            None
        },
        None => None,
    }
}

/// `first_at` stays between where it starts and the end, and where it stops
/// before the end it has found the byte.
pub proof fn lemma_first_at_bounds(bytes: Seq<u8>, from: int, wanted: u8)
    requires
        0 <= from <= bytes.len(),
    ensures
        from <= first_at(bytes, from, wanted) <= bytes.len(),
        first_at(bytes, from, wanted) < bytes.len() ==> bytes[first_at(bytes, from, wanted)]
            == wanted,
    decreases bytes.len() - from,
{
    if from < bytes.len() && bytes[from] != wanted {
        lemma_first_at_bounds(bytes, from + 1, wanted);
    }
}

/// Where `wanted` stands at `at`, `first_at` from an earlier place stops
/// there at the latest.
pub proof fn lemma_first_at_finds_first(bytes: Seq<u8>, from: int, at: int, wanted: u8)
    requires
        0 <= from <= at < bytes.len(),
        bytes[at] == wanted,
    ensures
        first_at(bytes, from, wanted) <= at,
    decreases at - from,
{
    if from < at && bytes[from] != wanted {
        lemma_first_at_finds_first(bytes, from + 1, at, wanted);
    }
}

/// A pair of `cookie` begins at `at`: at the start of the cookie, or right
/// after a pair separator.
pub open spec fn is_pair_start(cookie: Seq<u8>, at: int) -> bool {
    0 <= at <= cookie.len() && (at == 0 || cookie[at - 1] == PAIR_SEPARATOR)
}

/// The pair of `cookie` that begins at `at`: what stands from there up to
/// the next pair separator, or the end.
pub open spec fn pair_at(cookie: Seq<u8>, at: int) -> Seq<u8> {
    cookie.subrange(at, first_at(cookie, at, PAIR_SEPARATOR))
}

/// A pair of `cookie` begins at `at` and, trimmed of white space, begins
/// with `key`.
pub open spec fn pair_has_key(cookie: Seq<u8>, at: int, key: Seq<u8>) -> bool {
    is_pair_start(cookie, at) && starts_with(trim(pair_at(cookie, at)), key)
}

proof fn lemma_value_from(cookie: Seq<u8>, key: Seq<u8>, from: int, at: int)
    requires
        is_pair_start(cookie, from),
        from <= at,
        pair_has_key(cookie, at, key),
        forall|earlier: int| from <= earlier < at ==> !#[trigger] pair_has_key(cookie, earlier, key),
    ensures
        cookie_value_from(cookie, from, key) == pair_value(pair_at(cookie, at)),
    decreases at - from,
{
    if from < at {
        assert(!pair_has_key(cookie, from, key));
        lemma_first_at_bounds(cookie, from, PAIR_SEPARATOR);
        lemma_first_at_finds_first(cookie, from, at - 1, PAIR_SEPARATOR);
        lemma_value_from(cookie, key, first_at(cookie, from, PAIR_SEPARATOR) + 1, at);
    }
}

proof fn lemma_no_value_from(cookie: Seq<u8>, key: Seq<u8>, from: int)
    requires
        is_pair_start(cookie, from),
        forall|at: int| from <= at ==> !#[trigger] pair_has_key(cookie, at, key),
    ensures
        cookie_value_from(cookie, from, key) is None,
    decreases cookie.len() - from,
{
    assert(!pair_has_key(cookie, from, key));
    lemma_first_at_bounds(cookie, from, PAIR_SEPARATOR);
    if first_at(cookie, from, PAIR_SEPARATOR) < cookie.len() {
        lemma_no_value_from(cookie, key, first_at(cookie, from, PAIR_SEPARATOR) + 1);
    }
}

/// The first pair that begins with the key decides: where the pair at `at`
/// begins with `key` and no pair before it does, the cookie's value for
/// `key` is the value of that pair, whatever follows it.
pub proof fn law_first_pair_with_key_decides(cookie: Seq<u8>, key: Seq<u8>, at: int)
    requires
        pair_has_key(cookie, at, key),
        forall|earlier: int| 0 <= earlier < at ==> !#[trigger] pair_has_key(cookie, earlier, key),
    ensures
        cookie_value(cookie, key) == pair_value(pair_at(cookie, at)),
{
    lemma_value_from(cookie, key, 0, at);
}

/// Where no pair begins with the key, the cookie has no value for it.
pub proof fn law_no_pair_with_key_no_value(cookie: Seq<u8>, key: Seq<u8>)
    requires
        forall|at: int| !#[trigger] pair_has_key(cookie, at, key),
    ensures
        cookie_value(cookie, key) is None,
{
    lemma_no_value_from(cookie, key, 0);
}

/// `core::str::from_utf8`: the text that `bytes` encode, where they are
/// valid UTF-8, and nothing where they are not.
#[verifier::external_body]
fn text_of<'a>(bytes: &'a [u8]) -> (text: Option<&'a str>)
    ensures
        match text {
            Some(text) => text.spec_bytes() == bytes@,
            None => !valid_utf8(bytes@),
        },
{
    core::str::from_utf8(bytes).ok()
}

fn is_whitespace(byte: u8) -> (white: bool)
    ensures
        white == is_ascii_whitespace(byte),
{
    byte == 32 || byte == 9 || byte == 10 || byte == 12 || byte == 13
}

fn find_byte(bytes: &[u8], from: usize, wanted: u8) -> (at: usize)
    requires
        from <= bytes@.len(),
    ensures
        at == first_at(bytes@, from as int, wanted),
        from <= at <= bytes@.len(),
{
    let mut at: usize = from;
    while at < bytes.len() && bytes[at] != wanted
        invariant
            from <= at <= bytes@.len(),
            first_at(bytes@, from as int, wanted) == first_at(bytes@, at as int, wanted),
        decreases bytes@.len() - at,
    {
        at += 1;
    }
    at
}

fn trim_ascii<'a>(bytes: &'a [u8]) -> (trimmed: &'a [u8])
    ensures
        trimmed@ == trim(bytes@),
{
    let mut start: usize = 0;
    assert(bytes@.subrange(0, bytes@.len() as int) =~= bytes@);
    while start < bytes.len() && is_whitespace(bytes[start])
        invariant
            start <= bytes@.len(),
            trim_start(bytes@) == trim_start(bytes@.subrange(start as int, bytes@.len() as int)),
        decreases bytes@.len() - start,
    {
        proof {
            let rest = bytes@.subrange(start as int, bytes@.len() as int);
            assert(rest.drop_first() =~= bytes@.subrange(start + 1, bytes@.len() as int));
        }
        start += 1;
    }
    let ghost rest = bytes@.subrange(start as int, bytes@.len() as int);
    assert(trim_start(bytes@) == rest);
    let mut end: usize = bytes.len();
    while end > start && is_whitespace(bytes[end - 1])
        invariant
            start <= end <= bytes@.len(),
            rest == bytes@.subrange(start as int, bytes@.len() as int),
            trim_end(rest) == trim_end(bytes@.subrange(start as int, end as int)),
        decreases end - start,
    {
        proof {
            let kept = bytes@.subrange(start as int, end as int);
            assert(kept.drop_last() =~= bytes@.subrange(start as int, end - 1));
        }
        end -= 1;
    }
    slice_subrange(bytes, start, end)
}

fn begins_with(bytes: &[u8], prefix: &[u8]) -> (begins: bool)
    ensures
        begins == starts_with(bytes@, prefix@),
{
    if prefix.len() > bytes.len() {
        return false;
    }
    let mut same: usize = 0;
    while same < prefix.len()
        invariant
            prefix@.len() <= bytes@.len(),
            same <= prefix@.len(),
            bytes@.subrange(0, same as int) == prefix@.subrange(0, same as int),
        decreases prefix@.len() - same,
    {
        if bytes[same] != prefix[same] {
            assert(bytes@.subrange(0, prefix@.len() as int)[same as int] != prefix@[same as int]);
            return false;
        }
        assert(bytes@.subrange(0, same + 1) =~= bytes@.subrange(0, same as int).push(
            bytes@[same as int],
        ));
        assert(prefix@.subrange(0, same + 1) =~= prefix@.subrange(0, same as int).push(
            prefix@[same as int],
        ));
        same += 1;
    }
    assert(prefix@.subrange(0, same as int) =~= prefix@);
    true
}

fn value_of_pair<'a>(pair: &'a [u8]) -> (value: Option<&'a [u8]>)
    ensures
        match value {
            Some(bytes) => pair_value(pair@) == Some(bytes@),
            None => pair_value(pair@) is None,
        },
{
    let first: usize = find_byte(pair, 0, VALUE_SEPARATOR);
    if first >= pair.len() {
        None
    } else {
        let second: usize = find_byte(pair, first + 1, VALUE_SEPARATOR);
        Some(slice_subrange(pair, first + 1, second))
    }
}

/// Looks `key` up in the bytes of a cookie header. The pairs are parted by
/// `;`; the first pair that begins with `key`, white space around the pair
/// aside, decides. Its value is what stands between its first `=` and its
/// second, or its end. There is no value where no pair begins with `key`,
/// where the pair that decides has no `=`, and where the value is not
/// valid UTF-8.
pub fn get_cookie_value<'a>(cookie: &'a [u8], key: &[u8]) -> (value: Option<&'a str>)
    ensures
        match value {
            Some(text) => cookie_text(cookie@, key@) == Some(text.spec_bytes()),
            None => cookie_text(cookie@, key@) is None,
        },
{
    let mut from: usize = 0;
    loop
        invariant
            from <= cookie@.len(),
            cookie_value(cookie@, key@) == cookie_value_from(cookie@, from as int, key@),
        decreases cookie@.len() - from,
    {
        let end: usize = find_byte(cookie, from, PAIR_SEPARATOR);
        let pair = slice_subrange(cookie, from, end);
        if begins_with(trim_ascii(pair), key) {
            return match value_of_pair(pair) {
                Some(bytes) => {
                    let text = text_of(bytes);
                    proof {
                        if let Some(text) = text {
                            encode_utf8_valid_utf8(text@);
                        }
                    }
                    text
                },
                None => None,
            };
        }
        if end >= cookie.len() {
            return None;
        }
        from = end + 1;
    }
}

/// The byte `+`, which may stand before the digits of an id.
pub const PLUS: u8 = 43;

/// Whether `byte` is a decimal digit.
pub open spec fn is_digit(byte: u8) -> bool {
    48 <= byte <= 57
}

/// Whether `bytes` are decimal digits throughout.
pub open spec fn all_digits(bytes: Seq<u8>) -> bool {
    forall|i: int| 0 <= i < bytes.len() ==> is_digit(#[trigger] bytes[i])
}

/// The number that the decimal digits `digits` write.
pub open spec fn decimal(digits: Seq<u8>) -> nat
    decreases digits.len(),
{
    if digits.len() == 0 {
        0
    } else {
        decimal(digits.drop_last()) * 10 + (digits.last() - 48) as nat
    }
}

/// The id that `text` writes: decimal digits, at least one, with or without
/// a `+` before them, as long as the number fits the machine word.
pub open spec fn parsed_id(text: Seq<u8>) -> Option<usize> {
    let digits = if text.len() > 0 && text[0] == PLUS {
        text.drop_first()
    } else {
        text
    };
    if digits.len() > 0 && all_digits(digits) && decimal(digits) <= usize::MAX {
        Some(decimal(digits) as usize)
    } else {
        None
    }
}

/// The id and the token that `cookie` gives under the two keys, where it
/// gives both as text and the id is a number.
pub open spec fn requesting_identity(cookie: Seq<u8>, id_key: Seq<u8>, token_key: Seq<u8>) -> Option<
    (usize, Seq<u8>),
> {
    match cookie_text(cookie, id_key) {
        None => None,
        Some(id_text) => match parsed_id(id_text) {
            None => None,
            Some(id) => match cookie_text(cookie, token_key) {
                None => None,
                Some(token) => Some((id, token)),
            },
        },
    }
}

/// More digits never write a smaller number.
pub proof fn lemma_decimal_grows(digits: Seq<u8>, shorter: int)
    requires
        all_digits(digits),
        0 <= shorter <= digits.len(),
    ensures
        decimal(digits.subrange(0, shorter)) <= decimal(digits),
    decreases digits.len() - shorter,
{
    if shorter == digits.len() {
        assert(digits.subrange(0, shorter) =~= digits);
    } else {
        assert(digits.drop_last().subrange(0, shorter) =~= digits.subrange(0, shorter));
        lemma_decimal_grows(digits.drop_last(), shorter);
    }
}

fn parse_id(text: &[u8]) -> (id: Option<usize>)
    ensures
        id == parsed_id(text@),
{
    let start: usize = if text.len() > 0 && text[0] == PLUS {
        1
    } else {
        0
    };
    if start >= text.len() {
        return None;
    }
    let ghost digits = text@.subrange(start as int, text@.len() as int);
    assert(digits =~= if text@.len() > 0 && text@[0] == PLUS {
        text@.drop_first()
    } else {
        text@
    });
    let mut value: usize = 0;
    let mut at: usize = start;
    assert(digits.subrange(0, 0) =~= Seq::<u8>::empty());
    while at < text.len()
        invariant
            start <= at <= text@.len(),
            digits == text@.subrange(start as int, text@.len() as int),
            digits == if text@.len() > 0 && text@[0] == PLUS {
                text@.drop_first()
            } else {
                text@
            },
            all_digits(digits.subrange(0, at - start)),
            value == decimal(digits.subrange(0, at - start)),
        decreases text@.len() - at,
    {
        let byte: u8 = text[at];
        if byte < 48 || byte > 57 {
            assert(!is_digit(digits[at - start]));
            return None;
        }
        let digit: usize = (byte - 48) as usize;
        proof {
            let longer = digits.subrange(0, at - start + 1);
            assert(longer.drop_last() =~= digits.subrange(0, at - start));
            assert(longer.last() == byte);
            assert(all_digits(longer)) by {
                assert forall|i: int| 0 <= i < longer.len() implies is_digit(
                    #[trigger] longer[i],
                ) by {
                    if i < at - start {
                        assert(longer[i] == digits.subrange(0, at - start)[i]);
                    }
                }
            }
            if all_digits(digits) {
                lemma_decimal_grows(digits, at - start + 1);
            }
        }
        if value > (usize::MAX - digit) / 10 {
            return None;
        }
        value = value * 10 + digit;
        at += 1;
    }
    assert(digits.subrange(0, at - start) =~= digits);
    Some(value)
}

fn identity_from_cookie(cookie: &[u8], id_key: &str, token_key: &str) -> (identity: Option<
    (usize, String),
>)
    ensures
        match identity {
            Some((id, token)) => requesting_identity(
                cookie@,
                id_key.spec_bytes(),
                token_key.spec_bytes(),
            ) == Some((id, encode_utf8(token@))),
            None => requesting_identity(cookie@, id_key.spec_bytes(), token_key.spec_bytes())
                is None,
        },
{
    let id_text = match get_cookie_value(cookie, id_key.as_bytes()) {
        Some(id_text) => id_text,
        None => {
            return None;
        },
    };
    let id: usize = match parse_id(id_text.as_bytes()) {
        Some(id) => id,
        None => {
            return None;
        },
    };
    match get_cookie_value(cookie, token_key.as_bytes()) {
        Some(token) => Some((id, token.to_owned())),
        None => None,
    }
}

/// The credentials of a participant that a cookie header carries: the id
/// under `PARTICIPANT_ID_COOKIE_KEY`, a decimal number, and the token under
/// `ACCESS_TOKEN_COOKIE_KEY`. There are none where either is missing or the
/// id is no number.
pub fn extract_requesting_participant(cookie: &[u8]) -> (credentials: Option<
    ParticipantCredentials,
>)
    ensures
        match credentials {
            Some(credentials) => requesting_identity(
                cookie@,
                PARTICIPANT_ID_COOKIE_KEY.spec_bytes(),
                ACCESS_TOKEN_COOKIE_KEY.spec_bytes(),
            ) == Some((credentials.id, encode_utf8(credentials.token@))),
            None => requesting_identity(
                cookie@,
                PARTICIPANT_ID_COOKIE_KEY.spec_bytes(),
                ACCESS_TOKEN_COOKIE_KEY.spec_bytes(),
            ) is None,
        },
{
    match identity_from_cookie(cookie, PARTICIPANT_ID_COOKIE_KEY, ACCESS_TOKEN_COOKIE_KEY) {
        Some((id, token)) => Some(ParticipantCredentials { id, token }),
        None => None,
    }
}

/// The admin session that a cookie header carries: the id under
/// `ADMIN_SESSION_ID_COOKIE_KEY`, a decimal number, and the token under
/// `ADMIN_TOKEN_COOKIE_KEY`. There is none where either is missing or the
/// id is no number.
pub fn extract_requesting_admin_session(cookie: &[u8]) -> (session: Option<AdminSession>)
    ensures
        match session {
            Some(session) => requesting_identity(
                cookie@,
                ADMIN_SESSION_ID_COOKIE_KEY.spec_bytes(),
                ADMIN_TOKEN_COOKIE_KEY.spec_bytes(),
            ) == Some((session.id, encode_utf8(session.token@))),
            None => requesting_identity(
                cookie@,
                ADMIN_SESSION_ID_COOKIE_KEY.spec_bytes(),
                ADMIN_TOKEN_COOKIE_KEY.spec_bytes(),
            ) is None,
        },
{
    match identity_from_cookie(cookie, ADMIN_SESSION_ID_COOKIE_KEY, ADMIN_TOKEN_COOKIE_KEY) {
        Some((id, token)) => Some(AdminSession { id, token }),
        None => None,
    }
}

/// The credentials of either kind that a cookie header carries: those of a
/// participant where it carries them, else an admin session.
pub fn extract_requesting_credentials(cookie: &[u8]) -> (credentials: Option<
    RequestingCredentials,
>)
    ensures
        match credentials {
            Some(RequestingCredentials::Normal(participant)) => requesting_identity(
                cookie@,
                PARTICIPANT_ID_COOKIE_KEY.spec_bytes(),
                ACCESS_TOKEN_COOKIE_KEY.spec_bytes(),
            ) == Some((participant.id, encode_utf8(participant.token@))),
            Some(RequestingCredentials::Admin(session)) => requesting_identity(
                cookie@,
                PARTICIPANT_ID_COOKIE_KEY.spec_bytes(),
                ACCESS_TOKEN_COOKIE_KEY.spec_bytes(),
            ) is None && requesting_identity(
                cookie@,
                ADMIN_SESSION_ID_COOKIE_KEY.spec_bytes(),
                ADMIN_TOKEN_COOKIE_KEY.spec_bytes(),
            ) == Some((session.id, encode_utf8(session.token@))),
            None => requesting_identity(
                cookie@,
                PARTICIPANT_ID_COOKIE_KEY.spec_bytes(),
                ACCESS_TOKEN_COOKIE_KEY.spec_bytes(),
            ) is None && requesting_identity(
                cookie@,
                ADMIN_SESSION_ID_COOKIE_KEY.spec_bytes(),
                ADMIN_TOKEN_COOKIE_KEY.spec_bytes(),
            ) is None,
        },
{
    match extract_requesting_participant(cookie) {
        Some(participant) => Some(RequestingCredentials::Normal(participant)),
        None => match extract_requesting_admin_session(cookie) {
            Some(session) => Some(RequestingCredentials::Admin(session)),
            None => None,
        },
    }
}

} // verus!
