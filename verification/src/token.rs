use rand::rngs::ThreadRng;
use rand::seq::IndexedRandom;
use vstd::pervasive::unreached;
use vstd::prelude::*;
use vstd::string::is_ascii_spec_bytes;
use vstd::utf8::{
    decode_utf8, encode_utf8, encode_utf8_decode_utf8, encode_utf8_valid_utf8,
    is_ascii_chars_encode_utf8, valid_utf8,
};

verus! {

/// The symbols a token is drawn from: the 62 ASCII letters and digits.
pub const TOKEN_SYMBOLS: &'static str =
    "abcdefghijklmnopqrstuvwxyzABCDEFGHIJKLMNOPQRSTUVWXYZ0123456789";

/// The number of symbols in a token.
pub const TOKEN_LENGTH: usize = 32;

/// Whether `c` is an ASCII letter or digit.
pub open spec fn is_token_symbol(c: char) -> bool {
    ('a' <= c && c <= 'z') || ('A' <= c && c <= 'Z') || ('0' <= c && c <= '9')
}

/// Whether `token` has the shape of an issued token: `TOKEN_LENGTH` symbols,
/// each an ASCII letter or digit.
pub open spec fn is_token(token: Seq<char>) -> bool {
    &&& token.len() == TOKEN_LENGTH
    &&& forall|i: int| 0 <= i < token.len() ==> is_token_symbol(#[trigger] token[i])
}

/// The text whose characters are the given bytes, one for one.
pub open spec fn ascii_text(bytes: Seq<u8>) -> Seq<char> {
    Seq::new(bytes.len(), |i: int| bytes[i] as char)
}

/// The generator of the calling thread, carried through as an opaque value.
#[verifier::external_type_specification]
#[verifier::external_body]
pub struct ExThreadRng(ThreadRng);

/// `rand::rng`: a handle to the generator of the calling thread. Nothing is
/// claimed of it.
pub assume_specification[ rand::rng ]() -> (generator: ThreadRng)
;

/// `IndexedRandom::choose` on a slice of bytes: nothing for an empty slice,
/// else one of its elements. Which one is left open.
#[verifier::external_body]
fn choose_symbol(symbols: &[u8], generator: &mut ThreadRng) -> (chosen: Option<u8>)
    ensures
        symbols@.len() == 0 ==> chosen is None,
        symbols@.len() > 0 ==> chosen is Some && symbols@.contains(chosen.unwrap()),
{
    symbols.choose(generator).copied()
}

/// `String::from_utf8`: the text that `bytes` encode, where they are valid
/// UTF-8, and nothing where they are not.
#[verifier::external_body]
fn text_from_utf8(bytes: Vec<u8>) -> (text: Option<String>)
    ensures
        match text {
            Some(text) => encode_utf8(text@) == bytes@,
            None => !valid_utf8(bytes@),
        },
{
    String::from_utf8(bytes).ok()
}

/// Bytes below 128 are valid UTF-8, and the text they encode has one
/// character for each byte, with the byte's value.
pub proof fn lemma_ascii_bytes_are_text(bytes: Seq<u8>)
    requires
        forall|i: int| 0 <= i < bytes.len() ==> bytes[i] < 128,
    ensures
        valid_utf8(bytes),
        decode_utf8(bytes) == ascii_text(bytes),
{
    let text = ascii_text(bytes);
    assert(vstd::utf8::is_ascii_chars(text));
    is_ascii_chars_encode_utf8(text);
    assert(encode_utf8(text) =~= bytes);
    encode_utf8_valid_utf8(text);
    encode_utf8_decode_utf8(text);
}

/// The text made of the given symbols, one character for each, in order.
pub fn token_from_symbols(symbols: Vec<u8>) -> (token: String)
    requires
        forall|i: int| 0 <= i < symbols@.len() ==> symbols@[i] < 128,
    ensures
        token@ == ascii_text(symbols@),
{
    proof {
        lemma_ascii_bytes_are_text(symbols@);
    }
    match text_from_utf8(symbols) {
        Some(token) => {
            proof {
                encode_utf8_decode_utf8(token@);
            }
            token
        },
        None => unreached(),
    }
}

/// A fresh token: `TOKEN_LENGTH` symbols, each drawn from `TOKEN_SYMBOLS` by
/// the thread's random generator.
pub fn generate_token() -> (token: String)
    ensures
        is_token(token@),
{
    let symbols: &[u8] = TOKEN_SYMBOLS.as_bytes();
    proof {
        reveal_strlit("abcdefghijklmnopqrstuvwxyzABCDEFGHIJKLMNOPQRSTUVWXYZ0123456789");
        assert(forall|i: int|
            0 <= i < TOKEN_SYMBOLS@.len() ==> is_token_symbol(#[trigger] TOKEN_SYMBOLS@[i]));
        assert(TOKEN_SYMBOLS.is_ascii());
        is_ascii_spec_bytes(TOKEN_SYMBOLS);
    }
    let mut generator: ThreadRng = rand::rng();
    let mut bytes: Vec<u8> = Vec::new();
    while bytes.len() < TOKEN_LENGTH
        invariant
            bytes@.len() <= TOKEN_LENGTH,
            symbols@.len() == 62,
            forall|i: int|
                0 <= i < symbols@.len() ==> is_token_symbol((#[trigger] symbols@[i]) as char),
            forall|i: int| 0 <= i < bytes@.len() ==> is_token_symbol((#[trigger] bytes@[i]) as char),
        decreases TOKEN_LENGTH - bytes@.len(),
    {
        match choose_symbol(symbols, &mut generator) {
            Some(symbol) => bytes.push(symbol),
            None => unreached(),
        }
    }
    assert(forall|i: int| 0 <= i < bytes@.len() ==> is_token_symbol((#[trigger] bytes@[i]) as char)
        && bytes@[i] < 128);
    token_from_symbols(bytes)
}

} // verus!
