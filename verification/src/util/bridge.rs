//! Calls into other crates. Each function here has a contract that is taken
//! on trust from the called crate's documentation and source.

use vstd::prelude::*;
use base64::Engine;
use rand::seq::SliceRandom;
use crate::database::entities::IpModel;

verus! {

/// The text that the standard base64 alphabet, without padding, gives for
/// `bytes`.
pub uninterp spec fn base64_unpadded(bytes: Seq<u8>) -> Seq<char>;

/// The text that the standard base64 alphabet, with `=` padding, gives for
/// `bytes`.
pub uninterp spec fn base64_padded(bytes: Seq<u8>) -> Seq<char>;

/// The bytes that `text` stands for in padded standard base64, if it is
/// well formed.
pub uninterp spec fn base64_decoded(text: Seq<char>) -> Option<Seq<u8>>;

/// The 128-bit value of the UUID written as `text`, if `text` is a UUID in
/// one of the accepted notations.
pub uninterp spec fn uuid_parsed(text: Seq<char>) -> Option<u128>;

/// The lower-case hyphenated notation of the UUID with value `value`.
pub uninterp spec fn uuid_hyphenated(value: u128) -> Seq<char>;

/// The number that `text` is the decimal notation of, if it is one that
/// fits `i32`.
pub uninterp spec fn i32_parsed(text: Seq<char>) -> Option<i32>;

/// The port that `text` is the decimal notation of, if it is one that fits
/// `u16`.
pub uninterp spec fn u16_parsed(text: Seq<char>) -> Option<u16>;

/// What `text` becomes when every match of the regular expression
/// `pattern` in it, from the left and none overlapping another, gives way
/// to `replacement`, read as a replacement template; there is none where
/// `pattern` is no regular expression.
pub uninterp spec fn regex_replaced(
    pattern: Seq<char>,
    text: Seq<char>,
    replacement: Seq<char>,
) -> Option<Seq<char>>;

/// `text` with every occurrence of `pattern`, found from the left and none
/// overlapping another, replaced by `with`.
pub open spec fn replaced(text: Seq<char>, pattern: Seq<char>, with: Seq<char>) -> Seq<char>
    recommends
        pattern.len() > 0,
    decreases text.len(),
{
    if pattern.len() == 0 || text.len() < pattern.len() {
        text
    } else if text.take(pattern.len() as int) == pattern {
        with + replaced(text.skip(pattern.len() as int), pattern, with)
    } else {
        seq![text[0]] + replaced(text.skip(1), pattern, with)
    }
}

/// A character with an upper-case ASCII letter turned into its lower-case
/// one.
pub open spec fn ascii_lower(c: char) -> char {
    if 'A' as int <= c as int && c as int <= 'Z' as int {
        ((c as int) + 32) as char
    } else {
        c
    }
}

/// Whether two texts are the same but for the case of ASCII letters.
pub open spec fn same_ignoring_ascii_case(a: Seq<char>, b: Seq<char>) -> bool {
    a.map_values(|c: char| ascii_lower(c)) == b.map_values(|c: char| ascii_lower(c))
}

/// Whether the encoded length of `len` bytes fits the machine's `usize`.
pub open spec fn base64_fits(len: nat) -> bool {
    len / 3 * 4 + 4 <= usize::MAX
}

/// `chrono::Utc::now`, read as microseconds since the Unix epoch. Nothing is
/// claimed of the value: it is whatever the machine's clock says.
#[verifier::external_body]
pub(crate) fn clock_micros() -> (now: i64) {
    chrono::Utc::now().timestamp_micros()
}

/// `base64::Engine::encode` on `STANDARD_NO_PAD`. Trusted: the result is a
/// function of the bytes alone, named `base64_unpadded`. The encoder panics
/// where the encoded length overflows `usize`; `requires` leaves that out.
#[verifier::external_body]
pub(crate) fn encode_unpadded(bytes: &Vec<u8>) -> (text: String)
    requires
        base64_fits(bytes@.len()),
    ensures
        text@ == base64_unpadded(bytes@),
{
    base64::engine::general_purpose::STANDARD_NO_PAD.encode(bytes)
}

/// `base64::Engine::encode` on `STANDARD`. Trusted: the result is a function
/// of the bytes alone, named `base64_padded`. The encoder panics where the
/// encoded length overflows `usize`; `requires` leaves that out.
#[verifier::external_body]
pub(crate) fn encode_padded(bytes: &Vec<u8>) -> (text: String)
    requires
        base64_fits(bytes@.len()),
    ensures
        text@ == base64_padded(bytes@),
{
    base64::engine::general_purpose::STANDARD.encode(bytes)
}

/// `base64::Engine::decode` on `STANDARD`. Trusted: whether the text decodes,
/// and to which bytes, is a function of the text alone, named
/// `base64_decoded`. A decoding error becomes `None`.
#[verifier::external_body]
pub(crate) fn decode_padded(text: &str) -> (bytes: Option<Vec<u8>>)
    ensures
        bytes is Some <==> base64_decoded(text@) is Some,
        bytes matches Some(b) ==> b@ == base64_decoded(text@)->0,
{
    match base64::engine::general_purpose::STANDARD.decode(text) {
        Ok(bytes) => Some(bytes),
        Err(_) => None,
    }
}

/// `uuid::Uuid::parse_str`, its result read with `Uuid::as_u128`. Trusted:
/// whether the text parses, and to which value, is a function of the text
/// alone, named `uuid_parsed`. A parse error becomes `None`.
#[verifier::external_body]
pub(crate) fn parse_uuid(text: &str) -> (value: Option<u128>)
    ensures
        value == uuid_parsed(text@),
{
    match uuid::Uuid::parse_str(text) {
        Ok(uuid) => Some(uuid.as_u128()),
        Err(_) => None,
    }
}

/// `Uuid::to_string` on `uuid::Uuid::from_u128(value)`. Trusted: the text is
/// a function of the value alone, named `uuid_hyphenated`.
#[verifier::external_body]
pub(crate) fn format_uuid(value: u128) -> (text: String)
    ensures
        text@ == uuid_hyphenated(value),
{
    uuid::Uuid::from_u128(value).to_string()
}

/// `str::parse::<i32>`. Trusted: whether the text is a number, and which, is
/// a function of the text alone, named `i32_parsed`. A parse error becomes
/// `None`.
#[verifier::external_body]
pub(crate) fn parse_i32(text: &str) -> (number: Option<i32>)
    ensures
        number == i32_parsed(text@),
{
    match text.parse::<i32>() {
        Ok(number) => Some(number),
        Err(_) => None,
    }
}

/// `str::parse::<u16>`. Trusted: whether the text is a port, and which, is
/// a function of the text alone, named `u16_parsed`. A parse error becomes
/// `None`.
#[verifier::external_body]
pub(crate) fn parse_u16(text: &str) -> (number: Option<u16>)
    ensures
        number == u16_parsed(text@),
{
    match text.parse::<u16>() {
        Ok(number) => Some(number),
        Err(_) => None,
    }
}

/// `rand::seq::SliceRandom::shuffle` with `rand::thread_rng()`. Trusted: the
/// rows are the same rows afterwards, each as often as before; their order
/// is left open.
#[verifier::external_body]
pub(crate) fn shuffle_rows(rows: &mut Vec<IpModel>)
    ensures
        final(rows)@.to_multiset() == old(rows)@.to_multiset(),
{
    rows.shuffle(&mut rand::thread_rng())
}

/// `rand::random::<i32>`. Nothing is claimed of the value.
#[verifier::external_body]
pub(crate) fn random_i32() -> (value: i32) {
    rand::random::<i32>()
}

/// `rand::random::<u64>`. Nothing is claimed of the value.
#[verifier::external_body]
pub(crate) fn random_u64() -> (value: u64) {
    rand::random::<u64>()
}

/// `regex::Regex::new` followed by `Regex::replace_all`. Trusted: whether
/// the pattern compiles, and what the text becomes, is a function of the
/// three texts alone, named `regex_replaced`. A pattern that does not
/// compile gives `None`.
#[verifier::external_body]
pub(crate) fn regex_replace_all(pattern: &str, text: &str, replacement: &str) -> (out: Option<
    String,
>)
    ensures
        out is Some <==> regex_replaced(pattern@, text@, replacement@) is Some,
        out matches Some(t) ==> t@ == regex_replaced(pattern@, text@, replacement@)->0,
{
    match regex::Regex::new(pattern) {
        Ok(re) => Some(re.replace_all(text, replacement).to_string()),
        Err(_) => None,
    }
}

/// `str::replace`. Trusted: every match of `pattern`, found from the left
/// and none overlapping another, is replaced by `with`, as `replaced`
/// states. The empty pattern is left out.
#[verifier::external_body]
pub(crate) fn replace_all(text: &str, pattern: &str, with: &str) -> (out: String)
    requires
        pattern@.len() > 0,
    ensures
        out@ == replaced(text@, pattern@, with@),
{
    text.replace(pattern, with)
}

/// `str::eq_ignore_ascii_case`. Trusted: the two texts are compared with
/// every ASCII letter taken as lower case.
#[verifier::external_body]
pub(crate) fn eq_ignore_ascii_case(a: &str, b: &str) -> (same: bool)
    ensures
        same == same_ignoring_ascii_case(a@, b@),
{
    a.eq_ignore_ascii_case(b)
}

} // verus!
