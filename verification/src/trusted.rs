//! The calls into other crates and into parts of std without a specification.
//!
//! Nothing in this module is proved: each function's contract states what the
//! function behind it is documented, or seen in its source, to do.

use vstd::prelude::*;
use vstd::utf8::decode_utf8;
use vstd::utf8::is_ascii_chars;
use vstd::utf8::valid_utf8;

use argon2::password_hash::PasswordHash;
use argon2::password_hash::SaltString;
use argon2::Argon2;
use argon2::PasswordHasher;
use argon2::PasswordVerifier;
use base64::engine::general_purpose::STANDARD;
use base64::engine::general_purpose::URL_SAFE_NO_PAD;
use base64::Engine;
use hmac::Hmac;
use hmac::Mac;
use sha2::Sha256;
use subtle::ConstantTimeEq;

use crate::json::signed_number;
use crate::json::unsigned_number;
use crate::json::JsonView;
use crate::json::NumberView;
use crate::json_text::no_members;
use crate::json_text::parts_meaning;
use crate::json_text::shape_meaning;
use crate::json_text::value_members;
use crate::json_text::ValueMember;
use crate::json_text::ValueParts;
use crate::json_text::ValueShape;
use crate::text::ascii_lower;
use crate::text::ascii_upper;
use crate::text::option_bytes;
use crate::text::option_text;

verus! {

/// The latest second that a `chrono::DateTime<Utc>` represents.
pub const MAX_TIMESTAMP: i64 = 8_210_266_876_799;

/// A second that the clock can show.
pub open spec fn clock_time(t: i64) -> bool {
    0 <= t <= MAX_TIMESTAMP
}

/// `chrono::Utc::now` and `DateTime::timestamp`: the current second since the
/// Unix epoch. A clock before the epoch is a panic there; of the value only the
/// range from the epoch to the end of `DateTime<Utc>` is claimed.
#[verifier::external_body]
pub(crate) fn now_timestamp() -> (r: i64)
    ensures
        clock_time(r),
{
    chrono::Utc::now().timestamp()
}

/// The HMAC-SHA256 tag of a message under a key.
pub uninterp spec fn hmac_sha256_tag(key: Seq<u8>, message: Seq<u8>) -> Seq<u8>;

/// `hmac::Hmac<Sha256>`: keys of every length are taken, and the tag is a
/// function of the key and the message, 32 bytes long.
#[verifier::external_body]
pub(crate) fn hmac_sha256(key: &[u8], message: &[u8]) -> (r: Vec<u8>)
    ensures
        r@ == hmac_sha256_tag(key@, message@),
        r@.len() == 32,
{
    let mut mac = <Hmac<Sha256> as Mac>::new_from_slice(key).expect("any key length is valid");
    mac.update(message);
    mac.finalize().into_bytes().to_vec()
}

/// `subtle`'s `ConstantTimeEq` on byte slices: equality of the contents;
/// slices of different lengths are unequal.
#[verifier::external_body]
pub(crate) fn constant_time_equal(a: &[u8], b: &[u8]) -> (r: bool)
    ensures
        r == (a@ == b@),
{
    bool::from(a.ct_eq(b))
}

/// The lower-case hexadecimal digit of a value below 16.
pub open spec fn hex_digit(v: nat) -> char {
    if v < 10 {
        (48 + v) as char
    } else {
        (87 + v) as char
    }
}

/// Two lower-case hexadecimal digits for each byte, the high one first.
pub open spec fn hex_text(bytes: Seq<u8>) -> Seq<char> {
    Seq::new(
        2 * bytes.len(),
        |i: int|
            if i % 2 == 0 {
                hex_digit((bytes[i / 2] / 16) as nat)
            } else {
                hex_digit((bytes[i / 2] % 16) as nat)
            },
    )
}

/// `hex::encode`: two lower-case digits for each byte.
#[verifier::external_body]
pub(crate) fn hex_encode(bytes: &[u8]) -> (r: String)
    ensures
        r@ == hex_text(bytes@),
{
    hex::encode(bytes)
}

/// The padded base64 text of some bytes, in the standard alphabet.
pub uninterp spec fn base64_text(bytes: Seq<u8>) -> Seq<char>;

/// The bytes that a padded base64 text in the standard alphabet decodes to,
/// where it is one.
pub uninterp spec fn base64_bytes(text: Seq<char>) -> Option<Seq<u8>>;

/// `base64`'s `STANDARD.encode`: its result is a function of the bytes, and
/// `STANDARD.decode` gives the bytes back.
#[verifier::external_body]
pub(crate) fn base64_encode(bytes: &[u8]) -> (r: String)
    ensures
        r@ == base64_text(bytes@),
        base64_bytes(r@) == Some(bytes@),
{
    STANDARD.encode(bytes)
}

/// `base64`'s `STANDARD.decode`: its result is a function of the text.
#[verifier::external_body]
pub(crate) fn base64_decode(text: &str) -> (r: Option<Vec<u8>>)
    ensures
        option_bytes(r) == base64_bytes(text@),
{
    STANDARD.decode(text).ok()
}

/// A character of the URL-safe base64 alphabet.
pub open spec fn url_safe_char(c: char) -> bool {
    ||| 'A' <= c <= 'Z'
    ||| 'a' <= c <= 'z'
    ||| '0' <= c <= '9'
    ||| c == '-'
    ||| c == '_'
}

/// The unpadded base64 text of some bytes, in the URL-safe alphabet.
pub uninterp spec fn base64_url_text(bytes: Seq<u8>) -> Seq<char>;

/// The bytes that an unpadded base64 text in the URL-safe alphabet decodes to,
/// where it is one.
pub uninterp spec fn base64_url_bytes(text: Seq<char>) -> Option<Seq<u8>>;

/// `base64`'s `URL_SAFE_NO_PAD.encode`: its result is a function of the bytes,
/// holds characters of the URL-safe alphabet only, and
/// `URL_SAFE_NO_PAD.decode` gives the bytes back.
#[verifier::external_body]
pub(crate) fn base64_url_encode(bytes: &[u8]) -> (r: String)
    ensures
        r@ == base64_url_text(bytes@),
        base64_url_bytes(r@) == Some(bytes@),
        forall|i: int| 0 <= i < r@.len() ==> url_safe_char(#[trigger] r@[i]),
{
    URL_SAFE_NO_PAD.encode(bytes)
}

/// `base64`'s `URL_SAFE_NO_PAD.decode`: its result is a function of the text.
#[verifier::external_body]
pub(crate) fn base64_url_decode(text: &str) -> (r: Option<Vec<u8>>)
    ensures
        option_bytes(r) == base64_url_bytes(text@),
{
    URL_SAFE_NO_PAD.decode(text).ok()
}

/// `String::from_utf8`: succeeds on valid UTF-8 only, and then holds the
/// characters that the bytes encode.
#[verifier::external_body]
pub(crate) fn string_from_utf8(bytes: Vec<u8>) -> (r: Option<String>)
    ensures
        r is Some == valid_utf8(bytes@),
        r matches Some(s) ==> s@ == decode_utf8(bytes@),
{
    String::from_utf8(bytes).ok()
}

/// The characters of some bytes, with U+FFFD in the place of what is not UTF-8.
pub uninterp spec fn utf8_lossy_text(bytes: Seq<u8>) -> Seq<char>;

/// `String::from_utf8_lossy`: its result is a function of the bytes, and on
/// valid UTF-8 it holds the characters that the bytes encode.
#[verifier::external_body]
pub(crate) fn utf8_lossy(bytes: &[u8]) -> (r: String)
    ensures
        r@ == utf8_lossy_text(bytes@),
        valid_utf8(bytes@) ==> r@ == decode_utf8(bytes@),
{
    String::from_utf8_lossy(bytes).into_owned()
}

/// The Unicode lower-case form of a text.
pub uninterp spec fn lowercase_text(s: Seq<char>) -> Seq<char>;

/// `str::to_lowercase`: its result is a function of the text; ASCII text maps
/// letter by letter.
#[verifier::external_body]
pub(crate) fn to_lowercase(s: &str) -> (r: String)
    ensures
        r@ == lowercase_text(s@),
        is_ascii_chars(s@) ==> r@ == s@.map_values(|c: char| ascii_lower(c)),
{
    s.to_lowercase()
}

/// The Unicode upper-case form of a text.
pub uninterp spec fn uppercase_text(s: Seq<char>) -> Seq<char>;

/// `str::to_uppercase`: its result is a function of the text; ASCII text maps
/// letter by letter.
#[verifier::external_body]
pub(crate) fn to_uppercase(s: &str) -> (r: String)
    ensures
        r@ == uppercase_text(s@),
        is_ascii_chars(s@) ==> r@ == s@.map_values(|c: char| ascii_upper(c)),
{
    s.to_uppercase()
}

/// What argon2 hashes a password to, under a salt, as a PHC string.
pub uninterp spec fn argon2_phc(password: Seq<u8>, salt: Seq<char>) -> Seq<char>;

/// How argon2 judges a password against a stored text: `None` where the text is
/// no PHC string, otherwise whether the password is accepted.
pub uninterp spec fn argon2_verdict(password: Seq<u8>, stored: Seq<char>) -> Option<bool>;

/// A character of the standard base64 alphabet.
pub open spec fn base64_char(c: char) -> bool {
    ||| 'A' <= c <= 'Z'
    ||| 'a' <= c <= 'z'
    ||| '0' <= c <= '9'
    ||| c == '+'
    ||| c == '/'
}

/// The unpadded base64 text of 16 bytes: 22 characters, the last of which
/// carries two bits.
pub open spec fn salt_text(s: Seq<char>) -> bool {
    &&& s.len() == 22
    &&& forall|i: int| 0 <= i < s.len() ==> base64_char(#[trigger] s[i])
    &&& (s[21] == 'A' || s[21] == 'Q' || s[21] == 'g' || s[21] == 'w')
}

/// The longest password that argon2 takes, in bytes.
pub const MAX_PASSWORD_BYTES: u64 = 0xffff_ffff;

/// `SaltString::generate` on `rand::thread_rng`: a random salt of 16 bytes in
/// base64. Of the value only its form is claimed.
#[verifier::external_body]
pub(crate) fn random_salt() -> (r: String)
    ensures
        salt_text(r@),
{
    SaltString::generate(&mut rand::thread_rng()).as_str().to_owned()
}

/// The text of a hash under a salt: Argon2id with the default costs, the salt,
/// and 32 bytes of output in base64.
pub open spec fn phc_shape(hash: Seq<char>, salt: Seq<char>) -> bool {
    let head = "$argon2id$v=19$m=19456,t=2,p=1$"@ + salt + "$"@;
    &&& head.is_prefix_of(hash)
    &&& hash.len() == head.len() + 43
    &&& forall|i: int| head.len() <= i < hash.len() ==> base64_char(#[trigger] hash[i])
}

/// At position `i` stands `p=` with nine digits behind it.
pub open spec fn wide_lanes_at(s: Seq<char>, i: int) -> bool {
    &&& 0 <= i
    &&& i + 11 <= s.len()
    &&& s[i] == 'p'
    &&& s[i + 1] == '='
    &&& forall|k: int| i + 2 <= k < i + 11 ==> '0' <= #[trigger] s[k] <= '9'
}

/// Somewhere in the text stands `p=` with nine or more digits behind it. No
/// hash with so many lanes is accepted.
pub open spec fn wide_lanes(s: Seq<char>) -> bool {
    exists|i: int| #[trigger] wide_lanes_at(s, i)
}

/// `Argon2::default().hash_password`, printed: its result is a function of the
/// password and the salt, has the form of `phc_shape`, and is accepted with
/// exactly the passwords that hash to it under the salt; one that is too long
/// is not accepted. A longer password, or a salt of another form, is an error
/// there, so both are left out.
#[verifier::external_body]
pub(crate) fn argon2_hash(password: &[u8], salt: &str) -> (r: String)
    requires
        password@.len() <= MAX_PASSWORD_BYTES,
        salt_text(salt@),
    ensures
        r@ == argon2_phc(password@, salt@),
        phc_shape(r@, salt@),
        forall|other: Seq<u8>| #[trigger]
            argon2_verdict(other, r@) == Some(
                other.len() <= MAX_PASSWORD_BYTES && argon2_phc(other, salt@) == r@,
            ),
{
    let salt = SaltString::from_b64(salt).expect("a salt of 16 bytes");
    let hash = Argon2::default().hash_password(password, &salt).expect("valid inputs");
    hash.to_string()
}

/// `PasswordHash::new`, then `Argon2::default().verify_password`: the verdict is
/// a function of the password and the stored text, and a text is accepted only
/// where it names an Argon2 variant. The work and the memory follow the cost
/// parameters in the stored text. A number of lanes with nine or more digits is
/// left out: eight times it may not fit in 32 bits, which is an overflow there.
#[verifier::external_body]
pub(crate) fn argon2_verify(password: &[u8], stored: &str) -> (r: Option<bool>)
    requires
        !wide_lanes(stored@),
    ensures
        r == argon2_verdict(password@, stored@),
        r == Some(true) ==> "$argon2"@.is_prefix_of(stored@),
{
    match PasswordHash::new(stored) {
        Ok(parsed) => Some(Argon2::default().verify_password(password, &parsed).is_ok()),
        Err(_) => None,
    }
}

/// `http`'s header map, as `axum` exports it.
#[verifier::external_type_specification]
#[verifier::external_body]
#[verifier::reject_recursive_types(T)]
pub struct ExHeaderMap<T>(axum::http::HeaderMap<T>);

/// `http`'s header value, as `axum` exports it.
#[verifier::external_type_specification]
#[verifier::external_body]
pub struct ExHeaderValue(axum::http::HeaderValue);

/// What a header map holds: for each name in lower case the bytes of its
/// values, in the order in which they were added.
pub uninterp spec fn header_values(
    headers: axum::http::HeaderMap<axum::http::HeaderValue>,
) -> Map<Seq<char>, Seq<Seq<u8>>>;

/// A header name made of lower-case letters.
pub open spec fn plain_header_name(name: Seq<char>) -> bool {
    &&& name.len() > 0
    &&& forall|i: int| 0 <= i < name.len() ==> 'a' <= #[trigger] name[i] <= 'z'
}

/// Visible ASCII, spaces and tabs only.
pub open spec fn visible_ascii(bytes: Seq<u8>) -> bool {
    forall|i: int|
        0 <= i < bytes.len() ==> (32 <= #[trigger] bytes[i] < 127 || bytes[i] == 9)
}

/// The text of the first value under `name`, where there is one in visible ASCII.
pub open spec fn header_text(
    values: Map<Seq<char>, Seq<Seq<u8>>>,
    name: Seq<char>,
) -> Option<Seq<char>> {
    if values.dom().contains(name) && values[name].len() > 0 && visible_ascii(values[name][0]) {
        Some(values[name][0].map_values(|b: u8| b as char))
    } else {
        None
    }
}

/// `HeaderMap::get`, then `HeaderValue::to_str`: the first value under the
/// name, where it is visible ASCII. Names in another case are left out, because
/// the map folds them to lower case.
#[verifier::external_body]
pub(crate) fn first_header_text(
    headers: &axum::http::HeaderMap<axum::http::HeaderValue>,
    name: &str,
) -> (r: Option<String>)
    requires
        plain_header_name(name@),
    ensures
        option_text(r) == header_text(header_values(*headers), name@),
{
    headers.get(name).and_then(|v| v.to_str().ok()).map(|s| s.to_owned())
}

/// `serde_json`'s number.
#[verifier::external_type_specification]
#[verifier::external_body]
pub struct ExJsonNumber(serde_json::Number);

/// `serde_json`'s value.
#[verifier::external_type_specification]
#[verifier::external_body]
pub struct ExJsonValue(serde_json::Value);

/// `serde_json`'s object.
#[verifier::external_type_specification]
#[verifier::external_body]
#[verifier::reject_recursive_types(K)]
#[verifier::reject_recursive_types(V)]
pub struct ExJsonMap<K, V>(serde_json::Map<K, V>);

/// What a number is: an integer that fits in 64 bits, or any other number by its
/// text.
pub uninterp spec fn number_meaning(n: serde_json::Number) -> NumberView;

/// What a value holds.
pub uninterp spec fn value_meaning(v: serde_json::Value) -> JsonView;

/// What an object holds.
pub uninterp spec fn map_meaning(
    m: serde_json::Map<String, serde_json::Value>,
) -> Map<Seq<char>, JsonView>;

/// What a text is as JSON, or the message of the error that it is.
pub uninterp spec fn json_parsed(text: Seq<char>) -> Result<JsonView, Seq<char>>;

/// The compact JSON text of a value, with the keys of objects in order.
pub uninterp spec fn json_text(value: JsonView) -> Seq<char>;

/// `Number::as_u64`: the number, where it is an unsigned integer of 64 bits.
#[verifier::external_body]
pub(crate) fn number_as_u64(n: &serde_json::Number) -> (r: Option<u64>)
    ensures
        r == unsigned_number(number_meaning(*n)),
{
    n.as_u64()
}

/// `Number::as_i64`: the number, where it is a signed integer of 64 bits.
#[verifier::external_body]
pub(crate) fn number_as_i64(n: &serde_json::Number) -> (r: Option<i64>)
    ensures
        r == signed_number(number_meaning(*n)),
{
    n.as_i64()
}

/// `Number::from` an unsigned integer.
#[verifier::external_body]
pub(crate) fn number_from_u64(v: u64) -> (r: serde_json::Number)
    ensures
        number_meaning(r) == NumberView::Unsigned(v),
{
    serde_json::Number::from(v)
}

/// `Number::from` a signed integer; one that is not negative is the unsigned
/// integer.
#[verifier::external_body]
pub(crate) fn number_from_i64(v: i64) -> (r: serde_json::Number)
    ensures
        number_meaning(r) == if v < 0 {
            NumberView::Negative(v)
        } else {
            NumberView::Unsigned(v as u64)
        },
{
    serde_json::Number::from(v)
}

/// `Number::clone`: the same number.
#[verifier::external_body]
pub(crate) fn number_copy(n: &serde_json::Number) -> (r: serde_json::Number)
    ensures
        number_meaning(r) == number_meaning(*n),
{
    n.clone()
}

/// `serde_json::from_str` into a `serde_json::Value`: the value that the text is,
/// or the message of the error, a function of the text.
#[verifier::external_body]
pub(crate) fn parse_value(text: &str) -> (r: Result<serde_json::Value, String>)
    ensures
        match r {
            Ok(v) => json_parsed(text@) == Ok::<JsonView, Seq<char>>(value_meaning(v)),
            Err(e) => json_parsed(text@) == Err::<JsonView, Seq<char>>(e@),
        },
{
    serde_json::from_str::<serde_json::Value>(text).map_err(|e| e.to_string())
}

/// `serde_json::to_string` of a `serde_json::Value`: its compact text, a function
/// of what it holds. Nothing in a value can fail to be written.
#[verifier::external_body]
pub(crate) fn encode_value(v: &serde_json::Value) -> (r: Result<String, String>)
    ensures
        r is Ok,
        r matches Ok(s) ==> s@ == json_text(value_meaning(*v)),
{
    serde_json::to_string(v).map_err(|e| e.to_string())
}

/// The variants of `serde_json::Value`, told apart: what the value holds is what
/// its part holds.
#[verifier::external_body]
pub(crate) fn value_parts(v: &serde_json::Value) -> (r: ValueParts<'_>)
    ensures
        value_meaning(*v) == parts_meaning(r),
{
    match v {
        serde_json::Value::Null => ValueParts::Null,
        serde_json::Value::Bool(b) => ValueParts::Bool(*b),
        serde_json::Value::Number(n) => ValueParts::Number(n),
        serde_json::Value::String(s) => ValueParts::Text(s),
        serde_json::Value::Array(items) => ValueParts::Array(items),
        serde_json::Value::Object(m) => ValueParts::Object(m),
    }
}

/// The variants of `serde_json::Value`, built: the value holds what its part
/// holds.
#[verifier::external_body]
pub(crate) fn value_of(shape: ValueShape) -> (r: serde_json::Value)
    ensures
        value_meaning(r) == shape_meaning(shape),
{
    match shape {
        ValueShape::Null => serde_json::Value::Null,
        ValueShape::Bool(b) => serde_json::Value::Bool(b),
        ValueShape::Number(n) => serde_json::Value::Number(n),
        ValueShape::Text(s) => serde_json::Value::String(s),
        ValueShape::Array(items) => serde_json::Value::Array(items),
        ValueShape::Object(m) => serde_json::Value::Object(m),
    }
}

/// `serde_json::Map::new`: an object without members.
#[verifier::external_body]
pub(crate) fn map_new() -> (r: serde_json::Map<String, serde_json::Value>)
    ensures
        map_meaning(r) == no_members(),
{
    serde_json::Map::new()
}

/// `serde_json::Map::insert`: sets the member with the key.
#[verifier::external_body]
pub(crate) fn map_insert(
    m: &mut serde_json::Map<String, serde_json::Value>,
    key: String,
    value: serde_json::Value,
)
    ensures
        map_meaning(*final(m)) == map_meaning(*old(m)).insert(key@, value_meaning(value)),
{
    m.insert(key, value);
}

/// `serde_json::Map::iter`: each member of the object once.
#[verifier::external_body]
pub(crate) fn map_members(m: &serde_json::Map<String, serde_json::Value>) -> (r: Vec<
    ValueMember<'_>,
>)
    ensures
        map_meaning(*m) == value_members(r@),
        forall|i: int, j: int|
            0 <= i < j < r@.len() ==> (#[trigger] r@[i]).key@ != (#[trigger] r@[j]).key@,
{
    m.iter().map(|(key, value)| ValueMember { key, value }).collect()
}

} // verus!
