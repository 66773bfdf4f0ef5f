//! Stateless session tokens, download tokens, the session cookie and passwords.
//!
//! A token is the base64 text of `payload:signature`, where the signature is the
//! hexadecimal HMAC-SHA256 of the payload. Nothing is stored on the server: a
//! token is judged by its own contents, the secret and the clock.

use vstd::prelude::*;
use vstd::string::StringExecFns;
use vstd::utf8::decode_utf8;
use vstd::utf8::encode_utf8;
use vstd::utf8::valid_utf8;

use crate::decimal::decimal_text;
use crate::decimal::i64_text;
use crate::decimal::i64_value;
use crate::decimal::parse_i64;
use crate::text::chars_of;
use crate::text::concat3;
use crate::text::has_prefix;
use crate::text::lemma_encode_injective;
use crate::text::option_bytes;
use crate::text::option_text;
use crate::text::rsplit_once;
use crate::text::rsplit_text;
use crate::text::split;
use crate::text::split_text;
use crate::text::splitn;
use crate::text::splitn_text;
use crate::text::str_equal;
use crate::text::strip_prefix;
use crate::text::texts;
use crate::text::trim;
use crate::text::trim_text;
use crate::trusted::argon2_hash;
use crate::trusted::argon2_phc;
use crate::trusted::argon2_verdict;
use crate::trusted::argon2_verify;
use crate::trusted::base64_bytes;
use crate::trusted::base64_char;
use crate::trusted::base64_decode;
use crate::trusted::base64_encode;
use crate::trusted::base64_text;
use crate::trusted::base64_url_bytes;
use crate::trusted::base64_url_decode;
use crate::trusted::base64_url_encode;
use crate::trusted::base64_url_text;
use crate::trusted::clock_time;
use crate::trusted::constant_time_equal;
use crate::trusted::first_header_text;
use crate::trusted::header_text;
use crate::trusted::header_values;
use crate::trusted::hex_encode;
use crate::trusted::hex_text;
use crate::trusted::hmac_sha256;
use crate::trusted::hmac_sha256_tag;
use crate::trusted::now_timestamp;
use crate::trusted::phc_shape;
use crate::trusted::random_salt;
use crate::trusted::salt_text;
use crate::trusted::string_from_utf8;
use crate::trusted::url_safe_char;
use crate::trusted::wide_lanes;
use crate::trusted::wide_lanes_at;
use crate::trusted::MAX_PASSWORD_BYTES;

verus! {

/// The hexadecimal HMAC-SHA256 of a payload under a secret.
pub open spec fn signature(payload: Seq<char>, secret: Seq<char>) -> Seq<char> {
    hex_text(hmac_sha256_tag(encode_utf8(secret), encode_utf8(payload)))
}

/// What a session token signs: `username:expiry`.
pub open spec fn session_payload(username: Seq<char>, expiry: Seq<char>) -> Seq<char> {
    username + ":"@ + expiry
}

/// The decoded text of a session token.
pub open spec fn session_text(username: Seq<char>, secret: Seq<char>, expiry: int) -> Seq<char> {
    let payload = session_payload(username, decimal_text(expiry));
    payload + ":"@ + signature(payload, secret)
}

/// `token` is the session token for a user, signed with `secret`, that is good
/// until `expiry`.
pub open spec fn issued_session_token(
    token: Seq<char>,
    username: Seq<char>,
    secret: Seq<char>,
    expiry: int,
) -> bool {
    let bytes = encode_utf8(session_text(username, secret, expiry));
    &&& token == base64_text(bytes)
    &&& base64_bytes(token) == Some(bytes)
}

/// An expiry that is written as an integer and has not passed at `now`.
pub open spec fn not_expired(expiry: Seq<char>, now: i64) -> bool {
    i64_value(expiry) matches Some(e) && now <= e
}

/// Bits reinterpreted as a signed integer, as `as i64` does.
pub open spec fn signed(v: u64) -> int {
    if v <= i64::MAX {
        v as int
    } else {
        v - 0x1_0000_0000_0000_0000
    }
}

/// The second at which a token issued at `now` for that many hours expires.
pub open spec fn session_expiry(now: i64, ttl_hours: u64) -> int {
    now + signed(ttl_hours) * 3600
}

/// The lifetime and the expiry fit in 64 bits.
pub open spec fn session_ttl_fits(now: i64, ttl_hours: u64) -> bool {
    &&& i64::MIN <= signed(ttl_hours) * 3600 <= i64::MAX
    &&& i64::MIN <= session_expiry(now, ttl_hours) <= i64::MAX
}

fn to_signed(v: u64) -> (r: i64)
    ensures
        r == signed(v),
{
    if v <= 0x7fff_ffff_ffff_ffff {
        v as i64
    } else {
        -((0xffff_ffff_ffff_ffff - v) as i64) - 1
    }
}

/// Signs a payload: the hexadecimal HMAC-SHA256 under the secret.
fn sign(payload: &str, secret: &str) -> (r: String)
    ensures
        r@ == signature(payload@, secret@),
        r@.len() == 64,
{
    hex_encode(hmac_sha256(secret.as_bytes(), payload.as_bytes()).as_slice())
}

/// Creates the session token that a clock at `now` gives.
pub fn create_session_token_at(username: &str, secret: &str, ttl_hours: u64, now: i64) -> (r:
    String)
    requires
        session_ttl_fits(now, ttl_hours),
    ensures
        issued_session_token(r@, username@, secret@, session_expiry(now, ttl_hours)),
        signature(
            session_payload(username@, decimal_text(session_expiry(now, ttl_hours))),
            secret@,
        ).len() == 64,
{
    let expiry: i64 = now + to_signed(ttl_hours) * 3600;
    let payload: String = concat3(username, ":", i64_text(expiry).as_str());
    let signed_text: String = concat3(
        payload.as_str(),
        ":",
        sign(payload.as_str(), secret).as_str(),
    );
    base64_encode(signed_text.as_str().as_bytes())
}

/// Create a session token: base64(username:expiry_unix:hmac_hex)
pub fn create_session_token(username: &str, secret: &str, ttl_hours: u64) -> (r: String)
    requires
        forall|now: i64| #[trigger] clock_time(now) ==> session_ttl_fits(now, ttl_hours),
    ensures
        exists|now: i64| #[trigger]
            clock_time(now) && issued_session_token(
                r@,
                username@,
                secret@,
                session_expiry(now, ttl_hours),
            ) && signature(
                session_payload(username@, decimal_text(session_expiry(now, ttl_hours))),
                secret@,
            ).len() == 64,
{
    let now: i64 = now_timestamp();
    create_session_token_at(username, secret, ttl_hours, now)
}

/// The three fields of a decoded session token.
pub struct SessionFields {
    pub username: String,
    pub expiry: String,
    pub signature: String,
}

/// The user name, the expiry and the signature of a session token's text: the
/// two behind the last two colons are the expiry and the signature, and what is
/// left is the name.
pub open spec fn session_fields(text: Seq<char>) -> Option<(Seq<char>, Seq<char>, Seq<char>)> {
    match rsplit_text(text, ':') {
        Some((payload, sig)) => match rsplit_text(payload, ':') {
            Some((username, expiry)) => Some((username, expiry, sig)),
            None => None,
        },
        None => None,
    }
}

/// The session fields of decoded token bytes, where they are UTF-8 text.
pub open spec fn decoded_session(bytes: Seq<u8>) -> Option<(Seq<char>, Seq<char>, Seq<char>)> {
    if valid_utf8(bytes) {
        session_fields(decode_utf8(bytes))
    } else {
        None
    }
}

/// Splits decoded token bytes into the fields of a session token.
pub fn parse_session_fields(decoded: Vec<u8>) -> (r: Option<SessionFields>)
    ensures
        r is Some == decoded_session(decoded@) is Some,
        r matches Some(f) ==> decoded_session(decoded@) == Some(
            (f.username@, f.expiry@, f.signature@),
        ),
{
    let text: String = match string_from_utf8(decoded) {
        Some(t) => t,
        None => return None,
    };
    let (payload, sig): (&str, &str) = match rsplit_once(text.as_str(), ':') {
        Some(parts) => parts,
        None => return None,
    };
    let (username, expiry): (&str, &str) = match rsplit_once(payload, ':') {
        Some(parts) => parts,
        None => return None,
    };
    Some(
        SessionFields {
            username: username.to_owned(),
            expiry: expiry.to_owned(),
            signature: sig.to_owned(),
        },
    )
}

/// What a download token's text begins with, and a session's user name does not.
pub open spec fn download_prefix() -> Seq<char> {
    "download:"@
}

/// Judges the fields of a session token against the tag that its payload has
/// under the server's secret.
pub fn accept_session(fields: SessionFields, tag: &[u8], now: i64) -> (r: Option<String>)
    ensures
        option_text(r) == if not_expired(fields.expiry@, now) && fields.signature@ == hex_text(
            tag@,
        ) && !download_prefix().is_prefix_of(fields.username@) {
            Some(fields.username@)
        } else {
            None
        },
{
    if has_prefix(fields.username.as_str(), "download:") {
        return None;
    }
    let expiry: i64 = match parse_i64(fields.expiry.as_str()) {
        Some(e) => e,
        None => return None,
    };
    if now > expiry {
        return None;
    }
    let expected: String = hex_encode(tag);
    let same: bool = constant_time_equal(
        fields.signature.as_str().as_bytes(),
        expected.as_str().as_bytes(),
    );
    proof {
        if same {
            lemma_encode_injective(fields.signature@, expected@);
        }
    }
    if same {
        Some(fields.username)
    } else {
        None
    }
}

/// The user for whom decoded token bytes are good at `now`, if any.
pub open spec fn session_verdict(decoded: Option<Seq<u8>>, secret: Seq<char>, now: i64) -> Option<
    Seq<char>,
> {
    match decoded {
        Some(bytes) => match decoded_session(bytes) {
            Some((username, expiry, sig)) => if not_expired(expiry, now) && sig == signature(
                session_payload(username, expiry),
                secret,
            ) && !download_prefix().is_prefix_of(username) {
                Some(username)
            } else {
                None
            },
            None => None,
        },
        None => None,
    }
}

/// Verifies a session token at the given time.
pub fn verify_session_token_at(token: &str, secret: &str, now: i64) -> (r: Option<String>)
    ensures
        option_text(r) == session_verdict(base64_bytes(token@), secret@, now),
{
    let decoded: Vec<u8> = match base64_decode(token) {
        Some(d) => d,
        None => return None,
    };
    let fields: SessionFields = match parse_session_fields(decoded) {
        Some(f) => f,
        None => return None,
    };
    let payload: String = concat3(fields.username.as_str(), ":", fields.expiry.as_str());
    let tag: Vec<u8> = hmac_sha256(secret.as_bytes(), payload.as_str().as_bytes());
    accept_session(fields, tag.as_slice(), now)
}

/// Verify a session token. Returns the username if valid and not expired.
pub fn verify_session_token(token: &str, secret: &str) -> (r: Option<String>)
    ensures
        exists|now: i64| #[trigger]
            clock_time(now) && option_text(r) == session_verdict(
                base64_bytes(token@),
                secret@,
                now,
            ),
{
    let now: i64 = now_timestamp();
    verify_session_token_at(token, secret, now)
}

/// What a download token signs: `download:agent:expiry:path`, the path in
/// URL-safe base64.
pub open spec fn download_payload(
    kind: Seq<char>,
    agent_id: Seq<char>,
    expiry: Seq<char>,
    path: Seq<char>,
) -> Seq<char> {
    kind + ":"@ + agent_id + ":"@ + expiry + ":"@ + path
}

/// The decoded text of a download token whose path field is `path`.
pub open spec fn download_text(
    agent_id: Seq<char>,
    path: Seq<char>,
    secret: Seq<char>,
    expiry: int,
) -> Seq<char> {
    let payload = download_payload("download"@, agent_id, decimal_text(expiry), path);
    payload + ":"@ + signature(payload, secret)
}

/// `path` is the URL-safe base64 text of a workspace path.
pub open spec fn path_field(path: Seq<char>, rel_path: Seq<char>) -> bool {
    &&& path == base64_url_text(encode_utf8(rel_path))
    &&& base64_url_bytes(path) == Some(encode_utf8(rel_path))
    &&& forall|i: int| 0 <= i < path.len() ==> url_safe_char(#[trigger] path[i])
}

/// `token` is the download token for one path of one agent, signed with
/// `secret`, that is good until `expiry`.
pub open spec fn issued_download_token(
    token: Seq<char>,
    agent_id: Seq<char>,
    rel_path: Seq<char>,
    secret: Seq<char>,
    expiry: int,
) -> bool {
    let path = base64_url_text(encode_utf8(rel_path));
    let bytes = encode_utf8(download_text(agent_id, path, secret, expiry));
    &&& path_field(path, rel_path)
    &&& token == base64_text(bytes)
    &&& base64_bytes(token) == Some(bytes)
}

/// The second at which a token issued at `now` for that many seconds expires.
pub open spec fn download_expiry(now: i64, ttl_seconds: u64) -> int {
    now + signed(ttl_seconds)
}

/// The expiry fits in 64 bits.
pub open spec fn download_ttl_fits(now: i64, ttl_seconds: u64) -> bool {
    i64::MIN <= download_expiry(now, ttl_seconds) <= i64::MAX
}

/// `kind:agent:expiry:path`.
fn join_download_payload(kind: &str, agent_id: &str, expiry: &str, path: &str) -> (r: String)
    ensures
        r@ == download_payload(kind@, agent_id@, expiry@, path@),
{
    let mut s: String = concat3(kind, ":", agent_id);
    s.append(":");
    s.append(expiry);
    s.append(":");
    s.append(path);
    s
}

/// Creates the download token that a clock at `now` gives.
pub fn create_download_token_at(
    agent_id: &str,
    rel_path: &str,
    secret: &str,
    ttl_seconds: u64,
    now: i64,
) -> (r: String)
    requires
        download_ttl_fits(now, ttl_seconds),
    ensures
        issued_download_token(
            r@,
            agent_id@,
            rel_path@,
            secret@,
            download_expiry(now, ttl_seconds),
        ),
        signature(
            download_payload(
                "download"@,
                agent_id@,
                decimal_text(download_expiry(now, ttl_seconds)),
                base64_url_text(encode_utf8(rel_path@)),
            ),
            secret@,
        ).len() == 64,
{
    let expiry: i64 = now + to_signed(ttl_seconds);
    let path: String = base64_url_encode(rel_path.as_bytes());
    let payload: String = join_download_payload(
        "download",
        agent_id,
        i64_text(expiry).as_str(),
        path.as_str(),
    );
    let signed_text: String = concat3(
        payload.as_str(),
        ":",
        sign(payload.as_str(), secret).as_str(),
    );
    base64_encode(signed_text.as_str().as_bytes())
}

/// Create a short-lived agent workspace download token.
pub fn create_download_token(agent_id: &str, rel_path: &str, secret: &str, ttl_seconds: u64) -> (r:
    String)
    requires
        forall|now: i64| #[trigger] clock_time(now) ==> download_ttl_fits(now, ttl_seconds),
    ensures
        exists|now: i64| #[trigger]
            clock_time(now) && issued_download_token(
                r@,
                agent_id@,
                rel_path@,
                secret@,
                download_expiry(now, ttl_seconds),
            ) && signature(
                download_payload(
                    "download"@,
                    agent_id@,
                    decimal_text(download_expiry(now, ttl_seconds)),
                    base64_url_text(encode_utf8(rel_path@)),
                ),
                secret@,
            ).len() == 64,
{
    let now: i64 = now_timestamp();
    create_download_token_at(agent_id, rel_path, secret, ttl_seconds, now)
}

/// The five fields of a decoded download token.
pub struct DownloadFields {
    pub kind: String,
    pub agent_id: String,
    pub expiry: String,
    pub path: String,
    pub signature: String,
}

/// The fields of decoded token bytes, where they are UTF-8 text with at least
/// `n` fields between colons; the last field keeps every further colon.
pub open spec fn token_fields(bytes: Seq<u8>, n: nat) -> Option<Seq<Seq<char>>> {
    if valid_utf8(bytes) && splitn_text(decode_utf8(bytes), n, ':').len() == n {
        Some(splitn_text(decode_utf8(bytes), n, ':'))
    } else {
        None
    }
}

/// Splits decoded token bytes into the fields of a download token.
pub fn parse_download_fields(decoded: Vec<u8>) -> (r: Option<DownloadFields>)
    ensures
        r is Some == token_fields(decoded@, 5) is Some,
        r matches Some(f) ==> token_fields(decoded@, 5) == Some(
            seq![f.kind@, f.agent_id@, f.expiry@, f.path@, f.signature@],
        ),
{
    let text: String = match string_from_utf8(decoded) {
        Some(t) => t,
        None => return None,
    };
    let parts: Vec<&str> = splitn(text.as_str(), 5, ':');
    assert(texts(parts@).len() == parts@.len());
    if parts.len() != 5 {
        return None;
    }
    let f: DownloadFields = DownloadFields {
        kind: parts[0].to_owned(),
        agent_id: parts[1].to_owned(),
        expiry: parts[2].to_owned(),
        path: parts[3].to_owned(),
        signature: parts[4].to_owned(),
    };
    assert(texts(parts@) =~= seq![f.kind@, f.agent_id@, f.expiry@, f.path@, f.signature@]);
    Some(f)
}

/// Decoded path bytes that are the UTF-8 text of `rel_path`.
pub open spec fn names_path(path_bytes: Option<Seq<u8>>, rel_path: Seq<char>) -> bool {
    path_bytes matches Some(b) && valid_utf8(b) && decode_utf8(b) == rel_path
}

/// Judges the fields of a download token. `path_bytes` is what its path field
/// decodes to, `tag` the tag of its payload under the server's secret.
pub fn accept_download(
    fields: &DownloadFields,
    path_bytes: Option<Vec<u8>>,
    tag: &[u8],
    expected_agent_id: &str,
    expected_rel_path: &str,
    now: i64,
) -> (r: bool)
    ensures
        r == (fields.kind@ == "download"@ && fields.agent_id@ == expected_agent_id@ && names_path(
            option_bytes(path_bytes),
            expected_rel_path@,
        ) && not_expired(fields.expiry@, now) && fields.signature@ == hex_text(tag@)),
{
    let rel_path: String = match path_bytes {
        Some(b) => match string_from_utf8(b) {
            Some(p) => p,
            None => return false,
        },
        None => return false,
    };
    if !str_equal(fields.kind.as_str(), "download") || !str_equal(
        fields.agent_id.as_str(),
        expected_agent_id,
    ) || !str_equal(rel_path.as_str(), expected_rel_path) {
        return false;
    }
    let expiry: i64 = match parse_i64(fields.expiry.as_str()) {
        Some(e) => e,
        None => return false,
    };
    if now > expiry {
        return false;
    }
    let expected: String = hex_encode(tag);
    let same: bool = constant_time_equal(
        fields.signature.as_str().as_bytes(),
        expected.as_str().as_bytes(),
    );
    proof {
        if same {
            lemma_encode_injective(fields.signature@, expected@);
        }
    }
    same
}

/// Whether decoded token bytes are good for one path of one agent at `now`.
pub open spec fn download_verdict(
    decoded: Option<Seq<u8>>,
    secret: Seq<char>,
    agent_id: Seq<char>,
    rel_path: Seq<char>,
    now: i64,
) -> bool {
    match decoded {
        Some(bytes) => match token_fields(bytes, 5) {
            Some(f) => {
                &&& f[0] == "download"@
                &&& f[1] == agent_id
                &&& names_path(base64_url_bytes(f[3]), rel_path)
                &&& not_expired(f[2], now)
                &&& f[4] == signature(download_payload(f[0], f[1], f[2], f[3]), secret)
            },
            None => false,
        },
        None => false,
    }
}

/// Verifies a download token at the given time.
pub fn verify_download_token_at(
    token: &str,
    secret: &str,
    expected_agent_id: &str,
    expected_rel_path: &str,
    now: i64,
) -> (r: bool)
    ensures
        r == download_verdict(
            base64_bytes(token@),
            secret@,
            expected_agent_id@,
            expected_rel_path@,
            now,
        ),
{
    let decoded: Vec<u8> = match base64_decode(token) {
        Some(d) => d,
        None => return false,
    };
    let fields: DownloadFields = match parse_download_fields(decoded) {
        Some(f) => f,
        None => return false,
    };
    let path_bytes: Option<Vec<u8>> = base64_url_decode(fields.path.as_str());
    let payload: String = join_download_payload(
        fields.kind.as_str(),
        fields.agent_id.as_str(),
        fields.expiry.as_str(),
        fields.path.as_str(),
    );
    let tag: Vec<u8> = hmac_sha256(secret.as_bytes(), payload.as_str().as_bytes());
    accept_download(
        &fields,
        path_bytes,
        tag.as_slice(),
        expected_agent_id,
        expected_rel_path,
        now,
    )
}

/// Verify a download token for one exact agent/path pair.
pub fn verify_download_token(
    token: &str,
    secret: &str,
    expected_agent_id: &str,
    expected_rel_path: &str,
) -> (r: bool)
    ensures
        exists|now: i64| #[trigger]
            clock_time(now) && r == download_verdict(
                base64_bytes(token@),
                secret@,
                expected_agent_id@,
                expected_rel_path@,
                now,
            ),
{
    let now: i64 = now_timestamp();
    verify_download_token_at(token, secret, expected_agent_id, expected_rel_path, now)
}

/// What stands in front of the session token in its cookie.
pub open spec fn cookie_prefix() -> Seq<char> {
    "openfang_session="@
}

/// The value of the first piece that is a session cookie.
pub open spec fn cookie_among(pieces: Seq<Seq<char>>) -> Option<Seq<char>>
    decreases pieces.len(),
{
    if pieces.len() == 0 {
        None
    } else if cookie_prefix().is_prefix_of(trim_text(pieces[0])) {
        Some(trim_text(pieces[0]).skip(cookie_prefix().len() as int))
    } else {
        cookie_among(pieces.skip(1))
    }
}

/// The session cookie in the text of a `Cookie` header.
pub open spec fn session_cookie(cookies: Seq<char>) -> Option<Seq<char>> {
    cookie_among(split_text(cookies, ';'))
}

/// Finds the `openfang_session` cookie in the text of a `Cookie` header.
pub fn session_cookie_in(cookies: &str) -> (r: Option<String>)
    ensures
        option_text(r) == session_cookie(cookies@),
{
    let pieces: Vec<&str> = split(cookies, ';');
    let n: usize = pieces.len();
    let mut i: usize = 0;
    let ghost all = texts(pieces@);
    assert(all.skip(0) =~= all);
    while i < n
        invariant
            n == pieces@.len(),
            i <= n,
            all == texts(pieces@),
            session_cookie(cookies@) == cookie_among(all.skip(i as int)),
        decreases n - i,
    {
        assert(all.skip(i as int)[0] == pieces@[i as int]@);
        match strip_prefix(trim(pieces[i]), "openfang_session=") {
            Some(value) => return Some(value.to_owned()),
            None => {},
        }
        assert(all.skip(i as int).skip(1) =~= all.skip(i + 1));
        i = i + 1;
    }
    None
}

/// Extract the `openfang_session` cookie value from a `Cookie` header string.
///
/// Returns `None` if the header is absent or the cookie is not present.
pub fn extract_session_cookie(
    headers: &axum::http::HeaderMap<axum::http::HeaderValue>,
) -> (r: Option<String>)
    ensures
        option_text(r) == match header_text(header_values(*headers), "cookie"@) {
            Some(cookies) => session_cookie(cookies),
            None => None,
        },
{
    proof {
        reveal_strlit("cookie");
    }
    match first_header_text(headers, "cookie") {
        Some(cookies) => session_cookie_in(cookies.as_str()),
        None => None,
    }
}

/// The stored text is a hash of the password, with a number of lanes that can be.
pub open spec fn password_matches(password: Seq<char>, stored: Seq<char>) -> bool {
    !wide_lanes(stored) && argon2_verdict(encode_utf8(password), stored) == Some(true)
}

/// `hash` is the hash of a password under a salt, and is accepted with exactly
/// the passwords that hash to it.
pub open spec fn issued_hash(hash: Seq<char>, password: Seq<char>, salt: Seq<char>) -> bool {
    &&& salt_text(salt)
    &&& encode_utf8(password).len() <= MAX_PASSWORD_BYTES
    &&& hash == argon2_phc(encode_utf8(password), salt)
    &&& phc_shape(hash, salt)
    &&& forall|other: Seq<u8>| #[trigger]
        argon2_verdict(other, hash) == Some(
            other.len() <= MAX_PASSWORD_BYTES && argon2_phc(other, salt) == hash,
        )
}

/// A hash begins with its variant, and has one lane.
pub proof fn lemma_phc_shape(hash: Seq<char>, salt: Seq<char>)
    requires
        salt_text(salt),
        phc_shape(hash, salt),
    ensures
        "$argon2id$"@.is_prefix_of(hash),
        !wide_lanes(hash),
{
    reveal_strlit("$argon2id$v=19$m=19456,t=2,p=1$");
    reveal_strlit("$argon2id$");
    reveal_strlit("$");
    let costs = "$argon2id$v=19$m=19456,t=2,p=1$"@;
    let head = costs + salt + "$"@;
    assert(costs.len() == 31);
    assert(head.len() == 54);
    assert(hash.subrange(0, head.len() as int) == head);
    assert forall|k: int| 0 <= k < 54 implies hash[k] == #[trigger] head[k] by {
        assert(hash.subrange(0, head.len() as int)[k] == hash[k]);
    }
    assert(hash.subrange(0, 10) =~= "$argon2id$"@) by {
        assert forall|k: int| 0 <= k < 10 implies hash.subrange(0, 10)[k] == "$argon2id$"@[k] by {
            assert(head[k] == costs[k]);
            assert(costs[k] == "$argon2id$"@[k]);
        }
    }
    if wide_lanes(hash) {
        let i = choose|i: int| #[trigger] wide_lanes_at(hash, i);
        if i + 1 >= 54 {
            assert(base64_char(hash[i + 1]));
        } else if i + 1 == 53 {
            assert(head[53] == '$');
        } else if i + 1 >= 31 {
            assert(head[i + 1] == salt[i + 1 - 31]);
            assert(base64_char(salt[i + 1 - 31]));
        } else {
            assert(head[i] == costs[i]);
            assert(head[i + 1] == costs[i + 1]);
            assert(i == 27);
            assert(head[30] == '$');
            assert('0' <= hash[i + 3] <= '9');
        }
    }
}

/// Hashes a password under a given salt, as an Argon2id PHC string.
pub fn hash_password_with(password: &str, salt: &str) -> (r: String)
    requires
        encode_utf8(password@).len() <= MAX_PASSWORD_BYTES,
        salt_text(salt@),
    ensures
        issued_hash(r@, password@, salt@),
        "$argon2id$"@.is_prefix_of(r@),
        password_matches(password@, r@),
{
    let r: String = argon2_hash(password.as_bytes(), salt);
    proof {
        lemma_phc_shape(r@, salt@);
    }
    r
}

/// Hash a password with Argon2id for config storage.
///
/// Returns a PHC-format string (e.g. `$argon2id$v=19$m=19456,t=2,p=1$...`).
pub fn hash_password(password: &str) -> (r: String)
    requires
        encode_utf8(password@).len() <= MAX_PASSWORD_BYTES,
    ensures
        exists|salt: Seq<char>| #[trigger] issued_hash(r@, password@, salt),
        "$argon2id$"@.is_prefix_of(r@),
        password_matches(password@, r@),
{
    let salt: String = random_salt();
    hash_password_with(password, salt.as_str())
}

/// A password is accepted only where the stored text is a hash and matches.
pub fn password_accepted(verdict: Option<bool>) -> (r: bool)
    ensures
        r == (verdict == Some(true)),
{
    match verdict {
        Some(accepted) => accepted,
        None => false,
    }
}

/// Whether a stored text names a number of lanes with nine or more digits.
pub fn has_wide_lanes(stored: &str) -> (r: bool)
    ensures
        r == wide_lanes(stored@),
{
    let v: Vec<char> = chars_of(stored);
    let n: usize = v.len();
    let mut i: usize = 0;
    while i < n
        invariant
            v@ == stored@,
            n == stored@.len(),
            i <= n,
            forall|j: int| 0 <= j < i ==> !(#[trigger] wide_lanes_at(stored@, j)),
        decreases n - i,
    {
        if n - i >= 11 && v[i] == 'p' && v[i + 1] == '=' {
            let mut k: usize = i + 2;
            while k < i + 11 && '0' <= v[k] && v[k] <= '9'
                invariant
                    v@ == stored@,
                    n == stored@.len(),
                    i + 11 <= n,
                    i + 2 <= k <= i + 11,
                    forall|m: int| i + 2 <= m < k ==> '0' <= #[trigger] stored@[m] <= '9',
                decreases i + 11 - k,
            {
                k = k + 1;
            }
            if k == i + 11 {
                assert(wide_lanes_at(stored@, i as int));
                return true;
            }
            assert(!('0' <= stored@[k as int] <= '9'));
        }
        i = i + 1;
    }
    false
}

/// Verify a password against a stored Argon2id hash (PHC string format).
pub fn verify_password(password: &str, stored_hash: &str) -> (r: bool)
    ensures
        r == password_matches(password@, stored_hash@),
        r ==> "$argon2"@.is_prefix_of(stored_hash@),
{
    if has_wide_lanes(stored_hash) {
        return false;
    }
    password_accepted(argon2_verify(password.as_bytes(), stored_hash))
}

} // verus!
