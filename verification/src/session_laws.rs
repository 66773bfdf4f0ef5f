//! What holds between issuing a token and verifying it.

use vstd::prelude::*;
use vstd::utf8::decode_utf8;
use vstd::utf8::decode_utf8_encode_utf8;
use vstd::utf8::encode_utf8;
use vstd::utf8::encode_utf8_decode_utf8;
use vstd::utf8::encode_utf8_valid_utf8;
use vstd::utf8::valid_utf8;

use crate::decimal::all_digits;
use crate::decimal::decimal_text;
use crate::decimal::i64_value;
use crate::decimal::lemma_decimal_chars;
use crate::decimal::lemma_decimal_roundtrip;
use crate::session_auth::cookie_among;
use crate::session_auth::decoded_session;
use crate::session_auth::download_expiry;
use crate::session_auth::download_payload;
use crate::session_auth::download_text;
use crate::session_auth::download_ttl_fits;
use crate::session_auth::download_verdict;
use crate::session_auth::issued_download_token;
use crate::session_auth::issued_hash;
use crate::session_auth::issued_session_token;
use crate::session_auth::lemma_phc_shape;
use crate::session_auth::names_path;
use crate::session_auth::not_expired;
use crate::session_auth::password_matches;
use crate::session_auth::session_cookie;
use crate::session_auth::session_expiry;
use crate::session_auth::session_fields;
use crate::session_auth::session_payload;
use crate::session_auth::session_text;
use crate::session_auth::session_ttl_fits;
use crate::session_auth::session_verdict;
use crate::session_auth::signature;
use crate::session_auth::token_fields;
use crate::text::first_index;
use crate::text::join_text;
use crate::text::lemma_first_index_behind;
use crate::text::lemma_first_index_bound;
use crate::text::lemma_first_index_found;
use crate::text::lemma_rsplit;
use crate::text::lemma_split_joined;
use crate::text::rsplit_text;
use crate::text::splitn_text;
use crate::text::trim_text;
use crate::text::white_space;
use crate::text_laws::blank;
use crate::text_laws::law_join_concatenates;
use crate::text_laws::law_trim_takes_outer_white_space;
use crate::trusted::argon2_phc;
use crate::trusted::argon2_verdict;
use crate::trusted::base64_bytes;
use crate::trusted::base64_text;
use crate::trusted::base64_url_bytes;
use crate::trusted::base64_url_text;
use crate::trusted::header_text;
use crate::trusted::hex_text;
use crate::trusted::hmac_sha256_tag;
use crate::trusted::wide_lanes;
use crate::trusted::wide_lanes_at;

verus! {

/// A field without the separator comes off whole.
proof fn lemma_splitn_field(a: Seq<char>, rest: Seq<char>, n: nat)
    requires
        !a.contains(':'),
        n >= 2,
    ensures
        splitn_text(a + ":"@ + rest, n, ':') == seq![a] + splitn_text(rest, (n - 1) as nat, ':'),
{
    reveal_strlit(":");
    assert(":"@ =~= seq![':']);
    let s = a + ":"@ + rest;
    lemma_first_index_behind(a, rest, ':');
    assert(s.take(a.len() as int) =~= a);
    assert(s.skip(a.len() as int + 1) =~= rest);
}

proof fn lemma_decimal_without_colon(v: int)
    ensures
        !decimal_text(v).contains(':'),
{
    let d = decimal_text(v);
    if d.contains(':') {
        let i = choose|i: int| 0 <= i < d.len() && d[i] == ':';
        lemma_decimal_chars(v, i);
    }
}

proof fn lemma_signature_without_colon(payload: Seq<char>, secret: Seq<char>)
    ensures
        !signature(payload, secret).contains(':'),
{
    let tag = hmac_sha256_tag(encode_utf8(secret), encode_utf8(payload));
    let h = hex_text(tag);
    if h.contains(':') {
        let i = choose|i: int| 0 <= i < h.len() && h[i] == ':';
        assert(0 <= i / 2 < tag.len());
        assert(tag[i / 2] / 16 < 16);
    }
}

/// The text behind the first colon of a text with a later colon holds a colon.
proof fn lemma_last_field_keeps_colon(s: Seq<char>, n: nat, colons: Seq<int>)
    requires
        n >= 1,
        colons.len() >= n,
        forall|i: int| 0 <= i < colons.len() ==> 0 <= #[trigger] colons[i] < s.len(),
        forall|i: int| 0 <= i < colons.len() ==> s[#[trigger] colons[i]] == ':',
        forall|i: int, j: int| 0 <= i < j < colons.len() ==> colons[i] < colons[j],
    ensures
        splitn_text(s, n, ':').len() == n,
        splitn_text(s, n, ':').last().contains(':'),
    decreases n,
{
    if n == 1 {
        assert(s[colons[0]] == ':');
        assert(splitn_text(s, 1, ':') =~= seq![s]);
    } else {
        lemma_first_index_bound(s, ':', colons[0]);
        let f = first_index(s, ':') as int;
        let rest = s.skip(f + 1);
        let later = colons.skip(1).map_values(|c: int| c - f - 1);
        assert forall|i: int| 0 <= i < later.len() implies 0 <= #[trigger] later[i] < rest.len()
            && rest[later[i]] == ':' by {
            assert(colons[0] < colons[i + 1]);
            assert(s[colons[i + 1]] == ':');
        }
        assert forall|i: int, j: int| 0 <= i < j < later.len() implies later[i] < later[j] by {
            assert(colons[i + 1] < colons[j + 1]);
        }
        lemma_last_field_keeps_colon(rest, (n - 1) as nat, later);
        let tail = splitn_text(rest, (n - 1) as nat, ':');
        assert(splitn_text(s, n, ':') == seq![s.take(f)] + tail);
        assert((seq![s.take(f)] + tail).last() == tail.last());
    }
}

/// The fields of the UTF-8 bytes of a text are the fields of the text.
proof fn lemma_token_fields(text: Seq<char>, n: nat)
    ensures
        token_fields(encode_utf8(text), n) == if splitn_text(text, n, ':').len() == n {
            Some(splitn_text(text, n, ':'))
        } else {
            None
        },
{
    encode_utf8_valid_utf8(text);
    encode_utf8_decode_utf8(text);
}

/// A number holds no colon.
proof fn lemma_number_without_colon(s: Seq<char>)
    requires
        i64_value(s) is Some,
    ensures
        !s.contains(':'),
{
    if s.contains(':') {
        let i = choose|i: int| 0 <= i < s.len() && s[i] == ':';
        if i > 0 {
            assert(s.skip(1)[i - 1] == ':');
        }
    }
}

/// A session text has one reading: name, expiry and signature, the latter two
/// without a colon.
proof fn lemma_session_reading(
    text: Seq<char>,
    username: Seq<char>,
    expiry: Seq<char>,
    sig: Seq<char>,
)
    ensures
        session_fields(text) == Some((username, expiry, sig)) <==> text == session_payload(
            username,
            expiry,
        ) + ":"@ + sig && !expiry.contains(':') && !sig.contains(':'),
{
    reveal_strlit(":");
    assert(":"@ =~= seq![':']);
    let payload = session_payload(username, expiry);
    lemma_rsplit(text, ':', payload, sig);
    lemma_rsplit(payload, ':', username, expiry);
    if let Some((front, back)) = rsplit_text(text, ':') {
        lemma_rsplit(text, ':', front, back);
        lemma_rsplit(front, ':', username, expiry);
    }
}

proof fn lemma_issued_session(username: Seq<char>, secret: Seq<char>, expiry: int)
    ensures
        decoded_session(encode_utf8(session_text(username, secret, expiry))) == Some(
            (
                username,
                decimal_text(expiry),
                signature(session_payload(username, decimal_text(expiry)), secret),
            ),
        ),
{
    let d = decimal_text(expiry);
    let sig = signature(session_payload(username, d), secret);
    let text = session_text(username, secret, expiry);
    lemma_decimal_without_colon(expiry);
    lemma_signature_without_colon(session_payload(username, d), secret);
    lemma_session_reading(text, username, d, sig);
    encode_utf8_valid_utf8(text);
    encode_utf8_decode_utf8(text);
}

/// What verifies as a session, and for whom: text made of the user name, a time
/// that has not come and the signature of both under the secret. A name that
/// begins like a download token does not count.
pub proof fn law_session_is_accepted_by_its_text(
    decoded: Seq<u8>,
    secret: Seq<char>,
    now: i64,
    username: Seq<char>,
)
    ensures
        session_verdict(Some(decoded), secret, now) == Some(username) <==> {
            &&& valid_utf8(decoded)
            &&& !"download:"@.is_prefix_of(username)
            &&& exists|time: Seq<char>| #[trigger]
                not_expired(time, now) && decode_utf8(decoded) == session_payload(username, time)
                    + ":"@ + signature(session_payload(username, time), secret)
        },
{
    let text = decode_utf8(decoded);
    if session_verdict(Some(decoded), secret, now) == Some(username) {
        let (_, time, sig) = session_fields(text)->Some_0;
        lemma_session_reading(text, username, time, sig);
        assert(not_expired(time, now));
    }
    if valid_utf8(decoded) && !"download:"@.is_prefix_of(username) && exists|
        time: Seq<char>,
    | #[trigger]
        not_expired(time, now) && text == session_payload(username, time) + ":"@ + signature(
            session_payload(username, time),
            secret,
        ) {
        let time = choose|time: Seq<char>| #[trigger]
            not_expired(time, now) && text == session_payload(username, time) + ":"@ + signature(
                session_payload(username, time),
                secret,
            );
        lemma_number_without_colon(time);
        lemma_signature_without_colon(session_payload(username, time), secret);
        lemma_session_reading(
            text,
            username,
            time,
            signature(session_payload(username, time), secret),
        );
    }
}

/// A session token verifies, with the secret that it was signed with, exactly
/// until it expires, and then names the user that it was issued for. User names
/// that begin like a download token are left out: see
/// `law_download_user_never_verifies`.
pub proof fn law_session_token_verifies(
    token: Seq<char>,
    username: Seq<char>,
    secret: Seq<char>,
    expiry: i64,
    now: i64,
)
    requires
        issued_session_token(token, username, secret, expiry as int),
        !"download:"@.is_prefix_of(username),
    ensures
        session_verdict(base64_bytes(token), secret, now) == if now <= expiry {
            Some(username)
        } else {
            None
        },
{
    lemma_issued_session(username, secret, expiry as int);
    lemma_decimal_roundtrip(expiry);
}

/// A session token is refused under a secret that gives its payload another tag.
pub proof fn law_session_token_needs_its_secret(
    token: Seq<char>,
    username: Seq<char>,
    secret: Seq<char>,
    other: Seq<char>,
    expiry: i64,
    now: i64,
)
    requires
        issued_session_token(token, username, secret, expiry as int),
        signature(session_payload(username, decimal_text(expiry as int)), other) != signature(
            session_payload(username, decimal_text(expiry as int)),
            secret,
        ),
    ensures
        session_verdict(base64_bytes(token), other, now) is None,
{
    lemma_issued_session(username, secret, expiry as int);
}

/// A session token for a user name that begins like a download token is refused
/// at every time.
pub proof fn law_download_user_never_verifies(
    token: Seq<char>,
    username: Seq<char>,
    secret: Seq<char>,
    other: Seq<char>,
    expiry: i64,
    now: i64,
)
    requires
        issued_session_token(token, username, secret, expiry as int),
        "download:"@.is_prefix_of(username),
    ensures
        session_verdict(base64_bytes(token), other, now) is None,
{
    lemma_issued_session(username, secret, expiry as int);
}

proof fn lemma_download_fields(
    agent_id: Seq<char>,
    path: Seq<char>,
    secret: Seq<char>,
    expiry: int,
)
    requires
        !agent_id.contains(':'),
        !path.contains(':'),
    ensures
        splitn_text(download_text(agent_id, path, secret, expiry), 5, ':') == seq![
            "download"@,
            agent_id,
            decimal_text(expiry),
            path,
            signature(
                download_payload("download"@, agent_id, decimal_text(expiry), path),
                secret,
            ),
        ],
{
    reveal_strlit("download");
    let k = "download"@;
    let d = decimal_text(expiry);
    let sig = signature(download_payload(k, agent_id, d, path), secret);
    lemma_decimal_without_colon(expiry);
    assert(!k.contains(':'));
    lemma_splitn_field(path, sig, 2);
    lemma_splitn_field(d, path + ":"@ + sig, 3);
    lemma_splitn_field(agent_id, d + ":"@ + (path + ":"@ + sig), 4);
    lemma_splitn_field(k, agent_id + ":"@ + (d + ":"@ + (path + ":"@ + sig)), 5);
    assert(download_text(agent_id, path, secret, expiry) =~= k + ":"@ + (agent_id + ":"@ + (d
        + ":"@ + (path + ":"@ + sig))));
    assert(splitn_text(sig, 1, ':') =~= seq![sig]);
    assert(seq![k] + (seq![agent_id] + (seq![d] + (seq![path] + seq![sig]))) =~= seq![
        k,
        agent_id,
        d,
        path,
        sig,
    ]);
}

proof fn lemma_path_without_colon(
    token: Seq<char>,
    agent_id: Seq<char>,
    rel_path: Seq<char>,
    secret: Seq<char>,
    expiry: int,
)
    requires
        issued_download_token(token, agent_id, rel_path, secret, expiry),
    ensures
        !base64_url_text(encode_utf8(rel_path)).contains(':'),
{
    let path = base64_url_text(encode_utf8(rel_path));
    if path.contains(':') {
        let i = choose|i: int| 0 <= i < path.len() && path[i] == ':';
        assert(crate::trusted::url_safe_char(path[i]));
    }
}

/// A download token verifies, with the secret that it was signed with, for
/// exactly the agent and the path that it was issued for, until it expires.
/// Agents with a colon are left out: see `law_colon_agent_never_verifies`.
pub proof fn law_download_token_is_scoped(
    token: Seq<char>,
    agent_id: Seq<char>,
    rel_path: Seq<char>,
    secret: Seq<char>,
    expiry: i64,
    asked_agent: Seq<char>,
    asked_path: Seq<char>,
    now: i64,
)
    requires
        issued_download_token(token, agent_id, rel_path, secret, expiry as int),
        !agent_id.contains(':'),
    ensures
        download_verdict(base64_bytes(token), secret, asked_agent, asked_path, now) == (asked_agent
            == agent_id && asked_path == rel_path && now <= expiry),
{
    let path = base64_url_text(encode_utf8(rel_path));
    lemma_path_without_colon(token, agent_id, rel_path, secret, expiry as int);
    lemma_download_fields(agent_id, path, secret, expiry as int);
    lemma_token_fields(download_text(agent_id, path, secret, expiry as int), 5);
    lemma_decimal_roundtrip(expiry);
    encode_utf8_valid_utf8(rel_path);
    encode_utf8_decode_utf8(rel_path);
}

/// A download token for an agent with a colon is refused for every agent and path.
pub proof fn law_colon_agent_never_verifies(
    token: Seq<char>,
    agent_id: Seq<char>,
    rel_path: Seq<char>,
    secret: Seq<char>,
    expiry: i64,
    other: Seq<char>,
    asked_agent: Seq<char>,
    asked_path: Seq<char>,
    now: i64,
)
    requires
        issued_download_token(token, agent_id, rel_path, secret, expiry as int),
        agent_id.contains(':'),
    ensures
        !download_verdict(base64_bytes(token), other, asked_agent, asked_path, now),
{
    reveal_strlit(":");
    reveal_strlit("download");
    let path = base64_url_text(encode_utf8(rel_path));
    let text = download_text(agent_id, path, secret, expiry as int);
    let d = decimal_text(expiry as int);
    let a = choose|i: int| 0 <= i < agent_id.len() && agent_id[i] == ':';
    let c0: int = 8;
    let c1 = 9 + a;
    let c2 = 9 + agent_id.len() as int;
    let c3 = c2 + 1 + d.len();
    let c4 = c3 + 1 + path.len();
    assert(text[c0] == ':');
    assert(text[c1] == ':');
    assert(text[c2] == ':');
    assert(text[c3] == ':');
    assert(text[c4] == ':');
    lemma_last_field_keeps_colon(text, 5, seq![c0, c1, c2, c3, c4]);
    lemma_token_fields(text, 5);
    let f = splitn_text(text, 5, ':');
    lemma_signature_without_colon(download_payload(f[0], f[1], f[2], f[3]), other);
}

/// A download token is never a session token.
pub proof fn law_download_token_is_no_session(
    token: Seq<char>,
    agent_id: Seq<char>,
    rel_path: Seq<char>,
    secret: Seq<char>,
    expiry: i64,
    other: Seq<char>,
    now: i64,
)
    requires
        issued_download_token(token, agent_id, rel_path, secret, expiry as int),
    ensures
        session_verdict(base64_bytes(token), other, now) is None,
{
    reveal_strlit(":");
    reveal_strlit("download");
    reveal_strlit("download:");
    let path = base64_url_text(encode_utf8(rel_path));
    let text = download_text(agent_id, path, secret, expiry as int);
    let d = decimal_text(expiry as int);
    let sig = signature(download_payload("download"@, agent_id, d, path), secret);
    let name = "download"@ + ":"@ + agent_id + ":"@ + d;
    lemma_path_without_colon(token, agent_id, rel_path, secret, expiry as int);
    lemma_signature_without_colon(download_payload("download"@, agent_id, d, path), secret);
    assert(text =~= session_payload(name, path) + ":"@ + sig);
    lemma_session_reading(text, name, path, sig);
    encode_utf8_valid_utf8(text);
    encode_utf8_decode_utf8(text);
    assert("download:"@.len() == 9);
    assert(name.subrange(0, 9) =~= "download:"@);
}

/// The first field of several stands before the first colon, and the others
/// behind it.
proof fn lemma_splitn_first(s: Seq<char>, n: nat) -> (rest: Seq<char>)
    requires
        splitn_text(s, n, ':').len() >= 2,
    ensures
        n >= 2,
        s == splitn_text(s, n, ':')[0] + ":"@ + rest,
        !splitn_text(s, n, ':')[0].contains(':'),
        splitn_text(s, n, ':') == seq![splitn_text(s, n, ':')[0]] + splitn_text(
            rest,
            (n - 1) as nat,
            ':',
        ),
{
    reveal_strlit(":");
    lemma_first_index_found(s, ':');
    let f = first_index(s, ':') as int;
    let rest = s.skip(f + 1);
    assert(s =~= s.take(f) + ":"@ + rest);
    rest
}

/// Only the last colon has no colon behind it.
proof fn lemma_last_colon(a: Seq<char>, b: Seq<char>, c: Seq<char>, d: Seq<char>)
    requires
        a + ":"@ + b == c + ":"@ + d,
        !b.contains(':'),
        !d.contains(':'),
    ensures
        a == c,
        b == d,
{
    reveal_strlit(":");
    let s = a + ":"@ + b;
    let t = c + ":"@ + d;
    assert(":"@.len() == 1);
    assert(s.len() == a.len() + 1 + b.len());
    assert(t.len() == c.len() + 1 + d.len());
    assert(s[a.len() as int] == ':');
    assert(t[c.len() as int] == ':');
    if a.len() < c.len() {
        assert(s[c.len() as int] == b[c.len() - a.len() - 1]);
    } else if c.len() < a.len() {
        assert(t[a.len() as int] == d[a.len() - c.len() - 1]);
    }
    assert(a =~= s.take(a.len() as int));
    assert(c =~= t.take(c.len() as int));
    assert(b =~= s.skip(a.len() as int + 1));
    assert(d =~= t.skip(c.len() as int + 1));
}

/// A session token passes for a download token only where the user name itself
/// reads `download:agent:time` and the expiry reads as the path.
pub proof fn law_session_token_as_download(
    token: Seq<char>,
    username: Seq<char>,
    secret: Seq<char>,
    expiry: i64,
    other: Seq<char>,
    asked_agent: Seq<char>,
    asked_path: Seq<char>,
    now: i64,
)
    requires
        issued_session_token(token, username, secret, expiry as int),
    ensures
        download_verdict(base64_bytes(token), other, asked_agent, asked_path, now) ==> exists|
            time: Seq<char>,
        | #[trigger]
            not_expired(time, now) && username == "download"@ + ":"@ + asked_agent + ":"@ + time
                && names_path(base64_url_bytes(decimal_text(expiry as int)), asked_path),
{
    if download_verdict(base64_bytes(token), other, asked_agent, asked_path, now) {
        let d = decimal_text(expiry as int);
        let sig = signature(session_payload(username, d), secret);
        let text = session_text(username, secret, expiry as int);
        lemma_token_fields(text, 5);
        let f = splitn_text(text, 5, ':');
        let r1 = lemma_splitn_first(text, 5);
        assert(f[1] == splitn_text(r1, 4, ':')[0]);
        let r2 = lemma_splitn_first(r1, 4);
        assert(f[2] == splitn_text(r2, 3, ':')[0]);
        let r3 = lemma_splitn_first(r2, 3);
        assert(f[3] == splitn_text(r3, 2, ':')[0]);
        let r4 = lemma_splitn_first(r3, 2);
        assert(f[4] == splitn_text(r4, 1, ':')[0]);
        assert(splitn_text(r4, 1, ':') =~= seq![r4]);
        let front = f[0] + ":"@ + f[1] + ":"@ + f[2];
        assert(text =~= front + ":"@ + f[3] + ":"@ + f[4]);
        lemma_signature_without_colon(session_payload(username, d), secret);
        lemma_signature_without_colon(download_payload(f[0], f[1], f[2], f[3]), other);
        lemma_last_colon(username + ":"@ + d, sig, front + ":"@ + f[3], f[4]);
        lemma_decimal_without_colon(expiry as int);
        lemma_last_colon(username, d, front, f[3]);
        assert(not_expired(f[2], now));
    }
}

/// The session token of a user name without a colon is never a download token.
pub proof fn law_session_token_is_no_download(
    token: Seq<char>,
    username: Seq<char>,
    secret: Seq<char>,
    expiry: i64,
    other: Seq<char>,
    asked_agent: Seq<char>,
    asked_path: Seq<char>,
    now: i64,
)
    requires
        issued_session_token(token, username, secret, expiry as int),
        !username.contains(':'),
    ensures
        !download_verdict(base64_bytes(token), other, asked_agent, asked_path, now),
{
    law_session_token_as_download(
        token,
        username,
        secret,
        expiry,
        other,
        asked_agent,
        asked_path,
        now,
    );
    reveal_strlit(":");
    reveal_strlit("download");
    if download_verdict(base64_bytes(token), other, asked_agent, asked_path, now) {
        assert(username[8] == ':');
    }
}

/// What verifies as a download token names the agent, the path and a time that
/// has not come, and is signed with the secret.
pub proof fn law_accepted_download_is_signed(
    decoded: Seq<u8>,
    secret: Seq<char>,
    agent_id: Seq<char>,
    rel_path: Seq<char>,
    now: i64,
)
    ensures
        download_verdict(Some(decoded), secret, agent_id, rel_path, now) ==> valid_utf8(decoded)
            && exists|time: Seq<char>, path: Seq<char>|
            #![trigger not_expired(time, now), base64_url_bytes(path)]
            not_expired(time, now) && names_path(base64_url_bytes(path), rel_path) && decode_utf8(
                decoded,
            ) == download_payload("download"@, agent_id, time, path) + ":"@ + signature(
                download_payload("download"@, agent_id, time, path),
                secret,
            ),
{
    if download_verdict(Some(decoded), secret, agent_id, rel_path, now) {
        let text = decode_utf8(decoded);
        let f = splitn_text(text, 5, ':');
        let r1 = lemma_splitn_first(text, 5);
        assert(f[1] == splitn_text(r1, 4, ':')[0]);
        let r2 = lemma_splitn_first(r1, 4);
        assert(f[2] == splitn_text(r2, 3, ':')[0]);
        let r3 = lemma_splitn_first(r2, 3);
        assert(f[3] == splitn_text(r3, 2, ':')[0]);
        let r4 = lemma_splitn_first(r3, 2);
        assert(f[4] == splitn_text(r4, 1, ':')[0]);
        assert(splitn_text(r4, 1, ':') =~= seq![r4]);
        assert(text =~= download_payload(f[0], f[1], f[2], f[3]) + ":"@ + f[4]);
        assert(not_expired(f[2], now));
        assert(names_path(base64_url_bytes(f[3]), rel_path));
    }
}

/// A hash verifies with its password, and with another one only where the two
/// have the same hash under the salt.
pub proof fn law_only_the_password_verifies(
    hash: Seq<char>,
    password: Seq<char>,
    salt: Seq<char>,
    other: Seq<char>,
)
    requires
        issued_hash(hash, password, salt),
        other != password ==> argon2_phc(encode_utf8(other), salt) != argon2_phc(
            encode_utf8(password),
            salt,
        ),
    ensures
        password_matches(other, hash) == (other == password),
{
    lemma_phc_shape(hash, salt);
}

/// Hashes under different salts differ, be the passwords the same or not.
pub proof fn law_different_salts_give_different_hashes(
    hash: Seq<char>,
    password: Seq<char>,
    salt: Seq<char>,
    other_hash: Seq<char>,
    other_password: Seq<char>,
    other_salt: Seq<char>,
)
    requires
        issued_hash(hash, password, salt),
        issued_hash(other_hash, other_password, other_salt),
        salt != other_salt,
    ensures
        hash != other_hash,
{
    if hash == other_hash {
        let n = "$argon2id$v=19$m=19456,t=2,p=1$"@.len() as int;
        let head = "$argon2id$v=19$m=19456,t=2,p=1$"@ + salt + "$"@;
        let other_head = "$argon2id$v=19$m=19456,t=2,p=1$"@ + other_salt + "$"@;
        assert(head.len() == other_head.len());
        assert(head == hash.subrange(0, head.len() as int));
        assert(other_head == hash.subrange(0, head.len() as int));
        assert(salt =~= head.subrange(n, n + 22));
        assert(other_salt =~= other_head.subrange(n, n + 22));
    }
}

/// A signature is the hexadecimal HMAC-SHA256 of the payload under the secret,
/// and the payloads are their fields with colons between them.
pub proof fn law_signature_is_the_hmac_of_the_payload(
    payload: Seq<char>,
    secret: Seq<char>,
    username: Seq<char>,
    kind: Seq<char>,
    agent_id: Seq<char>,
    expiry: Seq<char>,
    path: Seq<char>,
)
    ensures
        signature(payload, secret) == hex_text(
            hmac_sha256_tag(encode_utf8(secret), encode_utf8(payload)),
        ),
        session_payload(username, expiry) == username + seq![':'] + expiry,
        download_payload(kind, agent_id, expiry, path) == kind + seq![':'] + agent_id + seq![':']
            + expiry + seq![':'] + path,
{
    reveal_strlit(":");
    assert(":"@ =~= seq![':']);
}

/// The token that is issued at `now` for some hours is the base64 text of the
/// user name, the second that is that many hours later, and the signature of
/// both.
pub proof fn law_session_token_carries_name_and_time(
    token: Seq<char>,
    username: Seq<char>,
    secret: Seq<char>,
    now: i64,
    ttl_hours: u64,
)
    requires
        issued_session_token(token, username, secret, session_expiry(now, ttl_hours)),
        ttl_hours <= i64::MAX,
    ensures
        ({
            let payload = username + seq![':'] + decimal_text(now + 3600 * ttl_hours);
            let sig = hex_text(hmac_sha256_tag(encode_utf8(secret), encode_utf8(payload)));
            token == base64_text(encode_utf8(payload + seq![':'] + sig))
        }),
{
    reveal_strlit(":");
    assert(":"@ =~= seq![':']);
}

/// A session token that is issued at `now` for some hours verifies, with its
/// secret, at every time up to that many hours after `now`, and at no later one.
pub proof fn law_session_lasts_its_hours(
    token: Seq<char>,
    username: Seq<char>,
    secret: Seq<char>,
    now: i64,
    ttl_hours: u64,
    at: i64,
)
    requires
        now + 3600 * ttl_hours <= i64::MAX,
        3600 * ttl_hours <= i64::MAX,
        issued_session_token(token, username, secret, session_expiry(now, ttl_hours)),
        !"download:"@.is_prefix_of(username),
    ensures
        session_ttl_fits(now, ttl_hours),
        session_verdict(base64_bytes(token), secret, at) == if at - now <= 3600 * ttl_hours {
            Some(username)
        } else {
            None
        },
{
    law_session_token_verifies(token, username, secret, (now + 3600 * ttl_hours) as i64, at);
}

/// A lifetime beyond the signed range counts as negative: the token expires as
/// many hours before `now` as the lifetime falls short of the unsigned range.
pub proof fn law_overlong_session_has_expired(
    token: Seq<char>,
    username: Seq<char>,
    secret: Seq<char>,
    now: i64,
    ttl_hours: u64,
    at: i64,
)
    requires
        ttl_hours > i64::MAX,
        session_ttl_fits(now, ttl_hours),
        issued_session_token(token, username, secret, session_expiry(now, ttl_hours)),
        !"download:"@.is_prefix_of(username),
    ensures
        session_verdict(base64_bytes(token), secret, at) == if now - at >= 3600 * (
        0x1_0000_0000_0000_0000 - ttl_hours) {
            Some(username)
        } else {
            None
        },
{
    law_session_token_verifies(
        token,
        username,
        secret,
        session_expiry(now, ttl_hours) as i64,
        at,
    );
}

/// The download token that is issued at `now` for some seconds is the base64
/// text of `download`, the agent, the second that is that much later, the path in
/// the URL alphabet, and the signature of these.
pub proof fn law_download_token_carries_agent_time_and_path(
    token: Seq<char>,
    agent_id: Seq<char>,
    rel_path: Seq<char>,
    secret: Seq<char>,
    now: i64,
    ttl_seconds: u64,
)
    requires
        issued_download_token(
            token,
            agent_id,
            rel_path,
            secret,
            download_expiry(now, ttl_seconds),
        ),
        ttl_seconds <= i64::MAX,
    ensures
        ({
            let payload = "download:"@ + agent_id + seq![':'] + decimal_text(now + ttl_seconds)
                + seq![':'] + base64_url_text(encode_utf8(rel_path));
            let sig = hex_text(hmac_sha256_tag(encode_utf8(secret), encode_utf8(payload)));
            token == base64_text(encode_utf8(payload + seq![':'] + sig))
        }),
{
    reveal_strlit(":");
    reveal_strlit("download");
    reveal_strlit("download:");
    assert(":"@ =~= seq![':']);
    assert("download"@ + ":"@ =~= "download:"@);
}

/// A download token that is issued at `now` for some seconds verifies, with its
/// secret, for its agent and path alone, at every time up to that many seconds
/// after `now`, and at no later one.
pub proof fn law_download_lasts_its_seconds(
    token: Seq<char>,
    agent_id: Seq<char>,
    rel_path: Seq<char>,
    secret: Seq<char>,
    now: i64,
    ttl_seconds: u64,
    asked_agent: Seq<char>,
    asked_path: Seq<char>,
    at: i64,
)
    requires
        ttl_seconds <= i64::MAX,
        now + ttl_seconds <= i64::MAX,
        issued_download_token(
            token,
            agent_id,
            rel_path,
            secret,
            download_expiry(now, ttl_seconds),
        ),
        !agent_id.contains(':'),
    ensures
        download_ttl_fits(now, ttl_seconds),
        download_verdict(base64_bytes(token), secret, asked_agent, asked_path, at) <==> asked_agent
            == agent_id && asked_path == rel_path && at - now <= ttl_seconds,
{
    law_download_token_is_scoped(
        token,
        agent_id,
        rel_path,
        secret,
        (now + ttl_seconds) as i64,
        asked_agent,
        asked_path,
        at,
    );
}

/// What verifies as a download token is the text `download:agent:time:path:` and
/// the signature of what stands before it, where the time has not come and the
/// path field names the path.
pub proof fn law_download_is_accepted_by_its_text(
    decoded: Seq<u8>,
    secret: Seq<char>,
    agent_id: Seq<char>,
    rel_path: Seq<char>,
    now: i64,
)
    ensures
        download_verdict(Some(decoded), secret, agent_id, rel_path, now) <==> {
            &&& valid_utf8(decoded)
            &&& !agent_id.contains(':')
            &&& exists|time: Seq<char>, path: Seq<char>|
                #![trigger not_expired(time, now), base64_url_bytes(path)]
                not_expired(time, now) && !path.contains(':') && names_path(
                    base64_url_bytes(path),
                    rel_path,
                ) && decode_utf8(decoded) == download_payload("download"@, agent_id, time, path)
                    + ":"@ + signature(
                    download_payload("download"@, agent_id, time, path),
                    secret,
                )
        },
{
    let text = decode_utf8(decoded);
    if download_verdict(Some(decoded), secret, agent_id, rel_path, now) {
        let f = splitn_text(text, 5, ':');
        let r1 = lemma_splitn_first(text, 5);
        assert(f[1] == splitn_text(r1, 4, ':')[0]);
        let r2 = lemma_splitn_first(r1, 4);
        assert(f[2] == splitn_text(r2, 3, ':')[0]);
        let r3 = lemma_splitn_first(r2, 3);
        assert(f[3] == splitn_text(r3, 2, ':')[0]);
        let r4 = lemma_splitn_first(r3, 2);
        assert(f[4] == splitn_text(r4, 1, ':')[0]);
        assert(splitn_text(r4, 1, ':') =~= seq![r4]);
        assert(text =~= download_payload(f[0], f[1], f[2], f[3]) + ":"@ + f[4]);
        assert(not_expired(f[2], now));
        assert(names_path(base64_url_bytes(f[3]), rel_path));
    }
    if valid_utf8(decoded) && !agent_id.contains(':') && exists|
        time: Seq<char>,
        path: Seq<char>,
    |
        #![trigger not_expired(time, now), base64_url_bytes(path)]
        not_expired(time, now) && !path.contains(':') && names_path(
            base64_url_bytes(path),
            rel_path,
        ) && text == download_payload("download"@, agent_id, time, path) + ":"@ + signature(
            download_payload("download"@, agent_id, time, path),
            secret,
        ) {
        let (time, path) = choose|time: Seq<char>, path: Seq<char>|
            #![trigger not_expired(time, now), base64_url_bytes(path)]
            not_expired(time, now) && !path.contains(':') && names_path(
                base64_url_bytes(path),
                rel_path,
            ) && text == download_payload("download"@, agent_id, time, path) + ":"@ + signature(
                download_payload("download"@, agent_id, time, path),
                secret,
            );
        reveal_strlit("download");
        let k = "download"@;
        let sig = signature(download_payload(k, agent_id, time, path), secret);
        lemma_number_without_colon(time);
        assert(!k.contains(':'));
        lemma_splitn_field(path, sig, 2);
        lemma_splitn_field(time, path + ":"@ + sig, 3);
        lemma_splitn_field(agent_id, time + ":"@ + (path + ":"@ + sig), 4);
        lemma_splitn_field(k, agent_id + ":"@ + (time + ":"@ + (path + ":"@ + sig)), 5);
        assert(text =~= k + ":"@ + (agent_id + ":"@ + (time + ":"@ + (path + ":"@ + sig))));
        assert(splitn_text(sig, 1, ':') =~= seq![sig]);
        assert(splitn_text(text, 5, ':') =~= seq![k, agent_id, time, path, sig]);
    }
}

/// A field names a path exactly where its bytes are the UTF-8 of the path.
pub proof fn law_field_names_the_path_it_decodes_to(
    path_bytes: Option<Seq<u8>>,
    rel_path: Seq<char>,
)
    ensures
        names_path(path_bytes, rel_path) <==> path_bytes == Some(encode_utf8(rel_path)),
{
    encode_utf8_valid_utf8(rel_path);
    encode_utf8_decode_utf8(rel_path);
    if names_path(path_bytes, rel_path) {
        decode_utf8_encode_utf8(path_bytes->Some_0);
    }
}

/// A time has not come exactly where it reads as a number that is not below the
/// clock.
pub proof fn law_time_has_come_by_its_number(time: Seq<char>, now: i64, expiry: i64)
    ensures
        i64_value(time) == Some(expiry) ==> (not_expired(time, now) <==> now <= expiry),
        i64_value(time) is None ==> !not_expired(time, now),
        not_expired(decimal_text(expiry as int), now) <==> now <= expiry,
{
    lemma_decimal_roundtrip(expiry);
}

proof fn lemma_cookie_piece(before: Seq<char>, value: Seq<char>, behind: Seq<char>)
    requires
        blank(before),
        blank(behind),
        value.len() > 0 ==> !white_space(value[value.len() - 1]),
    ensures
        trim_text(before + "openfang_session="@ + value + behind) == "openfang_session="@ + value,
{
    reveal_strlit("openfang_session=");
    let core = "openfang_session="@ + value;
    assert(core[0] == 'o');
    assert(core[core.len() - 1] == if value.len() > 0 {
        value[value.len() - 1]
    } else {
        '='
    });
    law_trim_takes_outer_white_space(before, core, behind);
    assert(before + "openfang_session="@ + value + behind =~= before + core + behind);
}

proof fn lemma_cookies_passed_over(others: Seq<Seq<char>>, rest: Seq<Seq<char>>)
    requires
        forall|i: int|
            0 <= i < others.len() ==> !"openfang_session="@.is_prefix_of(
                trim_text(#[trigger] others[i]),
            ),
    ensures
        cookie_among(others + rest) == cookie_among(rest),
    decreases others.len(),
{
    let all = others + rest;
    if others.len() == 0 {
        assert(all =~= rest);
    } else {
        assert(all[0] == others[0]);
        assert(all.skip(1) =~= others.skip(1) + rest);
        assert forall|i: int| 0 <= i < others.skip(1).len() implies !"openfang_session="@.is_prefix_of(
            trim_text(#[trigger] others.skip(1)[i]),
        ) by {
            assert(others.skip(1)[i] == others[i + 1]);
        }
        lemma_cookies_passed_over(others.skip(1), rest);
    }
}

/// A cookie header gives the whole value of its first session cookie, behind
/// cookies of other names and before whatever follows, with white space around
/// the cookie or without.
pub proof fn law_session_cookie_gives_its_value(
    others: Seq<Seq<char>>,
    before: Seq<char>,
    value: Seq<char>,
    behind: Seq<char>,
    more: Seq<Seq<char>>,
)
    requires
        forall|i: int| 0 <= i < others.len() ==> !(#[trigger] others[i]).contains(';'),
        forall|i: int|
            0 <= i < others.len() ==> !"openfang_session="@.is_prefix_of(
                trim_text(#[trigger] others[i]),
            ),
        forall|i: int| 0 <= i < more.len() ==> !(#[trigger] more[i]).contains(';'),
        blank(before),
        blank(behind),
        !value.contains(';'),
        value.len() > 0 ==> !white_space(value[value.len() - 1]),
    ensures
        session_cookie(
            join_text(
                others + seq![before + "openfang_session="@ + value + behind] + more,
                seq![';'],
            ),
        ) == Some(value),
{
    reveal_strlit("openfang_session=");
    let name = "openfang_session="@;
    let piece = before + name + value + behind;
    let pieces = others + seq![piece] + more;
    if piece.contains(';') {
        let k = choose|k: int| 0 <= k < piece.len() && piece[k] == ';';
        if k < before.len() {
            assert(white_space(before[k]));
        } else if k < before.len() + name.len() {
            assert(piece[k] == name[k - before.len()]);
        } else if k < before.len() + name.len() + value.len() {
            assert(value[k - before.len() - name.len()] == ';');
        } else {
            assert(white_space(behind[k - before.len() - name.len() - value.len()]));
        }
    }
    assert forall|i: int| 0 <= i < pieces.len() implies !(#[trigger] pieces[i]).contains(';') by {
        if i < others.len() {
            assert(pieces[i] == others[i]);
        } else if i > others.len() {
            assert(pieces[i] == more[i - others.len() - 1]);
        }
    }
    lemma_split_joined(pieces, ';');
    assert(pieces =~= others + (seq![piece] + more));
    lemma_cookies_passed_over(others, seq![piece] + more);
    lemma_cookie_piece(before, value, behind);
    let core = name + value;
    assert(core.subrange(0, name.len() as int) =~= name);
    assert(core.skip(name.len() as int) =~= value);
    assert((seq![piece] + more)[0] == piece);
}

/// The cookie that is made of a session token, alone or behind cookies of other
/// names, gives that token back, and so its user as long as it lasts.
pub proof fn law_session_cookie_carries_its_token(
    others: Seq<Seq<char>>,
    token: Seq<char>,
    username: Seq<char>,
    secret: Seq<char>,
    now: i64,
    ttl_hours: u64,
    at: i64,
)
    requires
        forall|i: int| 0 <= i < others.len() ==> !(#[trigger] others[i]).contains(';'),
        forall|i: int|
            0 <= i < others.len() ==> !"openfang_session="@.is_prefix_of(
                trim_text(#[trigger] others[i]),
            ),
        now + 3600 * ttl_hours <= i64::MAX,
        3600 * ttl_hours <= i64::MAX,
        issued_session_token(token, username, secret, session_expiry(now, ttl_hours)),
        !token.contains(';'),
        token.len() > 0 ==> !white_space(token[token.len() - 1]),
        !"download:"@.is_prefix_of(username),
    ensures
        session_cookie("openfang_session="@ + token) == Some(token),
        session_cookie(join_text(others.push(" openfang_session="@ + token), seq![';'])) == Some(
            token,
        ),
        at - now <= 3600 * ttl_hours ==> session_verdict(base64_bytes(token), secret, at) == Some(
            username,
        ),
{
    reveal_strlit("openfang_session=");
    reveal_strlit(" openfang_session=");
    let none = Seq::<char>::empty();
    let alone = none + "openfang_session="@ + token + none;
    law_session_cookie_gives_its_value(seq![], none, token, none, seq![]);
    assert(alone =~= "openfang_session="@ + token);
    assert(Seq::<Seq<char>>::empty() + seq![alone] + Seq::<Seq<char>>::empty() =~= seq![alone]);
    law_join_concatenates(seq![alone], seq![], seq![';']);
    let spaced = seq![' '] + "openfang_session="@ + token + none;
    law_session_cookie_gives_its_value(others, seq![' '], token, none, seq![]);
    assert(spaced =~= " openfang_session="@ + token);
    assert(others + seq![spaced] + Seq::<Seq<char>>::empty() =~= others.push(spaced));
    law_session_lasts_its_hours(token, username, secret, now, ttl_hours, at);
}

/// A cookie header without a session cookie gives nothing.
pub proof fn law_other_cookies_give_no_session(others: Seq<Seq<char>>)
    requires
        others.len() > 0,
        forall|i: int| 0 <= i < others.len() ==> !(#[trigger] others[i]).contains(';'),
        forall|i: int|
            0 <= i < others.len() ==> !"openfang_session="@.is_prefix_of(
                trim_text(#[trigger] others[i]),
            ),
    ensures
        session_cookie(join_text(others, seq![';'])) is None,
{
    lemma_split_joined(others, ';');
    lemma_cookies_passed_over(others, seq![]);
    assert(others + Seq::<Seq<char>>::empty() =~= others);
}

/// A stored text is left unjudged only where nine digits stand behind a `p=` in
/// it; every other text is accepted exactly where argon2 accepts it.
pub proof fn law_stored_hash_is_judged_by_argon2(password: Seq<char>, stored: Seq<char>)
    ensures
        wide_lanes(stored) <==> exists|before: Seq<char>, digits: Seq<char>, behind: Seq<char>|
            #![trigger before + "p="@ + digits + behind]
            digits.len() == 9 && all_digits(digits) && stored == before + "p="@ + digits + behind,
        password_matches(password, stored) <==> !wide_lanes(stored) && argon2_verdict(
            encode_utf8(password),
            stored,
        ) == Some(true),
{
    reveal_strlit("p=");
    if wide_lanes(stored) {
        let i = choose|i: int| #[trigger] wide_lanes_at(stored, i);
        let before = stored.take(i);
        let digits = stored.subrange(i + 2, i + 11);
        let behind = stored.skip(i + 11);
        assert forall|k: int| 0 <= k < digits.len() implies '0' <= #[trigger] digits[k] <= '9' by {
            assert('0' <= stored[i + 2 + k] <= '9');
        }
        assert(stored =~= before + "p="@ + digits + behind);
    }
    if exists|before: Seq<char>, digits: Seq<char>, behind: Seq<char>|
        #![trigger before + "p="@ + digits + behind]
        digits.len() == 9 && all_digits(digits) && stored == before + "p="@ + digits + behind {
        let (before, digits, behind) = choose|
            before: Seq<char>,
            digits: Seq<char>,
            behind: Seq<char>,
        |
            #![trigger before + "p="@ + digits + behind]
            digits.len() == 9 && all_digits(digits) && stored == before + "p="@ + digits + behind;
        let i = before.len() as int;
        assert forall|k: int| i + 2 <= k < i + 11 implies '0' <= #[trigger] stored[k] <= '9' by {
            assert(stored[k] == digits[k - i - 2]);
        }
        assert(wide_lanes_at(stored, i));
    }
}

/// A lifetime fits where its seconds and the time that they lead to are signed
/// numbers of 64 bits; a lifetime beyond the signed range counts as negative.
pub proof fn law_lifetimes_that_fit(now: i64, ttl: u64)
    ensures
        ({
            let counted = if ttl < 0x8000_0000_0000_0000 {
                ttl as int
            } else {
                ttl - 0x1_0000_0000_0000_0000
            };
            &&& session_ttl_fits(now, ttl) <==> {
                &&& -0x8000_0000_0000_0000 <= 3600 * counted < 0x8000_0000_0000_0000
                &&& -0x8000_0000_0000_0000 <= now + 3600 * counted < 0x8000_0000_0000_0000
            }
            &&& download_ttl_fits(now, ttl)
                <==> -0x8000_0000_0000_0000 <= now + counted < 0x8000_0000_0000_0000
        }),
{
}

/// The fields of a session are what the last two colons part, so that a user name
/// may hold colons; text with fewer colons, and what is not UTF-8, has none.
pub proof fn law_session_fields_stand_behind_the_last_colons(
    bytes: Seq<u8>,
    username: Seq<char>,
    expiry: Seq<char>,
    sig: Seq<char>,
)
    ensures
        decoded_session(bytes) == Some((username, expiry, sig)) <==> valid_utf8(bytes)
            && decode_utf8(bytes) == username + seq![':'] + expiry + seq![':'] + sig
            && !expiry.contains(':') && !sig.contains(':'),
{
    let text = decode_utf8(bytes);
    let payload = username + seq![':'] + expiry;
    lemma_rsplit(text, ':', payload, sig);
    lemma_rsplit(payload, ':', username, expiry);
    if valid_utf8(bytes) && decoded_session(bytes) == Some((username, expiry, sig)) {
        let (before, last) = rsplit_text(text, ':')->Some_0;
        lemma_rsplit(text, ':', before, last);
        lemma_rsplit(before, ':', username, expiry);
    }
}

/// The five fields of a download are parted by the first four colons; text with
/// fewer colons, and what is not UTF-8, has none.
pub proof fn law_download_fields_stand_between_the_first_colons(
    bytes: Seq<u8>,
    kind: Seq<char>,
    agent_id: Seq<char>,
    expiry: Seq<char>,
    path: Seq<char>,
    sig: Seq<char>,
)
    ensures
        token_fields(bytes, 5) == Some(seq![kind, agent_id, expiry, path, sig]) <==> valid_utf8(
            bytes,
        ) && decode_utf8(bytes) == kind + seq![':'] + agent_id + seq![':'] + expiry + seq![':']
            + path + seq![':'] + sig && !kind.contains(':') && !agent_id.contains(':')
            && !expiry.contains(':') && !path.contains(':'),
        token_fields(bytes, 5) matches Some(fields) ==> fields.len() == 5,
{
    reveal_strlit(":");
    assert(":"@ =~= seq![':']);
    let text = decode_utf8(bytes);
    let fields = seq![kind, agent_id, expiry, path, sig];
    if token_fields(bytes, 5) == Some(fields) {
        let r1 = lemma_splitn_first(text, 5);
        assert(fields[1] == splitn_text(r1, 4, ':')[0]);
        let r2 = lemma_splitn_first(r1, 4);
        assert(fields[2] == splitn_text(r2, 3, ':')[0]);
        let r3 = lemma_splitn_first(r2, 3);
        assert(fields[3] == splitn_text(r3, 2, ':')[0]);
        let r4 = lemma_splitn_first(r3, 2);
        assert(fields[4] == splitn_text(r4, 1, ':')[0]);
        assert(splitn_text(r4, 1, ':') =~= seq![r4]);
        assert(fields[0] == kind && fields[1] == agent_id && fields[2] == expiry && fields[3]
            == path && fields[4] == sig);
        assert(text =~= kind + seq![':'] + agent_id + seq![':'] + expiry + seq![':'] + path
            + seq![':'] + sig);
    }
    if valid_utf8(bytes) && text == kind + seq![':'] + agent_id + seq![':'] + expiry + seq![':']
        + path + seq![':'] + sig && !kind.contains(':') && !agent_id.contains(':')
        && !expiry.contains(':') && !path.contains(':') {
        lemma_splitn_field(path, sig, 2);
        lemma_splitn_field(expiry, path + ":"@ + sig, 3);
        lemma_splitn_field(agent_id, expiry + ":"@ + (path + ":"@ + sig), 4);
        lemma_splitn_field(kind, agent_id + ":"@ + (expiry + ":"@ + (path + ":"@ + sig)), 5);
        assert(text =~= kind + ":"@ + (agent_id + ":"@ + (expiry + ":"@ + (path + ":"@ + sig))));
        assert(splitn_text(sig, 1, ':') =~= seq![sig]);
        assert(splitn_text(text, 5, ':') =~= fields);
    }
}

/// What is not base64 verifies as nothing.
pub proof fn law_undecodable_tokens_verify_as_nothing(
    secret: Seq<char>,
    agent_id: Seq<char>,
    rel_path: Seq<char>,
    now: i64,
)
    ensures
        session_verdict(None, secret, now) is None,
        !download_verdict(None, secret, agent_id, rel_path, now),
{
}

/// The cookies of a request are its first `cookie` header, read byte by byte where
/// it is visible ASCII.
pub proof fn law_header_text_is_the_first_value(
    values: Map<Seq<char>, Seq<Seq<u8>>>,
    name: Seq<char>,
    text: Seq<char>,
)
    ensures
        header_text(values, name) == Some(text) ==> {
            &&& values.dom().contains(name)
            &&& values[name].len() > 0
            &&& text.len() == values[name][0].len()
            &&& forall|i: int|
                0 <= i < text.len() ==> #[trigger] text[i] as u32 == values[name][0][i] as u32 && (
                text[i] == '\t' || ' ' <= text[i] <= '~')
        },
        values.dom().contains(name) && values[name].len() > 0 && values[name][0].len() == text.len()
            && (forall|i: int|
            0 <= i < text.len() ==> (#[trigger] text[i] == '\t' || ' ' <= text[i] <= '~')
                && values[name][0][i] as u32 == text[i] as u32) ==> header_text(values, name)
            == Some(text),
{
    if header_text(values, name) == Some(text) {
        let bytes = values[name][0];
        assert forall|i: int| 0 <= i < text.len() implies #[trigger] text[i] as u32
            == bytes[i] as u32 && (text[i] == '\t' || ' ' <= text[i] <= '~') by {
            assert(32 <= bytes[i] < 127 || bytes[i] == 9);
            assert(text[i] == bytes[i] as char);
        }
    }
    if values.dom().contains(name) && values[name].len() > 0 && values[name][0].len() == text.len()
        && (forall|i: int|
        0 <= i < text.len() ==> (#[trigger] text[i] == '\t' || ' ' <= text[i] <= '~')
            && values[name][0][i] as u32 == text[i] as u32) {
        let bytes = values[name][0];
        assert forall|i: int| 0 <= i < bytes.len() implies (32 <= #[trigger] bytes[i] < 127
            || bytes[i] == 9) by {
            assert(text[i] == '\t' || ' ' <= text[i] <= '~');
        }
        let read = bytes.map_values(|b: u8| b as char);
        assert forall|i: int| 0 <= i < bytes.len() implies #[trigger] read[i] == text[i] by {
            assert(text[i] == '\t' || ' ' <= text[i] <= '~');
            assert(bytes[i] as u32 == text[i] as u32);
        }
        assert(read =~= text);
    }
}

} // verus!
