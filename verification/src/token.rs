//! Token issuance and verification. A token is the signed string
//! `base64url(header) "." base64url(payload) "." signature`, where the
//! payload carries the claims as a fixed JSON object and the signature is
//! HMAC-SHA256 over the first two parts under a shared secret. The framing
//! and the payload codec are verified here; base64url and the MAC stand
//! behind trusted wrappers.
use crate::codec::dec_of;
use crate::codec::is_digit;
use crate::codec::scan_dec_u64;
use crate::codec::u64_to_dec_bytes;
use crate::domain::Claims;
use crate::domain::Role;
use crate::errors::TokenError;
use vstd::prelude::*;
use vstd::string::StrSliceExecFns;
use vstd::string::StringExecFns;

verus! {

// ------------------------------------------------------------------
// Trusted boundary: base64url and HMAC-SHA256.
// ------------------------------------------------------------------

/// The base64url (no padding) encoding of `bytes`, as characters.
pub uninterp spec fn b64url_of(bytes: Seq<u8>) -> Seq<char>;

/// The base64url-encoded HMAC-SHA256 signature of `message` under
/// `secret`. Deterministic in both arguments.
pub uninterp spec fn hs256_sig_of(message: Seq<char>, secret: Seq<char>) -> Seq<char>;

/// Relies on base64's URL_SAFE_NO_PAD engine: unpadded encoding over the
/// url-safe alphabet (A-Z, a-z, 0-9, '-', '_'), which contains no '.'.
#[verifier::external_body]
fn b64url_encode(bytes: &[u8]) -> (r: String)
    ensures
        r@ == b64url_of(bytes@),
        forall|i: int| 0 <= i < r@.len() ==> r@[i] != '.',
{
    base64::Engine::encode(&base64::engine::general_purpose::URL_SAFE_NO_PAD, bytes)
}

/// Relies on base64's URL_SAFE_NO_PAD engine: decoding requires no
/// padding and rejects set trailing bits, so it accepts exactly the
/// canonical encodings and inverts them.
#[verifier::external_body]
fn b64url_decode(s: &str) -> (r: Option<Vec<u8>>)
    ensures
        r is Some ==> b64url_of(r->Some_0@) == s@,
        forall|b: Seq<u8>| s@ == b64url_of(b) ==> (r is Some && r->Some_0@ == b),
{
    base64::Engine::decode(&base64::engine::general_purpose::URL_SAFE_NO_PAD, s).ok()
}

/// Relies on jsonwebtoken::crypto::sign with HS256: returns the
/// base64url (no padding) encoding of the HMAC-SHA256 of the message
/// under the secret, so it is deterministic and free of '.'.
#[verifier::external_body]
fn hs256_sign(message: &str, secret: &str) -> (r: Option<String>)
    ensures
        r is Some ==> r->Some_0@ == hs256_sig_of(message@, secret@),
        r is Some ==> forall|i: int| 0 <= i < r->Some_0@.len() ==> r->Some_0@[i] != '.',
{
    let key = jsonwebtoken::EncodingKey::from_secret(secret.as_bytes());
    jsonwebtoken::crypto::sign(message.as_bytes(), &key, jsonwebtoken::Algorithm::HS256).ok()
}

/// Relies on jsonwebtoken::crypto::verify with HS256: it base64url-decodes
/// the presented signature (strictly, rejecting padding and trailing
/// bits), recomputes the HMAC of the message, and compares; so it returns
/// true exactly when the presented signature is the canonical encoding of
/// that HMAC.
#[verifier::external_body]
fn hs256_matches(signature: &str, message: &str, secret: &str) -> (r: bool)
    ensures
        r == (signature@ == hs256_sig_of(message@, secret@)),
{
    let key = jsonwebtoken::DecodingKey::from_secret(secret.as_bytes());
    jsonwebtoken::crypto::verify(signature, message.as_bytes(), &key, jsonwebtoken::Algorithm::HS256)
        .unwrap_or(false)
}

// ------------------------------------------------------------------
// Payload framing: the claims as a fixed JSON object over bytes.
// ------------------------------------------------------------------

/// The bytes of `{"user_id":`.
pub open spec fn user_id_key() -> Seq<u8> {
    seq![('{' as u8), ('"' as u8), ('u' as u8), ('s' as u8), ('e' as u8), ('r' as u8), ('_' as u8), ('i' as u8), ('d' as u8), ('"' as u8), (':' as u8)]
}

/// The bytes of `,"role":"`.
pub open spec fn role_key() -> Seq<u8> {
    seq![(',' as u8), ('"' as u8), ('r' as u8), ('o' as u8), ('l' as u8), ('e' as u8), ('"' as u8), (':' as u8), ('"' as u8)]
}

/// The bytes of `","exp":`.
pub open spec fn exp_key() -> Seq<u8> {
    seq![('"' as u8), (',' as u8), ('"' as u8), ('e' as u8), ('x' as u8), ('p' as u8), ('"' as u8), (':' as u8)]
}

/// The wire name of a role.
pub open spec fn role_bytes(r: Role) -> Seq<u8> {
    match r {
        Role::User => seq![('u' as u8), ('s' as u8), ('e' as u8), ('r' as u8)],
        Role::Admin => seq![('a' as u8), ('d' as u8), ('m' as u8), ('i' as u8), ('n' as u8)],
    }
}

/// The bytes of the fixed token header `{"alg":"HS256","typ":"JWT"}`.
pub open spec fn header_bytes() -> Seq<u8> {
    seq![
        ('{' as u8), ('"' as u8), ('a' as u8), ('l' as u8), ('g' as u8), ('"' as u8), (':' as u8), ('"' as u8), ('H' as u8), ('S' as u8), ('2' as u8), ('5' as u8), ('6' as u8), ('"' as u8),
        (',' as u8), ('"' as u8), ('t' as u8), ('y' as u8), ('p' as u8), ('"' as u8), (':' as u8), ('"' as u8), ('J' as u8), ('W' as u8), ('T' as u8), ('"' as u8), ('}' as u8),
    ]
}

/// The payload object carrying `c`, e.g. `{"user_id":7,"role":"user","exp":3}`.
pub open spec fn payload_json_of(c: Claims) -> Seq<u8> {
    user_id_key() + dec_of(c.user_id) + role_key() + role_bytes(c.role) + exp_key() + dec_of(
        c.exp,
    ) + seq![('}' as u8)]
}

fn push_user_id_key(out: &mut Vec<u8>)
    ensures
        final(out)@ == old(out)@ + user_id_key(),
{
    out.push(('{' as u8));
    out.push(('"' as u8));
    out.push(('u' as u8));
    out.push(('s' as u8));
    out.push(('e' as u8));
    out.push(('r' as u8));
    out.push(('_' as u8));
    out.push(('i' as u8));
    out.push(('d' as u8));
    out.push(('"' as u8));
    out.push((':' as u8));
    assert(out@ =~= old(out)@ + user_id_key());
}

fn push_role_key(out: &mut Vec<u8>)
    ensures
        final(out)@ == old(out)@ + role_key(),
{
    out.push((',' as u8));
    out.push(('"' as u8));
    out.push(('r' as u8));
    out.push(('o' as u8));
    out.push(('l' as u8));
    out.push(('e' as u8));
    out.push(('"' as u8));
    out.push((':' as u8));
    out.push(('"' as u8));
    assert(out@ =~= old(out)@ + role_key());
}

fn push_exp_key(out: &mut Vec<u8>)
    ensures
        final(out)@ == old(out)@ + exp_key(),
{
    out.push(('"' as u8));
    out.push((',' as u8));
    out.push(('"' as u8));
    out.push(('e' as u8));
    out.push(('x' as u8));
    out.push(('p' as u8));
    out.push(('"' as u8));
    out.push((':' as u8));
    assert(out@ =~= old(out)@ + exp_key());
}

fn push_role(out: &mut Vec<u8>, role: Role)
    ensures
        final(out)@ == old(out)@ + role_bytes(role),
{
    match role {
        Role::User => {
            out.push(('u' as u8));
            out.push(('s' as u8));
            out.push(('e' as u8));
            out.push(('r' as u8));
        },
        Role::Admin => {
            out.push(('a' as u8));
            out.push(('d' as u8));
            out.push(('m' as u8));
            out.push(('i' as u8));
            out.push(('n' as u8));
        },
    }
    assert(out@ =~= old(out)@ + role_bytes(role));
}

fn header_vec() -> (r: Vec<u8>)
    ensures
        r@ == header_bytes(),
{
    let mut out: Vec<u8> = Vec::new();
    out.push(('{' as u8));
    out.push(('"' as u8));
    out.push(('a' as u8));
    out.push(('l' as u8));
    out.push(('g' as u8));
    out.push(('"' as u8));
    out.push((':' as u8));
    out.push(('"' as u8));
    out.push(('H' as u8));
    out.push(('S' as u8));
    out.push(('2' as u8));
    out.push(('5' as u8));
    out.push(('6' as u8));
    out.push(('"' as u8));
    out.push((',' as u8));
    out.push(('"' as u8));
    out.push(('t' as u8));
    out.push(('y' as u8));
    out.push(('p' as u8));
    out.push(('"' as u8));
    out.push((':' as u8));
    out.push(('"' as u8));
    out.push(('J' as u8));
    out.push(('W' as u8));
    out.push(('T' as u8));
    out.push(('"' as u8));
    out.push(('}' as u8));
    assert(out@ =~= header_bytes());
    out
}

/// Renders the payload object of `c`.
pub fn render_claims(c: &Claims) -> (r: Vec<u8>)
    ensures
        r@ == payload_json_of(*c),
{
    let mut out: Vec<u8> = Vec::new();
    push_user_id_key(&mut out);
    let mut d = u64_to_dec_bytes(c.user_id);
    out.append(&mut d);
    push_role_key(&mut out);
    push_role(&mut out, c.role);
    push_exp_key(&mut out);
    let mut e = u64_to_dec_bytes(c.exp);
    out.append(&mut e);
    out.push(('}' as u8));
    assert(out@ =~= payload_json_of(*c));
    out
}

/// Whether the bytes at `i` are exactly `pat`.
#[verifier::loop_isolation(false)]
fn match_bytes(s: &[u8], i: usize, pat: &[u8]) -> (b: bool)
    requires
        i <= s@.len(),
    ensures
        b == (i + pat@.len() <= s@.len() && s@.subrange(i as int, i + pat@.len()) == pat@),
{
    if s.len() - i < pat.len() {
        return false;
    }
    let mut t: usize = 0;
    while t < pat.len()
        invariant
            t <= pat@.len(),
            forall|q: int| 0 <= q < t ==> s@[i + q] == pat@[q],
        decreases pat@.len() - t,
    {
        if s[i + t] != pat[t] {
            proof {
                assert(s@.subrange(i as int, i + pat@.len())[t as int] != pat@[t as int]);
            }
            return false;
        }
        t += 1;
    }
    proof {
        assert(s@.subrange(i as int, i + pat@.len()) =~= pat@);
    }
    true
}

// Offsets of the payload pieces for a given claims value.
pub open spec fn uid_end(c: Claims) -> int {
    11 + dec_of(c.user_id).len() as int
}

pub open spec fn role_start(c: Claims) -> int {
    uid_end(c) + 9
}

pub open spec fn role_end(c: Claims) -> int {
    role_start(c) + role_bytes(c.role).len() as int
}

pub open spec fn exp_start(c: Claims) -> int {
    role_end(c) + 8
}

pub open spec fn exp_end(c: Claims) -> int {
    exp_start(c) + dec_of(c.exp).len() as int
}

/// Where each piece of a rendered payload stands.
proof fn lemma_payload_structure(s: Seq<u8>, c: Claims)
    requires
        s == payload_json_of(c),
    ensures
        s.len() == exp_end(c) + 1,
        s.subrange(0, 11) == user_id_key(),
        s.subrange(11, uid_end(c)) == dec_of(c.user_id),
        !is_digit(s[uid_end(c)]),
        s.subrange(uid_end(c), role_start(c)) == role_key(),
        s.subrange(role_start(c), role_end(c)) == role_bytes(c.role),
        s[role_start(c)] == (if c.role is User { ('u' as u8) } else { ('a' as u8) }),
        s.subrange(role_end(c), exp_start(c)) == exp_key(),
        s.subrange(exp_start(c), exp_end(c)) == dec_of(c.exp),
        !is_digit(s[exp_end(c)]),
        s[exp_end(c)] == ('}' as u8),
{
    assert(s.subrange(0, 11) =~= user_id_key());
    assert(s.subrange(11, uid_end(c)) =~= dec_of(c.user_id));
    assert(s.subrange(uid_end(c), role_start(c)) =~= role_key());
    assert(s.subrange(role_start(c), role_end(c)) =~= role_bytes(c.role));
    assert(s.subrange(role_end(c), exp_start(c)) =~= exp_key());
    assert(s.subrange(exp_start(c), exp_end(c)) =~= dec_of(c.exp));
    assert(s[uid_end(c)] == (',' as u8));
    assert(s[exp_end(c)] == ('}' as u8));
}

/// Strict parser of the payload object: accepts exactly the renderings of
/// `render_claims` and recovers the claims they carry.
#[verifier::loop_isolation(false)]
#[verifier::rlimit(100)]
#[verifier::spinoff_prover]
pub fn parse_claims(s: &[u8]) -> (r: Option<Claims>)
    ensures
        r is Some ==> s@ == payload_json_of(r->Some_0),
        forall|c: Claims| s@ == #[trigger] payload_json_of(c) ==> r == Some(c),
{
    let slen = s.len();
    let mut key1: Vec<u8> = Vec::new();
    push_user_id_key(&mut key1);
    if !match_bytes(s, 0, key1.as_slice()) {
        proof {
            assert forall|c: Claims| s@ == #[trigger] payload_json_of(c) implies false by {
                lemma_payload_structure(s@, c);
            }
        }
        return None;
    }
    let (uid, i2) = match scan_dec_u64(s, 11) {
        Some(p) => p,
        None => {
            proof {
                assert forall|c: Claims| s@ == #[trigger] payload_json_of(c) implies false by {
                    lemma_payload_structure(s@, c);
                }
            }
            return None;
        },
    };
    proof {
        assert forall|c: Claims| s@ == #[trigger] payload_json_of(c) implies uid == c.user_id
            && i2 == uid_end(c) by {
            lemma_payload_structure(s@, c);
        }
    }
    let mut key2: Vec<u8> = Vec::new();
    push_role_key(&mut key2);
    if !match_bytes(s, i2, key2.as_slice()) {
        proof {
            assert forall|c: Claims| s@ == #[trigger] payload_json_of(c) implies false by {
                lemma_payload_structure(s@, c);
            }
        }
        return None;
    }
    let i3 = i2 + 9;
    let mut user_pat: Vec<u8> = Vec::new();
    user_pat.push(('u' as u8));
    user_pat.push(('s' as u8));
    user_pat.push(('e' as u8));
    user_pat.push(('r' as u8));
    let mut admin_pat: Vec<u8> = Vec::new();
    admin_pat.push(('a' as u8));
    admin_pat.push(('d' as u8));
    admin_pat.push(('m' as u8));
    admin_pat.push(('i' as u8));
    admin_pat.push(('n' as u8));
    proof {
        assert(user_pat@ =~= role_bytes(Role::User));
        assert(admin_pat@ =~= role_bytes(Role::Admin));
    }
    let role: Role;
    let i4: usize;
    if match_bytes(s, i3, user_pat.as_slice()) {
        role = Role::User;
        i4 = i3 + 4;
    } else if match_bytes(s, i3, admin_pat.as_slice()) {
        role = Role::Admin;
        i4 = i3 + 5;
    } else {
        proof {
            assert forall|c: Claims| s@ == #[trigger] payload_json_of(c) implies false by {
                lemma_payload_structure(s@, c);
            }
        }
        return None;
    }
    proof {
        assert forall|c: Claims| s@ == #[trigger] payload_json_of(c) implies role == c.role
            && i4 == role_end(c) by {
            lemma_payload_structure(s@, c);
            if c.role is Admin && role is User {
                assert(s@[role_start(c)] == ('a' as u8));
                assert(s@.subrange(i3 as int, i3 + 4)[0] == ('u' as u8));
            }
        }
    }
    let mut key3: Vec<u8> = Vec::new();
    push_exp_key(&mut key3);
    if !match_bytes(s, i4, key3.as_slice()) {
        proof {
            assert forall|c: Claims| s@ == #[trigger] payload_json_of(c) implies false by {
                lemma_payload_structure(s@, c);
            }
        }
        return None;
    }
    let i5 = i4 + 8;
    let (exp, i6) = match scan_dec_u64(s, i5) {
        Some(p) => p,
        None => {
            proof {
                assert forall|c: Claims| s@ == #[trigger] payload_json_of(c) implies false by {
                    lemma_payload_structure(s@, c);
                }
            }
            return None;
        },
    };
    proof {
        assert forall|c: Claims| s@ == #[trigger] payload_json_of(c) implies exp == c.exp && i6
            == exp_end(c) by {
            lemma_payload_structure(s@, c);
        }
    }
    if !(i6 < s.len() && s[i6] == ('}' as u8) && i6 + 1 == s.len()) {
        proof {
            assert forall|c: Claims| s@ == #[trigger] payload_json_of(c) implies false by {
                lemma_payload_structure(s@, c);
            }
        }
        return None;
    }
    let out = Claims { user_id: uid, role, exp };
    proof {
        assert(s@ =~= payload_json_of(out));
    }
    Some(out)
}

// ------------------------------------------------------------------
// The token itself.
// ------------------------------------------------------------------

/// The signed part of a token carrying `c`.
pub open spec fn signing_input_of(c: Claims) -> Seq<char> {
    b64url_of(header_bytes()) + seq!['.'] + b64url_of(payload_json_of(c))
}

/// The full token carrying `c`, signed under `secret`.
pub open spec fn token_of(c: Claims, secret: Seq<char>) -> Seq<char> {
    signing_input_of(c) + seq!['.'] + hs256_sig_of(signing_input_of(c), secret)
}

pub open spec fn no_dots(s: Seq<char>) -> bool {
    forall|i: int| 0 <= i < s.len() ==> s[i] != '.'
}

/// The base64url parts of a token never contain the separator; stated as
/// an assumption of the completeness clause of `verify_token` because it
/// concerns the uninterpreted encodings. Issuance establishes it for every
/// token it returns.
pub open spec fn token_shape_ok(c: Claims, secret: Seq<char>) -> bool {
    &&& no_dots(b64url_of(header_bytes()))
    &&& no_dots(b64url_of(payload_json_of(c)))
    &&& no_dots(hs256_sig_of(signing_input_of(c), secret))
}

/// Issues the token carrying `claims`, signed under `secret`. Fails only
/// when the signing backend fails.
pub fn issue_token(claims: &Claims, secret: &str) -> (r: Result<String, TokenError>)
    ensures
        r is Ok ==> r->Ok_0@ == token_of(*claims, secret@) && token_shape_ok(*claims, secret@),
        r is Err ==> r->Err_0 == TokenError::Signing,
{
    let header = header_vec();
    let h64 = b64url_encode(header.as_slice());
    let payload = render_claims(claims);
    let p64 = b64url_encode(payload.as_slice());
    let mut si = h64;
    si.append(".");
    si.append(p64.as_str());
    proof {
        reveal_strlit(".");
        assert(si@ =~= signing_input_of(*claims));
    }
    match hs256_sign(si.as_str(), secret) {
        None => Err(TokenError::Signing),
        Some(sig) => {
            let mut tok = si;
            tok.append(".");
            tok.append(sig.as_str());
            proof {
                assert(tok@ =~= token_of(*claims, secret@));
            }
            Ok(tok)
        },
    }
}

/// Whether two string slices hold the same characters.
#[verifier::loop_isolation(false)]
fn str_eq(a: &str, b: &str) -> (r: bool)
    ensures
        r == (a@ == b@),
{
    let na = a.unicode_len();
    let nb = b.unicode_len();
    if na != nb {
        return false;
    }
    let mut i: usize = 0;
    while i < na
        invariant
            i <= na,
            forall|q: int| 0 <= q < i ==> a@[q] == b@[q],
        decreases na - i,
    {
        if a.get_char(i) != b.get_char(i) {
            return false;
        }
        i += 1;
    }
    proof {
        assert(a@ =~= b@);
    }
    true
}

/// Verifies `token` under `secret` at time `now`: accepts exactly the
/// issued form, and only with an expiry strictly in the future. The last
/// clause is the expiry law: an issued token verifies while `now` is
/// before its expiry and is rejected as expired from the expiry on.
#[verifier::loop_isolation(false)]
pub fn verify_token(token: &str, secret: &str, now: u64) -> (r: Result<Claims, TokenError>)
    ensures
        r is Ok ==> token@ == token_of(r->Ok_0, secret@) && r->Ok_0.exp > now,
        r is Err ==> r->Err_0 != TokenError::Signing,
        r == Result::<Claims, TokenError>::Err(TokenError::Expired) ==> exists|c: Claims|
            token@ == token_of(c, secret@) && c.exp <= now,
        forall|c: Claims|
            token@ == token_of(c, secret@) && token_shape_ok(c, secret@) ==> ((c.exp > now ==> r
                == Result::<Claims, TokenError>::Ok(c)) && (c.exp <= now ==> r == Result::<
                Claims,
                TokenError,
            >::Err(TokenError::Expired))),
{
    let header = header_vec();
    let h64 = b64url_encode(header.as_slice());
    let n = token.unicode_len();
    let mut i: usize = 0;
    let mut d1: usize = 0;
    let mut d2: usize = 0;
    let mut count: usize = 0;
    while i < n
        invariant
            i <= n,
            n == token@.len(),
            count <= 2,
            count == 0 ==> forall|j: int| 0 <= j < i ==> token@[j] != '.',
            count >= 1 ==> d1 < i && token@[d1 as int] == '.' && (forall|j: int|
                0 <= j < d1 ==> token@[j] != '.'),
            count == 1 ==> forall|j: int| d1 < j < i ==> token@[j] != '.',
            count == 2 ==> d1 < d2 < i && token@[d2 as int] == '.' && (forall|j: int|
                d1 < j < d2 ==> token@[j] != '.') && (forall|j: int|
                d2 < j < i ==> token@[j] != '.'),
        decreases n - i,
    {
        if token.get_char(i) == '.' {
            if count == 0 {
                d1 = i;
                count = 1;
            } else if count == 1 {
                d2 = i;
                count = 2;
            } else {
                proof {
                    assert forall|c: Claims|
                        token@ == token_of(c, secret@) && token_shape_ok(c, secret@)
                        implies false by {
                        let hl = b64url_of(header_bytes()).len() as int;
                        let pl = b64url_of(payload_json_of(c)).len() as int;
                        dot_position(token@, c, secret@, d1 as int, hl, pl);
                        dot_position(token@, c, secret@, d2 as int, hl, pl);
                        dot_position(token@, c, secret@, i as int, hl, pl);
                    }
                }
                return Err(TokenError::Malformed);
            }
        }
        i += 1;
    }
    if count != 2 {
        proof {
            assert forall|c: Claims|
                token@ == token_of(c, secret@) && token_shape_ok(c, secret@) implies false by {
                let hl = b64url_of(header_bytes()).len() as int;
                let pl = b64url_of(payload_json_of(c)).len() as int;
                assert(token@[hl] == '.');
                assert(token@[hl + 1 + pl] == '.');
            }
        }
        return Err(TokenError::Malformed);
    }
    proof {
        assert forall|c: Claims|
            token@ == token_of(c, secret@) && token_shape_ok(c, secret@) implies d1
            == b64url_of(header_bytes()).len() && d2 == b64url_of(header_bytes()).len() + 1
            + b64url_of(payload_json_of(c)).len() by {
            let hl = b64url_of(header_bytes()).len() as int;
            let pl = b64url_of(payload_json_of(c)).len() as int;
            assert(token@[hl] == '.');
            assert(token@[hl + 1 + pl] == '.');
            assert(d1 <= hl) by {
                if d1 > hl {
                    assert(token@[hl] != '.');
                }
            }
            assert(d1 >= hl) by {
                if d1 < hl {
                    assert(token@[d1 as int] == b64url_of(header_bytes())[d1 as int]);
                }
            }
            assert(d2 <= hl + 1 + pl) by {
                if d2 > hl + 1 + pl {
                    assert(token@[hl + 1 + pl] != '.');
                }
            }
            assert(d2 >= hl + 1 + pl) by {
                if hl < d2 < hl + 1 + pl {
                    assert(token@[d2 as int] == b64url_of(payload_json_of(c))[d2 - hl - 1]);
                }
            }
        }
    }
    let h = token.substring_char(0, d1);
    let p = token.substring_char(d1 + 1, d2);
    let sg = token.substring_char(d2 + 1, n);
    if !str_eq(h, h64.as_str()) {
        proof {
            assert forall|c: Claims|
                token@ == token_of(c, secret@) && token_shape_ok(c, secret@) implies false by {
                assert(h@ =~= b64url_of(header_bytes()));
            }
        }
        return Err(TokenError::Malformed);
    }
    let payload_bytes = match b64url_decode(p) {
        Some(v) => v,
        None => {
            proof {
                assert forall|c: Claims|
                    token@ == token_of(c, secret@) && token_shape_ok(c, secret@)
                    implies false by {
                    assert(p@ =~= b64url_of(payload_json_of(c)));
                }
            }
            return Err(TokenError::Malformed);
        },
    };
    let claims = match parse_claims(payload_bytes.as_slice()) {
        Some(cl) => cl,
        None => {
            proof {
                assert forall|c: Claims|
                    token@ == token_of(c, secret@) && token_shape_ok(c, secret@)
                    implies false by {
                    assert(p@ =~= b64url_of(payload_json_of(c)));
                }
            }
            return Err(TokenError::Malformed);
        },
    };
    let mut si = h.to_owned();
    si.append(".");
    si.append(p);
    proof {
        reveal_strlit(".");
        assert(si@ =~= token@.subrange(0, d2 as int));
    }
    if !hs256_matches(sg, si.as_str(), secret) {
        proof {
            assert forall|c: Claims|
                token@ == token_of(c, secret@) && token_shape_ok(c, secret@) implies false by {
                assert(p@ =~= b64url_of(payload_json_of(c)));
                assert(si@ =~= signing_input_of(c));
                assert(sg@ =~= hs256_sig_of(signing_input_of(c), secret@));
            }
        }
        return Err(TokenError::InvalidSignature);
    }
    proof {
        assert(si@ =~= signing_input_of(claims)) by {
            assert(b64url_of(payload_bytes@) == p@);
        }
        assert(token@ =~= token_of(claims, secret@));
        assert forall|c: Claims|
            token@ == token_of(c, secret@) && token_shape_ok(c, secret@) implies c == claims by {
            assert(p@ =~= b64url_of(payload_json_of(c)));
            assert(payload_bytes@ == payload_json_of(c));
        }
    }
    if claims.exp <= now {
        return Err(TokenError::Expired);
    }
    Ok(claims)
}

/// A dot in a well-shaped token stands at one of the two separators.
proof fn dot_position(t: Seq<char>, c: Claims, secret: Seq<char>, k: int, hl: int, pl: int)
    requires
        t == token_of(c, secret),
        token_shape_ok(c, secret),
        hl == b64url_of(header_bytes()).len(),
        pl == b64url_of(payload_json_of(c)).len(),
        0 <= k < t.len(),
        t[k] == '.',
    ensures
        k == hl || k == hl + 1 + pl,
{
    if k < hl {
        assert(t[k] == b64url_of(header_bytes())[k]);
    }
    if hl < k < hl + 1 + pl {
        assert(t[k] == b64url_of(payload_json_of(c))[k - hl - 1]);
    }
    if k > hl + 1 + pl {
        assert(t[k] == hs256_sig_of(signing_input_of(c), secret)[k - (hl + 1 + pl) - 1]);
    }
}

} // verus!
