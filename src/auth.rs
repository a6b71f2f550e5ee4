//! Authentication: a deployment admits requests either by a signed
//! token checked against the issuer's published keys, or by a fixed
//! username and password sent as HTTP basic authentication.
use crate::base64::{decode, decoded};
use vstd::prelude::*;
use vstd::slice::slice_subrange;
use vstd::string::StringSliceAdditionalSpecFns;

verus! {

/// `Basic ` as bytes.
pub open spec fn basic_prefix() -> Seq<u8> {
    seq![66u8, 97u8, 115u8, 105u8, 99u8, 32u8]
}

pub open spec fn bearer_prefix() -> Seq<char> {
    seq!['B', 'e', 'a', 'r', 'e', 'r', ' ']
}

pub open spec fn has_bearer(header: Seq<char>) -> bool {
    header.len() >= 7 && header.subrange(0, 7) == bearer_prefix()
}

/// The basic-authentication header admits `username` and `password`: after
/// `Basic ` it holds `username:password` in base64, and the username holds
/// no colon, so that the pair splits at the first one.
pub open spec fn basic_admits(header: Seq<u8>, username: Seq<u8>, password: Seq<u8>) -> bool {
    &&& header.len() >= 6
    &&& header.subrange(0, 6) == basic_prefix()
    &&& decoded(header.subrange(6, header.len() as int)) == Some(
        username + seq![58u8] + password,
    )
    &&& !username.contains(58u8)
}

/// The token after `Bearer `, where the header starts so.
pub fn bearer_token(header: &str) -> (r: Option<&str>)
    ensures
        match r {
            Some(t) => has_bearer(header@) && t@ == header@.subrange(7, header@.len() as int),
            None => !has_bearer(header@),
        },
{
    let n = header.unicode_len();
    if n < 7 {
        return None;
    }
    let starts = header.get_char(0) == 'B' && header.get_char(1) == 'e' && header.get_char(2) == 'a'
        && header.get_char(3) == 'r' && header.get_char(4) == 'e' && header.get_char(5) == 'r'
        && header.get_char(6) == ' ';
    if starts {
        assert(header@.subrange(0, 7) =~= bearer_prefix());
        Some(header.substring_char(7, n))
    } else {
        assert(header@.subrange(0, 7)[0] == header@[0]);
        assert(header@.subrange(0, 7) != bearer_prefix()) by {
            if header@.subrange(0, 7) == bearer_prefix() {
                assert(header@.subrange(0, 7)[1] == header@[1]);
                assert(header@.subrange(0, 7)[2] == header@[2]);
                assert(header@.subrange(0, 7)[3] == header@[3]);
                assert(header@.subrange(0, 7)[4] == header@[4]);
                assert(header@.subrange(0, 7)[5] == header@[5]);
                assert(header@.subrange(0, 7)[6] == header@[6]);
            }
        }
        None
    }
}

/// Whether `d[from..to]` is exactly `expected`.
fn equal_span(d: &Vec<u8>, from: usize, to: usize, expected: &Vec<u8>) -> (r: bool)
    requires
        from <= to <= d@.len(),
    ensures
        r == (d@.subrange(from as int, to as int) == expected@),
{
    if to - from != expected.len() {
        return false;
    }
    let mut i: usize = 0;
    while i < expected.len()
        invariant
            from <= to <= d@.len(),
            to - from == expected@.len(),
            i <= expected@.len(),
            forall|j: int| 0 <= j < i ==> d@[from + j] == expected@[j],
        decreases expected@.len() - i,
    {
        if d[from + i] != expected[i] {
            assert(d@.subrange(from as int, to as int)[i as int] != expected@[i as int]);
            return false;
        }
        i = i + 1;
    }
    assert(d@.subrange(from as int, to as int) =~= expected@);
    true
}

/// Checks a basic-authentication header against the configured pair, byte
/// for byte. A header that is not `Basic ` and base64, or holds no colon,
/// is refused.
pub fn check_basic(header: &str, username: &Vec<u8>, password: &Vec<u8>) -> (r: bool)
    ensures
        r == basic_admits(header.spec_bytes(), username@, password@),
{
    let h = header.as_bytes();
    let ghost hs = h@;
    if h.len() < 6 || h[0] != 66 || h[1] != 97 || h[2] != 115 || h[3] != 105 || h[4] != 99
        || h[5] != 32 {
        assert(hs.len() < 6 || hs.subrange(0, 6) != basic_prefix()) by {
            if hs.len() >= 6 && hs.subrange(0, 6) == basic_prefix() {
                assert(hs.subrange(0, 6)[0] == hs[0]);
                assert(hs.subrange(0, 6)[1] == hs[1]);
                assert(hs.subrange(0, 6)[2] == hs[2]);
                assert(hs.subrange(0, 6)[3] == hs[3]);
                assert(hs.subrange(0, 6)[4] == hs[4]);
                assert(hs.subrange(0, 6)[5] == hs[5]);
            }
        }
        return false;
    }
    assert(hs.subrange(0, 6) =~= basic_prefix());
    let rest = slice_subrange(h, 6, h.len());
    let d = match decode(rest) {
        Some(d) => d,
        None => return false,
    };
    let ghost ds = d@;
    let mut i: usize = 0;
    while i < d.len() && d[i] != 58
        invariant
            d@ == ds,
            i <= ds.len(),
            forall|j: int| 0 <= j < i ==> ds[j] != 58u8,
        decreases ds.len() - i,
    {
        i = i + 1;
    }
    if i == d.len() {
        assert forall|u: Seq<u8>, p: Seq<u8>| ds != u + seq![58u8] + p by {
            if ds == u + seq![58u8] + p {
                assert(ds[u.len() as int] == 58u8);
            }
        }
        return false;
    }
    let user_ok = equal_span(&d, 0, i, username);
    let pass_ok = equal_span(&d, i + 1, d.len(), password);
    proof {
        let u = ds.subrange(0, i as int);
        let p = ds.subrange(i + 1, ds.len() as int);
        assert(ds =~= u + seq![58u8] + p);
        assert(!u.contains(58u8));
        if ds == username@ + seq![58u8] + password@ && !username@.contains(58u8) {
            if username@.len() < i {
                assert(ds[username@.len() as int] == 58u8);
            }
            if username@.len() > i {
                assert(username@[i as int] == ds[i as int]);
            }
            assert(u =~= username@);
            assert(p =~= password@);
        }
    }
    user_ok && pass_ok
}

/// One key of the issuer's published key set: the RSA modulus and exponent,
/// base64url-encoded, where the key carries them.
pub struct KeyComponents {
    pub n: Option<String>,
    pub e: Option<String>,
}

/// Why a signed token was not accepted.
#[derive(Debug)]
pub enum AuthError {
    /// The key set holds no key.
    NoKeys,
    /// The first key lacks its modulus or exponent.
    InvalidKeyFormat,
    /// The first key's modulus or exponent is not base64url.
    InvalidKeyComponents,
    /// The token's signature, audience, expiry or claims did not check out.
    InvalidToken,
}

#[verifier::external_type_specification]
#[verifier::external_body]
pub struct ExDecodingKey(jsonwebtoken::DecodingKey);

#[verifier::external_type_specification]
#[verifier::external_body]
pub struct ExValidation(jsonwebtoken::Validation);

#[verifier::external_type_specification]
#[verifier::external_body]
pub struct ExJwtError(jsonwebtoken::errors::Error);

#[verifier::external_type_specification]
pub struct ExAlgorithm(jsonwebtoken::Algorithm);

/// The six-bit value of a symbol of the URL-safe base64 alphabet.
pub open spec fn url_sextet(c: char) -> Option<int> {
    if 'A' <= c && c <= 'Z' {
        Some(c as int - 'A' as int)
    } else if 'a' <= c && c <= 'z' {
        Some(c as int - 'a' as int + 26)
    } else if '0' <= c && c <= '9' {
        Some(c as int - '0' as int + 52)
    } else if c == '-' {
        Some(62)
    } else if c == '_' {
        Some(63)
    } else {
        None
    }
}

/// `s` is canonical unpadded URL-safe base64: alphabet symbols only, no
/// length that leaves a single symbol over, and no bits set in the last
/// symbol beyond those that make whole bytes.
pub open spec fn b64url_ok(s: Seq<char>) -> bool {
    &&& forall|i: int| 0 <= i < s.len() ==> #[trigger] url_sextet(s[i]) is Some
    &&& s.len() % 4 != 1
    &&& s.len() % 4 == 2 ==> url_sextet(s.last())->0 % 16 == 0
    &&& s.len() % 4 == 3 ==> url_sextet(s.last())->0 % 4 == 0
}

/// Relies on jsonwebtoken's DecodingKey::from_rsa_components, which builds an
/// RSA verification key from the modulus and exponent; it fails exactly where
/// base64's URL_SAFE_NO_PAD engine refuses to decode either of them.
pub assume_specification[ jsonwebtoken::DecodingKey::from_rsa_components ](modulus: &str, exponent: &str) -> (r: Result<jsonwebtoken::DecodingKey, jsonwebtoken::errors::Error>)
    ensures
        r.is_ok() == (b64url_ok(modulus@) && b64url_ok(exponent@)),
;

/// Relies on jsonwebtoken's Validation::new: signatures by `alg` alone, the
/// `exp` claim required and checked against the clock.
pub assume_specification[ jsonwebtoken::Validation::new ](
    alg: jsonwebtoken::Algorithm,
) -> jsonwebtoken::Validation;

/// Relies on jsonwebtoken's Validation::set_audience: the token's `aud` claim
/// must name one of `items`.
pub assume_specification<T: ToString>[ jsonwebtoken::Validation::set_audience::<T> ](
    validation: &mut jsonwebtoken::Validation,
    items: &[T],
);

/// Relies on jsonwebtoken's Validation::set_required_spec_claims: each claim
/// named in `items` must be present.
pub assume_specification<T: ToString>[ jsonwebtoken::Validation::set_required_spec_claims::<T> ](
    validation: &mut jsonwebtoken::Validation,
    items: &[T],
);

/// Relies on jsonwebtoken::decode, which checks the token's signature with
/// `key` and its claims against `validation`; the claims themselves are not
/// kept. The outcome depends on the clock, so nothing is stated of it.
#[verifier::external_body]
fn verify_token(token: &str, key: &jsonwebtoken::DecodingKey, validation: &jsonwebtoken::Validation) -> (r: Result<(), jsonwebtoken::errors::Error>)
{
    jsonwebtoken::decode::<serde_json::Value>(token, key, validation).map(|_| ())
}

/// Everything a signed token is checked with: the RSA key's modulus and
/// exponent, the signature algorithm, the audience its `aud` claim must name,
/// and the claims it must carry.
pub struct TokenCheck {
    pub modulus: String,
    pub exponent: String,
    pub algorithm: jsonwebtoken::Algorithm,
    pub audience: String,
    pub required_claims: Vec<String>,
}

pub open spec fn has_usable_first_key(keys: Seq<KeyComponents>) -> bool {
    keys.len() > 0 && keys[0].n is Some && keys[0].e is Some
}

/// The check for a token under `keys` and `audience`: the first key's
/// components (no key-id matching), RS256, that audience, and the `exp` and
/// `sub` claims required.
pub open spec fn is_check_for(c: TokenCheck, keys: Seq<KeyComponents>, audience: Seq<char>) -> bool {
    &&& has_usable_first_key(keys)
    &&& c.modulus@ == keys[0].n->0@
    &&& c.exponent@ == keys[0].e->0@
    &&& c.algorithm == jsonwebtoken::Algorithm::RS256
    &&& c.audience@ == audience
    &&& c.required_claims@.len() == 2
    &&& c.required_claims@[0]@ == seq!['e', 'x', 'p']
    &&& c.required_claims@[1]@ == seq!['s', 'u', 'b']
}

/// Builds the check for a token from the issuer's key set and the expected
/// audience. Fails where the key set is empty or its first key lacks its
/// modulus or exponent.
pub fn token_check(keys: &Vec<KeyComponents>, audience: &str) -> (r: Result<TokenCheck, AuthError>)
    ensures
        (r matches Err(AuthError::NoKeys)) <==> keys@.len() == 0,
        (r matches Err(AuthError::InvalidKeyFormat)) <==> keys@.len() > 0 && (keys@[0].n is None
            || keys@[0].e is None),
        r is Ok <==> has_usable_first_key(keys@),
        r matches Ok(c) ==> is_check_for(c, keys@, audience@),
{
    if keys.len() == 0 {
        return Err(AuthError::NoKeys);
    }
    let (n, e) = match (&keys[0].n, &keys[0].e) {
        (Some(n), Some(e)) => (n, e),
        _ => return Err(AuthError::InvalidKeyFormat),
    };
    let exp = "exp".to_owned();
    let sub = "sub".to_owned();
    proof {
        reveal_strlit("exp");
        reveal_strlit("sub");
        assert(exp@ =~= seq!['e', 'x', 'p']);
        assert(sub@ =~= seq!['s', 'u', 'b']);
    }
    let mut required_claims: Vec<String> = Vec::new();
    required_claims.push(exp);
    required_claims.push(sub);
    Ok(TokenCheck {
        modulus: n.clone(),
        exponent: e.clone(),
        algorithm: jsonwebtoken::Algorithm::RS256,
        audience: audience.to_owned(),
        required_claims,
    })
}

/// Checks a signed token with exactly what `check` holds. A modulus or
/// exponent that is not canonical unpadded base64url refuses the token
/// before it is looked at.
pub fn check_signed(token: &str, check: &TokenCheck) -> (r: Result<(), AuthError>)
    ensures
        (r matches Err(AuthError::InvalidKeyComponents)) <==> !(b64url_ok(check.modulus@) && b64url_ok(
            check.exponent@,
        )),
        r is Ok || (r matches Err(AuthError::InvalidKeyComponents)) || (r matches Err(
            AuthError::InvalidToken,
        )),
{
    let key = match jsonwebtoken::DecodingKey::from_rsa_components(
        check.modulus.as_str(),
        check.exponent.as_str(),
    ) {
        Ok(key) => key,
        Err(_) => return Err(AuthError::InvalidKeyComponents),
    };
    let mut validation = jsonwebtoken::Validation::new(check.algorithm);
    let audiences: [&str; 1] = [check.audience.as_str()];
    validation.set_audience(&audiences);
    validation.set_required_spec_claims(check.required_claims.as_slice());
    match verify_token(token, &key, &validation) {
        Ok(()) => Ok(()),
        Err(_) => Err(AuthError::InvalidToken),
    }
}

/// Checks a signed token against the first key of the issuer's key set and
/// the expected audience: `token_check`, then `check_signed`.
pub fn validate_token(token: &str, keys: &Vec<KeyComponents>, audience: &str) -> (r: Result<(), AuthError>)
    ensures
        (r matches Err(AuthError::NoKeys)) <==> keys@.len() == 0,
        (r matches Err(AuthError::InvalidKeyFormat)) <==> keys@.len() > 0 && (keys@[0].n is None
            || keys@[0].e is None),
        (r matches Err(AuthError::InvalidKeyComponents)) <==> has_usable_first_key(keys@) && !(
        b64url_ok(keys@[0].n->0@) && b64url_ok(keys@[0].e->0@)),
        (r is Ok || (r matches Err(AuthError::InvalidToken))) ==> has_usable_first_key(keys@) && b64url_ok(
            keys@[0].n->0@,
        ) && b64url_ok(keys@[0].e->0@),
{
    let check = match token_check(keys, audience) {
        Ok(c) => c,
        Err(err) => return Err(err),
    };
    check_signed(token, &check)
}

/// How a deployment admits requests; one is chosen at start-up.
pub enum Strategy {
    /// A bearer token signed by the issuer, for this audience.
    SignedToken { audience: String },
    /// A fixed pair sent as basic authentication.
    StaticPair { username: Vec<u8>, password: Vec<u8> },
}

/// What the `Authorization` header alone decides.
#[derive(Debug)]
pub enum Admission {
    Allowed,
    Denied,
    /// A bearer token was presented: the issuer's key set must be fetched
    /// and the token checked with `check_token`.
    NeedsKeySet,
}

impl Strategy {
    /// Decides what can be decided from the `Authorization` header alone.
    pub fn inspect(&self, header: Option<&str>) -> (r: Admission)
        ensures
            header is None ==> r is Denied,
            match (self, header) {
                (Strategy::StaticPair { username, password }, Some(h)) => {
                    &&& r is Allowed <==> basic_admits(h.spec_bytes(), username@, password@)
                    &&& r is Denied <==> !basic_admits(h.spec_bytes(), username@, password@)
                },
                (Strategy::SignedToken { audience }, Some(h)) => {
                    &&& r is NeedsKeySet <==> has_bearer(h@)
                    &&& r is Denied <==> !has_bearer(h@)
                },
                _ => true,
            },
    {
        let h = match header {
            Some(h) => h,
            None => return Admission::Denied,
        };
        match self {
            Strategy::StaticPair { username, password } => if check_basic(h, username, password) {
                Admission::Allowed
            } else {
                Admission::Denied
            },
            Strategy::SignedToken { .. } => match bearer_token(h) {
                Some(_) => Admission::NeedsKeySet,
                None => Admission::Denied,
            },
        }
    }

    /// Checks the bearer token of `header` against the fetched key set;
    /// `keys` is `None` where fetching or reading the key set failed. Any
    /// failure denies.
    pub fn check_token(&self, header: &str, keys: Option<Vec<KeyComponents>>) -> (r: bool)
        ensures
            r ==> self is SignedToken && has_bearer(header@) && keys is Some,
            r ==> has_usable_first_key(keys->0@) && b64url_ok(keys->0@[0].n->0@) && b64url_ok(
                keys->0@[0].e->0@,
            ),
    {
        let audience = match self {
            Strategy::SignedToken { audience } => audience,
            Strategy::StaticPair { .. } => return false,
        };
        let token = match bearer_token(header) {
            Some(t) => t,
            None => return false,
        };
        match keys {
            Some(ks) => validate_token(token, &ks, audience.as_str()).is_ok(),
            None => false,
        }
    }
}

/// Correct credentials are admitted: a header of `Basic ` followed by the
/// base64 of `username:password`, for a username without a colon.
pub proof fn lemma_basic_correct_admitted(encoded: Seq<u8>, username: Seq<u8>, password: Seq<u8>)
    requires
        decoded(encoded) == Some(username + seq![58u8] + password),
        !username.contains(58u8),
    ensures
        basic_admits(basic_prefix() + encoded, username, password),
{
    let h = basic_prefix() + encoded;
    assert(h.subrange(0, 6) =~= basic_prefix());
    assert(h.subrange(6, h.len() as int) =~= encoded);
}

/// A malformed basic-authentication header is refused, whatever pair is
/// configured: one that does not start with `Basic `, one whose rest is not
/// base64, or one whose decoded text holds no colon.
pub proof fn lemma_basic_malformed_denied(header: Seq<u8>, username: Seq<u8>, password: Seq<u8>)
    requires
        header.len() < 6 || header.subrange(0, 6) != basic_prefix() || decoded(
            header.subrange(6, header.len() as int),
        ) is None || !decoded(header.subrange(6, header.len() as int))->0.contains(58u8),
    ensures
        !basic_admits(header, username, password),
{
    if basic_admits(header, username, password) {
        let d = username + seq![58u8] + password;
        assert(d[username.len() as int] == 58u8);
    }
}

/// A basic-authentication header is refused under the signed-token strategy
/// as well: it does not start with `Bearer `.
pub proof fn lemma_basic_header_not_bearer(header: Seq<char>)
    requires
        header.len() >= 6,
        header.subrange(0, 6) == seq!['B', 'a', 's', 'i', 'c', ' '],
    ensures
        !has_bearer(header),
{
    assert(header.subrange(0, 6)[1] == header[1]);
    if has_bearer(header) {
        assert(header.subrange(0, 7)[1] == header[1]);
    }
}

} // verus!
