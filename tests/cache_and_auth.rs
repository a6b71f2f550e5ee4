use user_store::auth::{
    bearer_token, check_basic, check_signed, token_check, validate_token, Admission, AuthError, KeyComponents,
    Strategy,
};
use user_store::base64::decode;
use user_store::cache::Cache;
use user_store::record::User;

#[test]
fn cache_insert_overwrites_and_remove_is_noop_when_absent() {
    let mut c = Cache::new();
    let k = "k1".to_string();
    assert!(c.lookup(&k).is_none());
    c.insert(&k, User::new("one".to_string()));
    c.insert(&k, User::new("two".to_string()));
    assert_eq!(c.lookup(&k).unwrap().fullname(), "two");
    let other = "k2".to_string();
    c.remove(&other);
    assert_eq!(c.lookup(&k).unwrap().fullname(), "two");
    c.remove(&k);
    assert!(c.lookup(&k).is_none());
}

#[test]
fn base64_decodes_padded_and_unpadded_groups() {
    assert_eq!(decode(b"").unwrap(), b"".to_vec());
    assert_eq!(decode(b"dXNlcjpwYXNz").unwrap(), b"user:pass".to_vec());
    assert_eq!(decode(b"YQ==").unwrap(), b"a".to_vec());
    assert_eq!(decode(b"YWI=").unwrap(), b"ab".to_vec());
    assert_eq!(decode(b"+/+/").unwrap(), vec![0xfb, 0xff, 0xbf]);
}

#[test]
fn base64_refuses_malformed_input() {
    assert!(decode(b"abc").is_none());
    assert!(decode(b"ab!=").is_none());
    assert!(decode(b"YQ==YQ==").is_none());
    assert!(decode(b"Y===").is_none());
}

#[test]
fn basic_correct_credentials_allowed() {
    assert!(check_basic("Basic dXNlcjpwYXNz", &b"user".to_vec(), &b"pass".to_vec()));
    // The password may itself hold a colon.
    assert!(check_basic("Basic dXNlcjpwOnE=", &b"user".to_vec(), &b"p:q".to_vec()));
}

#[test]
fn basic_wrong_or_malformed_denied() {
    let u = b"user".to_vec();
    let p = b"pass".to_vec();
    assert!(!check_basic("Basic dXNlcjp3cm9uZw==", &u, &p));
    assert!(!check_basic("Basic !!!!", &u, &p));
    assert!(!check_basic("Basic dXNlcnBhc3M=", &u, &p));
    assert!(!check_basic("Bearer dXNlcjpwYXNz", &u, &p));
    assert!(!check_basic("", &u, &p));
}

#[test]
fn bearer_token_extracted() {
    assert_eq!(bearer_token("Bearer abc.def.ghi"), Some("abc.def.ghi"));
    assert_eq!(bearer_token("Bearer "), Some(""));
    assert_eq!(bearer_token("Basic abc"), None);
    assert_eq!(bearer_token("bearer abc"), None);
}

#[test]
fn static_strategy_decides_from_header() {
    let s = Strategy::StaticPair { username: b"user".to_vec(), password: b"pass".to_vec() };
    assert!(matches!(s.inspect(Some("Basic dXNlcjpwYXNz")), Admission::Allowed));
    assert!(matches!(s.inspect(Some("Basic bad")), Admission::Denied));
    assert!(matches!(s.inspect(None), Admission::Denied));
}

#[test]
fn token_strategy_needs_key_set() {
    let s = Strategy::SignedToken { audience: "api".to_string() };
    assert!(matches!(s.inspect(Some("Bearer x.y.z")), Admission::NeedsKeySet));
    assert!(matches!(s.inspect(Some("Basic dXNlcjpwYXNz")), Admission::Denied));
    assert!(matches!(s.inspect(None), Admission::Denied));
    assert!(!s.check_token("Bearer x.y.z", None));
    assert!(!s.check_token("Bearer x.y.z", Some(vec![])));
}

#[test]
fn token_refused_without_usable_first_key() {
    assert!(matches!(validate_token("x.y.z", &vec![], "api"), Err(AuthError::NoKeys)));
    let keys = vec![
        KeyComponents { n: None, e: Some("AQAB".to_string()) },
        KeyComponents { n: Some("AQAB".to_string()), e: Some("AQAB".to_string()) },
    ];
    assert!(matches!(validate_token("x.y.z", &keys, "api"), Err(AuthError::InvalidKeyFormat)));
    let bad = vec![KeyComponents { n: Some("***".to_string()), e: Some("AQAB".to_string()) }];
    assert!(matches!(validate_token("x.y.z", &bad, "api"), Err(AuthError::InvalidKeyComponents)));
}

#[test]
fn malformed_token_refused() {
    let keys = vec![KeyComponents { n: Some("AQAB".to_string()), e: Some("AQAB".to_string()) }];
    assert!(matches!(validate_token("not-a-token", &keys, "api"), Err(AuthError::InvalidToken)));
    let s = Strategy::SignedToken { audience: "api".to_string() };
    assert!(!s.check_token("Bearer not-a-token", Some(keys)));
}

fn one_key(n: &str, e: &str) -> Vec<KeyComponents> {
    vec![KeyComponents { n: Some(n.to_string()), e: Some(e.to_string()) }]
}

#[test]
fn key_components_must_be_canonical_base64url() {
    // A single leftover symbol, padding, a symbol outside the URL-safe
    // alphabet, and stray low bits in the last symbol are all refused.
    for bad in ["A", "AQ==", "AQ+B", "AR", "AQB"] {
        assert!(
            matches!(validate_token("x.y.z", &one_key(bad, "AQAB"), "api"), Err(AuthError::InvalidKeyComponents)),
            "modulus {:?}",
            bad
        );
        assert!(
            matches!(validate_token("x.y.z", &one_key("AQAB", bad), "api"), Err(AuthError::InvalidKeyComponents)),
            "exponent {:?}",
            bad
        );
    }
    for good in ["", "AQ", "AQA", "AQAB", "-_8"] {
        assert!(
            matches!(validate_token("x.y.z", &one_key(good, "AQAB"), "api"), Err(AuthError::InvalidToken)),
            "modulus {:?}",
            good
        );
    }
}

#[test]
fn token_check_takes_first_key_and_audience() {
    let keys = vec![
        KeyComponents { n: Some("AQAB".to_string()), e: Some("AQ".to_string()) },
        KeyComponents { n: Some("BBBB".to_string()), e: Some("CC".to_string()) },
    ];
    let c = token_check(&keys, "my-api").unwrap();
    assert_eq!(c.modulus, "AQAB");
    assert_eq!(c.exponent, "AQ");
    assert_eq!(c.audience, "my-api");
    assert_eq!(c.algorithm, jsonwebtoken::Algorithm::RS256);
    assert_eq!(c.required_claims, vec!["exp".to_string(), "sub".to_string()]);
    assert!(matches!(token_check(&vec![], "my-api"), Err(AuthError::NoKeys)));
    let partial = vec![KeyComponents { n: Some("AQAB".to_string()), e: None }];
    assert!(matches!(token_check(&partial, "my-api"), Err(AuthError::InvalidKeyFormat)));
}

#[test]
fn check_signed_refuses_unsigned_token() {
    let c = token_check(&one_key("AQAB", "AQAB"), "api").unwrap();
    assert!(matches!(check_signed("a.b.c", &c), Err(AuthError::InvalidToken)));
}

#[test]
fn basic_header_denied_under_token_strategy() {
    let s = Strategy::SignedToken { audience: "api".to_string() };
    assert!(matches!(s.inspect(Some("Basic !!!!")), Admission::Denied));
    assert!(!s.check_token("Basic dXNlcjpwYXNz", Some(one_key("AQAB", "AQAB"))));
}
