use base64::engine::general_purpose::URL_SAFE_NO_PAD;
use base64::Engine;
use live_translate::microsoft::MicrosoftTranslator;
use live_translate::translator::Translator;
use live_translate::CoreError;

fn jwt_with_payload(payload: &str) -> String {
    format!("head.{}.sig", URL_SAFE_NO_PAD.encode(payload.as_bytes()))
}

fn jwt_with_exp(exp: u64) -> String {
    jwt_with_payload(&format!("{{\"exp\":{}}}", exp))
}

#[test]
fn fresh_backend_requires_auth() {
    let m = MicrosoftTranslator::new();
    assert!(m.auth_required(0));
    assert_eq!(m.cached_token(0), None);
}

#[test]
fn accepted_credential_is_cached() {
    let mut m = MicrosoftTranslator::new();
    assert_eq!(m.auth(&jwt_with_exp(1000)), Ok(()));
    assert_eq!(m.cached_token(100), Some(1000));
    assert!(!m.auth_required(100));
    assert_eq!(m.credential(), &jwt_with_exp(1000));
}

#[test]
fn expiry_margin_boundary() {
    // exp = T: valid iff now + 10 < T, so now = T - 11 is the last valid
    // instant and now = T - 10 must already demand a refresh.
    assert!(MicrosoftTranslator::token_fresh(1000, 989));
    assert!(!MicrosoftTranslator::token_fresh(1000, 990));
    assert!(!MicrosoftTranslator::token_fresh(1000, 1000));
    assert!(!MicrosoftTranslator::token_fresh(1000, 2000));

    let mut m = MicrosoftTranslator::new();
    assert_eq!(m.auth(&jwt_with_exp(1000)), Ok(()));
    assert_eq!(m.cached_token(989), Some(1000));
    assert!(!m.auth_required(989));
    assert_eq!(m.cached_token(990), None);
    assert!(m.auth_required(990));
}

#[test]
fn malformed_credentials_are_rejected() {
    assert_eq!(
        MicrosoftTranslator::try_parse_jwt("no-dots-here").unwrap_err(),
        CoreError::Auth
    );
    assert_eq!(MicrosoftTranslator::try_parse_jwt("a.b").unwrap_err(), CoreError::Auth);
    assert_eq!(MicrosoftTranslator::try_parse_jwt("a.b.c.d").unwrap_err(), CoreError::Auth);
    // Middle part is not base64url.
    assert_eq!(MicrosoftTranslator::try_parse_jwt("a.!!!.c").unwrap_err(), CoreError::Auth);
    // Middle part decodes but is not JSON.
    let not_json = format!("a.{}.c", URL_SAFE_NO_PAD.encode(b"hello"));
    assert_eq!(MicrosoftTranslator::try_parse_jwt(&not_json).unwrap_err(), CoreError::Auth);
}

#[test]
fn well_formed_credential_parses() {
    let token = jwt_with_exp(123);
    assert!(MicrosoftTranslator::try_parse_jwt(&token).is_ok());
}

#[test]
fn credential_without_exp_is_never_live() {
    let mut m = MicrosoftTranslator::new();
    // Claims decode, so the refresh itself succeeds...
    assert_eq!(m.auth(&jwt_with_payload("{\"sub\":\"x\"}")), Ok(()));
    // ...but without an expiry claim the cache is never considered live.
    assert_eq!(m.cached_token(0), None);
    assert!(m.auth_required(0));
}

#[test]
fn failed_refresh_keeps_old_credential() {
    let mut m = MicrosoftTranslator::new();
    assert_eq!(m.auth(&jwt_with_exp(1000)), Ok(()));
    // A refresh that hands back garbage is a hard failure and must leave
    // the previously cached credential in place.
    assert_eq!(m.auth("garbage"), Err(CoreError::Auth));
    assert_eq!(m.cached_token(100), Some(1000));
}

#[test]
fn last_writer_wins_on_redundant_refresh() {
    let mut m = MicrosoftTranslator::new();
    assert_eq!(m.auth(&jwt_with_exp(1000)), Ok(()));
    assert_eq!(m.auth(&jwt_with_exp(2000)), Ok(()));
    assert_eq!(m.cached_token(100), Some(2000));
}
