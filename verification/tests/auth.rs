use forum::auth::{AuthError, AuthUser, MaybeAuthUser, SESSION_SECONDS, issue, verify};
use forum::error::Error;

const KEY: &[u8] = b"secret_idk";
const NOW: i64 = 1_700_000_000;

#[test]
fn verify_of_issue_round_trips() {
    let token = issue(42, KEY, NOW);
    assert_eq!(verify(&token, KEY, NOW), Ok(42));
}

#[test]
fn token_stays_valid_until_expiry() {
    let token = issue(7, KEY, NOW);
    assert_eq!(verify(&token, KEY, NOW + SESSION_SECONDS - 1), Ok(7));
}

#[test]
fn expired_token_fails_with_expired() {
    let token = issue(7, KEY, NOW);
    assert_eq!(verify(&token, KEY, NOW + SESSION_SECONDS), Err(AuthError::Expired));
    assert_eq!(verify(&token, KEY, NOW + 10 * SESSION_SECONDS), Err(AuthError::Expired));
}

#[test]
fn wrong_key_fails_with_invalid() {
    let token = issue(7, KEY, NOW);
    assert_eq!(verify(&token, b"another_key", NOW), Err(AuthError::Invalid));
}

#[test]
fn tampered_token_fails_with_invalid() {
    let token = issue(7, KEY, NOW);
    let mut tampered: String = token.chars().rev().collect();
    tampered.push('x');
    assert_eq!(verify(&tampered, KEY, NOW), Err(AuthError::Invalid));
    assert_eq!(verify("", KEY, NOW), Err(AuthError::Invalid));
    assert_eq!(verify("not.a.token", KEY, NOW), Err(AuthError::Invalid));
}

#[test]
fn required_extraction_reads_bearer_header() {
    let token = issue(5, KEY, NOW);
    let header = format!("Bearer {}", token);
    let user = AuthUser::from_authorization(Some(&header), KEY, NOW).unwrap();
    assert_eq!(user.id, 5);
}

#[test]
fn required_extraction_rejects_missing_header() {
    let r = AuthUser::from_authorization(None, KEY, NOW);
    assert!(matches!(r, Err(forum::error::Error::Unauthorized)));
}

#[test]
fn required_extraction_rejects_wrong_scheme() {
    let token = issue(5, KEY, NOW);
    let header = format!("Basic {}", token);
    let r = AuthUser::from_authorization(Some(&header), KEY, NOW);
    assert!(matches!(r, Err(forum::error::Error::Unauthorized)));
    let r = AuthUser::from_authorization(Some(&token), KEY, NOW);
    assert!(matches!(r, Err(forum::error::Error::Unauthorized)));
}

#[test]
fn required_extraction_rejects_expired_token() {
    let token = issue(5, KEY, NOW);
    let header = format!("Bearer {}", token);
    let r = AuthUser::from_authorization(Some(&header), KEY, NOW + SESSION_SECONDS);
    assert!(matches!(r, Err(forum::error::Error::Unauthorized)));
}

#[test]
fn optional_extraction_degrades_to_no_identity() {
    assert_eq!(MaybeAuthUser::from_authorization(None, KEY, NOW).id(), None);
    assert_eq!(MaybeAuthUser::from_authorization(Some("Bearer junk"), KEY, NOW).id(), None);
    assert_eq!(MaybeAuthUser::from_authorization(Some("nonsense"), KEY, NOW).id(), None);
    let token = issue(9, KEY, NOW);
    let header = format!("Bearer {}", token);
    assert_eq!(MaybeAuthUser::from_authorization(Some(&header), KEY, NOW).id(), Some(9));
}

#[test]
fn error_status_codes() {
    assert_eq!(Error::Unauthorized.status_code(), 401);
    assert_eq!(Error::Forbidden.status_code(), 403);
    assert_eq!(Error::NotFound.status_code(), 404);
    let e = Error::unprocessable_entity(vec![("slug".to_string(), "duplicate".to_string())]);
    assert_eq!(e.status_code(), 422);
    assert_eq!(Error::Internal.status_code(), 500);
    if let Error::UnprocessableEntity { errors } = e {
        assert_eq!(errors, vec![("slug".to_string(), "duplicate".to_string())]);
    } else {
        panic!("expected a validation failure");
    }
}
