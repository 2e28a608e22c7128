use catlas_api::auth::{
    callback_code, callback_code_at, check_create_session, frontend_redirect_location, new_oidc_user_id, parse_url,
    pending_return_to, safe_return_to, session_is_stale, state_is_fresh, valid_user_id,
    NonEmpty, OidcSessionState,
};
use catlas_api::types::HttpStatus;

fn pending(created_at: i64) -> Option<OidcSessionState> {
    Some(OidcSessionState {
        state: "abc".to_owned(),
        nonce: "n".to_owned(),
        pkce_verifier: "v".to_owned(),
        return_to: "/maps".to_owned(),
        state_created_at: created_at,
    })
}

#[test]
fn return_paths_must_stay_on_the_site() {
    assert_eq!(safe_return_to(Some("  /maps/1?x=2 ")), Some("/maps/1?x=2".to_owned()));
    assert_eq!(safe_return_to(Some("//evil.example")), None);
    assert_eq!(safe_return_to(Some("https://evil.example/")), None);
    assert_eq!(safe_return_to(Some("/a\nb")), None);
    assert_eq!(safe_return_to(Some("   ")), None);
    assert_eq!(safe_return_to(None), None);
}

#[test]
fn accepted_return_paths_are_accepted_again_unchanged() {
    let once = safe_return_to(Some(" /worlds/alpha ")).unwrap();
    assert_eq!(safe_return_to(Some(&once)), Some(once.clone()));
}

#[test]
fn non_empty_trims_text() {
    assert_eq!("  hi  ".non_empty(), Some("hi"));
    assert_eq!(" \t ".non_empty(), None);
    assert_eq!("".non_empty(), None);
}

#[test]
fn login_state_expires_after_ten_minutes() {
    assert!(state_is_fresh(true, 1_000, 1_000, 0));
    assert!(state_is_fresh(true, 1_000, 1_600, 0));
    assert!(!state_is_fresh(true, 1_000, 1_600, 1));
    assert!(!state_is_fresh(true, 1_000, 999, 999_999_999));
    assert!(!state_is_fresh(false, 1_000, 1_000, 0));
}

#[test]
fn callbacks_exchange_codes_only_for_a_matching_fresh_login() {
    let code = Some("code".to_owned());
    let now = 1_700_000_100;
    let session = pending(1_700_000_000);
    assert_eq!(
        callback_code_at(true, &session, Some("abc"), false, code.clone(), now, 0),
        code
    );
    assert_eq!(callback_code_at(false, &session, Some("abc"), false, code.clone(), now, 0), None);
    assert_eq!(callback_code_at(true, &None, Some("abc"), false, code.clone(), now, 0), None);
    assert_eq!(callback_code_at(true, &session, Some("xyz"), false, code.clone(), now, 0), None);
    assert_eq!(callback_code_at(true, &session, None, false, code.clone(), now, 0), None);
    assert_eq!(callback_code_at(true, &session, Some("abc"), true, code.clone(), now, 0), None);
    assert_eq!(callback_code_at(true, &session, Some("abc"), false, None, now, 0), None);
    assert_eq!(
        callback_code_at(true, &session, Some("abc"), false, code.clone(), now + 601, 0),
        None
    );
    assert_eq!(
        callback_code_at(true, &pending(i64::MAX), Some("abc"), false, code.clone(), i64::MAX, 0),
        None
    );
}

#[test]
fn callbacks_for_logins_from_long_ago_fail() {
    let code = Some("code".to_owned());
    assert_eq!(callback_code(true, &pending(0), Some("abc"), false, code), None);
}

#[test]
fn callbacks_return_to_the_pending_path() {
    assert_eq!(pending_return_to(&pending(0)), Some("/maps".to_owned()));
    assert_eq!(pending_return_to(&None), None);
}

#[test]
fn configured_urls_must_be_absolute_http() {
    assert_eq!(parse_url("http://127.0.0.1:5173/", "OIDC_POST_LOGIN_REDIRECT_URI"), Ok(()));
    assert_eq!(parse_url("https://app.example/return", "X"), Ok(()));
    assert_eq!(
        parse_url("ftp://files.example/", "X"),
        Err("X must be an absolute HTTP(S) URL".to_owned())
    );
    assert_eq!(
        parse_url("mailto:someone@example.com", "X"),
        Err("X must be an absolute HTTP(S) URL".to_owned())
    );
    let err = parse_url("no scheme here", "X").unwrap_err();
    assert!(err.starts_with("X is invalid: "));
}

#[test]
fn user_ids_are_short_lowercase_words() {
    assert!(valid_user_id("ann_01-x"));
    assert!(valid_user_id(&"a".repeat(128)));
    assert!(!valid_user_id(&"a".repeat(129)));
    assert!(!valid_user_id(""));
    assert!(!valid_user_id("Ann"));
    assert!(!valid_user_id("ann smith"));
    assert!(!valid_user_id("änn"));
}

#[test]
fn oidc_user_ids_are_prefixed_uuids() {
    let id = new_oidc_user_id();
    assert_eq!(id.len(), 41);
    assert!(id.starts_with("oidc_"));
    assert!(valid_user_id(&id));
    assert_ne!(id, new_oidc_user_id());
}

#[test]
fn developer_sign_in_is_gated() {
    assert_eq!(check_create_session(false, "ann"), Err(HttpStatus::NotFound));
    assert_eq!(check_create_session(true, "Ann"), Err(HttpStatus::BadRequest));
    assert_eq!(check_create_session(true, "ann"), Ok(()));
}

#[test]
fn sessions_of_vanished_users_are_stale() {
    assert!(session_is_stale(Some(3), false));
    assert!(!session_is_stale(Some(3), true));
    assert!(!session_is_stale(None, false));
}

#[test]
fn logins_must_start_within_the_calendar_range() {
    let code = Some("code".to_owned());
    let first: i64 = -8_334_601_228_800;
    let last: i64 = 8_210_266_876_799;
    for (created_at, accepted) in [(first, true), (first - 1, false), (last, true), (last + 1, false)] {
        let got = callback_code_at(true, &pending(created_at), Some("abc"), false, code.clone(), created_at, 0);
        assert_eq!(got.is_some(), accepted, "created at {created_at}");
    }
}

#[test]
fn redirects_back_to_the_frontend_path_of_the_login() {
    let base = "http://127.0.0.1:5173/";
    assert_eq!(frontend_redirect_location(base, None, false), "http://127.0.0.1:5173/");
    assert_eq!(
        frontend_redirect_location(base, Some(" /worlds/alpha "), false),
        "http://127.0.0.1:5173/worlds/alpha"
    );
    assert_eq!(frontend_redirect_location(base, Some("//evil.example"), false), base);
    assert_eq!(
        frontend_redirect_location("https://app.example/start?x=1#top", Some("/w"), false),
        "https://app.example/w"
    );
}

#[test]
fn failed_logins_carry_an_error_flag() {
    let base = "http://127.0.0.1:5173/";
    assert_eq!(
        frontend_redirect_location(base, None, true),
        "http://127.0.0.1:5173/?authError=oidc_login_failed"
    );
    assert_eq!(
        frontend_redirect_location(base, Some("/worlds/alpha"), true),
        "http://127.0.0.1:5173/worlds/alpha?authError=oidc_login_failed"
    );
    assert_eq!(
        frontend_redirect_location("https://app.example/start?x=1", None, true),
        "https://app.example/start?x=1&authError=oidc_login_failed"
    );
}
