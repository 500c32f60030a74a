use esmail::auth::{xoauth2_initial_response, Auth, Login, XOAuth2};

#[test]
fn initial_response_matches_the_documented_xoauth2_layout() {
    let token = "ya29.token";
    assert_eq!(
        xoauth2_initial_response("alice@gmail.com", token),
        "user=alice@gmail.com\x01auth=Bearer ya29.token\x01\x01"
    );
}

#[test]
fn authenticator_answers_the_first_challenge_then_stays_silent() {
    let mut auth = XOAuth2::new("alice@gmail.com", "t");
    assert_eq!(auth.process(b""), "user=alice@gmail.com\x01auth=Bearer t\x01\x01");
    // The error-description challenge a server sends after rejecting the token.
    assert_eq!(auth.process(b"{\"status\":\"401\"}"), "");
}

#[test]
fn password_auth_hands_back_the_password() {
    let auth = Auth::password("hunter2".to_string());
    assert!(!auth.is_oauth());
    assert_eq!(auth.known_secret().unwrap(), "hunter2");
}

#[test]
fn oauth_signs_in_with_a_bearer_token() {
    let auth = Auth::OAuth("source".to_string());
    assert!(auth.is_oauth());
    assert!(auth.known_secret().is_none());
    assert!(matches!(auth.login("u", "tok"), Login::XOAuth2 { .. }));
    assert!(matches!(Auth::password("p".to_string()).login("u", "p"), Login::Password { .. }));
}
