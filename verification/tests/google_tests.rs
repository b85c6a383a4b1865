use playbar::credentials::{
    credentials_step, refresh_request_body, token_from_login_reply, token_from_refresh_reply,
    CredentialsStep, Operation, ACCOUNT_TYPE_EITHER,
};
use playbar::google::GoogleAuth;
use playbar::response::{find_auth, find_last_values, reply_cuts_cleanly, split_whitespace};
use playbar::token::{SJToken, SaveState};

#[test]
fn google_auth_from_login_reply() {
    let reply = "SID=abc\nLSID=def\nAuth=token123\nAuth=second\n";
    let auth = GoogleAuth::from_login_reply(reply, "0123456789abcdef").unwrap();
    assert_eq!(auth.authorization_value(), "GoogleLogin auth=token123");
    assert_eq!(auth.x_device_id_value(), "0123456789abcdef");
    assert!(GoogleAuth::from_login_reply("Error=BadAuthentication", "x").is_none());
}

#[test]
fn google_auth_save_round_trip() {
    let auth = GoogleAuth::from_login_reply("Auth=authtoken", "0123456789abcdef").unwrap();
    let text = auth.to_save().unwrap();
    assert_eq!(text, "0bCyJL38t63Hw0123456789abcdefauthtoken");
    assert!(GoogleAuth::save_is_readable(&text));
    let back = GoogleAuth::from_save(text).unwrap();
    assert_eq!(back.authorization_value(), "GoogleLogin auth=authtoken");
    assert_eq!(back.x_device_id_value(), "0123456789abcdef");
}

#[test]
fn google_auth_save_errors() {
    let auth = GoogleAuth::from_login_reply("Auth=authtoken", "short").unwrap();
    assert_eq!(auth.to_save(), Err("device id is invalid length"));
    assert_eq!(GoogleAuth::from_save("1abc".to_string()).err(), Some("unknown version"));
    assert_eq!(
        GoogleAuth::from_save("0bCyJL38t63Hw0123456789abcdefauthtokeX".to_string()).err(),
        Some("corrupt data")
    );
    assert!(!GoogleAuth::save_is_readable("0abc"));
}

#[test]
fn words_of_a_reply() {
    let ws = split_whitespace("  a bc\t\nd\u{3000}e  ");
    assert_eq!(ws, vec!["a", "bc", "d", "e"]);
    assert!(split_whitespace(" \n ").is_empty());
}

#[test]
fn first_and_last_auth() {
    let reply = "Auth=first Token=tok1 Auth=second Token=tok2 short";
    assert_eq!(find_auth(reply), Some("first".to_string()));
    let (auth, token) = find_last_values(reply, true);
    assert_eq!(auth, Some("second".to_string()));
    assert_eq!(token, Some("tok2".to_string()));
    let (auth, token) = find_last_values(reply, false);
    assert_eq!(auth, Some("second".to_string()));
    assert_eq!(token, None);
    assert_eq!(find_auth("Auth="), None);
}

#[test]
fn replies_that_cut_inside_characters() {
    assert!(reply_cuts_cleanly("Auth=x Token=y", false, true));
    assert!(!reply_cuts_cleanly("abcdéf", false, false));
    assert!(reply_cuts_cleanly("Auth=x abcdéf", true, false));
    assert!(!reply_cuts_cleanly("abcdéf Auth=x", true, false));
    assert!(!reply_cuts_cleanly("abcdeé", false, true));
    assert!(reply_cuts_cleanly("abcdeé", false, false));
}

#[test]
fn sj_token_from_login_reply() {
    let reply = "SID=s\nAuth=authvalue\nToken=mastervalue\n";
    let t = token_from_login_reply(reply, "me@example.com", "0123456789abcdef").unwrap();
    assert_eq!(t.auth, "authvalue");
    assert_eq!(t.mt, "mastervalue");
    assert_eq!(t.email, "me@example.com");
    assert_eq!(t.device_id, "0123456789abcdef");
    assert!(token_from_login_reply("Auth=only", "e", "d").is_none());
}

#[test]
fn sj_token_from_refresh_reply() {
    let old = SJToken::new("mastervalue", "old", "me@example.com", "0123456789abcdef");
    let t = token_from_refresh_reply("Auth=fresh", old).unwrap();
    assert_eq!(t.auth, "fresh");
    assert_eq!(t.mt, "mastervalue");
    let old = SJToken::new("mastervalue", "old", "me@example.com", "0123456789abcdef");
    assert!(token_from_refresh_reply("Error=x", old).is_none());
}

#[test]
fn refresh_body() {
    let t = SJToken::new("aas_et/AKpp", "a", "me@example.com", "0123456789abcdef");
    assert_eq!(
        refresh_request_body(&t),
        "accountType=GOOGLE_OR_HOSTED&Token=aas_et%2FAKpp&has_permission=1&service=sj&source=android&androidId=0123456789abcdef&device_country=us&operatorCountry=us&lang=en&sdk_version=17&app=com.google.android.music&client_sig=38918a453d07199354f8b19af05ec6562ced5788"
    );
}

#[test]
fn login_body_fields() {
    let pw = playbar::password::encrypt_login("me@example.com", "pw".to_string()).unwrap();
    let body = playbar::google::login_request_body(ACCOUNT_TYPE_EITHER, "me@example.com", &pw, "0123456789abcdef");
    let expected_prefix = "accountType=HOSTED_OR_GOOGLE&Email=me%40example.com&has_permission=1&add_account=1&EncryptedPasswd=";
    assert!(body.starts_with(expected_prefix));
    assert!(body.ends_with("&service=sj&source=android&androidId=0123456789abcdef&device_country=us&operatorCountry=us&lang=en&sdk_version=17"));
}

#[test]
fn credentials_steps() {
    let saved = || SaveState::Found(SJToken::new("m", "a", "me@example.com", "0123456789abcdef"));
    match credentials_step(saved(), Operation::Login) {
        CredentialsStep::LogIn { email, device_id } => {
            assert_eq!(email, Some("me@example.com".to_string()));
            assert_eq!(device_id, Some("0123456789abcdef".to_string()));
        }
        _ => panic!("expected a login"),
    }
    assert!(matches!(
        credentials_step(saved(), Operation::ResetAll),
        CredentialsStep::LogIn { email: None, device_id: None }
    ));
    match credentials_step(saved(), Operation::Silent) {
        CredentialsStep::Use(t) => assert_eq!(t.auth, "a"),
        _ => panic!("expected the saved token"),
    }
    assert!(matches!(
        credentials_step(SaveState::NoneFound, Operation::Silent),
        CredentialsStep::LogIn { email: None, device_id: None }
    ));
    assert!(matches!(
        credentials_step(SaveState::Corrupt, Operation::Login),
        CredentialsStep::LogIn { email: None, device_id: None }
    ));
}
