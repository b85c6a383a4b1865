//! Logging in and refreshing SkyJam credentials: the request bodies, the
//! replies, and what to do with a save file.

use vstd::prelude::*;
use vstd::utf8::encode_utf8;
use crate::form::{fields_of, form_encode, join_amp, pair_views};
use crate::response::{auth_key, find_last_values, last_value, token_key, words, words_cut_cleanly};
use crate::token::{SJToken, SaveState};

verus! {

/// The account type that accepts both hosted and Google accounts.
pub const ACCOUNT_TYPE_EITHER: &'static str = "HOSTED_OR_GOOGLE";

/// What `retrieve_credentials` is asked to do.
pub enum Operation {
    /// Forget saved credentials and log in again.
    ResetAll,
    /// Log in again with the saved e-mail and device id.
    Login,
    /// Use the saved credentials as they are.
    Silent,
}

/// The next step towards credentials.
pub enum CredentialsStep {
    /// Use this token.
    Use(SJToken),
    /// Log in, asking for what is `None` (a missing device id is generated).
    LogIn { email: Option<String>, device_id: Option<String> },
}

/// Decides, from what the save file held and the operation, whether to use
/// the saved token or to log in, and with what.
pub fn credentials_step(state: SaveState, operation: Operation) -> (r: CredentialsStep)
    ensures
        match state {
            SaveState::Found(t) => match operation {
                Operation::Login => r matches CredentialsStep::LogIn { email, device_id } && (
                email matches Some(e) && e@ == t.email@) && (device_id matches Some(d) && d@
                    == t.device_id@),
                Operation::ResetAll => r matches CredentialsStep::LogIn { email, device_id }
                    && email is None && device_id is None,
                Operation::Silent => r matches CredentialsStep::Use(u) && u.auth@ == t.auth@
                    && u.mt@ == t.mt@ && u.email@ == t.email@ && u.device_id@ == t.device_id@,
            },
            _ => r matches CredentialsStep::LogIn { email, device_id } && email is None
                && device_id is None,
        },
{
    match state {
        SaveState::Found(t) => match operation {
            Operation::Login => CredentialsStep::LogIn {
                email: Some(t.email),
                device_id: Some(t.device_id),
            },
            Operation::ResetAll => CredentialsStep::LogIn { email: None, device_id: None },
            Operation::Silent => CredentialsStep::Use(t),
        },
        _ => CredentialsStep::LogIn { email: None, device_id: None },
    }
}

/// The fields of the token-refresh request, in order (before encoding).
pub open spec fn refresh_params(mt: Seq<char>, device_id: Seq<char>) -> Seq<(Seq<char>, Seq<char>)> {
    seq![
        ("accountType"@, "GOOGLE_OR_HOSTED"@),
        ("Token"@, mt),
        ("has_permission"@, "1"@),
        ("service"@, "sj"@),
        ("source"@, "android"@),
        ("androidId"@, device_id),
        ("device_country"@, "us"@),
        ("operatorCountry"@, "us"@),
        ("lang"@, "en"@),
        ("sdk_version"@, "17"@),
        ("app"@, "com.google.android.music"@),
        ("client_sig"@, "38918a453d07199354f8b19af05ec6562ced5788"@),
    ]
}

/// The form body that refreshes the auth token of `token` with its master token.
pub fn refresh_request_body(token: &SJToken) -> (r: String)
    ensures
        r@ == join_amp(fields_of(refresh_params(token.mt@, token.device_id@))),
{
    let params = vec![
        ("accountType", "GOOGLE_OR_HOSTED"),
        ("Token", token.mt.as_str()),
        ("has_permission", "1"),
        ("service", "sj"),
        ("source", "android"),
        ("androidId", token.device_id.as_str()),
        ("device_country", "us"),
        ("operatorCountry", "us"),
        ("lang", "en"),
        ("sdk_version", "17"),
        ("app", "com.google.android.music"),
        ("client_sig", "38918a453d07199354f8b19af05ec6562ced5788"),
    ];
    assert(pair_views(params@) =~= refresh_params(token.mt@, token.device_id@));
    form_encode(params.as_slice())
}

/// The token of a login reply: its last `Token=` and `Auth=` values, with the
/// e-mail and device id of the login; `None` when either value is missing.
pub fn token_from_login_reply(reply: &str, email: &str, android_id: &str) -> (r: Option<SJToken>)
    requires
        words_cut_cleanly(words(reply@), true),
    ensures
        match (last_value(words(reply@), auth_key()), last_value(words(reply@), token_key())) {
            (Some(a), Some(m)) => r matches Some(t) && encode_utf8(t.auth@) == a && encode_utf8(
                t.mt@,
            ) == m && t.email@ == email@ && t.device_id@ == android_id@,
            _ => r is None,
        },
{
    let (auth, token) = find_last_values(reply, true);
    match (auth, token) {
        (Some(auth), Some(token)) => Some(
            SJToken::new(token.as_str(), auth.as_str(), email, android_id),
        ),
        _ => None,
    }
}

/// The token after a refresh reply: the reply's last `Auth=` value with the
/// master token, e-mail and device id of `token`; `None` when the reply has
/// no `Auth=` word.
pub fn token_from_refresh_reply(reply: &str, token: SJToken) -> (r: Option<SJToken>)
    requires
        words_cut_cleanly(words(reply@), false),
    ensures
        match last_value(words(reply@), auth_key()) {
            Some(a) => r matches Some(t) && encode_utf8(t.auth@) == a && t.mt@ == token.mt@
                && t.email@ == token.email@ && t.device_id@ == token.device_id@,
            None => r is None,
        },
{
    let (auth, _) = find_last_values(reply, false);
    match auth {
        Some(auth) => Some(
            SJToken::new(
                token.mt.as_str(),
                auth.as_str(),
                token.email.as_str(),
                token.device_id.as_str(),
            ),
        ),
        None => None,
    }
}

} // verus!
