use playbar::token::{
    generate_device_id, save_state_from_contents, save_text_is_readable, SJToken, SaveState,
};

const DEVICE: &str = "0123456789abcdef";
const SAVED: &str = "1bCyJL38t63Hw0123456789abcdef009authtoken011mastertokenme@example.com";

fn sample() -> SJToken {
    SJToken::new("mastertoken", "authtoken", "me@example.com", DEVICE)
}

#[test]
fn to_string_writes_version_one() {
    assert_eq!(sample().to_string().unwrap(), SAVED);
}

#[test]
fn to_string_rejects_short_device_id() {
    let t = SJToken::new("m", "a", "e", "0123");
    assert_eq!(t.to_string(), Err("device id is invalid length"));
}

#[test]
fn from_string_reads_version_one() {
    let t = SJToken::from_string(SAVED.to_string()).unwrap();
    assert_eq!(t.device_id, DEVICE);
    assert_eq!(t.auth, "authtoken");
    assert_eq!(t.mt, "mastertoken");
    assert_eq!(t.email, "me@example.com");
}

#[test]
fn save_text_round_trip() {
    let t = SJToken::new("mt-ü", "auth token with spaces", "ä@example.com", DEVICE);
    let text = t.to_string().unwrap();
    let back = SJToken::from_string(text).unwrap();
    assert_eq!(back.auth, t.auth);
    assert_eq!(back.mt, t.mt);
    assert_eq!(back.email, t.email);
    assert_eq!(back.device_id, t.device_id);
}

#[test]
fn from_string_reads_version_zero() {
    let t = SJToken::from_string("0bCyJL38t63Hw0123456789abcdefauthtoken".to_string()).unwrap();
    assert_eq!(t.device_id, DEVICE);
    assert_eq!(t.auth, "authtoken");
    assert_eq!(t.mt, "");
    assert_eq!(t.email, "");
}

#[test]
fn from_string_errors() {
    assert_eq!(SJToken::from_string("2abc".to_string()).err(), Some("unknown version"));
    let tampered = SAVED.replace("authtoken", "authtokeN");
    assert_eq!(SJToken::from_string(tampered).err(), Some("corrupt data"));
    let bad_len = SAVED.replace("009auth", "0x9auth");
    assert_eq!(SJToken::from_string(bad_len).err(), Some("corrupt data"));
    let plus_len = SAVED.replace("009auth", "+09auth");
    assert!(SJToken::from_string(plus_len).is_ok());
}

#[test]
fn readability_of_save_texts() {
    assert!(save_text_is_readable(SAVED));
    assert!(!save_text_is_readable(""));
    assert!(!save_text_is_readable("1short"));
    assert!(save_text_is_readable("9"));
    assert!(!save_text_is_readable("1bCyJL38t63Hw0123456789abcdef999auth"));
    assert!(save_text_is_readable("1bCyJL38t63Hw0123456789abcdefxyzauth"));
}

#[test]
fn save_state_of_contents() {
    match save_state_from_contents(SAVED.to_string()) {
        SaveState::Found(t) => assert_eq!(t.auth, "authtoken"),
        _ => panic!("expected a token"),
    }
    assert!(matches!(save_state_from_contents("7".to_string()), SaveState::Corrupt));
}

#[test]
fn access_only_keeps_auth_and_device() {
    let access = sample().access_only();
    assert_eq!(access.authorization_value(), "GoogleLogin auth=authtoken");
    assert_eq!(access.x_device_id_value(), DEVICE);
}

#[test]
fn generated_device_ids_are_valid() {
    let id = generate_device_id().expect("random bytes");
    assert_eq!(id.len(), 16);
    assert!(id.chars().all(|c| c.is_ascii_hexdigit() && !c.is_ascii_uppercase()));
    let t = SJToken::new("m", "a", "e", &id);
    assert!(t.to_string().is_ok());
    assert_ne!(generate_device_id().unwrap(), id);
}
