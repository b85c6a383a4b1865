use playbar::password::{
    can_decompose, decompose, encrypt_login, input_password_and_encrypt, login_plaintext_bytes,
    public_key_parts, with_key_signature, GOOGLE_DEFAULT_PUBLIC_KEY,
};

const GOOGLE_DEFAULT_PEM: &str = r#"-----BEGIN RSA PUBLIC KEY-----
MIGJAoGBAMom/1a/v0lblO2Ubrt60J2gcuXSljGFQXgcyZWveWLEwo6prwgi3iJI
ZdodyhKZQrNWp5nKJ3srRXcUW+F1BD3baEVGcmEgqaLZUNBjm057pKRI16kB0Ypp
eGx5qIQ5QjKzsR8ETQbKLNWgRY0QRNVz34kMJR3P/LgHax/6rmf5AgMBAAE=
-----END RSA PUBLIC KEY-----
"#;

#[test]
fn password_decompose_test() {
    let public_key = base64::decode(GOOGLE_DEFAULT_PUBLIC_KEY).unwrap();
    let rsa = decompose(&public_key);
    let rsa_pem_string = rsa.to_pem_pkcs1().expect("to pem");
    assert_eq!(
        &rsa_pem_string, GOOGLE_DEFAULT_PEM,
        "PEM from decompose matches expected PEM"
    );
}

#[test]
fn mod_decompose_test() {
    let public_key = base64::decode(GOOGLE_DEFAULT_PUBLIC_KEY).unwrap();
    let rsa = decompose(&public_key);
    let rsa_pem_string = rsa.to_pem_pkcs1().expect("to pem");
    assert_eq!(
        &rsa_pem_string, GOOGLE_DEFAULT_PEM,
        "PEM from decompose matches expected PEM"
    );
}

#[test]
fn key_parts_of_google_key() {
    let public_key = base64::decode(GOOGLE_DEFAULT_PUBLIC_KEY).unwrap();
    assert_eq!(public_key.len(), 139);
    assert!(can_decompose(&public_key));
    let (modulus, exponent) = public_key_parts(&public_key);
    assert_eq!(modulus.len(), 128);
    assert_eq!(exponent, &[1u8, 0, 1][..]);
}

#[test]
fn key_parts_that_run_past_the_end() {
    assert!(!can_decompose(&[0, 0, 0]));
    assert!(!can_decompose(&[0, 0, 0, 5, 1, 2]));
    assert!(!can_decompose(&[0, 0, 0, 1, 7, 0, 0, 0, 2, 1]));
    assert!(can_decompose(&[0, 0, 0, 1, 7, 0, 0, 0, 1, 1]));
}

#[test]
fn encrypted_login_starts_with_key_signature() {
    let pw = encrypt_login("user@example.com", String::from("secret")).expect("encrypts");
    let text = pw.to_url_safe_base64();
    assert!(!text.contains('+'));
    assert!(!text.contains('/'));
    let bytes = base64::decode(text.replace('-', "+").replace('_', "/")).unwrap();
    assert_eq!(&bytes[..5], &[0u8, 87, 27, 224, 164][..]);
    assert_eq!(bytes.len(), 5 + 128);
}

#[test]
fn input_password_and_encrypt_uses_the_key() {
    let pw = input_password_and_encrypt("user@example.com", String::from("typed")).expect("encrypts");
    let bytes = base64::decode(pw.to_url_safe_base64().replace('-', "+").replace('_', "/")).unwrap();
    assert_eq!(&bytes[..5], &[0u8, 87, 27, 224, 164][..]);
}

#[test]
fn plaintext_is_login_zero_password() {
    assert_eq!(login_plaintext_bytes("ab", "cd"), vec![97u8, 98, 0, 99, 100]);
    assert_eq!(login_plaintext_bytes("", ""), vec![0u8]);
}

#[test]
fn ciphertext_follows_key_signature() {
    let key = base64::decode(GOOGLE_DEFAULT_PUBLIC_KEY).unwrap();
    let pw = with_key_signature(&key, vec![1u8, 2, 3]);
    assert_eq!(pw.len(), 8);
    let bytes = base64::decode(pw.to_url_safe_base64().replace('-', "+").replace('_', "/")).unwrap();
    assert_eq!(bytes, vec![0u8, 87, 27, 224, 164, 1, 2, 3]);
}

#[test]
fn decompose_reads_modulus_then_exponent() {
    let key = decompose(&[0, 0, 0, 2, 9, 8, 0, 0, 0, 1, 3, 77]);
    assert_eq!(key.modulus, vec![9u8, 8]);
    assert_eq!(key.exponent, vec![3u8]);
    let google = decompose(&base64::decode(GOOGLE_DEFAULT_PUBLIC_KEY).unwrap());
    assert_eq!(google.modulus.len(), 128);
    assert_eq!(google.exponent, vec![1u8, 0, 1]);
}
