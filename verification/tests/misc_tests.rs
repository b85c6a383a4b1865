use playbar::response::is_success_status;
use playbar::bytes::{as_u32_be, hex, pop4, read_u32_be};
use playbar::player::Error;
use playbar::stream::{sign_id, sign_id_with_salt, stream_signing_key, xor_bytes};
use playbar::text::{read_decimal3, strip_line_ending};
use playbar::wave::{total_samples, SampleCursor};

#[test]
fn big_endian_words() {
    assert_eq!(as_u32_be(&[0x12, 0x34, 0x56, 0x78]), 0x1234_5678);
    assert_eq!(read_u32_be(&[0, 0, 0, 0x80, 9, 9]), 128);
    assert_eq!(pop4(&[1, 2, 3]), Err("pop4: slice length less than 4"));
    assert_eq!(pop4(&[1, 2, 3, 4, 5]), Ok([1, 2, 3, 4]));
    assert_eq!(as_u32_be(&[0xff, 0xff, 0xff, 0xff]), u32::MAX);
}

#[test]
fn hex_text() {
    assert_eq!(hex(&[0x00, 0x0f, 0xa5, 0xff]), "000fa5ff");
    assert_eq!(hex(&[]), "");
}

#[test]
fn three_digit_numbers() {
    assert_eq!(read_decimal3(b"009"), Some(9));
    assert_eq!(read_decimal3(b"+12"), Some(12));
    assert_eq!(read_decimal3(b"-12"), None);
    assert_eq!(read_decimal3(b"1a2"), None);
    assert_eq!(read_decimal3(b"12"), None);
    assert_eq!(read_decimal3(b"999"), Some(999));
}

#[test]
fn line_endings() {
    assert_eq!(strip_line_ending("abc\r\n".to_string()), "abc");
    assert_eq!(strip_line_ending("abc\n".to_string()), "abc");
    assert_eq!(strip_line_ending("abc\n\n".to_string()), "abc\n");
    assert_eq!(strip_line_ending("abc\n\r".to_string()), "abc\n");
    assert_eq!(strip_line_ending("".to_string()), "");
}

#[test]
fn system_errors() {
    match Error::new("boom".to_string()) {
        Error::System(m) => assert_eq!(m, "boom"),
        _ => panic!("expected a system error"),
    }
}

#[test]
fn stream_key_and_signature() {
    let key = stream_signing_key().unwrap();
    assert_eq!(key, b"34ee7983-5ee6-4147-aa86-443ea062abf774493d6a-2a15-43fe-aace-e78566927585\n".to_vec());
    let (salt, sig) = sign_id_with_salt(&key, "songid", 1234000);
    assert_eq!(salt, "1234000");
    assert_eq!(sig, "RuN+y4Xkm2kZiadAdmJuaOESHo4=");
    let (salt, sig) = sign_id("songid".to_string()).unwrap();
    assert!(salt.ends_with("000"));
    assert_eq!(sig.len(), 28);
    assert_eq!(xor_bytes(&[1, 2, 3], &[3, 2]), vec![2, 0]);
}

#[test]
fn tone_samples() {
    assert_eq!(total_samples(2000, 44100), 88200);
    assert_eq!(total_samples(1, 999), 0);
    let mut cursor = SampleCursor::new(3, 5);
    assert_eq!(cursor.current_frame_len(), Some(5));
    let mut seen = vec![];
    while let Some(i) = cursor.next_index() {
        seen.push(i);
    }
    assert_eq!(seen, vec![0, 1, 2, 0, 1]);
    assert_eq!(cursor.current_frame_len(), None);
}

#[test]
fn frames_left_after_some_samples() {
    let mut cursor = SampleCursor::new(2, 4);
    cursor.next_index();
    assert_eq!(cursor.current_frame_len(), Some(3));
    cursor.next_index();
    cursor.next_index();
    assert_eq!(cursor.current_frame_len(), Some(1));
    cursor.next_index();
    assert_eq!(cursor.current_frame_len(), None);
    assert_eq!(cursor.next_index(), None);
    assert_eq!(cursor.current_frame_len(), None);
}

#[test]
fn success_statuses() {
    assert!(is_success_status(200));
    assert!(is_success_status(204));
    assert!(is_success_status(299));
    assert!(!is_success_status(199));
    assert!(!is_success_status(300));
    assert!(!is_success_status(404));
}
