use metra::messages::{
    default_resume_chunk_size, default_total_lanes, is_valid_storage_id_segment,
    CreateTransferRequest, Timestamp, RESUME_CHUNK_SIZE_BYTES, STORAGE_ID_SEGMENT_MAX_LEN,
    TRANSFER_FILE_SIZE_MAX_BYTES,
};
use metra::text::{
    is_blank, push_bool, push_decimal, same_text, starts_with, trim_end_slashes, white_space,
};

fn base_request() -> CreateTransferRequest {
    CreateTransferRequest {
        tenant_id: "tenant_01".to_owned(),
        user_id: "user-01".to_owned(),
        source_uri: "file:///tmp/source.bin".to_owned(),
        destination_uri: "file:///tmp/dest.bin".to_owned(),
        file_name: "file.bin".to_owned(),
        file_size_bytes: 1_024,
        resume_chunk_size_bytes: RESUME_CHUNK_SIZE_BYTES,
        overwrite: false,
        immutable_destination: false,
    }
}

#[test]
fn storage_id_segment_accepts_safe_charset() {
    assert!(is_valid_storage_id_segment("tenant-01_user"));
}

#[test]
fn storage_id_segment_rejects_path_escape_chars() {
    assert!(!is_valid_storage_id_segment("../etc"));
    assert!(!is_valid_storage_id_segment("tenant/user"));
}

#[test]
fn create_transfer_rejects_oversized_file() {
    let mut req = base_request();
    req.file_size_bytes = TRANSFER_FILE_SIZE_MAX_BYTES + 1;
    assert!(req.validate().is_err());
}

#[test]
fn storage_id_segment_is_bounded() {
    assert!(!is_valid_storage_id_segment(""));
    let longest = "a".repeat(STORAGE_ID_SEGMENT_MAX_LEN);
    assert!(is_valid_storage_id_segment(&longest));
    assert!(!is_valid_storage_id_segment(&format!("{longest}a")));
    assert!(!is_valid_storage_id_segment("tenänt"));
    assert!(!is_valid_storage_id_segment("a b"));
    assert!(!is_valid_storage_id_segment("a.b"));
}

#[test]
fn storage_id_segment_agrees_with_the_byte_wise_rule() {
    for code in 0u32..0x300 {
        let Some(c) = char::from_u32(code) else { continue };
        let text = c.to_string();
        let expected = text
            .bytes()
            .all(|b| b.is_ascii_alphanumeric() || matches!(b, b'-' | b'_'));
        assert_eq!(is_valid_storage_id_segment(&text), expected, "{code:#x}");
    }
}

#[test]
fn request_faults_come_in_order_and_in_words() {
    assert_eq!(base_request().validate(), Ok(()));

    let mut req = base_request();
    req.tenant_id = "a/b".to_owned();
    req.user_id = String::new();
    assert_eq!(
        req.validate(),
        Err("tenant_id must match [a-zA-Z0-9_-] and be 1..=64 chars".to_owned())
    );
    req.tenant_id = "t".to_owned();
    assert_eq!(
        req.validate(),
        Err("user_id must match [a-zA-Z0-9_-] and be 1..=64 chars".to_owned())
    );
    req.user_id = "u".to_owned();
    req.source_uri = " \t\u{3000}".to_owned();
    assert_eq!(req.validate(), Err("source_uri must not be empty".to_owned()));
    req.source_uri = "s".to_owned();
    req.destination_uri = String::new();
    assert_eq!(req.validate(), Err("destination_uri must not be empty".to_owned()));
    req.destination_uri = "d".to_owned();
    req.file_name = "\n".to_owned();
    assert_eq!(req.validate(), Err("file_name must not be empty".to_owned()));
    req.file_name = "f".to_owned();
    req.file_size_bytes = 0;
    assert_eq!(req.validate(), Err("file_size_bytes must be > 0".to_owned()));
    req.file_size_bytes = TRANSFER_FILE_SIZE_MAX_BYTES + 1;
    assert_eq!(
        req.validate(),
        Err("file_size_bytes must be <= 8796093022208".to_owned())
    );
    req.file_size_bytes = TRANSFER_FILE_SIZE_MAX_BYTES;
    req.resume_chunk_size_bytes = 4096;
    assert_eq!(
        req.validate(),
        Err("resume_chunk_size_bytes must be exactly 1048576 bytes (1 MiB) in v1".to_owned())
    );
    req.resume_chunk_size_bytes = default_resume_chunk_size();
    assert_eq!(req.validate(), Ok(()));
}

#[test]
fn defaults_of_missing_fields() {
    assert_eq!(default_resume_chunk_size(), 1_048_576);
    assert_eq!(default_total_lanes(), 1);
}

#[test]
fn timestamps_are_ordered_by_second_then_nanosecond() {
    let early = Timestamp { secs: -1, nanos: 999 };
    let late = Timestamp { secs: 0, nanos: 0 };
    let later = Timestamp { secs: 0, nanos: 1 };
    assert!(late.after(early));
    assert!(later.after(late));
    assert!(!late.after(late));
    assert!(!early.after(later));
}

#[test]
fn white_space_is_that_of_unicode() {
    for code in 0..=0x10ffffu32 {
        if let Some(c) = char::from_u32(code) {
            assert_eq!(white_space(c), c.is_whitespace(), "{code:#x}");
        }
    }
    assert!(is_blank(""));
    assert!(is_blank(" \u{a0}\t"));
    assert!(!is_blank(" x "));
}

#[test]
fn text_helpers_agree_with_std() {
    for n in [0u64, 9, 10, 99, 100, 12_345, u64::MAX] {
        let mut out = "n=".to_owned();
        push_decimal(&mut out, n);
        assert_eq!(out, format!("n={n}"));
    }
    let mut out = String::new();
    push_bool(&mut out, true);
    push_bool(&mut out, false);
    assert_eq!(out, "truefalse");
    for value in ["", "/", "//", "a", "a/", "a//b///", "ä/"] {
        assert_eq!(trim_end_slashes(value), value.trim_end_matches('/'));
    }
    for (value, prefix) in [("abc", ""), ("abc", "ab"), ("abc", "b"), ("a", "ab"), ("äb", "ä")] {
        assert_eq!(starts_with(value, prefix), value.starts_with(prefix));
    }
    assert!(same_text("ab", "ab"));
    assert!(!same_text("ab", "aB"));
}
