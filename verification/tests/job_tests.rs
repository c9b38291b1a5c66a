use redeez::{Error, Job, Keys};

#[test]
fn encode_decode_round_trip() {
    let job = Job::with_data(String::from("{\"foo\":\"bar\"}"));
    let encoded = job.encode();
    let decoded = Job::from_string(&encoded).unwrap();
    assert_eq!(decoded.id, job.id);
    assert_eq!(decoded.payload, job.payload);
}

#[test]
fn round_trip_keeps_payload_with_separators() {
    let job = Job::with_data(String::from("line one\nline two\nline three"));
    let decoded = Job::from_string(&job.encode()).unwrap();
    assert_eq!(decoded.id, job.id);
    assert_eq!(decoded.payload, String::from("line one\nline two\nline three"));
}

#[test]
fn round_trip_keeps_empty_payload() {
    let job = Job::with_data(String::new());
    let decoded = Job::from_string(&job.encode()).unwrap();
    assert_eq!(decoded.id, job.id);
    assert_eq!(decoded.payload, String::new());
}

#[test]
fn fresh_ids_are_uuid_shaped() {
    let a = Job::with_data(String::from("x"));
    let b = Job::with_data(String::from("x"));
    assert_eq!(a.id.chars().count(), 36);
    assert_eq!(b.id.chars().count(), 36);
    assert!(a.id.chars().all(|c| c == '-' || c.is_ascii_hexdigit()));
    assert_ne!(a.id, b.id);
}

#[test]
fn from_string_rejects_text_without_separator() {
    let r = Job::from_string("not an encoded job");
    assert_eq!(r, Err(Error::Encoding));
}

#[test]
fn from_string_reads_id_up_to_first_separator() {
    let decoded = Job::from_string("abc\ndef\nghi").unwrap();
    assert_eq!(decoded.id, String::from("abc"));
    assert_eq!(decoded.payload, String::from("def\nghi"));
}

#[test]
fn keys_derive_the_four_list_names() {
    let keys = Keys::new("images:resize");
    assert_eq!(keys.pending, String::from("images:resize"));
    assert_eq!(keys.recovery, String::from("images:resize.pending"));
    assert_eq!(keys.completed, String::from("images:resize.completed"));
    assert_eq!(keys.failed, String::from("images:resize.failed"));
}

#[test]
fn keys_are_deterministic_across_engines() {
    let a = Keys::new("shared");
    let b = Keys::new("shared");
    assert_eq!(a.pending, b.pending);
    assert_eq!(a.recovery, b.recovery);
    assert_eq!(a.completed, b.completed);
    assert_eq!(a.failed, b.failed);
}
