use rigel::crypto::SALT_LEN;
use rigel::pipeline::encrypt_bytes;
use rigel::server::{
    content_range_value, physical_offset, plan_request, AppState, DecryptStream, ResponsePlan,
};

fn sample_data(len: usize) -> Vec<u8> {
    (0..len).map(|i| (i.wrapping_mul(13) % 256) as u8).collect()
}

#[test]
fn no_range_returns_full_length() {
    let plan = plan_request(None, 12345);
    assert_eq!(plan, ResponsePlan::Full { content_length: 12345 });
}

#[test]
fn no_range_on_empty_file() {
    let plan = plan_request(None, 0);
    assert_eq!(plan, ResponsePlan::Full { content_length: 0 });
}

#[test]
fn plain_range_is_served() {
    let plan = plan_request(Some(b"bytes=0-99"), 1000);
    assert_eq!(plan, ResponsePlan::Partial { start: 0, end: 99, length: 100 });
}

#[test]
fn open_ended_range_runs_to_the_end() {
    let plan = plan_request(Some(b"bytes=500-"), 1000);
    assert_eq!(plan, ResponsePlan::Partial { start: 500, end: 999, length: 500 });
}

#[test]
fn range_end_is_clamped_to_file() {
    let plan = plan_request(Some(b"bytes=0-2000"), 1000);
    assert_eq!(plan, ResponsePlan::Partial { start: 0, end: 999, length: 1000 });
}

#[test]
fn unparsable_start_falls_back_to_zero() {
    let plan = plan_request(Some(b"bytes=abc-5"), 1000);
    assert_eq!(plan, ResponsePlan::Partial { start: 0, end: 5, length: 6 });
}

#[test]
fn unparsable_end_falls_back_to_last_byte() {
    let plan = plan_request(Some(b"bytes=10-xyz"), 1000);
    assert_eq!(plan, ResponsePlan::Partial { start: 10, end: 999, length: 990 });
}

#[test]
fn end_before_start_falls_back_to_last_byte() {
    let plan = plan_request(Some(b"bytes=10-5"), 1000);
    assert_eq!(plan, ResponsePlan::Partial { start: 10, end: 999, length: 990 });
}

#[test]
fn signed_start_parses_like_from_str() {
    let plan = plan_request(Some(b"bytes=+5-9"), 1000);
    assert_eq!(plan, ResponsePlan::Partial { start: 5, end: 9, length: 5 });
}

#[test]
fn overflowing_start_falls_back_to_zero() {
    let plan = plan_request(Some(b"bytes=99999999999999999999-"), 1000);
    assert_eq!(plan, ResponsePlan::Partial { start: 0, end: 999, length: 1000 });
}

#[test]
fn start_at_size_is_not_satisfiable() {
    let plan = plan_request(Some(b"bytes=1000-1010"), 1000);
    assert_eq!(plan, ResponsePlan::NotSatisfiable);
}

#[test]
fn start_past_size_is_not_satisfiable() {
    let plan = plan_request(Some(b"bytes=5000-"), 1000);
    assert_eq!(plan, ResponsePlan::NotSatisfiable);
}

#[test]
fn any_range_on_empty_file_is_not_satisfiable() {
    let plan = plan_request(Some(b"bytes=0-"), 0);
    assert_eq!(plan, ResponsePlan::NotSatisfiable);
}

#[test]
fn single_byte_range() {
    let plan = plan_request(Some(b"bytes=7-7"), 1000);
    assert_eq!(plan, ResponsePlan::Partial { start: 7, end: 7, length: 1 });
}

#[test]
fn physical_offset_skips_salt() {
    assert_eq!(physical_offset(0), SALT_LEN as u64);
    assert_eq!(physical_offset(50000), 50000 + SALT_LEN as u64);
}

fn served_range(file: &[u8], password: &str, start: u64, end: u64) -> Vec<u8> {
    let salt: Vec<u8> = file[..SALT_LEN].to_vec();
    let length = end - start + 1;
    let mut stream = DecryptStream::begin(password, &salt, start, length);
    let body = &file[(start as usize + SALT_LEN)..];
    let mut out: Vec<u8> = Vec::new();
    // Hand the stream everything past the seek point in uneven chunks: it
    // must truncate to the requested length on its own.
    for chunk in body.chunks(40000) {
        let piece = stream.next_chunk(chunk.to_vec());
        out.extend_from_slice(&piece);
    }
    out
}

#[test]
fn ranges_match_plaintext_slices() {
    let plain = sample_data(200_000);
    let file = encrypt_bytes(&plain, "range password");
    let len = plain.len() as u64;
    let cases: [(u64, u64); 6] = [
        (0, 0),
        (0, 99),
        (65_535, 65_537),
        (123_456, 131_071),
        (len - 1, len - 1),
        (199_000, len - 1),
    ];
    for (start, end) in cases {
        let served = served_range(&file, "range password", start, end);
        assert_eq!(served, plain[start as usize..=end as usize].to_vec());
    }
}

#[test]
fn full_stream_returns_whole_plaintext() {
    let plain = sample_data(150_000);
    let file = encrypt_bytes(&plain, "full password");
    let salt: Vec<u8> = file[..SALT_LEN].to_vec();
    let mut stream = DecryptStream::begin("full password", &salt, 0, plain.len() as u64);
    let mut out: Vec<u8> = Vec::new();
    for chunk in file[SALT_LEN..].chunks(64 * 1024) {
        let piece = stream.next_chunk(chunk.to_vec());
        out.extend_from_slice(&piece);
    }
    assert_eq!(out, plain);
}

#[test]
fn stream_truncates_final_chunk() {
    let plain = sample_data(1000);
    let file = encrypt_bytes(&plain, "truncate");
    let salt: Vec<u8> = file[..SALT_LEN].to_vec();
    let mut stream = DecryptStream::begin("truncate", &salt, 0, 10);
    let piece = stream.next_chunk(file[SALT_LEN..].to_vec());
    assert_eq!(piece, plain[..10].to_vec());
    let empty = stream.next_chunk(file[SALT_LEN..].to_vec());
    assert!(empty.is_empty());
}

#[test]
fn content_range_header_value() {
    assert_eq!(content_range_value(0, 99, 1000), "bytes 0-99/1000");
    assert_eq!(content_range_value(500, 999, 1000), "bytes 500-999/1000");
    assert_eq!(content_range_value(0, 0, 1), "bytes 0-0/1");
}

#[test]
fn app_state_holds_session() {
    let state = AppState {
        password: String::from("secret"),
        video_path: String::from("/tmp/video.enc"),
    };
    assert_eq!(state.password, "secret");
    assert_eq!(state.video_path, "/tmp/video.enc");
}
