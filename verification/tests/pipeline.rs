use rigel::crypto::SALT_LEN;
use rigel::pipeline::{
    decrypt_bytes, encrypt_bytes, progress_percent, should_emit_progress, BatchJob, CHUNK_SIZE,
};

fn sample_data(len: usize) -> Vec<u8> {
    (0..len).map(|i| (i.wrapping_mul(31) % 256) as u8).collect()
}

fn round_trip(len: usize) {
    let plain = sample_data(len);
    let file = encrypt_bytes(&plain, "round trip password");
    assert_eq!(file.len(), len + SALT_LEN);
    let back = decrypt_bytes(&file, "round trip password");
    assert_eq!(back, plain);
}

#[test]
fn round_trip_empty() {
    round_trip(0);
}

#[test]
fn round_trip_one_byte() {
    round_trip(1);
}

#[test]
fn round_trip_one_full_chunk() {
    round_trip(CHUNK_SIZE);
}

#[test]
fn round_trip_chunks_and_remainder() {
    round_trip(3 * CHUNK_SIZE + 1234);
}

#[test]
fn encrypted_differs_from_plaintext() {
    let plain = sample_data(4096);
    let file = encrypt_bytes(&plain, "pw");
    assert_ne!(&file[SALT_LEN..], &plain[..]);
}

#[test]
fn wrong_password_garbles_output() {
    let plain = sample_data(4096);
    let file = encrypt_bytes(&plain, "right password");
    let back = decrypt_bytes(&file, "wrong password");
    assert_eq!(back.len(), plain.len());
    assert_ne!(back, plain);
}

#[test]
fn batch_job_transforms_like_whole_file() {
    let plain = sample_data(2 * CHUNK_SIZE + 77);
    let file = encrypt_bytes(&plain, "chunked");
    let salt: Vec<u8> = file[..SALT_LEN].to_vec();
    let mut job = BatchJob::start("chunked", &salt, plain.len() as u64);
    let mut produced: Vec<u8> = Vec::new();
    for chunk in plain.chunks(CHUNK_SIZE) {
        let mut buf = chunk.to_vec();
        let _ = job.process_chunk(&mut buf);
        produced.extend_from_slice(&buf);
    }
    assert_eq!(produced, file[SALT_LEN..].to_vec());
}

#[test]
fn progress_is_monotone_and_ends_at_100() {
    let total: usize = 3 * CHUNK_SIZE + 1000;
    let plain = sample_data(total);
    let salt = [4u8; 16];
    let mut job = BatchJob::start("progress", &salt, total as u64);
    let mut emitted: Vec<u64> = Vec::new();
    for chunk in plain.chunks(CHUNK_SIZE) {
        let mut buf = chunk.to_vec();
        if let Some(p) = job.process_chunk(&mut buf) {
            emitted.push(p);
        }
    }
    assert!(!emitted.is_empty());
    for pair in emitted.windows(2) {
        assert!(pair[0] <= pair[1]);
    }
    assert_eq!(*emitted.last().unwrap(), 100);
    for p in emitted {
        assert!(p <= 100);
    }
}

#[test]
fn progress_percent_values() {
    assert_eq!(progress_percent(0, 0), 100);
    assert_eq!(progress_percent(0, 10), 0);
    assert_eq!(progress_percent(5, 10), 50);
    assert_eq!(progress_percent(10, 10), 100);
    assert_eq!(progress_percent(1, 3), 33);
}

#[test]
fn emit_points_fire_near_mebibytes_and_at_end() {
    assert!(should_emit_progress(0, 500));
    assert!(should_emit_progress(500, 500));
    assert!(should_emit_progress(1024 * 1024, 10 * 1024 * 1024));
    assert!(should_emit_progress(1024 * 1024 + 100, 10 * 1024 * 1024));
    assert!(!should_emit_progress(512 * 1024, 10 * 1024 * 1024));
}
