use base64::Engine;
use kitweb::kitty::{
    flush_step, write_rgba_frame_native_to, write_rgba_frame_to, write_step, FlushOutcome,
    FlushStep, WriteOutcome, WriteStep,
};

fn joined(packets: &[Vec<u8>]) -> Vec<u8> {
    packets.iter().flatten().copied().collect()
}

/// The base64 text carried by the packets, header and terminator removed.
fn carried(packets: &[Vec<u8>]) -> Vec<u8> {
    let mut out = Vec::new();
    for p in packets {
        let semi = p.iter().position(|&b| b == b';').unwrap();
        assert!(p.ends_with(b"\x1b\\"));
        out.extend_from_slice(&p[semi + 1..p.len() - 2]);
    }
    out
}

#[test]
fn small_frame_is_one_packet_with_cells() {
    let pixels = [1u8, 2, 3, 4, 5, 6, 7, 8];
    let packets = write_rgba_frame_to(&pixels, 2, 1, 3, 4, false);
    assert_eq!(packets.len(), 1);
    assert_eq!(
        joined(&packets),
        b"\x1b_Ga=T,f=32,s=2,v=1,c=3,r=4,q=2,m=0;AQIDBAUGBwg=\x1b\\".to_vec()
    );
}

#[test]
fn cursor_policy_key_comes_before_compression_key() {
    let packets = write_rgba_frame_native_to(b"hello", 1680, 1260, true, true);
    assert_eq!(
        joined(&packets),
        b"\x1b_Ga=T,f=32,s=1680,v=1260,C=1,o=z,q=2,m=0;aGVsbG8=\x1b\\".to_vec()
    );
}

#[test]
fn native_frame_without_options_has_no_cell_keys() {
    let packets = write_rgba_frame_native_to(b"hel", 0, 4294967295, false, false);
    assert_eq!(
        joined(&packets),
        b"\x1b_Ga=T,f=32,s=0,v=4294967295,q=2,m=0;aGVs\x1b\\".to_vec()
    );
}

#[test]
fn cursor_policy_with_cells() {
    let packets = write_rgba_frame_to(b"hi", 10, 20, 30, 40, true);
    assert_eq!(
        joined(&packets),
        b"\x1b_Ga=T,f=32,s=10,v=20,c=30,r=40,C=1,q=2,m=0;aGk=\x1b\\".to_vec()
    );
}

#[test]
fn empty_payload_produces_no_packets() {
    assert!(write_rgba_frame_to(&[], 1, 1, 1, 1, false).is_empty());
    assert!(write_rgba_frame_native_to(&[], 1, 1, false, true).is_empty());
}

#[test]
fn exactly_one_full_chunk() {
    // 3072 bytes encode to exactly 4096 base64 bytes: one packet, m=0.
    let pixels = vec![0u8; 3072];
    let packets = write_rgba_frame_native_to(&pixels, 1, 1, false, false);
    assert_eq!(packets.len(), 1);
    assert!(packets[0].starts_with(b"\x1b_Ga=T,f=32,s=1,v=1,q=2,m=0;"));
    assert_eq!(carried(&packets).len(), 4096);
}

#[test]
fn large_frame_is_split_into_chunks() {
    let pixels: Vec<u8> = (0..10_000u32).map(|i| (i * 7 % 251) as u8).collect();
    let packets = write_rgba_frame_native_to(&pixels, 50, 50, false, true);
    // 10000 bytes -> 13336 base64 bytes -> 4 chunks.
    assert_eq!(packets.len(), 4);
    assert!(packets[0].starts_with(b"\x1b_Ga=T,f=32,s=50,v=50,o=z,q=2,m=1;"));
    assert!(packets[1].starts_with(b"\x1b_Gq=2,m=1;"));
    assert!(packets[2].starts_with(b"\x1b_Gq=2,m=1;"));
    assert!(packets[3].starts_with(b"\x1b_Gq=2,m=0;"));
    let semi = packets[0].iter().position(|&b| b == b';').unwrap();
    assert_eq!(packets[0].len() - semi - 1 - 2, 4096);
    let expected = base64::prelude::BASE64_STANDARD.encode(&pixels);
    assert_eq!(carried(&packets), expected.into_bytes());
}

#[test]
fn chunks_never_hold_escape_or_semicolon() {
    let pixels: Vec<u8> = (0..5000u32).map(|i| (i % 256) as u8).collect();
    let packets = write_rgba_frame_to(&pixels, 1, 1, 1, 1, false);
    let data = carried(&packets);
    assert!(!data.contains(&0x1b));
    assert!(!data.contains(&b';'));
}

#[test]
fn write_policy() {
    assert!(matches!(write_step(10, WriteOutcome::Wrote(0)), WriteStep::FailWriteZero));
    assert!(matches!(write_step(10, WriteOutcome::Wrote(4)), WriteStep::Advance(4)));
    assert!(matches!(write_step(10, WriteOutcome::Wrote(10)), WriteStep::Advance(10)));
    assert!(matches!(write_step(10, WriteOutcome::WouldBlock), WriteStep::RetryAfterPause));
    assert!(matches!(write_step(10, WriteOutcome::Failed), WriteStep::FailWithError));
}

#[test]
fn flush_policy() {
    assert!(matches!(flush_step(FlushOutcome::Flushed), FlushStep::Done));
    assert!(matches!(flush_step(FlushOutcome::WouldBlock), FlushStep::RetryAfterPause));
    assert!(matches!(flush_step(FlushOutcome::Failed), FlushStep::FailWithError));
}

#[test]
fn uncompressed_frames_carry_no_compression_key() {
    let pixels: Vec<u8> = (0..9000u32).map(|i| (i * 31 % 256) as u8).collect();
    let with_cells = joined(&write_rgba_frame_to(&pixels, 640, 480, 80, 24, true));
    let native = joined(&write_rgba_frame_native_to(&pixels, 640, 480, true, false));
    assert!(!with_cells.windows(4).any(|w| w == b",o=z"));
    assert!(!native.windows(4).any(|w| w == b",o=z"));
    // The cell keys come right after the pixel size; nothing else differs.
    let mut expected = native.clone();
    let at = b"\x1b_Ga=T,f=32,s=640,v=480".len();
    expected.splice(at..at, b",c=80,r=24".iter().copied());
    assert_eq!(with_cells, expected);
}
