use base64::Engine;
use kitweb::render::{frame_interval_micros, status_bar_line, BarDraw, RenderState};
use std::io::Read;

fn chars(s: &str) -> Vec<char> {
    s.chars().collect()
}

fn text(v: &[char]) -> String {
    v.iter().collect()
}

/// Decodes the image packets back to the RGBA frame (base64, then zlib).
fn decode(packets: &[Vec<u8>]) -> Vec<u8> {
    let mut b64 = Vec::new();
    for p in packets {
        let semi = p.iter().position(|&b| b == b';').unwrap();
        b64.extend_from_slice(&p[semi + 1..p.len() - 2]);
    }
    let zlib = base64::prelude::BASE64_STANDARD.decode(&b64).unwrap();
    let mut out = Vec::new();
    flate2::read::ZlibDecoder::new(&zlib[..]).read_to_end(&mut out).unwrap();
    out
}

#[test]
fn first_frame_is_sent_compressed_with_status() {
    let mut st = RenderState::new();
    let rgba: Vec<u8> = vec![7; 4 * 16 * 16];
    let out = st.render_frame(rgba.clone(), 16, 16, 20, chars("ready"), &chars(""), false, false);
    let image = out.image.expect("first frame is transmitted");
    assert!(image[0].starts_with(b"\x1b_Ga=T,f=32,s=16,v=16,o=z,q=2,m=0;"));
    assert_eq!(decode(&image), rgba);
    // The compressed payload is smaller than the frame itself.
    assert!(image[0].len() < rgba.len());
    match out.bar {
        BarDraw::Draw(t) => assert_eq!(text(&t), format!(" {:<19}", "ready")),
        _ => panic!("status bar expected"),
    }
    assert_eq!(st.prev_rgba, Some(rgba));
    assert_eq!(text(&st.last_status), "ready");
}

#[test]
fn identical_frame_with_same_status_writes_nothing() {
    let mut st = RenderState::new();
    let rgba: Vec<u8> = (0..64u8).collect();
    let _ = st.render_frame(rgba.clone(), 4, 4, 80, chars("s"), &chars(""), false, false);
    let out = st.render_frame(rgba.clone(), 4, 4, 80, chars("s"), &chars(""), false, false);
    assert!(out.image.is_none());
    assert!(matches!(out.bar, BarDraw::Skip));
}

#[test]
fn identical_frame_with_new_status_redraws_only_the_bar() {
    let mut st = RenderState::new();
    let rgba: Vec<u8> = (0..64u8).collect();
    let _ = st.render_frame(rgba.clone(), 4, 4, 10, chars("old"), &chars(""), false, false);
    let out = st.render_frame(rgba.clone(), 4, 4, 10, chars("new"), &chars(""), false, false);
    assert!(out.image.is_none());
    match out.bar {
        BarDraw::Draw(t) => assert_eq!(text(&t), " new      "),
        _ => panic!("status bar expected"),
    }
}

#[test]
fn rate_label_change_redraws_bar() {
    let mut st = RenderState::new();
    let rgba: Vec<u8> = vec![1; 16];
    let _ = st.render_frame(rgba.clone(), 2, 2, 30, chars("x"), &chars(""), false, false);
    let out = st.render_frame(rgba, 2, 2, 30, chars("x"), &chars("[0.00 MB/s] "), true, false);
    assert!(out.image.is_none());
    match out.bar {
        BarDraw::Draw(t) => assert_eq!(text(&t), format!(" [0.00 MB/s] {:<29}", "x")[..30].to_string()),
        _ => panic!("status bar expected"),
    }
}

#[test]
fn changed_frame_is_retransmitted() {
    let mut st = RenderState::new();
    let a: Vec<u8> = vec![1; 16];
    let b: Vec<u8> = vec![2; 16];
    let _ = st.render_frame(a, 2, 2, 10, chars("s"), &chars(""), false, false);
    let out = st.render_frame(b.clone(), 2, 2, 10, chars("s"), &chars(""), false, false);
    assert_eq!(decode(&out.image.unwrap()), b);
    // Same status text: only the image is written.
    assert!(matches!(out.bar, BarDraw::Skip));
    assert_eq!(st.prev_rgba, Some(b));
}

#[test]
fn prompt_keeps_image_but_not_bar() {
    let mut st = RenderState::new();
    let out = st.render_frame(vec![3; 16], 2, 2, 10, chars("changed"), &chars(""), true, true);
    assert!(out.image.is_some());
    assert!(matches!(out.bar, BarDraw::Skip));
    // The status text is remembered even though it was not drawn.
    assert_eq!(text(&st.last_status), "changed");
}

#[test]
fn payload_decides_transmission() {
    let mut st = RenderState::new();
    let out = st.render_with_payload(vec![1, 2], None, 1, 1, 5, chars("a"), &chars(""), false, false);
    assert!(out.image.is_none());
    assert!(st.prev_rgba.is_none());
    match out.bar {
        BarDraw::Draw(t) => assert_eq!(text(&t), " a   "),
        _ => panic!("status bar expected"),
    }
    let out = st.render_with_payload(vec![1, 2], Some(b"z".to_vec()), 1, 1, 5, chars("a"), &chars(""), false, false);
    assert_eq!(out.image.unwrap(), vec![b"\x1b_Ga=T,f=32,s=1,v=1,o=z,q=2,m=0;eg==\x1b\\".to_vec()]);
    // The status text did not change, so the bar is left alone.
    assert!(matches!(out.bar, BarDraw::Skip));
    assert_eq!(st.prev_rgba, Some(vec![1, 2]));
}

#[test]
fn status_bar_padding_and_truncation() {
    assert_eq!(text(&status_bar_line(&chars(""), &chars("abc"), 6).unwrap()), " abc  ");
    // Longer than the terminal: cut to `cols` bytes.
    assert_eq!(text(&status_bar_line(&chars(""), &chars("abcdefgh"), 4).unwrap()), " abc");
    // Zero columns: nothing drawn.
    assert_eq!(text(&status_bar_line(&chars("r"), &chars("abc"), 0).unwrap()), "");
    // Multi-byte characters count as their UTF-8 length when cutting.
    assert_eq!(text(&status_bar_line(&chars(""), &chars("ééé"), 5).unwrap()), " éé");
}

#[test]
fn status_bar_cut_inside_character() {
    // " é..." cut at 2 bytes falls inside 'é' (bytes 1..3).
    assert!(status_bar_line(&chars(""), &chars("éééé"), 2).is_none());
    let mut st = RenderState::new();
    let out = st.render_frame(vec![0; 4], 1, 1, 2, chars("éééé"), &chars(""), false, false);
    assert!(matches!(out.bar, BarDraw::CutInsideChar));
}

#[test]
fn frame_pacing() {
    assert_eq!(frame_interval_micros(30), 33_333);
    assert_eq!(frame_interval_micros(1), 1_000_000);
    assert_eq!(frame_interval_micros(0), 1_000_000);
    assert_eq!(frame_interval_micros(60), 16_666);
}
