use hicom::config::Newline;
use hicom::payload::build_payload;
use hicom::rx::{shown, RxBuf, BATCH, RAW_KEEP, RAW_LIMIT};
use hicom::rxlog::{RxLog, TEXT_CAP};

/// A plain model of the buffer, step for step.
struct Model {
    raw: Vec<u8>,
    bytes: u64,
}

impl Model {
    fn push(&mut self, chunk: &[u8]) {
        self.raw.extend_from_slice(chunk);
        self.bytes += chunk.len() as u64;
        if self.raw.len() > 512 * 1024 {
            let k = self.raw.len() - 256 * 1024;
            self.raw.drain(..k);
        }
    }

    fn take(&mut self) -> Vec<u8> {
        if self.bytes == 0 || self.raw.is_empty() {
            return Vec::new();
        }
        let n = self.raw.len().min(65536);
        let data: Vec<u8> = self.raw.drain(..n).collect();
        self.bytes = self.bytes.saturating_sub(n as u64);
        if self.raw.len() > 512 * 1024 {
            let keep = self.raw.len() - 256 * 1024;
            self.raw.drain(..keep);
        }
        data
    }
}

/// The expected rendering of one batch.
fn reference_render(txt: &mut String, hex: &mut String, data: &[u8], stamp: Option<&str>) {
    let cap = 256 * 1024;
    if let Some(t) = stamp {
        txt.push_str(&format!("[{}] ", t));
        hex.push_str(&format!("[{}] ", t));
    }
    for &b in data {
        txt.push(if b.is_ascii_graphic() || b == b' ' || b == b'\n' || b == b'\r' || b == b'\t' {
            b as char
        } else {
            '.'
        });
    }
    if txt.len() > cap {
        let k = txt.len() - cap / 2;
        txt.drain(..k);
    }
    for b in data {
        hex.push_str(&format!("{:02X} ", b));
    }
    if hex.len() > cap {
        let k = hex.len() - cap / 2;
        hex.drain(..k);
    }
}

#[test]
fn limits_are_the_documented_ones() {
    assert_eq!(RAW_LIMIT, 512 * 1024);
    assert_eq!(RAW_KEEP, 256 * 1024);
    assert_eq!(BATCH, 65536);
    assert_eq!(TEXT_CAP, 256 * 1024);
}

#[test]
fn shown_maps_unprintable_to_dot() {
    assert_eq!(shown(b'A'), 'A');
    assert_eq!(shown(b' '), ' ');
    assert_eq!(shown(b'\n'), '\n');
    assert_eq!(shown(b'\t'), '\t');
    assert_eq!(shown(0), '.');
    assert_eq!(shown(0x7F), '.');
    assert_eq!(shown(0xC3), '.');
}

#[test]
fn buffer_matches_model_on_a_long_run() {
    let mut buf = RxBuf::new();
    let mut model = Model { raw: Vec::new(), bytes: 0 };
    let mut x: u32 = 12345;
    for step in 0..3000u32 {
        x = x.wrapping_mul(1103515245).wrapping_add(12345);
        if x % 3 != 0 {
            let len = (x as usize >> 4) % 8193;
            let chunk: Vec<u8> = (0..len).map(|i| (i as u32 ^ step) as u8).collect();
            buf.push_chunk(&chunk);
            model.push(&chunk);
        } else {
            assert_eq!(buf.take_batch(), model.take());
        }
        assert_eq!(buf.len(), model.raw.len());
        assert_eq!(buf.pending(), model.bytes);
        assert!(buf.pending() >= buf.len() as u64);
        assert!(buf.len() <= RAW_LIMIT);
    }
}

#[test]
fn take_batch_on_empty_buffer_gives_nothing() {
    let mut buf = RxBuf::new();
    assert!(buf.take_batch().is_empty());
    assert_eq!(buf.pending(), 0);
}

#[test]
fn batches_come_out_in_order() {
    let mut buf = RxBuf::new();
    let data: Vec<u8> = (0..200_000u32).map(|i| (i % 251) as u8).collect();
    for chunk in data.chunks(8192) {
        buf.push_chunk(chunk);
    }
    let mut out = Vec::new();
    loop {
        let b = buf.take_batch();
        if b.is_empty() {
            break;
        }
        assert!(b.len() <= BATCH);
        out.extend_from_slice(&b);
    }
    assert_eq!(out, data);
    assert_eq!(buf.pending(), 0);
}

#[test]
fn overfull_buffer_keeps_newest_bytes() {
    let mut buf = RxBuf::new();
    let data: Vec<u8> = (0..600_000u32).map(|i| (i % 253) as u8).collect();
    for chunk in data.chunks(8192) {
        buf.push_chunk(chunk);
    }
    assert!(buf.len() <= RAW_LIMIT);
    assert_eq!(buf.pending(), 600_000);
    let mut out = Vec::new();
    loop {
        let b = buf.take_batch();
        if b.is_empty() {
            break;
        }
        out.extend_from_slice(&b);
    }
    assert_eq!(&out[..], &data[data.len() - out.len()..]);
}

#[test]
fn rendering_matches_reference() {
    let mut log = RxLog::new();
    let (mut txt, mut hex) = (String::new(), String::new());
    let mut x: u32 = 7;
    let mut total: u64 = 0;
    for step in 0..60u32 {
        x = x.wrapping_mul(1664525).wrapping_add(1013904223);
        let len = 1 + (x as usize >> 8) % 65536;
        let data: Vec<u8> = (0..len).map(|i| (i as u32).wrapping_mul(x ^ step) as u8).collect();
        let stamp = if step % 2 == 0 { Some("12:34:56.789") } else { None };
        log.show_batch_stamped(&data, stamp);
        reference_render(&mut txt, &mut hex, &data, stamp);
        total += len as u64;
        assert_eq!(log.txt(), txt);
        assert_eq!(log.hex(), hex);
        assert_eq!(log.rx_n(), total);
        assert!(log.txt().len() <= TEXT_CAP && log.hex().len() <= TEXT_CAP);
        assert!(log.txt().is_ascii() && log.hex().is_ascii());
    }
    log.clr();
    assert_eq!(log.txt(), "");
    assert_eq!(log.hex(), "");
    assert_eq!(log.rx_n(), 0);
}

#[test]
fn empty_batch_changes_nothing() {
    let mut log = RxLog::new();
    log.show_batch(b"ab", false);
    log.show_batch(b"", true);
    assert_eq!(log.txt(), "ab");
    assert_eq!(log.hex(), "61 62 ");
    assert_eq!(log.rx_n(), 2);
}

#[test]
fn stamped_batch_starts_with_time() {
    let mut log = RxLog::new();
    log.show_batch(b"\x01Z", true);
    let t = log.txt().to_string();
    assert!(t.starts_with('['));
    assert_eq!(&t[13..], "] .Z");
    assert_eq!(&log.hex()[15..], "01 5A ");
}

#[test]
fn hex_view_sent_back_gives_same_bytes() {
    let data: Vec<u8> = (0..=255u8).collect();
    let mut log = RxLog::new();
    log.show_batch_stamped(&data, None);
    let shown = log.hex().to_string();
    assert_eq!(build_payload(&shown, true, Newline::Off), Ok(data.clone()));
    let mut with_nl = data.clone();
    with_nl.extend_from_slice(b"\r\n");
    assert_eq!(build_payload(&shown, true, Newline::CrLf), Ok(with_nl));
}
