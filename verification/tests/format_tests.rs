use hicom::clock::{chrono_now, format_clock, format_file_stamp, ts};
use hicom::config::{DataBits, FlowCtrl, Newline, Parity, StopBits};
use hicom::digits::{dec_len, digit, push_dec, push_hex_pair};
use hicom::size::fmtsz;

fn reference_ts_of(s: u64, millis: u32) -> String {
    format!("{:02}:{:02}:{:02}.{:03}", (s / 3600) % 24, (s / 60) % 60, s % 60, millis)
}

fn reference_stamp_of(s: u64) -> String {
    format!(
        "{:04}{:02}{:02}_{:02}{:02}{:02}",
        1970 + s / 31556952,
        (s % 31556952) / 2629744 + 1,
        (s % 2629744) / 86400 + 1,
        (s / 3600) % 24,
        (s / 60) % 60,
        s % 60
    )
}

fn reference_fmtsz(n: u64) -> String {
    if n < 1024 {
        format!("{} B", n)
    } else if n < 1048576 {
        format!("{:.1} KB", n as f64 / 1024.0)
    } else {
        format!("{:.2} MB", n as f64 / 1048576.0)
    }
}

#[test]
fn digits_and_padding() {
    assert_eq!(digit(0), '0');
    assert_eq!(digit(9), '9');
    assert_eq!(digit(10), 'A');
    assert_eq!(digit(15), 'F');
    assert_eq!(dec_len(0), 1);
    assert_eq!(dec_len(9), 1);
    assert_eq!(dec_len(10), 2);
    assert_eq!(dec_len(u64::MAX), 20);
    let mut s = String::from("x");
    push_dec(&mut s, 7, 3);
    assert_eq!(s, "x007");
    let mut s = String::new();
    push_dec(&mut s, 12345, 2);
    assert_eq!(s, "12345");
    let mut s = String::new();
    push_dec(&mut s, u64::MAX, 0);
    assert_eq!(s, u64::MAX.to_string());
    let mut s = String::new();
    push_hex_pair(&mut s, 0x0A);
    push_hex_pair(&mut s, 0xFF);
    assert_eq!(s, "0AFF");
}

#[test]
fn clock_text_matches_reference_format() {
    assert_eq!(format_clock(3661, 5), "01:01:01.005");
    assert_eq!(format_clock(0, 0), "00:00:00.000");
    assert_eq!(format_clock(86399, 999), "23:59:59.999");
    for s in [1u64, 59, 60, 3599, 3600, 86400, 1_725_029_869, u64::MAX] {
        for m in [0u32, 7, 42, 999] {
            assert_eq!(format_clock(s, m), reference_ts_of(s, m));
        }
    }
}

#[test]
fn file_stamp_matches_reference_format() {
    assert_eq!(format_file_stamp(0), "19700101_000000");
    for s in [1u64, 86399, 31556951, 31556952, 1_725_029_869, u64::MAX] {
        assert_eq!(format_file_stamp(s), reference_stamp_of(s));
    }
}

#[test]
fn ts_has_clock_shape() {
    let t = ts();
    assert_eq!(t.len(), 12);
    let b = t.as_bytes();
    assert_eq!(b[2], b':');
    assert_eq!(b[5], b':');
    assert_eq!(b[8], b'.');
    if t != "--:--:--.---" {
        for i in [0, 1, 3, 4, 6, 7, 9, 10, 11] {
            assert!(b[i].is_ascii_digit(), "{}", t);
        }
        let hours: u32 = t[0..2].parse().unwrap();
        assert!(hours < 24);
    }
}

#[test]
fn chrono_now_has_stamp_shape() {
    let t = chrono_now();
    if t != "unknown" {
        assert_eq!(t.len(), 15);
        assert_eq!(t.as_bytes()[8], b'_');
        assert!(t.starts_with("20"));
    }
}

#[test]
fn fmtsz_examples() {
    assert_eq!(fmtsz(0), "0 B");
    assert_eq!(fmtsz(1023), "1023 B");
    assert_eq!(fmtsz(1024), "1.0 KB");
    assert_eq!(fmtsz(1536), "1.5 KB");
    assert_eq!(fmtsz(1048575), "1024.0 KB");
    assert_eq!(fmtsz(1048576), "1.00 MB");
    assert_eq!(fmtsz(1572864), "1.50 MB");
}

#[test]
fn fmtsz_matches_float_formatting_below_one_megabyte() {
    for n in 0u64..1048576 {
        assert_eq!(fmtsz(n), reference_fmtsz(n), "{}", n);
    }
}

#[test]
fn fmtsz_matches_float_formatting_above_one_megabyte() {
    let mut n: u64 = 1048576;
    while n < 1048576 * 4096 {
        assert_eq!(fmtsz(n), reference_fmtsz(n), "{}", n);
        n += 9973;
    }
    let edges: [u64; 12] = [
        (1 << 53) - 1,
        1 << 53,
        (1 << 53) + 1,
        (1 << 54) + 2,
        (1 << 54) + 6,
        (1 << 60) + 123456789,
        u64::MAX,
        u64::MAX - 1024,
        u64::MAX / 3,
        10_485_760,
        5_242_880 + 5_243,
        1_048_576 * 1000 + 5_242,
    ];
    for n in edges {
        assert_eq!(fmtsz(n), reference_fmtsz(n), "{}", n);
    }
    let mut x: u64 = 0x9E37_79B9_7F4A_7C15;
    for _ in 0..200_000 {
        x ^= x << 13;
        x ^= x >> 7;
        x ^= x << 17;
        let n = x >> (x % 44);
        if n >= 1048576 {
            assert_eq!(fmtsz(n), reference_fmtsz(n), "{}", n);
        }
    }
}

#[test]
fn setting_labels_match_display_names() {
    assert_eq!(DataBits::Five.label(), "5");
    assert_eq!(DataBits::Six.label(), "6");
    assert_eq!(DataBits::Seven.label(), "7");
    assert_eq!(DataBits::Eight.label(), "8");
    assert_eq!(StopBits::One.label(), "1");
    assert_eq!(StopBits::Two.label(), "2");
    assert_eq!(Parity::Off.label(), "None");
    assert_eq!(Parity::Odd.label(), "Odd");
    assert_eq!(Parity::Even.label(), "Even");
    assert_eq!(FlowCtrl::Off.label(), "无");
    assert_eq!(FlowCtrl::Hardware.label(), "RTS/CTS");
    assert_eq!(FlowCtrl::Software.label(), "XON/XOFF");
    assert_eq!(Newline::Off.label(), "无");
    assert_eq!(Newline::CrLf.label(), "\\r\\n");
    assert_eq!(Newline::Cr.label(), "\\r");
    assert_eq!(Newline::Lf.label(), "\\n");
}
