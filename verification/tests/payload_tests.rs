use hicom::config::Newline;
use hicom::payload::{build_payload, mk_nl, would_cut_char};

fn reference_mk_nl(d: &[u8], nl: Newline) -> Vec<u8> {
    let mut v = d.to_vec();
    match nl {
        Newline::CrLf => v.extend_from_slice(b"\r\n"),
        Newline::Cr => v.push(b'\r'),
        Newline::Lf => v.push(b'\n'),
        Newline::Off => {}
    }
    v
}

/// The byte two hexadecimal digits denote; none for anything else.
fn hex_pair_value(p: &str) -> Option<u8> {
    let b = p.as_bytes();
    if b.len() == 2 && b[0].is_ascii_hexdigit() && b[1].is_ascii_hexdigit() {
        u8::from_str_radix(p, 16).ok()
    } else {
        None
    }
}

/// The expected payload, or `None` where slicing the text by bytes would panic.
fn reference_mk_data(send: &str, hexmd: bool, nl: Newline) -> Option<Result<Vec<u8>, String>> {
    let d = if hexmd {
        let h: String = send.chars().filter(|c| !c.is_whitespace()).collect();
        if h.is_empty() {
            return Some(Ok(Vec::new()));
        }
        if h.len() % 2 != 0 {
            return Some(Err("HEX 长度须为偶数".into()));
        }
        let mut v = Vec::with_capacity(h.len() / 2);
        for i in (0..h.len()).step_by(2) {
            if !h.is_char_boundary(i) || !h.is_char_boundary(i + 2) {
                return None;
            }
            match hex_pair_value(&h[i..i + 2]) {
                Some(b) => v.push(b),
                None => return Some(Err(format!("无效 HEX: {}", &h[i..i + 2]))),
            }
        }
        v
    } else {
        send.as_bytes().to_vec()
    };
    Some(Ok(reference_mk_nl(&d, nl)))
}

const ALL_NL: [Newline; 4] = [Newline::Off, Newline::CrLf, Newline::Cr, Newline::Lf];

fn check(send: &str, hexmd: bool) {
    for nl in ALL_NL {
        let expected = reference_mk_data(send, hexmd, nl);
        let cuts = would_cut_char(send, hexmd);
        assert_eq!(cuts, expected.is_none(), "{:?} {}", send, hexmd);
        if let Some(e) = expected {
            assert_eq!(build_payload(send, hexmd, nl), e, "{:?} {} {:?}", send, hexmd, nl);
        }
    }
}

#[test]
fn mk_nl_appends_line_ending() {
    assert_eq!(mk_nl(b"ab", Newline::CrLf), b"ab\r\n".to_vec());
    assert_eq!(mk_nl(b"ab", Newline::Cr), b"ab\r".to_vec());
    assert_eq!(mk_nl(b"ab", Newline::Lf), b"ab\n".to_vec());
    assert_eq!(mk_nl(b"ab", Newline::Off), b"ab".to_vec());
    assert_eq!(mk_nl(b"", Newline::CrLf), b"\r\n".to_vec());
}

#[test]
fn text_mode_sends_utf8_and_line_ending() {
    assert_eq!(build_payload("hi", false, Newline::CrLf), Ok(b"hi\r\n".to_vec()));
    assert_eq!(build_payload("", false, Newline::Lf), Ok(b"\n".to_vec()));
    assert_eq!(build_payload("蓝", false, Newline::Off), Ok("蓝".as_bytes().to_vec()));
}

#[test]
fn hex_mode_examples() {
    assert_eq!(build_payload("A0 1B 2C", true, Newline::Off), Ok(vec![0xA0, 0x1B, 0x2C]));
    assert_eq!(build_payload("a01b", true, Newline::CrLf), Ok(vec![0xA0, 0x1B, 13, 10]));
    assert_eq!(build_payload("  \t ", true, Newline::CrLf), Ok(vec![]));
    assert_eq!(build_payload("+F", true, Newline::Off), Err("无效 HEX: +F".to_string()));
    assert_eq!(build_payload("A0 +A", true, Newline::Off), Err("无效 HEX: +A".to_string()));
    assert_eq!(build_payload("A0 1b\t2C", true, Newline::Lf), Ok(vec![0xA0, 0x1B, 0x2C, 0x0A]));
    assert_eq!(build_payload("A0B", true, Newline::Off), Err("HEX 长度须为偶数".to_string()));
    assert_eq!(build_payload("A0 ZZ", true, Newline::Off), Err("无效 HEX: ZZ".to_string()));
    assert_eq!(build_payload("é", true, Newline::Off), Err("无效 HEX: é".to_string()));
    assert!(would_cut_char("aéb", true));
    assert!(would_cut_char("蓝a", true));
    assert!(!would_cut_char("aéb", false));
}

#[test]
fn hex_mode_matches_reference_on_every_pair_of_ascii_chars() {
    for a in 0u8..128 {
        for b in 0u8..128 {
            let s: String = [a as char, b as char].iter().collect();
            check(&s, true);
        }
    }
}

#[test]
fn hex_pair_reading_takes_two_hex_digits_only() {
    for a in 0u8..128 {
        for b in 0u8..128 {
            let s: String = [a as char, b as char].iter().collect();
            let h: String = s.chars().filter(|c| !c.is_whitespace()).collect();
            if h.len() == 2 {
                let got = build_payload(&s, true, Newline::Off);
                let hb = h.as_bytes();
                if hb[0].is_ascii_hexdigit() && hb[1].is_ascii_hexdigit() {
                    assert_eq!(got, Ok(vec![u8::from_str_radix(&h, 16).unwrap()]));
                } else {
                    assert_eq!(got, Err(format!("无效 HEX: {}", h)));
                }
            }
        }
    }
}

#[test]
fn payload_matches_reference_on_mixed_text() {
    let samples = [
        "", "00", "0", "ff FF", "1 2 3 4", "12\u{3000}34", "12é", "é12", "ab蓝", "🙂", "a🙂b",
        "ÿÿ", "+1+2", "-1", "0x", "hello world", "\r\n", "1\u{85}2", "ab\u{2028}cd",
    ];
    for s in samples {
        check(s, true);
        check(s, false);
    }
}
