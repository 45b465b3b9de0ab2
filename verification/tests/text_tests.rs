use hicom::text::{chars_of, is_space, port_name_only, string_of_range, trim_str};

fn reference_port_name_only(display: &str) -> String {
    display.split_whitespace().next().unwrap_or(display).to_string()
}

#[test]
fn is_space_matches_std_for_every_char() {
    for u in 0u32..=0x10FFFF {
        if let Some(c) = char::from_u32(u) {
            assert_eq!(is_space(c), c.is_whitespace(), "U+{:04X}", u);
        }
    }
}

#[test]
fn chars_of_keeps_order() {
    let s = "aé蓝🙂 z";
    assert_eq!(chars_of(s), s.chars().collect::<Vec<char>>());
    assert_eq!(chars_of(""), Vec::<char>::new());
}

#[test]
fn string_of_range_takes_the_range() {
    let v: Vec<char> = "hello world".chars().collect();
    assert_eq!(string_of_range(&v, 6, 11), "world");
    assert_eq!(string_of_range(&v, 3, 3), "");
}

#[test]
fn trim_str_matches_std() {
    let samples = [
        "", " ", "\t\n", "abc", "  abc  ", "\u{3000}x\u{2003}", " a b ", "x\u{85}", "\u{A0}\u{A0}y",
        "115200", " 9600\r\n",
    ];
    for s in samples {
        assert_eq!(trim_str(s), s.trim(), "{:?}", s);
    }
}

#[test]
fn port_name_only_matches_split_whitespace() {
    let samples = [
        "COM3",
        "COM23  [WCH-Link SERIAL]",
        "/dev/ttyUSB0  [FTDI FT232R]",
        "",
        "   ",
        "  COM4 x",
        "\u{3000}COM5\u{3000}[x]",
        "name\ttab",
    ];
    for s in samples {
        assert_eq!(port_name_only(s), reference_port_name_only(s), "{:?}", s);
    }
}

#[test]
fn port_name_only_keeps_blank_label_whole() {
    assert_eq!(port_name_only("   "), "   ");
    assert_eq!(port_name_only(""), "");
}

#[test]
fn port_name_only_is_idempotent_on_examples() {
    for s in ["COM9  [PCI]", "  x  y", "   ", "abc"] {
        let once = port_name_only(s);
        assert_eq!(port_name_only(&once), once);
    }
}
