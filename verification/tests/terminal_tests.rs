use hicom::config::{DataBits, FlowCtrl, Newline, Parity, StopBits, ViewMode};
use hicom::terminal::{
    connected_message, log_path, open_failed_message, parse_u32, save_failed_message, saved_message,
    send_failed_message, sent_message, SendPlan, Terminal,
};

fn terminal() -> Terminal {
    Terminal::new(vec!["COM1".to_string(), "COM3  [USB Serial]".to_string()])
}

#[test]
fn new_terminal_has_start_defaults() {
    let t = terminal();
    assert_eq!(t.sel_port, "COM3  [USB Serial]");
    assert_eq!(t.names.len(), 2);
    assert_eq!(t.baud, "115200");
    assert_eq!(t.db, DataBits::Eight);
    assert_eq!(t.sb, StopBits::One);
    assert_eq!(t.par, Parity::Off);
    assert_eq!(t.fc, FlowCtrl::Off);
    assert!(t.dtr && t.rts);
    assert_eq!(t.view, ViewMode::Ascii);
    assert_eq!(t.rx.txt(), "");
    assert_eq!(t.rx.rx_n(), 0);
    assert_eq!(t.tx_n, 0);
    assert!(t.ts && !t.paused);
    assert_eq!(t.send, "");
    assert!(!t.hexmd);
    assert_eq!(t.nl, Newline::CrLf);
    assert!(t.auto);
    assert_eq!(t.auto_t, "200");
    assert!(!t.was_on);
}

#[test]
fn parse_u32_matches_std() {
    let samples = [
        "", "+", "-", "0", "00", "+115200", "115200", "4294967295", "4294967296", "99999999999",
        "12a", "a12", " 1", "1 ", "-1", "+-1", "++1", "٣", "１",
    ];
    for s in samples {
        assert_eq!(parse_u32(s), s.parse::<u32>().ok(), "{:?}", s);
    }
    for n in [0u32, 1, 9, 10, 300, 9600, 921600, u32::MAX] {
        assert_eq!(parse_u32(&n.to_string()), Some(n));
    }
}

#[test]
fn plan_open_checks_selection_and_baud() {
    let mut t = terminal();
    match t.plan_open() {
        Ok((name, baud)) => {
            assert_eq!(name, "COM3");
            assert_eq!(baud, 115200);
        }
        Err(m) => panic!("{}", m),
    }
    t.baud = " 9600 ".to_string();
    assert_eq!(t.plan_open(), Ok(("COM3".to_string(), 9600)));
    t.baud = "fast".to_string();
    assert_eq!(t.plan_open(), Err("波特率无效".to_string()));
    t.sel_port = String::new();
    assert_eq!(t.plan_open(), Err("请选择串口".to_string()));
}

#[test]
fn plan_send_follows_port_and_payload() {
    let mut t = terminal();
    t.send = "hi".to_string();
    match t.plan_send(false) {
        SendPlan::Refuse(m) => assert_eq!(m, "未打开串口"),
        _ => panic!("expected a refusal"),
    }
    match t.plan_send(true) {
        SendPlan::Write(d) => assert_eq!(d, b"hi\r\n".to_vec()),
        _ => panic!("expected bytes"),
    }
    t.hexmd = true;
    t.send = "1".to_string();
    match t.plan_send(true) {
        SendPlan::Refuse(m) => assert_eq!(m, "HEX 长度须为偶数"),
        _ => panic!("expected a refusal"),
    }
    t.send = "  ".to_string();
    assert!(matches!(t.plan_send(true), SendPlan::Nothing));
    assert_eq!(t.plan_auto(), None);
    t.send = "0D 0A".to_string();
    t.nl = Newline::Off;
    assert_eq!(t.plan_auto(), Some(vec![13, 10]));
    assert_eq!(t.mk_data(), Ok(vec![13, 10]));
}

#[test]
fn counters_and_close() {
    let mut t = terminal();
    t.count_tx(5);
    t.count_tx(7);
    assert_eq!(t.tx_n, 12);
    assert_eq!(t.close(), "已关闭");
    assert_eq!(t.tx_n, 0);
    t.drain_rx(b"abc");
    assert_eq!(t.rx.rx_n(), 3);
    assert!(t.rx.txt().ends_with("] abc"));
    t.clr();
    assert_eq!(t.rx.rx_n(), 0);
    assert_eq!(t.rx.txt(), "");
}

#[test]
fn drain_without_time_stamps() {
    let mut t = terminal();
    t.ts = false;
    t.drain_rx(b"ok\x00");
    assert_eq!(t.rx.txt(), "ok.");
    assert_eq!(t.rx.hex(), "6F 6B 00 ");
}

#[test]
fn log_content_follows_view() {
    let mut t = terminal();
    t.ts = false;
    t.drain_rx(b"A");
    assert_eq!(t.log_content(), "A");
    t.view = ViewMode::Hex;
    assert_eq!(t.log_content(), "41 ");
}

#[test]
fn status_line_matches_format() {
    let t = terminal();
    let expected = format!("{} @ {} {} {} {}", "COM3", t.baud, 8, 1, "None");
    assert_eq!(t.status_line(), expected);
}

#[test]
fn messages() {
    assert_eq!(sent_message(12), "已发送 12 字节");
    assert_eq!(connected_message("COM3"), "已连接 COM3");
    assert_eq!(saved_message("hicom_log_x.txt"), "已保存: hicom_log_x.txt");
    assert_eq!(log_path("20240101_000000"), "hicom_log_20240101_000000.txt");
    assert_eq!(open_failed_message("busy"), format!("打开失败: {}", "busy"));
    assert_eq!(send_failed_message("closed"), format!("发送失败: {}", "closed"));
    assert_eq!(save_failed_message("denied"), format!("保存失败: {}", "denied"));
}
