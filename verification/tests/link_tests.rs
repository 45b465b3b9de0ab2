use hicom::link::{on_inbox, on_read, Inbox, PortAction, PortCmd, ReadAction, ReadResult};

#[test]
fn read_outcomes() {
    assert!(matches!(on_read(ReadResult::Bytes(5)), ReadAction::Append(5)));
    assert!(matches!(on_read(ReadResult::Bytes(0)), ReadAction::Wait));
    assert!(matches!(on_read(ReadResult::TimedOut), ReadAction::Wait));
    assert!(matches!(on_read(ReadResult::Failed), ReadAction::Stop));
}

#[test]
fn inbox_messages() {
    match on_inbox(Inbox::Cmd(PortCmd::Write(vec![1, 2, 3]))) {
        PortAction::Write(d) => assert_eq!(d, vec![1, 2, 3]),
        _ => panic!("expected a write"),
    }
    assert!(matches!(on_inbox(Inbox::Cmd(PortCmd::SetDtr(true))), PortAction::SetDtr(true)));
    assert!(matches!(on_inbox(Inbox::Cmd(PortCmd::SetRts(false))), PortAction::SetRts(false)));
    assert!(matches!(on_inbox(Inbox::Cmd(PortCmd::Close)), PortAction::Stop));
    assert!(matches!(on_inbox(Inbox::Disconnected), PortAction::Stop));
    assert!(matches!(on_inbox(Inbox::Empty), PortAction::Wait));
}
