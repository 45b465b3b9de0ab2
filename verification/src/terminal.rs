//! The state of the terminal apart from the window and the port thread:
//! the settings, the text to send, the received data, the byte counters,
//! and the decisions taken on open, close, send and save.
use vstd::prelude::*;
use vstd::string::StringExecFns;
use crate::config::{DataBits, FlowCtrl, Newline, Parity, StopBits, ViewMode};
use crate::digits::{dec, push_dec};
use crate::payload::{build_payload, payload, payload_cuts_char, result_view};
use crate::ports::{default_port, default_port_of, texts};
use crate::rxlog::RxLog;
use crate::text::{chars_of, port_name_of, port_name_only, trim, trim_str};

verus! {

/// A decimal digit.
pub open spec fn is_digit(c: char) -> bool {
    '0' <= c <= '9'
}

/// The value of a string of decimal digits.
pub open spec fn digits_value(d: Seq<char>) -> nat
    decreases d.len(),
{
    if d.len() == 0 {
        0
    } else {
        digits_value(d.drop_last()) * 10 + (d.last() as u32 - '0' as u32) as nat
    }
}

/// Whether `d` is all decimal digits.
pub open spec fn all_digits(d: Seq<char>) -> bool {
    forall|i: int| 0 <= i < d.len() ==> is_digit(#[trigger] d[i])
}

/// `s` without a leading `+`.
pub open spec fn unsigned_part(s: Seq<char>) -> Seq<char> {
    if s.len() > 0 && s[0] == '+' {
        s.skip(1)
    } else {
        s
    }
}

/// `s` read as a `u32` the way `str::parse` does: an optional `+`, then
/// one or more decimal digits, of a value that fits.
pub open spec fn parse_u32_text(s: Seq<char>) -> Option<u32> {
    let d = unsigned_part(s);
    if d.len() > 0 && all_digits(d) && digits_value(d) <= u32::MAX {
        Some(digits_value(d) as u32)
    } else {
        None
    }
}

/// `s` read as a `u32` the way `str::parse` does.
pub fn parse_u32(s: &str) -> (r: Option<u32>)
    ensures
        r == parse_u32_text(s@),
{
    let v = chars_of(s);
    let start: usize = if v.len() > 0 && v[0] == '+' {
        1
    } else {
        0
    };
    let ghost d = unsigned_part(s@);
    assert(d =~= v@.skip(start as int));
    if start == v.len() {
        return None;
    }
    let mut acc: u64 = 0;
    let mut i = start;
    while i < v.len()
        invariant
            start <= i <= v.len(),
            d == v@.skip(start as int),
            v@ == s@,
            d == unsigned_part(s@),
            forall|j: int| start <= j < i ==> is_digit(#[trigger] v@[j]),
            acc == if digits_value(d.take(i - start)) <= u32::MAX {
                digits_value(d.take(i - start)) as int
            } else {
                u32::MAX + 1
            },
        decreases v.len() - i,
    {
        let c = v[i];
        if !('0' <= c && c <= '9') {
            assert(d[i - start] == c);
            assert(!is_digit(d[i - start]));
            return None;
        }
        let x = (c as u32 - '0' as u32) as u64;
        proof {
            assert(d.take(i - start + 1).drop_last() =~= d.take(i - start));
            assert(d.take(i - start + 1).last() == c);
        }
        acc = acc * 10 + x;
        if acc > u32::MAX as u64 {
            acc = u32::MAX as u64 + 1;
        }
        i += 1;
    }
    assert(d.take(d.len() as int) =~= d);
    assert forall|j: int| 0 <= j < d.len() implies is_digit(#[trigger] d[j]) by {
        assert(d[j] == v@[start + j]);
    }
    if acc <= u32::MAX as u64 {
        Some(acc as u32)
    } else {
        None
    }
}

/// What one press of "send" does.
pub enum SendPlan {
    /// Nothing is sent; the message says why.
    Refuse(String),
    /// There is nothing to send.
    Nothing,
    /// These bytes go to the port.
    Write(Vec<u8>),
}

/// The message shown where nothing can be sent because the port is closed.
pub open spec fn not_open_message() -> Seq<char> {
    "未打开串口"@
}

/// The message shown where no port is selected.
pub open spec fn no_port_message() -> Seq<char> {
    "请选择串口"@
}

/// The message shown where the baud rate is not a number.
pub open spec fn bad_baud_message() -> Seq<char> {
    "波特率无效"@
}

/// The message shown after the port is closed.
pub open spec fn closed_message() -> Seq<char> {
    "已关闭"@
}

/// The message shown after `n` bytes were handed to the port.
pub open spec fn sent_message_text(n: nat) -> Seq<char> {
    "已发送 "@ + dec(n) + " 字节"@
}

/// The message shown after the port `name` was opened.
pub open spec fn connected_message_text(name: Seq<char>) -> Seq<char> {
    "已连接 "@ + name
}

/// The message shown after the log was saved to `path`.
pub open spec fn saved_message_text(path: Seq<char>) -> Seq<char> {
    "已保存: "@ + path
}

/// The message shown where the port could not be opened, with the reason.
pub open spec fn open_failed_message_text(err: Seq<char>) -> Seq<char> {
    "打开失败: "@ + err
}

/// The message shown where the bytes could not be handed to the port
/// thread, with the reason.
pub open spec fn send_failed_message_text(err: Seq<char>) -> Seq<char> {
    "发送失败: "@ + err
}

/// The message shown where the log could not be written, with the reason.
pub open spec fn save_failed_message_text(err: Seq<char>) -> Seq<char> {
    "保存失败: "@ + err
}

/// The name of the file the log is saved to, for the time stamp `stamp`.
pub open spec fn log_path_text(stamp: Seq<char>) -> Seq<char> {
    "hicom_log_"@ + stamp + ".txt"@
}

/// The plan of one press of "send": refused while the port is closed or
/// where the text is no valid payload, nothing where the payload is empty.
pub open spec fn send_plan_of(port_open: bool, send: Seq<char>, hex_mode: bool, nl: Newline) -> Result<
    Option<Seq<u8>>,
    Seq<char>,
> {
    if !port_open {
        Err(not_open_message())
    } else {
        match payload(send, hex_mode, nl) {
            Err(m) => Err(m),
            Ok(v) => if v.len() == 0 {
                Ok(None)
            } else {
                Ok(Some(v))
            },
        }
    }
}

/// The port name and baud rate to open a port with, for the selected
/// label `sel` and the typed baud rate `baud`; or the message to show:
/// no port selected, or a baud rate that is no number.
pub open spec fn open_plan_of(sel: Seq<char>, baud: Seq<char>) -> Result<(Seq<char>, u32), Seq<char>> {
    if sel.len() == 0 {
        Err(no_port_message())
    } else {
        match parse_u32_text(trim(baud)) {
            Some(b) => Ok((port_name_of(sel), b)),
            None => Err(bad_baud_message()),
        }
    }
}

/// An open plan by its views.
pub open spec fn open_view(r: Result<(String, u32), String>) -> Result<(Seq<char>, u32), Seq<char>> {
    match r {
        Ok((n, b)) => Ok((n@, b)),
        Err(m) => Err(m@),
    }
}

/// A plan by its views.
pub open spec fn plan_view(p: SendPlan) -> Result<Option<Seq<u8>>, Seq<char>> {
    match p {
        SendPlan::Refuse(m) => Err(m@),
        SendPlan::Nothing => Ok(None),
        SendPlan::Write(v) => Ok(Some(v@)),
    }
}

/// The state of the terminal apart from the window and the port thread.
pub struct Terminal {
    /// The names of the ports offered.
    pub names: Vec<String>,
    /// The label of the selected port.
    pub sel_port: String,
    /// The baud rate as typed.
    pub baud: String,
    pub db: DataBits,
    pub sb: StopBits,
    pub par: Parity,
    pub fc: FlowCtrl,
    pub dtr: bool,
    pub rts: bool,
    /// Which rendering of the received data is shown.
    pub view: ViewMode,
    /// The received data.
    pub rx: RxLog,
    /// The number of bytes handed to the port since it was opened.
    pub tx_n: u64,
    /// Whether each batch of received data gets a time stamp.
    pub ts: bool,
    pub paused: bool,
    /// The text to send.
    pub send: String,
    /// Whether the text to send is read as hexadecimal.
    pub hexmd: bool,
    /// The line ending appended to each send.
    pub nl: Newline,
    /// Whether the text is sent periodically.
    pub auto: bool,
    /// The period of automatic sending, in milliseconds, as typed.
    pub auto_t: String,
    /// Whether the port was open at the last frame.
    pub was_on: bool,
}

impl Terminal {
    /// The state at start, offering the ports `names`: the first described
    /// port selected, 115200 baud, 8 data bits, 1 stop bit, no parity, no
    /// flow control, DTR and RTS on, the text view with time stamps, text
    /// mode with CR LF, automatic sending every 200 ms.
    pub fn new(names: Vec<String>) -> (t: Terminal)
        ensures
            texts(t.names@) == texts(names@),
            t.sel_port@ == default_port_of(texts(names@)),
            t.baud@ == "115200"@,
            t.db == DataBits::Eight,
            t.sb == StopBits::One,
            t.par == Parity::Off,
            t.fc == FlowCtrl::Off,
            t.dtr && t.rts,
            t.view == ViewMode::Ascii,
            t.rx.text() == Seq::<char>::empty(),
            t.rx.hex_dump() == Seq::<char>::empty(),
            t.rx.count() == 0,
            t.rx.kept(),
            t.tx_n == 0,
            t.ts && !t.paused,
            t.send@ == Seq::<char>::empty(),
            !t.hexmd,
            t.nl == Newline::CrLf,
            t.auto,
            t.auto_t@ == "200"@,
            !t.was_on,
    {
        let sel = default_port(&names);
        Terminal {
            names,
            sel_port: sel,
            baud: String::from_str("115200"),
            db: DataBits::Eight,
            sb: StopBits::One,
            par: Parity::Off,
            fc: FlowCtrl::Off,
            dtr: true,
            rts: true,
            view: ViewMode::Ascii,
            rx: RxLog::new(),
            tx_n: 0,
            ts: true,
            paused: false,
            send: String::new(),
            hexmd: false,
            nl: Newline::CrLf,
            auto: true,
            auto_t: String::from_str("200"),
            was_on: false,
        }
    }

    /// The bytes one send puts on the wire, or the message to show instead.
    pub fn mk_data(&self) -> (r: Result<Vec<u8>, String>)
        requires
            !payload_cuts_char(self.send@, self.hexmd),
        ensures
            result_view(r) == payload(self.send@, self.hexmd, self.nl),
    {
        build_payload(self.send.as_str(), self.hexmd, self.nl)
    }

    /// What one press of "send" does, given whether the port is open.
    pub fn plan_send(&self, port_open: bool) -> (p: SendPlan)
        requires
            port_open ==> !payload_cuts_char(self.send@, self.hexmd),
        ensures
            plan_view(p) == send_plan_of(port_open, self.send@, self.hexmd, self.nl),
            !port_open ==> (p matches SendPlan::Refuse(m) && m@ == not_open_message()),
            port_open ==> match payload(self.send@, self.hexmd, self.nl) {
                Ok(v) => if v.len() > 0 {
                    p matches SendPlan::Write(w) && w@ == v
                } else {
                    p is Nothing
                },
                Err(e) => p matches SendPlan::Refuse(m) && m@ == e,
            },
    {
        if !port_open {
            return SendPlan::Refuse(String::from_str("未打开串口"));
        }
        match self.mk_data() {
            Ok(d) => if d.len() == 0 {
                SendPlan::Nothing
            } else {
                SendPlan::Write(d)
            },
            Err(m) => SendPlan::Refuse(m),
        }
    }

    /// What one tick of automatic sending hands to the port: the payload
    /// where it is valid and not empty.
    pub fn plan_auto(&self) -> (r: Option<Vec<u8>>)
        requires
            !payload_cuts_char(self.send@, self.hexmd),
        ensures
            match payload(self.send@, self.hexmd, self.nl) {
                Ok(v) => if v.len() > 0 {
                    r matches Some(d) && d@ == v
                } else {
                    r is None
                },
                Err(_) => r is None,
            },
    {
        match self.mk_data() {
            Ok(d) => if d.len() == 0 {
                None
            } else {
                Some(d)
            },
            Err(_) => None,
        }
    }

    /// Counts `n` bytes handed to the port.
    pub fn count_tx(&mut self, n: usize)
        requires
            old(self).tx_n + n <= u64::MAX,
        ensures
            *final(self) == (Terminal { tx_n: (old(self).tx_n + n) as u64, ..*old(self) }),
    {
        self.tx_n = self.tx_n + n as u64;
    }

    /// Records that the port was closed: the sent count starts over.
    pub fn close(&mut self) -> (m: String)
        ensures
            *final(self) == (Terminal { tx_n: 0, ..*old(self) }),
            m@ == closed_message(),
    {
        self.tx_n = 0;
        String::from_str("已关闭")
    }

    /// The port name and baud rate to open the port with, or the message
    /// to show instead: no port selected, or a baud rate that is no number.
    pub fn plan_open(&self) -> (r: Result<(String, u32), String>)
        ensures
            open_view(r) == open_plan_of(self.sel_port@, self.baud@),
    {
        if self.sel_port.as_str().is_empty() {
            return Err(String::from_str("请选择串口"));
        }
        let t = trim_str(self.baud.as_str());
        match parse_u32(t.as_str()) {
            Some(b) => Ok((port_name_only(self.sel_port.as_str()), b)),
            None => Err(String::from_str("波特率无效")),
        }
    }

    /// Shows a batch of received bytes, behind a time stamp where `ts` is
    /// set.
    pub fn drain_rx(&mut self, batch: &[u8])
        requires
            old(self).rx.count() + batch@.len() <= u64::MAX,
        ensures
            *final(self) == (Terminal { rx: final(self).rx, ..*old(self) }),
            batch@.len() == 0 ==> final(self).rx == old(self).rx,
            final(self).rx.kept(),
            batch@.len() > 0 ==> exists|stamp: Option<Seq<char>>|
                {
                    &&& (old(self).ts <==> stamp is Some)
                    &&& (stamp matches Some(t) ==> crate::rxlog::is_time_stamp(t))
                    &&& final(self).rx.count() == old(self).rx.count() + batch@.len()
                    &&& final(self).rx.text() == crate::rxlog::cap_text(
                        old(self).rx.text() + crate::rxlog::stamp_prefix(stamp)
                            + crate::rx::ascii_text(batch@),
                    )
                    &&& final(self).rx.hex_dump() == crate::rxlog::cap_text(
                        old(self).rx.hex_dump() + crate::rxlog::stamp_prefix(stamp)
                            + crate::rx::hex_text(batch@),
                    )
                },
    {
        let show = self.ts;
        self.rx.show_batch(batch, show);
    }

    /// Forgets all that was received.
    pub fn clr(&mut self)
        ensures
            *final(self) == (Terminal { rx: final(self).rx, ..*old(self) }),
            final(self).rx.text() == Seq::<char>::empty(),
            final(self).rx.hex_dump() == Seq::<char>::empty(),
            final(self).rx.count() == 0,
            final(self).rx.kept(),
    {
        self.rx.clr();
    }

    /// What a saved log holds: the rendering that is shown.
    pub fn log_content(&self) -> (s: String)
        ensures
            s@ == match self.view {
                ViewMode::Ascii => self.rx.text(),
                ViewMode::Hex => self.rx.hex_dump(),
            },
    {
        match self.view {
            ViewMode::Ascii => String::from_str(self.rx.txt()),
            ViewMode::Hex => String::from_str(self.rx.hex()),
        }
    }

    /// The line that describes the open port:
    /// `NAME @ BAUD DATABITS STOPBITS PARITY`.
    pub fn status_line(&self) -> (s: String)
        ensures
            s@ == port_name_of(self.sel_port@) + " @ "@ + self.baud@ + " "@ + self.db.label_text()
                + " "@ + self.sb.label_text() + " "@ + self.par.label_text(),
    {
        let mut s = port_name_only(self.sel_port.as_str());
        s.append(" @ ");
        s.append(self.baud.as_str());
        s.append(" ");
        s.append(self.db.label().as_str());
        s.append(" ");
        s.append(self.sb.label().as_str());
        s.append(" ");
        s.append(self.par.label().as_str());
        s
    }
}

/// The message shown after `n` bytes were handed to the port.
pub fn sent_message(n: usize) -> (m: String)
    ensures
        m@ == sent_message_text(n as nat),
{
    let mut m = String::from_str("已发送 ");
    push_dec(&mut m, n as u64, 0);
    m.append(" 字节");
    m
}

/// The message shown after the port `name` was opened.
pub fn connected_message(name: &str) -> (m: String)
    ensures
        m@ == connected_message_text(name@),
{
    let mut m = String::from_str("已连接 ");
    m.append(name);
    m
}

/// The message shown after the log was saved to `path`.
pub fn saved_message(path: &str) -> (m: String)
    ensures
        m@ == saved_message_text(path@),
{
    let mut m = String::from_str("已保存: ");
    m.append(path);
    m
}

/// The name of the file the log is saved to, for the time stamp `stamp`.
pub fn log_path(stamp: &str) -> (p: String)
    ensures
        p@ == log_path_text(stamp@),
{
    let mut p = String::from_str("hicom_log_");
    p.append(stamp);
    p.append(".txt");
    p
}

/// A decimal digit character stands for its value.
proof fn lemma_digit_value(x: int)
    requires
        0 <= x < 10,
    ensures
        is_digit(crate::digits::digit_char(x)),
        (crate::digits::digit_char(x) as u32 - '0' as u32) == x,
{
}

/// Decimal digits are digits, and their value is the number written.
proof fn lemma_dec_digits(n: nat)
    ensures
        all_digits(dec(n)),
        digits_value(dec(n)) == n,
        dec(n).len() > 0,
    decreases n,
{
    if n >= 10 {
        lemma_dec_digits(n / 10);
        lemma_digit_value((n % 10) as int);
        let d = dec(n);
        assert(d.drop_last() == dec(n / 10));
        assert(d.last() == crate::digits::digit_char((n % 10) as int));
        assert(digits_value(d) == digits_value(dec(n / 10)) * 10 + (n % 10));
        assert forall|i: int| 0 <= i < d.len() implies is_digit(#[trigger] d[i]) by {
            if i < d.len() - 1 {
                assert(d[i] == dec(n / 10)[i]);
            }
        }
    } else {
        lemma_digit_value(n as int);
        let d = dec(n);
        assert(d.drop_last() =~= Seq::<char>::empty());
        assert(digits_value(d.drop_last()) == 0);
        assert(d.last() == crate::digits::digit_char(n as int));
    }
}

/// A number written in decimal reads back as itself: a baud rate picked
/// from the list, or typed as digits, opens the port at that rate.
pub proof fn law_parse_dec(n: u32)
    ensures
        parse_u32_text(dec(n as nat)) == Some(n),
{
    lemma_dec_digits(n as nat);
    let d = dec(n as nat);
    assert(is_digit(d[0]));
    assert(unsigned_part(d) == d);
}

/// The message shown where the port could not be opened, with the reason.
pub fn open_failed_message(err: &str) -> (m: String)
    ensures
        m@ == open_failed_message_text(err@),
{
    let mut m = String::from_str("打开失败: ");
    m.append(err);
    m
}

/// The message shown where the bytes could not be handed to the port
/// thread, with the reason.
pub fn send_failed_message(err: &str) -> (m: String)
    ensures
        m@ == send_failed_message_text(err@),
{
    let mut m = String::from_str("发送失败: ");
    m.append(err);
    m
}

/// The message shown where the log could not be written, with the reason.
pub fn save_failed_message(err: &str) -> (m: String)
    ensures
        m@ == save_failed_message_text(err@),
{
    let mut m = String::from_str("保存失败: ");
    m.append(err);
    m
}

/// With the port open, a press of "send" writes exactly the payload of
/// the text where it is not empty (the same bytes the periodic send hands
/// over), does nothing where it is empty, and shows the payload's message
/// where there is none; with the port closed it is always refused.
pub proof fn law_send_writes_payload(port_open: bool, send: Seq<char>, hex_mode: bool, nl: Newline)
    ensures
        !port_open ==> send_plan_of(port_open, send, hex_mode, nl) == Err::<
            Option<Seq<u8>>,
            Seq<char>,
        >("未打开串口"@),
        port_open ==> match payload(send, hex_mode, nl) {
            Ok(v) => v.len() > 0 ==> send_plan_of(port_open, send, hex_mode, nl) == Ok::<
                Option<Seq<u8>>,
                Seq<char>,
            >(Some(v)),
            Err(m) => send_plan_of(port_open, send, hex_mode, nl) == Err::<
                Option<Seq<u8>>,
                Seq<char>,
            >(m),
        },
{
}

/// Any baud rate that is a `u32` written in decimal, with or without
/// surrounding white space, opens the selected port at that rate: no rate
/// of the list, nor any other, is refused.
pub proof fn law_open_accepts_every_rate(sel: Seq<char>, b: u32, pre: nat, post: nat)
    requires
        sel.len() > 0,
    ensures
        open_plan_of(sel, dec(b as nat)) == Ok::<(Seq<char>, u32), Seq<char>>(
            (port_name_of(sel), b),
        ),
        open_plan_of(sel, Seq::new(pre, |i: int| ' ') + dec(b as nat) + Seq::new(post, |i: int| ' '))
            == Ok::<(Seq<char>, u32), Seq<char>>((port_name_of(sel), b)),
{
    law_parse_dec(b);
    lemma_dec_digits(b as nat);
    lemma_trim_digits(dec(b as nat), pre, post);
    lemma_trim_digits(dec(b as nat), 0, 0);
    assert(Seq::new(0, |i: int| ' ') + dec(b as nat) + Seq::new(0, |i: int| ' ') =~= dec(
        b as nat,
    ));
}

/// Trimming spaces around non-empty digits gives the digits.
proof fn lemma_trim_digits(d: Seq<char>, pre: nat, post: nat)
    requires
        d.len() > 0,
        all_digits(d),
    ensures
        trim(Seq::new(pre, |i: int| ' ') + d + Seq::new(post, |i: int| ' ')) == d,
{
    let s = Seq::new(pre, |i: int| ' ') + d + Seq::new(post, |i: int| ' ');
    assert(is_digit(d[0]));
    assert(s[pre as int] == d[0]);
    crate::text::lemma_lead_ws(s, pre as int);
    let t = s.skip(pre as int);
    assert(t =~= d + Seq::new(post, |i: int| ' '));
    assert(is_digit(d[d.len() - 1]));
    assert(t[t.len() - 1 - post] == d[d.len() - 1]);
    crate::text::lemma_trail_ws(t, post as int);
    assert(t.take(t.len() - post) =~= d);
}

} // verus!
