//! The received data as the display shows it: as text and in hexadecimal,
//! each cut back when it grows too long, and the count of bytes received.
use vstd::prelude::*;
use vstd::string::{StringExecFns, StrSliceExecFns};
use vstd::utf8::is_ascii_chars;
use crate::clock::{clock_text, clock_unknown, lemma_clock_text_ascii, ts};
use crate::digits::{hex_pair, push_hex_pair};
use crate::rx::{ascii_text, hex_text, shown, shown_char};
use crate::text::push_char;

verus! {

/// Above this many characters a rendering is cut back to its newest half.
pub const TEXT_CAP: usize = 262144;

/// `t` cut back to its newest `TEXT_CAP / 2` characters where it is longer
/// than `TEXT_CAP`.
pub open spec fn cap_text(t: Seq<char>) -> Seq<char> {
    if t.len() > TEXT_CAP {
        t.skip(t.len() - TEXT_CAP / 2)
    } else {
        t
    }
}

/// `[stamp] ` where there is a stamp.
pub open spec fn stamp_prefix(stamp: Option<Seq<char>>) -> Seq<char> {
    match stamp {
        Some(t) => seq!['['] + t + seq![']', ' '],
        None => seq![],
    }
}

/// A stamp that `ts` can give.
pub open spec fn is_time_stamp(t: Seq<char>) -> bool {
    t == clock_unknown() || exists|secs: u64, millis: u32|
        millis < 1000 && t == clock_text(secs as nat, millis as nat)
}

/// The received data as shown: text, hexadecimal, and the byte count.
pub struct RxLog {
    txt: String,
    hex: String,
    rx_n: u64,
}

impl RxLog {
    /// Both renderings are ASCII and no longer than `TEXT_CAP`.
    #[verifier::type_invariant]
    spec fn inv(self) -> bool {
        &&& is_ascii_chars(self.txt@)
        &&& is_ascii_chars(self.hex@)
        &&& self.txt@.len() <= TEXT_CAP
        &&& self.hex@.len() <= TEXT_CAP
    }

    /// Both renderings are ASCII and no longer than `TEXT_CAP`, so cutting
    /// them back always falls between characters.
    pub open spec fn kept(&self) -> bool {
        &&& is_ascii_chars(self.text())
        &&& is_ascii_chars(self.hex_dump())
        &&& self.text().len() <= TEXT_CAP
        &&& self.hex_dump().len() <= TEXT_CAP
    }

    /// The text rendering.
    pub closed spec fn text(&self) -> Seq<char> {
        self.txt@
    }

    /// The hexadecimal rendering.
    pub closed spec fn hex_dump(&self) -> Seq<char> {
        self.hex@
    }

    /// The number of bytes received since the last clear.
    pub closed spec fn count(&self) -> nat {
        self.rx_n as nat
    }

    /// Nothing received.
    pub fn new() -> (r: RxLog)
        ensures
            r.text() == Seq::<char>::empty(),
            r.hex_dump() == Seq::<char>::empty(),
            r.count() == 0,
            r.kept(),
    {
        RxLog { txt: String::new(), hex: String::new(), rx_n: 0 }
    }

    /// The text rendering.
    pub fn txt(&self) -> (s: &str)
        ensures
            s@ == self.text(),
            s@.len() <= TEXT_CAP,
            is_ascii_chars(s@),
    {
        proof {
            use_type_invariant(self);
        }
        self.txt.as_str()
    }

    /// The hexadecimal rendering.
    pub fn hex(&self) -> (s: &str)
        ensures
            s@ == self.hex_dump(),
            s@.len() <= TEXT_CAP,
            is_ascii_chars(s@),
    {
        proof {
            use_type_invariant(self);
        }
        self.hex.as_str()
    }

    /// The number of bytes received since the last clear.
    pub fn rx_n(&self) -> (n: u64)
        ensures
            n == self.count(),
    {
        self.rx_n
    }

    /// Forgets all that was received.
    pub fn clr(&mut self)
        ensures
            final(self).text() == Seq::<char>::empty(),
            final(self).hex_dump() == Seq::<char>::empty(),
            final(self).count() == 0,
            final(self).kept(),
    {
        proof {
            use_type_invariant(&*self);
        }
        self.txt = String::new();
        self.hex = String::new();
        self.rx_n = 0;
        assert(is_ascii_chars(self.txt@));
    }

    /// Shows a batch of received bytes, behind `[stamp] ` where a stamp is
    /// given; an empty batch changes nothing.
    pub fn show_batch_stamped(&mut self, data: &[u8], stamp: Option<&str>)
        requires
            old(self).count() + data@.len() <= u64::MAX,
            stamp matches Some(t) ==> is_ascii_chars(t@),
        ensures
            data@.len() == 0 ==> *final(self) == *old(self),
            final(self).kept(),
            data@.len() > 0 ==> {
                let pre = stamp_prefix(
                    match stamp {
                        Some(t) => Some(t@),
                        None => None,
                    },
                );
                &&& final(self).count() == old(self).count() + data@.len()
                &&& final(self).text() == cap_text(old(self).text() + pre + ascii_text(data@))
                &&& final(self).hex_dump() == cap_text(old(self).hex_dump() + pre + hex_text(data@))
            },
    {
        proof {
            use_type_invariant(&*self);
        }
        if data.len() == 0 {
            return;
        }
        let ghost pre = stamp_prefix(
            match stamp {
                Some(t) => Some(t@),
                None => None,
            },
        );
        let mut t = String::new();
        core::mem::swap(&mut t, &mut self.txt);
        let mut h = String::new();
        core::mem::swap(&mut h, &mut self.hex);
        let ghost t0 = t@;
        let ghost h0 = h@;
        match stamp {
            Some(s) => {
                push_char(&mut t, '[');
                t.append(s);
                push_char(&mut t, ']');
                push_char(&mut t, ' ');
                push_char(&mut h, '[');
                h.append(s);
                push_char(&mut h, ']');
                push_char(&mut h, ' ');
            },
            None => {},
        }
        assert(t@ =~= t0 + pre);
        assert(h@ =~= h0 + pre);
        assert(is_ascii_chars(pre));
        let ghost t1 = t@;
        let ghost h1 = h@;
        let mut i: usize = 0;
        while i < data.len()
            invariant
                i <= data@.len(),
                t@ == t1 + ascii_text(data@.take(i as int)),
                h@ == h1 + hex_text(data@.take(i as int)),
            decreases data.len() - i,
        {
            let b = data[i];
            push_char(&mut t, shown(b));
            push_hex_pair(&mut h, b);
            push_char(&mut h, ' ');
            proof {
                assert(data@.take(i + 1).drop_last() =~= data@.take(i as int));
                assert(ascii_text(data@.take(i + 1)) =~= ascii_text(data@.take(i as int)).push(
                    shown_char(b),
                ));
            }
            i += 1;
            assert(t@ =~= t1 + ascii_text(data@.take(i as int)));
            assert(h@ =~= h1 + hex_text(data@.take(i as int)));
        }
        assert(data@.take(data@.len() as int) =~= data@);
        proof {
            lemma_ascii_text_ascii(data@);
            lemma_hex_text_ascii(data@);
            assert(is_ascii_chars(t@));
            assert(is_ascii_chars(h@));
        }
        self.txt = cap_string(t);
        self.hex = cap_string(h);
        self.rx_n = self.rx_n + data.len() as u64;
        proof {
            use_type_invariant(&*self);
        }
        assert(t1 + ascii_text(data@) =~= old(self).text() + pre + ascii_text(data@));
        assert(h1 + hex_text(data@) =~= old(self).hex_dump() + pre + hex_text(data@));
    }

    /// Shows a batch of received bytes, behind the time of day where
    /// `show_ts` is set; an empty batch changes nothing.
    pub fn show_batch(&mut self, data: &[u8], show_ts: bool)
        requires
            old(self).count() + data@.len() <= u64::MAX,
        ensures
            data@.len() == 0 ==> *final(self) == *old(self),
            final(self).kept(),
            data@.len() > 0 ==> exists|stamp: Option<Seq<char>>|
                {
                    &&& (show_ts <==> stamp is Some)
                    &&& (stamp matches Some(t) ==> is_time_stamp(t))
                    &&& final(self).count() == old(self).count() + data@.len()
                    &&& final(self).text() == cap_text(
                        old(self).text() + stamp_prefix(stamp) + ascii_text(data@),
                    )
                    &&& final(self).hex_dump() == cap_text(
                        old(self).hex_dump() + stamp_prefix(stamp) + hex_text(data@),
                    )
                },
    {
        if show_ts && data.len() > 0 {
            let t = ts();
            proof {
                if t@ != clock_unknown() {
                    let (secs, millis) = choose|secs: u64, millis: u32|
                        millis < 1000 && t@ == clock_text(secs as nat, millis as nat);
                    lemma_clock_text_ascii(secs as nat, millis as nat);
                }
                assert(is_ascii_chars(clock_unknown()));
            }
            self.show_batch_stamped(data, Some(t.as_str()));
            assert(is_time_stamp(t@));
            let ghost st = Some(t@);
            assert(final(self).text() == cap_text(old(self).text() + stamp_prefix(st) + ascii_text(data@)));
        } else {
            self.show_batch_stamped(data, None);
            let ghost st: Option<Seq<char>> = None;
            assert(data@.len() > 0 ==> final(self).text() == cap_text(old(self).text() + stamp_prefix(st) + ascii_text(data@)));
        }
    }
}

/// `t` cut back to its newest half where it is longer than `TEXT_CAP`.
fn cap_string(t: String) -> (r: String)
    requires
        is_ascii_chars(t@),
    ensures
        r@ == cap_text(t@),
        is_ascii_chars(r@),
        r@.len() <= TEXT_CAP,
{
    let s = t.as_str();
    proof {
        assert(vstd::string::is_ascii(s));
    }
    let n = s.unicode_len();
    if n > TEXT_CAP {
        let sub = s.substring_ascii(n - TEXT_CAP / 2, n);
        assert(sub@ == t@.subrange(n - TEXT_CAP / 2, n as int));
        let r = String::from_str(sub);
        assert(r@ == sub@);
        assert(r@ =~= cap_text(t@));
        r
    } else {
        t
    }
}

/// The text rendering of bytes is ASCII.
proof fn lemma_ascii_text_ascii(d: Seq<u8>)
    ensures
        is_ascii_chars(ascii_text(d)),
{
    assert forall|i| 0 <= i < ascii_text(d).len() implies '\0' <= #[trigger] ascii_text(d)[i]
        <= '\u{7f}' by {
        let b = d[i];
        assert(ascii_text(d)[i] == shown_char(b));
    }
}

/// The hexadecimal rendering of bytes is ASCII.
proof fn lemma_hex_text_ascii(d: Seq<u8>)
    ensures
        is_ascii_chars(hex_text(d)),
    decreases d.len(),
{
    if d.len() > 0 {
        lemma_hex_text_ascii(d.drop_last());
        let p = hex_text(d.drop_last());
        let q = hex_pair(d.last());
        assert forall|i| 0 <= i < hex_text(d).len() implies '\0' <= #[trigger] hex_text(d)[i]
            <= '\u{7f}' by {
            if i < p.len() {
                assert(hex_text(d)[i] == p[i]);
            } else if i < p.len() + 2 {
                assert(hex_text(d)[i] == q[i - p.len()]);
            }
        }
    }
}

} // verus!
