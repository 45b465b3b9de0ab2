//! The buffer of received bytes that the reading thread fills and the
//! display takes from, and how received bytes are shown.
use vstd::prelude::*;
use crate::digits::hex_pair;

verus! {

/// Above this many buffered bytes the oldest are dropped.
pub const RAW_LIMIT: usize = 524288;

/// How many of the newest bytes are kept when the buffer is cut back.
pub const RAW_KEEP: usize = 262144;

/// The most bytes the display takes from the buffer at a time.
pub const BATCH: usize = 65536;

/// The buffer of received bytes, shared between the reading thread and the
/// display: the bytes not yet shown, and a count of bytes read and not yet
/// taken (which dropping old bytes does not lower).
pub struct RxBuf {
    raw: Vec<u8>,
    bytes: u64,
}

/// `s` cut back to its newest `RAW_KEEP` bytes where it is longer than
/// `RAW_LIMIT`.
pub open spec fn keep_newest(s: Seq<u8>) -> Seq<u8> {
    if s.len() > RAW_LIMIT {
        s.skip(s.len() - RAW_KEEP)
    } else {
        s
    }
}

impl RxBuf {
    /// The bytes not yet shown.
    pub closed spec fn data(&self) -> Seq<u8> {
        self.raw@
    }

    /// The count of bytes read and not yet taken.
    pub closed spec fn counter(&self) -> nat {
        self.bytes as nat
    }

    /// The count covers every byte held, so a zero count means an empty
    /// buffer and no held byte is left behind by the early return of
    /// `take_batch`.
    pub open spec fn counted(&self) -> bool {
        self.counter() >= self.data().len()
    }

    /// The buffer holds no more than `RAW_LIMIT` bytes.
    pub open spec fn bounded(&self) -> bool {
        self.data().len() <= RAW_LIMIT
    }

    /// An empty buffer.
    pub fn new() -> (b: RxBuf)
        ensures
            b.data() == Seq::<u8>::empty(),
            b.counter() == 0,
            b.counted(),
    {
        RxBuf { raw: Vec::with_capacity(BATCH), bytes: 0 }
    }

    /// The count of bytes read and not yet taken.
    pub fn pending(&self) -> (n: u64)
        ensures
            n == self.counter(),
    {
        self.bytes
    }

    /// The number of bytes held.
    pub fn len(&self) -> (n: usize)
        ensures
            n == self.data().len(),
    {
        self.raw.len()
    }

    /// Cuts the buffer back to its newest `RAW_KEEP` bytes where it holds
    /// more than `RAW_LIMIT`.
    fn cut_back(&mut self)
        ensures
            final(self).data() == keep_newest(old(self).data()),
            final(self).counter() == old(self).counter(),
    {
        if self.raw.len() > RAW_LIMIT {
            let k = self.raw.len() - RAW_KEEP;
            let mut tail = self.raw.split_off(k);
            core::mem::swap(&mut self.raw, &mut tail);
        }
    }

    /// Adds the bytes of one read (the reading thread's side).
    pub fn push_chunk(&mut self, chunk: &[u8])
        requires
            old(self).counter() + chunk@.len() <= u64::MAX,
        ensures
            final(self).data() == keep_newest(old(self).data() + chunk@),
            final(self).counter() == old(self).counter() + chunk@.len(),
            final(self).bounded(),
            old(self).counted() ==> final(self).counted(),
    {
        let ghost start = self.raw@;
        let mut i: usize = 0;
        while i < chunk.len()
            invariant
                i <= chunk@.len(),
                self.raw@ == start + chunk@.take(i as int),
                self.bytes == old(self).bytes,
            decreases chunk.len() - i,
        {
            self.raw.push(chunk[i]);
            i += 1;
            assert(self.raw@ =~= start + chunk@.take(i as int));
        }
        assert(chunk@.take(chunk@.len() as int) =~= chunk@);
        self.bytes = self.bytes + chunk.len() as u64;
        self.cut_back();
    }

    /// Takes the oldest bytes for display, at most `BATCH` of them; nothing
    /// where the count or the buffer is empty.
    pub fn take_batch(&mut self) -> (batch: Vec<u8>)
        ensures
            old(self).counter() == 0 || old(self).data().len() == 0 ==> {
                &&& batch@ == Seq::<u8>::empty()
                &&& final(self).data() == old(self).data()
                &&& final(self).counter() == old(self).counter()
            },
            old(self).counter() != 0 && old(self).data().len() != 0 ==> {
                let n = if old(self).data().len() < BATCH {
                    old(self).data().len() as int
                } else {
                    BATCH as int
                };
                &&& batch@ == old(self).data().take(n)
                &&& final(self).data() == keep_newest(old(self).data().skip(n))
                &&& final(self).counter() == if old(self).counter() >= n {
                    (old(self).counter() - n) as nat
                } else {
                    0
                }
            },
            old(self).bounded() ==> final(self).bounded(),
            old(self).counted() ==> final(self).counted(),
    {
        if self.bytes == 0 || self.raw.len() == 0 {
            return Vec::new();
        }
        let n = if self.raw.len() < BATCH {
            self.raw.len()
        } else {
            BATCH
        };
        let mut rest = self.raw.split_off(n);
        core::mem::swap(&mut self.raw, &mut rest);
        self.bytes = self.bytes.saturating_sub(n as u64);
        self.cut_back();
        rest
    }
}

/// How a received byte is shown as text: printable ASCII, space, tab,
/// carriage return and line feed as themselves, anything else as `.`.
pub open spec fn shown_char(b: u8) -> char {
    if (0x21 <= b <= 0x7E) || b == 0x20 || b == 0x0A || b == 0x0D || b == 0x09 {
        b as char
    } else {
        '.'
    }
}

/// Received bytes as text.
pub open spec fn ascii_text(d: Seq<u8>) -> Seq<char> {
    d.map_values(|b: u8| shown_char(b))
}

/// Received bytes in hexadecimal: two upper-case digits and a space each.
pub open spec fn hex_text(d: Seq<u8>) -> Seq<char>
    decreases d.len(),
{
    if d.len() == 0 {
        seq![]
    } else {
        hex_text(d.drop_last()) + hex_pair(d.last()) + seq![' ']
    }
}

/// How a received byte is shown as text.
pub fn shown(b: u8) -> (c: char)
    ensures
        c == shown_char(b),
{
    if (0x21 <= b && b <= 0x7E) || b == 0x20 || b == 0x0A || b == 0x0D || b == 0x09 {
        b as char
    } else {
        '.'
    }
}

/// Within its limit, the buffer loses and reorders nothing: a batch taken
/// from it followed by what stays makes up what it held.
pub proof fn law_batch_keeps_order(d: Seq<u8>)
    requires
        d.len() <= RAW_LIMIT,
    ensures
        ({
            let n = if d.len() < BATCH {
                d.len() as int
            } else {
                BATCH as int
            };
            d.take(n) + keep_newest(d.skip(n)) == d
        }),
{
    let n = if d.len() < BATCH {
        d.len() as int
    } else {
        BATCH as int
    };
    assert(d.take(n) + d.skip(n) =~= d);
}

/// Where the count covers the bytes held, a zero count means that nothing
/// is held: taking a batch finds nothing only where nothing was received.
pub proof fn law_zero_count_empty(b: RxBuf)
    requires
        b.counted(),
        b.counter() == 0,
    ensures
        b.data().len() == 0,
{
}

} // verus!
