//! Time stamps: the one put before each batch of received data, and the
//! one in the name of a saved log.
use vstd::prelude::*;
use core::time::Duration;
use crate::digits::{dec_pad, push_dec};
use crate::text::push_char;

verus! {

/// The time of day of `secs` seconds and `millis` milliseconds past the
/// epoch, as `HH:MM:SS.mmm`.
pub open spec fn clock_text(secs: nat, millis: nat) -> Seq<char> {
    dec_pad((secs / 3600) % 24, 2) + seq![':'] + dec_pad((secs / 60) % 60, 2) + seq![':']
        + dec_pad(secs % 60, 2) + seq!['.'] + dec_pad(millis, 3)
}

/// The stamp of a log file name for `secs` seconds past the epoch:
/// `YYYYMMDD_HHMMSS`, counting years of 31556952 seconds and months of
/// 2629744 seconds from 1970.
pub open spec fn file_stamp_text(secs: nat) -> Seq<char> {
    dec_pad(1970 + secs / 31556952, 4) + dec_pad((secs % 31556952) / 2629744 + 1, 2) + dec_pad(
        (secs % 2629744) / 86400 + 1,
        2,
    ) + seq!['_'] + dec_pad((secs / 3600) % 24, 2) + dec_pad((secs / 60) % 60, 2) + dec_pad(
        secs % 60,
        2,
    )
}

/// What `ts` shows when the clock stands before the epoch.
pub open spec fn clock_unknown() -> Seq<char> {
    seq!['-', '-', ':', '-', '-', ':', '-', '-', '.', '-', '-', '-']
}

/// What `chrono_now` gives when the clock stands before the epoch.
pub open spec fn stamp_unknown() -> Seq<char> {
    seq!['u', 'n', 'k', 'n', 'o', 'w', 'n']
}

/// The time elapsed since the Unix epoch (`SystemTime::elapsed` on
/// `UNIX_EPOCH`), or `None` where the system clock stands before it.
/// What it returns depends on the system clock, so nothing is stated.
#[verifier::external_body]
fn epoch_elapsed() -> Option<Duration> {
    match std::time::UNIX_EPOCH.elapsed() {
        Ok(d) => Some(d),
        Err(_) => None,
    }
}

/// `Duration::as_secs`: the whole seconds of a duration.
pub assume_specification[ Duration::as_secs ](d: &Duration) -> u64;

/// `Duration::subsec_millis`: the whole milliseconds of the fraction of a
/// second of a duration, which its documentation says is below one thousand.
pub assume_specification[ Duration::subsec_millis ](d: &Duration) -> (ms: u32)
    ensures
        ms < 1000,
;

/// `secs` seconds and `millis` milliseconds past the epoch as `HH:MM:SS.mmm`.
pub fn format_clock(secs: u64, millis: u32) -> (r: String)
    ensures
        r@ == clock_text(secs as nat, millis as nat),
{
    let mut r = String::new();
    push_dec(&mut r, (secs / 3600) % 24, 2);
    push_char(&mut r, ':');
    push_dec(&mut r, (secs / 60) % 60, 2);
    push_char(&mut r, ':');
    push_dec(&mut r, secs % 60, 2);
    push_char(&mut r, '.');
    push_dec(&mut r, millis as u64, 3);
    assert(r@ =~= clock_text(secs as nat, millis as nat));
    r
}

/// `secs` seconds past the epoch as `YYYYMMDD_HHMMSS`.
pub fn format_file_stamp(secs: u64) -> (r: String)
    ensures
        r@ == file_stamp_text(secs as nat),
{
    let mut r = String::new();
    push_dec(&mut r, 1970 + secs / 31556952, 4);
    push_dec(&mut r, (secs % 31556952) / 2629744 + 1, 2);
    push_dec(&mut r, (secs % 2629744) / 86400 + 1, 2);
    push_char(&mut r, '_');
    push_dec(&mut r, (secs / 3600) % 24, 2);
    push_dec(&mut r, (secs / 60) % 60, 2);
    push_dec(&mut r, secs % 60, 2);
    assert(r@ =~= file_stamp_text(secs as nat));
    r
}

/// `--:--:--.---`.
fn unknown_clock() -> (r: String)
    ensures
        r@ == clock_unknown(),
{
    let mut r = String::new();
    push_char(&mut r, '-');
    push_char(&mut r, '-');
    push_char(&mut r, ':');
    push_char(&mut r, '-');
    push_char(&mut r, '-');
    push_char(&mut r, ':');
    push_char(&mut r, '-');
    push_char(&mut r, '-');
    push_char(&mut r, '.');
    push_char(&mut r, '-');
    push_char(&mut r, '-');
    push_char(&mut r, '-');
    assert(r@ =~= clock_unknown());
    r
}

/// `unknown`.
fn unknown_stamp() -> (r: String)
    ensures
        r@ == stamp_unknown(),
{
    let mut r = String::new();
    push_char(&mut r, 'u');
    push_char(&mut r, 'n');
    push_char(&mut r, 'k');
    push_char(&mut r, 'n');
    push_char(&mut r, 'o');
    push_char(&mut r, 'w');
    push_char(&mut r, 'n');
    assert(r@ =~= stamp_unknown());
    r
}

/// The time of day of a duration since the epoch, as `HH:MM:SS.mmm`, or
/// `--:--:--.---` where there is no duration (the clock stands before the
/// epoch).
pub fn clock_of(d: Option<Duration>) -> (r: String)
    ensures
        d is None ==> r@ == clock_unknown(),
        d is Some ==> r@ != clock_unknown() && exists|secs: u64, millis: u32|
            millis < 1000 && r@ == clock_text(secs as nat, millis as nat),
{
    match d {
        Some(d) => {
            let secs = d.as_secs();
            let millis = d.subsec_millis();
            let r = format_clock(secs, millis);
            proof {
                law_clock_text_is_a_time(secs as nat, millis as nat);
            }
            r
        },
        None => unknown_clock(),
    }
}

/// The stamp of a duration since the epoch, as `YYYYMMDD_HHMMSS`, or
/// `unknown` where there is no duration (the clock stands before the
/// epoch).
pub fn stamp_of(d: Option<Duration>) -> (r: String)
    ensures
        d is None ==> r@ == stamp_unknown(),
        d is Some ==> r@ != stamp_unknown() && exists|secs: u64| r@ == file_stamp_text(secs as nat),
{
    match d {
        Some(d) => {
            let secs = d.as_secs();
            let r = format_file_stamp(secs);
            proof {
                law_file_stamp_is_a_date(secs as nat);
            }
            r
        },
        None => unknown_stamp(),
    }
}

/// The time of day now, as `HH:MM:SS.mmm`, or `--:--:--.---` where the
/// system clock stands before the epoch.
pub fn ts() -> (r: String)
    ensures
        r@ == clock_unknown() || exists|secs: u64, millis: u32|
            millis < 1000 && r@ == clock_text(secs as nat, millis as nat),
{
    clock_of(epoch_elapsed())
}

/// The date and time now, as `YYYYMMDD_HHMMSS`, or `unknown` where the
/// system clock stands before the epoch.
pub fn chrono_now() -> (r: String)
    ensures
        r@ == stamp_unknown() || exists|secs: u64| r@ == file_stamp_text(secs as nat),
{
    stamp_of(epoch_elapsed())
}

/// A time of day is never the placeholder: it is twelve characters,
/// `HH:MM:SS.mmm`, starting with a digit, with `:` at 2 and 5 and `.` at 8.
pub proof fn law_clock_text_is_a_time(secs: nat, millis: nat)
    requires
        millis < 1000,
    ensures
        clock_text(secs, millis) != clock_unknown(),
        clock_text(secs, millis).len() == 12,
        '0' <= clock_text(secs, millis)[0] <= '9',
        clock_text(secs, millis)[2] == ':',
        clock_text(secs, millis)[5] == ':',
        clock_text(secs, millis)[8] == '.',
{
    let a = dec_pad((secs / 3600) % 24, 2);
    let b = dec_pad((secs / 60) % 60, 2);
    let c = dec_pad(secs % 60, 2);
    let d = dec_pad(millis, 3);
    crate::digits::lemma_dec_pad_first_digit((secs / 3600) % 24, 2);
    reveal_with_fuel(crate::digits::pow10, 4);
    lemma_dec_pad_width((secs / 3600) % 24, 2);
    lemma_dec_pad_width((secs / 60) % 60, 2);
    lemma_dec_pad_width(secs % 60, 2);
    lemma_dec_pad_width(millis, 3);
    let t = clock_text(secs, millis);
    assert(t[0] == a[0]);
    assert(t[2] == ':');
    assert(t[5] == ':');
    assert(t[8] == '.');
    assert(clock_unknown()[0] == '-');
}

/// A date stamp is never the placeholder: it starts with a digit.
pub proof fn law_file_stamp_is_a_date(secs: nat)
    ensures
        file_stamp_text(secs) != stamp_unknown(),
        '0' <= file_stamp_text(secs)[0] <= '9',
{
    crate::digits::lemma_dec_pad_first_digit(1970 + secs / 31556952, 4);
    let t = file_stamp_text(secs);
    assert(t[0] == dec_pad(1970 + secs / 31556952, 4)[0]);
    assert(stamp_unknown()[0] == 'u');
}

/// A number below `10^width` padded to `width` digits takes exactly
/// `width` characters.
proof fn lemma_dec_pad_width(n: nat, width: nat)
    requires
        width >= 1,
        n < crate::digits::pow10(width),
    ensures
        dec_pad(n, width).len() == width,
{
    crate::digits::lemma_dec_len_below(n, width);
}

/// The stamps that `ts` gives are ASCII.
pub proof fn lemma_clock_text_ascii(secs: nat, millis: nat)
    ensures
        vstd::utf8::is_ascii_chars(clock_text(secs, millis)),
{
    crate::digits::lemma_dec_pad_ascii((secs / 3600) % 24, 2);
    crate::digits::lemma_dec_pad_ascii((secs / 60) % 60, 2);
    crate::digits::lemma_dec_pad_ascii(secs % 60, 2);
    crate::digits::lemma_dec_pad_ascii(millis, 3);
    broadcast use vstd::utf8::is_ascii_chars_concat;
    let t = clock_text(secs, millis);
    assert forall|i| 0 <= i < t.len() implies '\0' <= #[trigger] t[i] <= '\u{7f}' by {
        let a = dec_pad((secs / 3600) % 24, 2);
        let b = dec_pad((secs / 60) % 60, 2);
        let c = dec_pad(secs % 60, 2);
        let d = dec_pad(millis, 3);
        if i < a.len() {
            assert(t[i] == a[i]);
        } else if i < a.len() + 1 {
        } else if i < a.len() + 1 + b.len() {
            assert(t[i] == b[i - a.len() - 1]);
        } else if i < a.len() + 2 + b.len() {
        } else if i < a.len() + 2 + b.len() + c.len() {
            assert(t[i] == c[i - a.len() - 2 - b.len()]);
        } else if i < a.len() + 3 + b.len() + c.len() {
        } else {
            assert(t[i] == d[i - a.len() - 3 - b.len() - c.len()]);
        }
    }
}

} // verus!
