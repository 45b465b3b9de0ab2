//! Character-level helpers: Unicode white space, trimming, the first
//! white-space separated word, and building strings out of characters.
use vstd::prelude::*;
use vstd::std_specs::iter::IteratorSpec;

verus! {

/// A character with the Unicode `White_Space` property.
pub open spec fn is_space_char(c: char) -> bool {
    let u = c as u32;
    ||| 0x9 <= u <= 0xD
    ||| u == 0x20
    ||| u == 0x85
    ||| u == 0xA0
    ||| u == 0x1680
    ||| 0x2000 <= u <= 0x200A
    ||| u == 0x2028
    ||| u == 0x2029
    ||| u == 0x202F
    ||| u == 0x205F
    ||| u == 0x3000
}

/// Whether `c` is white space in the Unicode sense.
pub fn is_space(c: char) -> (b: bool)
    ensures
        b == is_space_char(c),
{
    let u = c as u32;
    (0x9 <= u && u <= 0xD) || u == 0x20 || u == 0x85 || u == 0xA0 || u == 0x1680 || (0x2000 <= u
        && u <= 0x200A) || u == 0x2028 || u == 0x2029 || u == 0x202F || u == 0x205F || u == 0x3000
}

/// Appends `c` to `s` (`String::push`).
#[verifier::external_body]
pub(crate) fn push_char(s: &mut String, c: char)
    ensures
        final(s)@ == old(s)@.push(c),
{
    s.push(c);
}

/// The characters of `s`, in order.
pub fn chars_of(s: &str) -> (v: Vec<char>)
    ensures
        v@ == s@,
{
    let mut v: Vec<char> = Vec::new();
    let mut it = s.chars();
    proof {
        broadcast use vstd::string::group_string_axioms;
        assert(it.remaining() == s@);
    }
    loop
        invariant
            v@ + it.remaining() == s@,
            it.decrease() is Some,
        ensures
            v@ == s@,
        decreases it.decrease()->0,
    {
        broadcast use vstd::string::group_string_axioms;
        let ghost before = it.remaining();
        match it.next() {
            Some(c) => {
                v.push(c);
                assert(v@ + it.remaining() =~= s@) by {
                    assert(before == seq![c] + it.remaining());
                }
            },
            None => {
                assert(v@ =~= s@);
                break;
            },
        }
    }
    v
}

/// The number of white-space characters at the start of `s`.
pub open spec fn lead_ws(s: Seq<char>) -> nat
    decreases s.len(),
{
    if s.len() > 0 && is_space_char(s[0]) {
        1 + lead_ws(s.drop_first())
    } else {
        0
    }
}

/// The number of white-space characters at the end of `s`.
pub open spec fn trail_ws(s: Seq<char>) -> nat
    decreases s.len(),
{
    if s.len() > 0 && is_space_char(s.last()) {
        1 + trail_ws(s.drop_last())
    } else {
        0
    }
}

/// The number of characters at the start of `s` that are not white space.
pub open spec fn word_len(s: Seq<char>) -> nat
    decreases s.len(),
{
    if s.len() > 0 && !is_space_char(s[0]) {
        1 + word_len(s.drop_first())
    } else {
        0
    }
}

/// `s` without its leading white space (`str::trim_start`).
pub open spec fn trim_start(s: Seq<char>) -> Seq<char> {
    s.skip(lead_ws(s) as int)
}

/// `s` without its trailing white space (`str::trim_end`).
pub open spec fn trim_end(s: Seq<char>) -> Seq<char> {
    s.take(s.len() - trail_ws(s))
}

/// `s` without leading and trailing white space (`str::trim`).
pub open spec fn trim(s: Seq<char>) -> Seq<char> {
    trim_end(trim_start(s))
}

/// The first white-space separated word of `s`, if there is one
/// (the first item of `str::split_whitespace`).
pub open spec fn first_word(s: Seq<char>) -> Option<Seq<char>> {
    let t = trim_start(s);
    if t.len() == 0 {
        None
    } else {
        Some(t.take(word_len(t) as int))
    }
}

/// The name a port is opened under, given the label it is listed with:
/// the first word of the label, or the whole label if it has none.
pub open spec fn port_name_of(display: Seq<char>) -> Seq<char> {
    match first_word(display) {
        Some(w) => w,
        None => display,
    }
}

/// `lead_ws` is the length of the longest all-space prefix.
pub proof fn lemma_lead_ws(s: Seq<char>, i: int)
    requires
        0 <= i <= s.len(),
        forall|j: int| 0 <= j < i ==> is_space_char(#[trigger] s[j]),
        i == s.len() || !is_space_char(s[i]),
    ensures
        lead_ws(s) == i,
    decreases i,
{
    if i > 0 {
        let t = s.drop_first();
        assert forall|j: int| 0 <= j < i - 1 implies is_space_char(#[trigger] t[j]) by {
            assert(t[j] == s[j + 1]);
        }
        if i - 1 < t.len() {
            assert(t[i - 1] == s[i]);
        }
        lemma_lead_ws(t, i - 1);
    }
}

/// `trail_ws` is the length of the longest all-space suffix.
pub proof fn lemma_trail_ws(s: Seq<char>, i: int)
    requires
        0 <= i <= s.len(),
        forall|j: int| s.len() - i <= j < s.len() ==> is_space_char(#[trigger] s[j]),
        i == s.len() || !is_space_char(s[s.len() - 1 - i]),
    ensures
        trail_ws(s) == i,
    decreases i,
{
    if i > 0 {
        let t = s.drop_last();
        assert forall|j: int| t.len() - (i - 1) <= j < t.len() implies is_space_char(
            #[trigger] t[j],
        ) by {
            assert(t[j] == s[j]);
        }
        if i - 1 < t.len() {
            assert(t[t.len() - 1 - (i - 1)] == s[s.len() - 1 - i]);
        }
        lemma_trail_ws(t, i - 1);
    }
}

/// `word_len` is the length of the longest prefix without white space.
pub proof fn lemma_word_len(s: Seq<char>, i: int)
    requires
        0 <= i <= s.len(),
        forall|j: int| 0 <= j < i ==> !is_space_char(#[trigger] s[j]),
        i == s.len() || is_space_char(s[i]),
    ensures
        word_len(s) == i,
    decreases i,
{
    if i > 0 {
        let t = s.drop_first();
        assert forall|j: int| 0 <= j < i - 1 implies !is_space_char(#[trigger] t[j]) by {
            assert(t[j] == s[j + 1]);
        }
        if i - 1 < t.len() {
            assert(t[i - 1] == s[i]);
        }
        lemma_word_len(t, i - 1);
    }
}

/// The number of leading white-space characters of `v[lo..]`.
fn count_lead_ws(v: &Vec<char>, lo: usize) -> (n: usize)
    requires
        lo <= v.len(),
    ensures
        n == lead_ws(v@.skip(lo as int)),
        lo + n <= v.len(),
{
    let mut i = lo;
    while i < v.len() && is_space(v[i])
        invariant
            lo <= i <= v.len(),
            forall|j: int| lo <= j < i ==> is_space_char(#[trigger] v@[j]),
        decreases v.len() - i,
    {
        i += 1;
    }
    proof {
        let t = v@.skip(lo as int);
        assert forall|j: int| 0 <= j < i - lo implies is_space_char(#[trigger] t[j]) by {
            assert(t[j] == v@[lo + j]);
        }
        lemma_lead_ws(t, i - lo);
    }
    i - lo
}

/// The number of trailing white-space characters of `v[lo..hi]`.
pub(crate) fn count_trail_ws(v: &Vec<char>, lo: usize, hi: usize) -> (n: usize)
    requires
        lo <= hi <= v.len(),
    ensures
        n == trail_ws(v@.subrange(lo as int, hi as int)),
        n <= hi - lo,
{
    let mut i = hi;
    while i > lo && is_space(v[i - 1])
        invariant
            lo <= i <= hi,
            hi <= v.len(),
            forall|j: int| i <= j < hi ==> is_space_char(#[trigger] v@[j]),
        decreases i,
    {
        i -= 1;
    }
    proof {
        let t = v@.subrange(lo as int, hi as int);
        assert forall|j: int| t.len() - (hi - i) <= j < t.len() implies is_space_char(
            #[trigger] t[j],
        ) by {
            assert(t[j] == v@[lo + j]);
        }
        if i > lo {
            assert(t[t.len() - 1 - (hi - i)] == v@[i - 1]);
        }
        lemma_trail_ws(t, hi - i);
    }
    hi - i
}

/// The number of leading non-space characters of `v[lo..]`.
fn count_word(v: &Vec<char>, lo: usize) -> (n: usize)
    requires
        lo <= v.len(),
    ensures
        n == word_len(v@.skip(lo as int)),
        lo + n <= v.len(),
{
    let mut i = lo;
    while i < v.len() && !is_space(v[i])
        invariant
            lo <= i <= v.len(),
            forall|j: int| lo <= j < i ==> !is_space_char(#[trigger] v@[j]),
        decreases v.len() - i,
    {
        i += 1;
    }
    proof {
        let t = v@.skip(lo as int);
        assert forall|j: int| 0 <= j < i - lo implies !is_space_char(#[trigger] t[j]) by {
            assert(t[j] == v@[lo + j]);
        }
        lemma_word_len(t, i - lo);
    }
    i - lo
}

/// A string made of the characters `v[lo..hi]`.
pub fn string_of_range(v: &Vec<char>, lo: usize, hi: usize) -> (s: String)
    requires
        lo <= hi <= v.len(),
    ensures
        s@ == v@.subrange(lo as int, hi as int),
{
    let mut s = String::new();
    let mut i = lo;
    while i < hi
        invariant
            lo <= i <= hi <= v.len(),
            s@ == v@.subrange(lo as int, i as int),
        decreases hi - i,
    {
        push_char(&mut s, v[i]);
        i += 1;
        assert(s@ =~= v@.subrange(lo as int, i as int));
    }
    s
}

/// `s` without leading and trailing white space.
pub fn trim_str(s: &str) -> (r: String)
    ensures
        r@ == trim(s@),
{
    let v = chars_of(s);
    let lo = count_lead_ws(&v, 0);
    let n = count_trail_ws(&v, lo, v.len());
    proof {
        assert(v@.skip(0) =~= v@);
        assert(v@.subrange(lo as int, v.len() as int) =~= trim_start(s@));
    }
    let r = string_of_range(&v, lo, v.len() - n);
    assert(r@ =~= trim(s@));
    r
}

/// The name a port is opened under: the first white-space separated word
/// of its label, or the whole label where it has no word.
pub fn port_name_only(display: &str) -> (r: String)
    ensures
        r@ == port_name_of(display@),
{
    let v = chars_of(display);
    let lo = count_lead_ws(&v, 0);
    proof {
        assert(v@.skip(0) =~= v@);
    }
    if lo == v.len() {
        return string_of_range(&v, 0, v.len());
    }
    let n = count_word(&v, lo);
    let r = string_of_range(&v, lo, lo + n);
    assert(r@ =~= port_name_of(display@));
    r
}

/// A word followed by nothing or by white space is the first word.
pub proof fn lemma_first_word_of_prefix(w: Seq<char>, rest: Seq<char>)
    requires
        w.len() > 0,
        forall|j: int| 0 <= j < w.len() ==> !is_space_char(#[trigger] w[j]),
        rest.len() == 0 || is_space_char(rest[0]),
    ensures
        first_word(w + rest) == Some(w),
{
    let s = w + rest;
    assert(s[0] == w[0]);
    lemma_lead_ws(s, 0);
    assert(s.skip(0) =~= s);
    assert forall|j: int| 0 <= j < w.len() implies !is_space_char(#[trigger] s[j]) by {
        assert(s[j] == w[j]);
    }
    if rest.len() > 0 {
        assert(s[w.len() as int] == rest[0]);
    }
    lemma_word_len(s, w.len() as int);
    assert(s.take(w.len() as int) =~= w);
}

/// The characters before `lead_ws` are white space, and the one at it is not.
pub proof fn lemma_lead_ws_facts(s: Seq<char>)
    ensures
        lead_ws(s) <= s.len(),
        forall|j: int| 0 <= j < lead_ws(s) ==> is_space_char(#[trigger] s[j]),
        lead_ws(s) < s.len() ==> !is_space_char(s[lead_ws(s) as int]),
    decreases s.len(),
{
    if s.len() > 0 && is_space_char(s[0]) {
        let t = s.drop_first();
        lemma_lead_ws_facts(t);
        assert forall|j: int| 0 <= j < lead_ws(s) implies is_space_char(#[trigger] s[j]) by {
            if j > 0 {
                assert(s[j] == t[j - 1]);
            }
        }
        if lead_ws(s) < s.len() {
            assert(s[lead_ws(s) as int] == t[lead_ws(t) as int]);
        }
    }
}

/// The characters before `word_len` are not white space.
pub proof fn lemma_word_len_facts(s: Seq<char>)
    ensures
        word_len(s) <= s.len(),
        forall|j: int| 0 <= j < word_len(s) ==> !is_space_char(#[trigger] s[j]),
        word_len(s) < s.len() ==> is_space_char(s[word_len(s) as int]),
    decreases s.len(),
{
    if s.len() > 0 && !is_space_char(s[0]) {
        let t = s.drop_first();
        lemma_word_len_facts(t);
        assert forall|j: int| 0 <= j < word_len(s) implies !is_space_char(#[trigger] s[j]) by {
            if j > 0 {
                assert(s[j] == t[j - 1]);
            }
        }
        if word_len(s) < s.len() {
            assert(s[word_len(s) as int] == t[word_len(t) as int]);
        }
    }
}

/// The port name of a label is its own port name: taking the name twice
/// changes nothing.
pub proof fn law_port_name_idempotent(display: Seq<char>)
    ensures
        port_name_of(port_name_of(display)) == port_name_of(display),
{
    if let Some(w) = first_word(display) {
        let t = trim_start(display);
        lemma_lead_ws_facts(display);
        assert(t[0] == display[lead_ws(display) as int]);
        lemma_word_len_facts(t);
        assert(word_len(t) > 0);
        assert forall|j: int| 0 <= j < w.len() implies !is_space_char(#[trigger] w[j]) by {
            assert(w[j] == t[j]);
        }
        lemma_first_word_of_prefix(w, Seq::empty());
        assert(w + Seq::<char>::empty() =~= w);
    }
}

} // verus!
