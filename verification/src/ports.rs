//! The list of serial ports as offered for selection: one label per port
//! name, with the USB manufacturer and product, and which port is selected
//! at start.
use vstd::prelude::*;
use vstd::string::StringExecFns;
use crate::text::{
    is_space_char, lemma_first_word_of_prefix, port_name_of, chars_of, count_trail_ws, push_char, string_of_range, trim, trim_end, trim_str,
};

verus! {

/// What kind of device a port belongs to, with the USB descriptions.
pub enum PortKind {
    Usb { manufacturer: Option<String>, product: Option<String> },
    Bluetooth,
    Pci,
    Unknown,
}

/// A port the system lists: its name and kind.
pub struct PortEntry {
    pub name: String,
    pub kind: PortKind,
}

/// Whether `s` ends with `p`.
pub open spec fn ends_with(s: Seq<char>, p: Seq<char>) -> bool {
    p.len() <= s.len() && s.skip(s.len() - p.len()) == p
}

/// ` (NAME)`.
pub open spec fn paren_suffix_spaced(pn: Seq<char>) -> Seq<char> {
    seq![' ', '('] + pn + seq![')']
}

/// `(NAME)`.
pub open spec fn paren_suffix(pn: Seq<char>) -> Seq<char> {
    seq!['('] + pn + seq![')']
}

/// ` NAME`.
pub open spec fn spaced_suffix(pn: Seq<char>) -> Seq<char> {
    seq![' '] + pn
}

/// A USB description without a trailing mention of the port's own name
/// (` (NAME)`, `(NAME)` or ` NAME`, the first of these that it ends with),
/// and without trailing white space.
pub open spec fn strip_port_text(s: Seq<char>, name: Seq<char>) -> Seq<char> {
    let s1 = trim_end(s);
    let pn = trim(name);
    let p1 = paren_suffix_spaced(pn);
    let p2 = paren_suffix(pn);
    let p3 = spaced_suffix(pn);
    if ends_with(s1, p1) {
        trim_end(s1.take(s1.len() - p1.len()))
    } else if ends_with(s1, p2) {
        trim_end(s1.take(s1.len() - p2.len()))
    } else if ends_with(s1, p3) {
        trim_end(s1.take(s1.len() - p3.len()))
    } else {
        s1
    }
}

/// The characters of an optional description, empty where there is none.
pub open spec fn opt_text(o: Option<String>) -> Seq<char> {
    match o {
        Some(s) => s@,
        None => Seq::empty(),
    }
}

/// The label of a USB port: `NAME  [MANUFACTURER PRODUCT]`, leaving out
/// what is empty, or the bare name where both are empty.
pub open spec fn usb_label(name: Seq<char>, mfr: Seq<char>, prod: Seq<char>) -> Seq<char> {
    let m = strip_port_text(trim(mfr), name);
    let p = strip_port_text(trim(prod), name);
    if m.len() > 0 || p.len() > 0 {
        name + "  ["@ + m + (if m.len() > 0 && p.len() > 0 {
            " "@
        } else {
            ""@
        }) + p + "]"@
    } else {
        name
    }
}

/// The label under which a port is offered.
pub open spec fn port_label(e: PortEntry) -> Seq<char> {
    match e.kind {
        PortKind::Usb { manufacturer, product } => usb_label(
            e.name@,
            opt_text(manufacturer),
            opt_text(product),
        ),
        PortKind::Bluetooth => e.name@ + "  [蓝牙]"@,
        PortKind::Pci => e.name@ + "  [PCI]"@,
        PortKind::Unknown => e.name@,
    }
}

/// Whether a port of the same name comes before position `i`.
pub open spec fn seen_before(ps: Seq<PortEntry>, i: int) -> bool {
    exists|j: int| 0 <= j < i && ps[j].name@ == ps[i].name@
}

/// The labels of the ports, in order, one for the first port of each name.
pub open spec fn port_labels_of(ps: Seq<PortEntry>) -> Seq<Seq<char>>
    decreases ps.len(),
{
    if ps.len() == 0 {
        seq![]
    } else {
        let prev = port_labels_of(ps.drop_last());
        if seen_before(ps, ps.len() - 1) {
            prev
        } else {
            prev.push(port_label(ps.last()))
        }
    }
}

/// The characters of each string.
pub open spec fn texts(v: Seq<String>) -> Seq<Seq<char>> {
    v.map_values(|s: String| s@)
}

/// The first name with a `[` (a port with a description), if any.
pub open spec fn first_described(names: Seq<Seq<char>>) -> Option<Seq<char>>
    decreases names.len(),
{
    if names.len() == 0 {
        None
    } else if names[0].contains('[') {
        Some(names[0])
    } else {
        first_described(names.drop_first())
    }
}

/// The port selected at start: the first with a description, else the
/// first, else none (empty).
pub open spec fn default_port_of(names: Seq<Seq<char>>) -> Seq<char> {
    match first_described(names) {
        Some(n) => n,
        None => if names.len() > 0 {
            names[0]
        } else {
            Seq::empty()
        },
    }
}

/// Whether `v[0..hi]` ends with `p`.
fn ends_with_at(v: &Vec<char>, hi: usize, p: &Vec<char>) -> (b: bool)
    requires
        hi <= v.len(),
    ensures
        b == ends_with(v@.take(hi as int), p@),
{
    if p.len() > hi {
        return false;
    }
    let start = hi - p.len();
    let mut i: usize = 0;
    while i < p.len()
        invariant
            start + p.len() == hi <= v.len(),
            i <= p.len(),
            forall|j: int| 0 <= j < i ==> v@[start + j] == p@[j],
        decreases p.len() - i,
    {
        if v[start + i] != p[i] {
            assert(v@.take(hi as int).skip(start as int)[i as int] != p@[i as int]);
            return false;
        }
        i += 1;
    }
    assert(v@.take(hi as int).skip(start as int) =~= p@);
    true
}

/// `pre` followed by `mid` and `post`, as characters.
fn pattern(pre: &str, mid: &Vec<char>, post: &str) -> (p: Vec<char>)
    ensures
        p@ == pre@ + mid@ + post@,
{
    let mut p = chars_of(pre);
    let ghost p0 = p@;
    let mut i: usize = 0;
    while i < mid.len()
        invariant
            i <= mid.len(),
            p@ == p0 + mid@.take(i as int),
        decreases mid.len() - i,
    {
        p.push(mid[i]);
        i += 1;
        assert(p@ =~= p0 + mid@.take(i as int));
    }
    let q = chars_of(post);
    let ghost p1 = p@;
    let mut k: usize = 0;
    while k < q.len()
        invariant
            k <= q.len(),
            p@ == p1 + q@.take(k as int),
        decreases q.len() - k,
    {
        p.push(q[k]);
        k += 1;
        assert(p@ =~= p1 + q@.take(k as int));
    }
    assert(mid@.take(mid.len() as int) =~= mid@);
    assert(q@.take(q.len() as int) =~= q@);
    assert(p@ =~= pre@ + mid@ + post@);
    p
}

/// A description without a trailing mention of the port's own name.
pub fn strip_port(s: &str, name: &str) -> (r: String)
    ensures
        r@ == strip_port_text(s@, name@),
{
    let v = chars_of(s);
    let t = count_trail_ws(&v, 0, v.len());
    let hi = v.len() - t;
    let ghost s1 = trim_end(s@);
    assert(v@.subrange(0, v.len() as int) =~= v@);
    assert(v@.take(hi as int) =~= s1);
    let pn_str = trim_str(name);
    let pn = chars_of(pn_str.as_str());
    let p1 = pattern(" (", &pn, ")");
    let p2 = pattern("(", &pn, ")");
    let p3 = pattern(" ", &pn, "");
    proof {
        reveal_strlit(" (");
        reveal_strlit("(");
        reveal_strlit(")");
        reveal_strlit(" ");
        reveal_strlit("");
        assert(p1@ =~= paren_suffix_spaced(trim(name@)));
        assert(p2@ =~= paren_suffix(trim(name@)));
        assert(p3@ =~= spaced_suffix(trim(name@)));
    }
    let cut = if ends_with_at(&v, hi, &p1) {
        hi - p1.len()
    } else if ends_with_at(&v, hi, &p2) {
        hi - p2.len()
    } else if ends_with_at(&v, hi, &p3) {
        hi - p3.len()
    } else {
        let r = string_of_range(&v, 0, hi);
        assert(r@ =~= strip_port_text(s@, name@));
        return r;
    };
    let t2 = count_trail_ws(&v, 0, cut);
    let r = string_of_range(&v, 0, cut - t2);
    proof {
        assert(s1.take(cut as int) =~= v@.subrange(0, cut as int));
        assert(r@ =~= trim_end(s1.take(cut as int)));
    }
    r
}

/// The characters of an optional description, empty where there is none.
fn opt_str(o: &Option<String>) -> (s: &str)
    ensures
        s@ == opt_text(*o),
{
    proof {
        reveal_strlit("");
    }
    match o {
        Some(s) => s.as_str(),
        None => "",
    }
}

/// The label of a USB port.
fn usb_port_label(name: &String, mfr: &Option<String>, prod: &Option<String>) -> (r: String)
    ensures
        r@ == usb_label(name@, opt_text(*mfr), opt_text(*prod)),
{
    proof {
        reveal_strlit("");
    }
    let mt = trim_str(opt_str(mfr));
    let m = strip_port(mt.as_str(), name.as_str());
    let pt = trim_str(opt_str(prod));
    let p = strip_port(pt.as_str(), name.as_str());
    if m.as_str().is_empty() && p.as_str().is_empty() {
        return name.clone();
    }
    let mut r = name.clone();
    r.append("  [");
    r.append(m.as_str());
    if !m.as_str().is_empty() && !p.as_str().is_empty() {
        r.append(" ");
    } else {
        r.append("");
    }
    r.append(p.as_str());
    r.append("]");
    r
}

/// The label under which a port is offered.
pub fn display_label(e: &PortEntry) -> (r: String)
    ensures
        r@ == port_label(*e),
{
    match &e.kind {
        PortKind::Usb { manufacturer, product } => usb_port_label(&e.name, manufacturer, product),
        PortKind::Bluetooth => {
            let mut r = e.name.clone();
            r.append("  [蓝牙]");
            r
        },
        PortKind::Pci => {
            let mut r = e.name.clone();
            r.append("  [PCI]");
            r
        },
        PortKind::Unknown => e.name.clone(),
    }
}

/// Whether a port of the same name comes before position `i`.
fn seen_before_exec(ps: &Vec<PortEntry>, i: usize) -> (b: bool)
    requires
        i < ps.len(),
    ensures
        b == seen_before(ps@, i as int),
{
    let mut j: usize = 0;
    while j < i
        invariant
            i < ps.len(),
            j <= i,
            forall|k: int| 0 <= k < j ==> ps@[k].name@ != ps@[i as int].name@,
        decreases i - j,
    {
        if ps[j].name == ps[i].name {
            return true;
        }
        j += 1;
    }
    false
}

/// The labels of the listed ports, one for the first port of each name, in
/// the order listed.
pub fn port_labels(ps: &Vec<PortEntry>) -> (r: Vec<String>)
    ensures
        texts(r@) == port_labels_of(ps@),
{
    let mut r: Vec<String> = Vec::new();
    let mut i: usize = 0;
    while i < ps.len()
        invariant
            i <= ps.len(),
            texts(r@) == port_labels_of(ps@.take(i as int)),
        decreases ps.len() - i,
    {
        let ghost pre = ps@.take(i as int + 1);
        proof {
            assert(pre.drop_last() =~= ps@.take(i as int));
            assert(pre.last() == ps@[i as int]);
            assert(seen_before(pre, i as int) == seen_before(ps@, i as int)) by {
                if seen_before(ps@, i as int) {
                    let j = choose|j: int| 0 <= j < i && ps@[j].name@ == ps@[i as int].name@;
                    assert(pre[j] == ps@[j]);
                }
                if seen_before(pre, i as int) {
                    let j = choose|j: int| 0 <= j < i && pre[j].name@ == pre[i as int].name@;
                    assert(pre[j] == ps@[j]);
                }
            }
        }
        if !seen_before_exec(ps, i) {
            let l = display_label(&ps[i]);
            r.push(l);
            assert(texts(r@) =~= port_labels_of(pre));
        }
        i += 1;
    }
    assert(ps@.take(ps.len() as int) =~= ps@);
    r
}

/// Whether `s` contains `c`.
fn has_char(s: &String, c: char) -> (b: bool)
    ensures
        b == s@.contains(c),
{
    let v = chars_of(s.as_str());
    let mut i: usize = 0;
    while i < v.len()
        invariant
            i <= v.len(),
            v@ == s@,
            forall|j: int| 0 <= j < i ==> v@[j] != c,
        decreases v.len() - i,
    {
        if v[i] == c {
            return true;
        }
        i += 1;
    }
    false
}

/// The port selected at start: the first with a description, else the
/// first, else none.
pub fn default_port(names: &Vec<String>) -> (r: String)
    ensures
        r@ == default_port_of(texts(names@)),
{
    let ghost all = texts(names@);
    let mut i: usize = 0;
    assert(all.skip(0) =~= all);
    while i < names.len()
        invariant
            i <= names.len(),
            all == texts(names@),
            first_described(all) == first_described(all.skip(i as int)),
        decreases names.len() - i,
    {
        let ghost rest = all.skip(i as int);
        assert(rest[0] == names@[i as int]@);
        assert(rest.drop_first() =~= all.skip(i + 1));
        if has_char(&names[i], '[') {
            return names[i].clone();
        }
        i += 1;
    }
    assert(all.skip(i as int).len() == 0);
    if names.len() > 0 {
        names[0].clone()
    } else {
        String::new()
    }
}

/// A port whose name is one word is opened under that name when chosen by
/// its label.
pub proof fn law_label_opens_own_name(e: PortEntry)
    requires
        e.name@.len() > 0,
        forall|j: int| 0 <= j < e.name@.len() ==> !is_space_char(#[trigger] e.name@[j]),
    ensures
        port_name_of(port_label(e)) == e.name@,
{
    let n = e.name@;
    reveal_strlit("  [");
    reveal_strlit("  [蓝牙]");
    reveal_strlit("  [PCI]");
    match e.kind {
        PortKind::Usb { manufacturer, product } => {
            let m = strip_port_text(trim(opt_text(manufacturer)), n);
            let p = strip_port_text(trim(opt_text(product)), n);
            if m.len() > 0 || p.len() > 0 {
                let rest = "  ["@ + m + (if m.len() > 0 && p.len() > 0 {
                    " "@
                } else {
                    ""@
                }) + p + "]"@;
                assert(port_label(e) =~= n + rest);
                assert(rest[0] == ' ');
                lemma_first_word_of_prefix(n, rest);
            } else {
                lemma_first_word_of_prefix(n, Seq::empty());
                assert(n + Seq::<char>::empty() =~= n);
            }
        },
        PortKind::Bluetooth => {
            lemma_first_word_of_prefix(n, "  [蓝牙]"@);
        },
        PortKind::Pci => {
            lemma_first_word_of_prefix(n, "  [PCI]"@);
        },
        PortKind::Unknown => {
            lemma_first_word_of_prefix(n, Seq::empty());
            assert(n + Seq::<char>::empty() =~= n);
        },
    }
}

/// Where no two ports share a name, every port gets its label, in order.
pub proof fn law_distinct_ports_all_listed(ps: Seq<PortEntry>)
    requires
        forall|i: int, j: int| 0 <= i < j < ps.len() ==> ps[i].name@ != ps[j].name@,
    ensures
        port_labels_of(ps) == ps.map_values(|e: PortEntry| port_label(e)),
    decreases ps.len(),
{
    if ps.len() > 0 {
        let q = ps.drop_last();
        assert forall|i: int, j: int| 0 <= i < j < q.len() implies q[i].name@ != q[j].name@ by {
            assert(q[i] == ps[i] && q[j] == ps[j]);
        }
        law_distinct_ports_all_listed(q);
        assert(!seen_before(ps, ps.len() - 1));
        assert(port_labels_of(ps) =~= ps.map_values(|e: PortEntry| port_label(e)));
    }
}

/// A port listed again under a name already listed adds no label.
pub proof fn law_repeated_name_not_listed_again(ps: Seq<PortEntry>, e: PortEntry, i: int)
    requires
        0 <= i < ps.len(),
        ps[i].name@ == e.name@,
    ensures
        port_labels_of(ps.push(e)) == port_labels_of(ps),
{
    let q = ps.push(e);
    assert(q.drop_last() =~= ps);
    assert(q[i] == ps[i]);
    assert(seen_before(q, q.len() - 1));
}

/// Where some port is offered, the port selected at start is one of those
/// offered, and a described one where there is one.
pub proof fn law_default_port_offered(names: Seq<Seq<char>>)
    ensures
        names.len() > 0 ==> names.contains(default_port_of(names)),
        names.len() == 0 ==> default_port_of(names) == Seq::<char>::empty(),
        (exists|i: int| 0 <= i < names.len() && names[i].contains('[')) ==> default_port_of(
            names,
        ).contains('['),
{
    lemma_first_described(names);
    if names.len() > 0 && first_described(names) is None {
        assert(default_port_of(names) == names[0]);
    }
}

/// `first_described` gives a listed name with a `[`, and none only where
/// no name has one.
proof fn lemma_first_described(names: Seq<Seq<char>>)
    ensures
        first_described(names) matches Some(n) ==> names.contains(n) && n.contains('['),
        first_described(names) is None ==> forall|i: int|
            0 <= i < names.len() ==> !(#[trigger] names[i]).contains('['),
    decreases names.len(),
{
    if names.len() > 0 && !names[0].contains('[') {
        let t = names.drop_first();
        lemma_first_described(t);
        if let Some(n) = first_described(t) {
            let k = choose|k: int| 0 <= k < t.len() && t[k] == n;
            assert(names[k + 1] == n);
        } else {
            assert forall|i: int| 0 <= i < names.len() implies !(#[trigger] names[i]).contains('[') by {
                if i > 0 {
                    assert(names[i] == t[i - 1]);
                }
            }
        }
    } else if names.len() > 0 {
        assert(first_described(names) == Some(names[0]));
    }
}

/// The positions of the ports that come first under their name, in order.
pub open spec fn first_indices(ps: Seq<PortEntry>) -> Seq<int>
    decreases ps.len(),
{
    if ps.len() == 0 {
        seq![]
    } else {
        let prev = first_indices(ps.drop_last());
        if seen_before(ps, ps.len() - 1) {
            prev
        } else {
            prev.push(ps.len() - 1)
        }
    }
}

/// `seen_before` looks only at earlier ports, so dropping the last port
/// does not change it for the others.
proof fn lemma_seen_before_prefix(ps: Seq<PortEntry>, i: int)
    requires
        0 <= i < ps.len() - 1,
    ensures
        seen_before(ps.drop_last(), i) == seen_before(ps, i),
{
    let q = ps.drop_last();
    if seen_before(ps, i) {
        let j = choose|j: int| 0 <= j < i && ps[j].name@ == ps[i].name@;
        assert(q[j] == ps[j] && q[i] == ps[i]);
    }
    if seen_before(q, i) {
        let j = choose|j: int| 0 <= j < i && q[j].name@ == q[i].name@;
        assert(q[j] == ps[j] && q[i] == ps[i]);
    }
}

/// The port list has one label per distinct name: the label of the first
/// port under that name, in the order the names first appear; ports listed
/// again under a name already seen are left out, whatever their kind.
pub proof fn law_labels_are_first_of_each_name(ps: Seq<PortEntry>)
    ensures
        port_labels_of(ps) == first_indices(ps).map_values(|i: int| port_label(ps[i])),
        forall|k: int| 0 <= k < first_indices(ps).len() ==> 0 <= #[trigger] first_indices(ps)[k] < ps.len(),
        forall|k1: int, k2: int|
            0 <= k1 < k2 < first_indices(ps).len() ==> #[trigger] first_indices(ps)[k1] < #[trigger] first_indices(ps)[k2],
        forall|k: int| 0 <= k < first_indices(ps).len() ==> !seen_before(ps, #[trigger] first_indices(ps)[k]),
        forall|i: int| 0 <= i < ps.len() && !seen_before(ps, i) ==> #[trigger] first_indices(ps).contains(i),
    decreases ps.len(),
{
    if ps.len() > 0 {
        let q = ps.drop_last();
        let n = ps.len() - 1;
        law_labels_are_first_of_each_name(q);
        let fq = first_indices(q);
        let f = first_indices(ps);
        assert forall|k: int| 0 <= k < fq.len() implies !seen_before(ps, #[trigger] fq[k]) by {
            lemma_seen_before_prefix(ps, fq[k]);
        }
        assert forall|k: int| 0 <= k < fq.len() implies ps[#[trigger] fq[k]] == q[fq[k]] by {}
        assert(port_labels_of(ps) =~= f.map_values(|i: int| port_label(ps[i])));
        assert forall|i: int| 0 <= i < ps.len() && !seen_before(ps, i) implies #[trigger] f.contains(i) by {
            if i < n {
                lemma_seen_before_prefix(ps, i);
                assert(fq.contains(i));
                let k = choose|k: int| 0 <= k < fq.len() && fq[k] == i;
                assert(f[k] == i);
            } else {
                assert(f[f.len() - 1] == n);
            }
        }
    }
}

/// The counting part of the list: the listed ports have pairwise different
/// names, and every name of the list is among them.
pub proof fn law_one_label_per_distinct_name(ps: Seq<PortEntry>)
    ensures
        forall|k1: int, k2: int|
            0 <= k1 < k2 < first_indices(ps).len() ==> ps[#[trigger] first_indices(ps)[k1]].name@
                != ps[#[trigger] first_indices(ps)[k2]].name@,
        forall|i: int|
            0 <= i < ps.len() ==> exists|k: int|
                0 <= k < first_indices(ps).len() && ps[#[trigger] first_indices(ps)[k]].name@
                    == (#[trigger] ps[i]).name@,
{
    law_labels_are_first_of_each_name(ps);
    let f = first_indices(ps);
    assert forall|k1: int, k2: int| 0 <= k1 < k2 < f.len() implies ps[#[trigger] f[k1]].name@
        != ps[#[trigger] f[k2]].name@ by {
        assert(!seen_before(ps, f[k2]));
        assert(f[k1] < f[k2]);
    }
    assert forall|i: int| 0 <= i < ps.len() implies exists|k: int|
        0 <= k < f.len() && ps[#[trigger] f[k]].name@ == (#[trigger] ps[i]).name@ by {
        let i0 = lemma_first_of_name(ps, i);
        assert(f.contains(i0));
        let k = choose|k: int| 0 <= k < f.len() && f[k] == i0;
        assert(ps[f[k]].name@ == ps[i].name@);
    }
}

/// Every port has a first port under its name at or before it.
proof fn lemma_first_of_name(ps: Seq<PortEntry>, i: int) -> (i0: int)
    requires
        0 <= i < ps.len(),
    ensures
        0 <= i0 <= i,
        !seen_before(ps, i0),
        ps[i0].name@ == ps[i].name@,
    decreases i,
{
    if seen_before(ps, i) {
        let j = choose|j: int| 0 <= j < i && ps[j].name@ == ps[i].name@;
        lemma_first_of_name(ps, j)
    } else {
        i
    }
}


/// Where every port name is one non-empty word, taking the port name of
/// each label gives back the distinct names, in the order they first
/// appear: each label opens the port it stands for.
pub proof fn law_labels_open_listed_ports(ps: Seq<PortEntry>)
    requires
        forall|i: int| 0 <= i < ps.len() ==> (#[trigger] ps[i]).name@.len() > 0,
        forall|i: int, j: int|
            0 <= i < ps.len() && 0 <= j < ps[i].name@.len() ==> !is_space_char(
                #[trigger] ps[i].name@[j],
            ),
    ensures
        port_labels_of(ps).map_values(|l: Seq<char>| port_name_of(l)) == first_indices(
            ps,
        ).map_values(|i: int| ps[i].name@),
{
    law_labels_are_first_of_each_name(ps);
    let f = first_indices(ps);
    assert forall|k: int| 0 <= k < f.len() implies port_name_of(port_label(ps[#[trigger] f[k]]))
        == ps[f[k]].name@ by {
        let e = ps[f[k]];
        assert forall|j: int| 0 <= j < e.name@.len() implies !is_space_char(#[trigger] e.name@[j]) by {
            assert(ps[f[k]].name@[j] == e.name@[j]);
        }
        law_label_opens_own_name(e);
    }
    assert(port_labels_of(ps).map_values(|l: Seq<char>| port_name_of(l)) =~= f.map_values(
        |i: int| ps[i].name@,
    ));
}

} // verus!
