//! Hosts in text: an IPv4 address, an IPv6 address in brackets, or a hostname. An address makes up
//! a socket address with a colon and a port behind it.

use crate::text;
use crate::text::{all_digits, digits_value, is_digit};
use vstd::prelude::*;
use vstd::string::*;

verus! {

/// Position of the first `sep` at or after `from`, or the length of `s`.
pub open spec fn next_sep(s: Seq<char>, sep: char, from: int) -> int
    decreases s.len() - from,
{
    if from < 0 || from >= s.len() || s[from] == sep {
        if from > s.len() {
            s.len() as int
        } else {
            from
        }
    } else {
        next_sep(s, sep, from + 1)
    }
}

/// The pieces of `s` from position `from` on, between separators.
pub open spec fn pieces_from(s: Seq<char>, sep: char, from: int) -> Seq<Seq<char>>
    decreases s.len() - from,
{
    if from < 0 || from > s.len() {
        Seq::empty()
    } else {
        let end = next_sep(s, sep, from);
        if from <= end < s.len() {
            seq![s.subrange(from, end)] + pieces_from(s, sep, end + 1)
        } else {
            seq![s.subrange(from, s.len() as int)]
        }
    }
}

/// The pieces of `s` between separators.
pub open spec fn pieces(s: Seq<char>, sep: char) -> Seq<Seq<char>> {
    pieces_from(s, sep, 0)
}

proof fn next_sep_is_first(s: Seq<char>, sep: char, from: int, to: int)
    requires
        0 <= from <= to <= s.len(),
        forall|k: int| from <= k < to ==> s[k] != sep,
        to < s.len() ==> s[to] == sep,
    ensures
        next_sep(s, sep, from) == to,
    decreases to - from,
{
    if from < to {
        next_sep_is_first(s, sep, from + 1, to);
    }
}

/// The pieces of `s` between separators.
fn split(s: &str, sep: char) -> (r: Vec<String>)
    ensures
        r@.len() == pieces(s@, sep).len(),
        forall|i: int| 0 <= i < r@.len() ==> (#[trigger] r@[i])@ == pieces(s@, sep)[i],
{
    let v = text::chars_of(s);
    let ghost all = pieces(s@, sep);
    let mut out: Vec<String> = Vec::new();
    let mut from: usize = 0;
    let mut at: usize = 0;
    assert(all =~= all.take(0) + pieces_from(s@, sep, 0));
    while at < v.len()
        invariant
            from <= at <= v.len(),
            v@ == s@,
            all == pieces(s@, sep),
            out@.len() <= all.len(),
            all == all.take(out@.len() as int) + pieces_from(s@, sep, from as int),
            forall|i: int| 0 <= i < out@.len() ==> (#[trigger] out@[i])@ == all[i],
            forall|k: int| from <= k < at ==> s@[k] != sep,
        decreases v.len() - at,
    {
        if v[at] == sep {
            let ghost n = out@.len() as int;
            let ghost rest = pieces_from(s@, sep, at + 1);
            let ghost piece = s@.subrange(from as int, at as int);
            proof {
                next_sep_is_first(s@, sep, from as int, at as int);
                assert(pieces_from(s@, sep, from as int) == seq![piece] + rest);
                assert(all[n] == piece);
                assert(all.take(n + 1) =~= all.take(n).push(piece));
                assert(all =~= all.take(n + 1) + rest);
            }
            out.push(s.substring_char(from, at).to_owned());
            from = at + 1;
        }
        at = at + 1;
    }
    proof {
        next_sep_is_first(s@, sep, from as int, at as int);
        let n = out@.len() as int;
        let piece = s@.subrange(from as int, at as int);
        assert(pieces_from(s@, sep, from as int) =~= seq![piece]);
        assert(all[n] == piece);
    }
    out.push(s.substring_char(from, at).to_owned());
    out
}

/// A number from 0 to 255 in decimal, without leading zeros.
pub open spec fn is_octet(s: Seq<char>) -> bool {
    &&& 1 <= s.len() <= 3
    &&& all_digits(s)
    &&& s.len() > 1 ==> s[0] != '0'
    &&& digits_value(s) <= 255
}

/// Four octets separated by dots.
pub open spec fn is_ipv4(s: Seq<char>) -> bool {
    let p = pieces(s, '.');
    p.len() == 4 && forall|i: int| 0 <= i < 4 ==> is_octet(#[trigger] p[i])
}

/// A hexadecimal digit.
pub open spec fn is_hex_digit(c: char) -> bool {
    is_digit(c) || 0x41 <= c as int <= 0x46 || 0x61 <= c as int <= 0x66
}

/// One to four hexadecimal digits.
pub open spec fn is_hex_group(s: Seq<char>) -> bool {
    1 <= s.len() <= 4 && forall|i: int| 0 <= i < s.len() ==> is_hex_digit(#[trigger] s[i])
}

/// Number of 16-bit groups that pieces between colons denote, the last of which may be an IPv4
/// address where `ipv4` allows it; `None` where they denote none.
pub open spec fn group_count(p: Seq<Seq<char>>, ipv4: bool) -> Option<nat> {
    if p.len() == 0 || exists|i: int| 0 <= i < p.len() - 1 && !is_hex_group(#[trigger] p[i]) {
        None
    } else if is_hex_group(p.last()) {
        Some(p.len())
    } else if ipv4 && is_ipv4(p.last()) {
        Some(p.len() + 1)
    } else {
        None
    }
}

/// Number of 16-bit groups that a text denotes; an empty text denotes none of them.
pub open spec fn groups_in(s: Seq<char>, ipv4: bool) -> Option<nat> {
    if s.len() == 0 {
        Some(0)
    } else {
        group_count(pieces(s, ':'), ipv4)
    }
}

/// Two colons stand at position `k`.
pub open spec fn gap_at(s: Seq<char>, k: int) -> bool {
    0 <= k && k + 1 < s.len() && s[k] == ':' && s[k + 1] == ':'
}

/// Position `k` is the first at which two colons stand.
pub open spec fn first_gap_at(s: Seq<char>, k: int) -> bool {
    gap_at(s, k) && forall|j: int| 0 <= j < k ==> !gap_at(s, j)
}

/// Eight groups, or fewer around two colons that stand for at least one group of zeros. An IPv4
/// address may stand for the last two groups.
pub open spec fn is_ipv6(s: Seq<char>) -> bool {
    if exists|k: int| gap_at(s, k) {
        let k = choose|k: int| first_gap_at(s, k);
        match (groups_in(s.take(k), false), groups_in(s.skip(k + 2), true)) {
            (Some(head), Some(tail)) => head + tail <= 7,
            _ => false,
        }
    } else {
        s.len() > 0 && groups_in(s, true) == Some(8nat)
    }
}

/// A percent sign and a 32-bit number.
pub open spec fn is_scope(s: Seq<char>) -> bool {
    &&& s.len() > 1
    &&& s[0] == '%'
    &&& all_digits(s.skip(1))
    &&& digits_value(s.skip(1)) <= u32::MAX
}

/// The first percent sign of `s`, or its length.
pub open spec fn scope_start(s: Seq<char>) -> int {
    next_sep(s, '%', 0)
}

/// An IPv6 address in brackets, which a scope may follow inside them.
pub open spec fn is_bracketed_ipv6(s: Seq<char>) -> bool {
    &&& s.len() >= 2
    &&& s[0] == '['
    &&& s.last() == ']'
    &&& {
        let inner = s.subrange(1, s.len() - 1);
        let k = scope_start(inner);
        &&& is_ipv6(inner.take(k))
        &&& k < inner.len() ==> is_scope(inner.skip(k))
    }
}

/// A letter, digit or hyphen of a hostname.
pub open spec fn is_label_char(c: char) -> bool {
    is_digit(c) || 'a' <= c <= 'z' || 'A' <= c <= 'Z' || c == '-'
}

/// A label of a hostname: up to 63 letters, digits and hyphens, with no hyphen at either end.
pub open spec fn is_label(s: Seq<char>) -> bool {
    &&& 1 <= s.len() <= 63
    &&& forall|i: int| 0 <= i < s.len() ==> is_label_char(#[trigger] s[i])
    &&& s[0] != '-'
    &&& s.last() != '-'
}

/// A hostname: up to 253 characters, labels separated by dots. The last label is no number, which
/// tells a hostname from an IPv4 address.
pub open spec fn is_hostname(s: Seq<char>) -> bool {
    let labels = pieces(s, '.');
    &&& s.len() <= 253
    &&& labels.len() > 0
    &&& forall|i: int| 0 <= i < labels.len() ==> is_label(#[trigger] labels[i])
    &&& !all_digits(labels.last())
}

/// A host that, with a colon and a port behind it, makes up a socket address.
pub open spec fn is_socket_host(s: Seq<char>) -> bool {
    is_ipv4(s) || is_bracketed_ipv6(s)
}

fn octet(s: &str) -> (r: bool)
    ensures
        r == is_octet(s@),
{
    let v = text::chars_of(s);
    if v.len() == 0 || v.len() > 3 || (v.len() > 1 && v[0] == '0') || !text::is_digit_run(s) {
        return false;
    }
    let n = text::parse_u32(s);
    proof {
        assert(is_digit(s@[0]));
        if digits_value(s@) <= 255 {
            assert(n == Some(digits_value(s@) as u32));
        }
    }
    match n {
        Some(n) => n <= 255,
        None => false,
    }
}

fn ipv4(s: &str) -> (r: bool)
    ensures
        r == is_ipv4(s@),
{
    let p = split(s, '.');
    if p.len() != 4 {
        return false;
    }
    let ghost q = pieces(s@, '.');
    let a = octet(p[0].as_str());
    let b = octet(p[1].as_str());
    let c = octet(p[2].as_str());
    let d = octet(p[3].as_str());
    assert(p@[0]@ == q[0] && p@[1]@ == q[1] && p@[2]@ == q[2] && p@[3]@ == q[3]);
    a && b && c && d
}

fn hex_digit(c: char) -> (r: bool)
    ensures
        r == is_hex_digit(c),
{
    let u: u32 = c as u32;
    (0x30 <= u && u <= 0x39) || (0x41 <= u && u <= 0x46) || (0x61 <= u && u <= 0x66)
}

fn hex_group(s: &str) -> (r: bool)
    ensures
        r == is_hex_group(s@),
{
    let v = text::chars_of(s);
    if v.len() == 0 || v.len() > 4 {
        return false;
    }
    let mut i: usize = 0;
    while i < v.len()
        invariant
            i <= v.len(),
            v@ == s@,
            forall|k: int| 0 <= k < i ==> is_hex_digit(#[trigger] s@[k]),
        decreases v.len() - i,
    {
        if !hex_digit(v[i]) {
            assert(!is_hex_digit(s@[i as int]));
            return false;
        }
        i = i + 1;
    }
    true
}

fn count_groups(s: &str, allow_ipv4: bool) -> (r: Option<usize>)
    ensures
        match r {
            Some(n) => groups_in(s@, allow_ipv4) == Some(n as nat),
            None => match groups_in(s@, allow_ipv4) {
                Some(n) => n > 8,
                None => true,
            },
        },
{
    if s.is_empty() {
        return Some(0);
    }
    let p = split(s, ':');
    let ghost q = pieces(s@, ':');
    if p.len() == 0 || p.len() > 8 {
        return None;
    }
    let last: usize = p.len() - 1;
    let mut i: usize = 0;
    while i < last
        invariant
            i <= last,
            last == p@.len() - 1,
            q == pieces(s@, ':'),
            p@.len() == q.len(),
            s@.len() > 0,
            forall|k: int| 0 <= k < p@.len() ==> (#[trigger] p@[k])@ == q[k],
            forall|k: int| 0 <= k < i ==> is_hex_group(#[trigger] q[k]),
        decreases last - i,
    {
        if !hex_group(p[i].as_str()) {
            assert(!is_hex_group(q[i as int]));
            return None;
        }
        i = i + 1;
    }
    assert(q.last() == p@[last as int]@);
    if hex_group(p[last].as_str()) {
        Some(p.len())
    } else if allow_ipv4 && ipv4(p[last].as_str()) {
        Some(p.len() + 1)
    } else {
        None
    }
}

fn find_gap(s: &str) -> (r: Option<usize>)
    ensures
        match r {
            Some(k) => first_gap_at(s@, k as int),
            None => forall|k: int| !gap_at(s@, k),
        },
{
    let v = text::chars_of(s);
    let mut k: usize = 0;
    while k < v.len() && v.len() - k > 1
        invariant
            k <= v.len(),
            v@ == s@,
            forall|j: int| 0 <= j < k ==> !gap_at(s@, j),
        decreases v.len() - k,
    {
        if v[k] == ':' && v[k + 1] == ':' {
            return Some(k);
        }
        k = k + 1;
    }
    None
}

fn ipv6(s: &str) -> (r: bool)
    ensures
        r == is_ipv6(s@),
{
    match find_gap(s) {
        Some(k) => {
            let n = s.unicode_len();
            let head = s.substring_char(0, k);
            let tail = s.substring_char(k + 2, n);
            proof {
                let c = choose|c: int| first_gap_at(s@, c);
                assert(first_gap_at(s@, k as int));
                assert(c == k) by {
                    if c < k {
                        assert(!gap_at(s@, c));
                    } else if k < c {
                        assert(!gap_at(s@, k as int));
                    }
                }
                assert(head@ =~= s@.take(k as int));
                assert(tail@ =~= s@.skip(k + 2));
                assert(gap_at(s@, k as int));
            }
            match (count_groups(head, false), count_groups(tail, true)) {
                (Some(a), Some(b)) => a <= 7 && b <= 7 && a + b <= 7,
                _ => false,
            }
        },
        None => {
            assert forall|k: int| !gap_at(s@, k) by {}
            if s.is_empty() {
                return false;
            }
            match count_groups(s, true) {
                Some(n) => n == 8,
                None => false,
            }
        },
    }
}

fn scope(s: &str) -> (r: bool)
    ensures
        r == is_scope(s@),
{
    let v = text::chars_of(s);
    if v.len() < 2 || v[0] != '%' {
        return false;
    }
    let number = s.substring_char(1, v.len());
    assert(number@ =~= s@.skip(1));
    if !text::is_digit_run(number) {
        return false;
    }
    proof {
        assert(is_digit(number@[0]));
    }
    text::parse_u32(number).is_some()
}

fn bracketed_ipv6(s: &str) -> (r: bool)
    ensures
        r == is_bracketed_ipv6(s@),
{
    let v = text::chars_of(s);
    let n = v.len();
    if n < 2 || v[0] != '[' || v[n - 1] != ']' {
        return false;
    }
    let inner = s.substring_char(1, n - 1);
    let w = text::chars_of(inner);
    let mut k: usize = 0;
    while k < w.len() && w[k] != '%'
        invariant
            k <= w.len(),
            w@ == inner@,
            forall|j: int| 0 <= j < k ==> inner@[j] != '%',
        decreases w.len() - k,
    {
        k = k + 1;
    }
    proof {
        next_sep_is_first(inner@, '%', 0, k as int);
        assert(inner@.subrange(0, k as int) =~= inner@.take(k as int));
        assert(inner@.subrange(k as int, inner@.len() as int) =~= inner@.skip(k as int));
    }
    if !ipv6(inner.substring_char(0, k)) {
        return false;
    }
    k == w.len() || scope(inner.substring_char(k, w.len()))
}

fn label_char(c: char) -> (r: bool)
    ensures
        r == is_label_char(c),
{
    let u: u32 = c as u32;
    (0x30 <= u && u <= 0x39) || (0x61 <= u && u <= 0x7A) || (0x41 <= u && u <= 0x5A) || u == 0x2D
}

fn label(s: &str) -> (r: bool)
    ensures
        r == is_label(s@),
{
    let v = text::chars_of(s);
    if v.len() == 0 || v.len() > 63 || v[0] == '-' || v[v.len() - 1] == '-' {
        return false;
    }
    let mut i: usize = 0;
    while i < v.len()
        invariant
            i <= v.len(),
            v@ == s@,
            forall|k: int| 0 <= k < i ==> is_label_char(#[trigger] s@[k]),
        decreases v.len() - i,
    {
        if !label_char(v[i]) {
            assert(!is_label_char(s@[i as int]));
            return false;
        }
        i = i + 1;
    }
    true
}

/// Whether `s` is a hostname.
pub fn hostname(s: &str) -> (r: bool)
    ensures
        r == is_hostname(s@),
{
    let v = text::chars_of(s);
    if v.len() > 253 {
        return false;
    }
    let p = split(s, '.');
    let ghost q = pieces(s@, '.');
    let n = p.len();
    if n == 0 {
        return false;
    }
    let mut i: usize = 0;
    while i < n
        invariant
            i <= n,
            n == p@.len(),
            n == q.len(),
            forall|k: int| 0 <= k < p@.len() ==> (#[trigger] p@[k])@ == q[k],
            forall|k: int| 0 <= k < i ==> is_label(#[trigger] q[k]),
            q == pieces(s@, '.'),
        decreases n - i,
    {
        if !label(p[i].as_str()) {
            assert(p@[i as int]@ == q[i as int]);
            return false;
        }
        assert(p@[i as int]@ == q[i as int]);
        i = i + 1;
    }
    assert(p@[n - 1]@ == q.last());
    !text::is_digit_run(p[n - 1].as_str())
}

/// Whether `s`, with a colon and a port behind it, makes up a socket address.
pub fn socket_host(s: &str) -> (r: bool)
    ensures
        r == is_socket_host(s@),
{
    ipv4(s) || bracketed_ipv6(s)
}

} // verus!
