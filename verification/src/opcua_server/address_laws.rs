//! Which texts are addresses and hostnames.

use crate::opcua_server::address::{
    first_gap_at, gap_at, groups_in, is_bracketed_ipv6, is_hex_digit, is_hex_group, is_hostname,
    is_ipv4, is_ipv6, is_label, is_label_char, is_octet, is_socket_host, next_sep, pieces,
    pieces_from,
};
use crate::text::{
    all_digits, decimal, decimal_denotes_its_number, digits_value, is_digit,
};
use crate::text_laws::decimal_ends_in_its_last_digit;
use vstd::prelude::*;
use vstd::string::*;

verus! {

// ---------------------------------------------------------------------------
// Pieces
// ---------------------------------------------------------------------------

/// No character of the text is the separator.
pub open spec fn is_one_piece(s: Seq<char>, sep: char) -> bool {
    forall|i: int| 0 <= i < s.len() ==> #[trigger] s[i] != sep
}

proof fn next_separator(s: Seq<char>, sep: char, from: int, to: int)
    requires
        0 <= from <= to <= s.len(),
        forall|k: int| from <= k < to ==> s[k] != sep,
        to < s.len() ==> s[to] == sep,
    ensures
        next_sep(s, sep, from) == to,
    decreases to - from,
{
    if from < to {
        next_separator(s, sep, from + 1, to);
    }
}

proof fn next_separator_behind(x: Seq<char>, b: Seq<char>, sep: char, k: int)
    requires
        0 <= k <= b.len(),
    ensures
        next_sep(x + b, sep, x.len() + k) == x.len() + next_sep(b, sep, k),
        k <= next_sep(b, sep, k) <= b.len(),
    decreases b.len() - k,
{
    let s = x + b;
    if k < b.len() {
        assert(s[x.len() + k] == b[k]);
        if b[k] != sep {
            next_separator_behind(x, b, sep, k + 1);
        }
    }
}

proof fn pieces_behind(x: Seq<char>, b: Seq<char>, sep: char, k: int)
    requires
        0 <= k <= b.len(),
    ensures
        pieces_from(x + b, sep, x.len() + k) == pieces_from(b, sep, k),
    decreases b.len() - k,
{
    let s = x + b;
    next_separator_behind(x, b, sep, k);
    let end = next_sep(b, sep, k);
    if end < b.len() {
        pieces_behind(x, b, sep, end + 1);
        assert(s.subrange(x.len() + k, x.len() + end) =~= b.subrange(k, end));
    } else {
        assert(s.subrange(x.len() + k, s.len() as int) =~= b.subrange(k, b.len() as int));
    }
}

/// A text without separators is one piece; one behind such a piece and a separator adds its pieces
/// to it.
pub proof fn pieces_stand_between_separators(a: Seq<char>, sep: char, b: Seq<char>)
    requires
        is_one_piece(a, sep),
    ensures
        pieces(a, sep) == seq![a],
        pieces(a + seq![sep] + b, sep) == seq![a] + pieces(b, sep),
{
    next_separator(a, sep, 0, a.len() as int);
    assert(a.subrange(0, a.len() as int) =~= a);
    let x = a + seq![sep];
    let s = x + b;
    let n = a.len() as int;
    assert(s[n] == sep);
    assert forall|k: int| 0 <= k < n implies s[k] != sep by {
        assert(s[k] == a[k]);
    }
    next_separator(s, sep, 0, n);
    assert(s.subrange(0, n) =~= a);
    pieces_behind(x, b, sep, 0);
    assert(x.len() + 0 == n + 1);
}

proof fn first_piece(s: Seq<char>, sep: char) -> (k: int)
    ensures
        0 <= k <= s.len(),
        is_one_piece(s.take(k), sep),
        k == s.len() ==> s.take(k) == s,
        k < s.len() ==> s == s.take(k) + seq![sep] + s.skip(k + 1),
    decreases s.len(),
{
    if exists|k: int| 0 <= k < s.len() && s[k] == sep {
        let any = choose|k: int| 0 <= k < s.len() && s[k] == sep;
        let k = first_place(s, sep, any);
        assert(s =~= s.take(k) + seq![sep] + s.skip(k + 1));
        k
    } else {
        assert(s.take(s.len() as int) =~= s);
        s.len() as int
    }
}

proof fn first_place(s: Seq<char>, sep: char, any: int) -> (k: int)
    requires
        0 <= any < s.len(),
        s[any] == sep,
    ensures
        0 <= k <= any,
        s[k] == sep,
        forall|j: int| 0 <= j < k ==> s[j] != sep,
    decreases any,
{
    if exists|j: int| 0 <= j < any && s[j] == sep {
        let j = choose|j: int| 0 <= j < any && s[j] == sep;
        first_place(s, sep, j)
    } else {
        any
    }
}

// ---------------------------------------------------------------------------
// IPv4
// ---------------------------------------------------------------------------

proof fn leading_digit_counts(s: Seq<char>)
    requires
        s.len() > 0,
        all_digits(s),
        s[0] != '0',
    ensures
        digits_value(s) > 0,
    decreases s.len(),
{
    if s.len() > 1 {
        let front = s.drop_last();
        assert forall|i: int| 0 <= i < front.len() implies is_digit(#[trigger] front[i]) by {
            assert(front[i] == s[i]);
        }
        leading_digit_counts(front);
        assert(is_digit(s[s.len() - 1]));
    } else {
        assert(is_digit(s[0]));
        assert(digits_value(s.drop_last()) == 0);
    }
}

/// Digits without a leading zero are the decimal form of the number that they denote.
pub proof fn digits_are_decimal(s: Seq<char>)
    requires
        s.len() > 0,
        all_digits(s),
        s.len() > 1 ==> s[0] != '0',
    ensures
        decimal(digits_value(s)) == s,
    decreases s.len(),
{
    let front = s.drop_last();
    let d = s.last() as int - 0x30;
    assert(is_digit(s[s.len() - 1]));
    if s.len() == 1 {
        assert(digits_value(front) == 0);
        assert(decimal(digits_value(s)) =~= s);
    } else {
        assert forall|i: int| 0 <= i < front.len() implies is_digit(#[trigger] front[i]) by {
            assert(front[i] == s[i]);
        }
        leading_digit_counts(front);
        digits_are_decimal(front);
        let v = digits_value(s);
        assert(v == 10 * digits_value(front) + d);
        assert(v / 10 == digits_value(front) && v % 10 == d);
        assert(decimal(v) =~= s);
    }
}

proof fn few_digits(n: nat)
    ensures
        n <= 255 ==> decimal(n).len() <= 3,
{
    reveal_with_fuel(decimal, 4);
}

/// An octet is the decimal form of a number up to 255, without leading zeros.
pub proof fn octets_are_numbers_up_to_255(s: Seq<char>)
    ensures
        is_octet(s) <==> exists|n: nat| n <= 255 && s == #[trigger] decimal(n),
{
    if is_octet(s) {
        digits_are_decimal(s);
        assert(digits_value(s) <= 255 && s == decimal(digits_value(s)));
    }
    if exists|n: nat| n <= 255 && s == #[trigger] decimal(n) {
        let n = choose|n: nat| n <= 255 && s == #[trigger] decimal(n);
        decimal_denotes_its_number(n);
        decimal_ends_in_its_last_digit(n);
        few_digits(n);
    }
}

proof fn numbers_are_one_piece(n: nat)
    ensures
        is_one_piece(decimal(n), '.'),
{
    decimal_denotes_its_number(n);
    let s = decimal(n);
    assert forall|i: int| 0 <= i < s.len() implies #[trigger] s[i] != '.' by {
        assert(is_digit(s[i]));
    }
}

/// Four numbers with dots between them.
pub open spec fn dotted(a: nat, b: nat, c: nat, d: nat) -> Seq<char> {
    decimal(a) + seq!['.'] + (decimal(b) + seq!['.'] + (decimal(c) + seq!['.'] + decimal(d)))
}

/// Four numbers up to 255 with dots between them are an IPv4 address, and each number above 255
/// spoils it.
pub proof fn dotted_numbers_are_ipv4(a: nat, b: nat, c: nat, d: nat)
    ensures
        is_ipv4(dotted(a, b, c, d)) <==> a <= 255 && b <= 255 && c <= 255 && d <= 255,
{
    let s = dotted(a, b, c, d);
    numbers_are_one_piece(a);
    numbers_are_one_piece(b);
    numbers_are_one_piece(c);
    numbers_are_one_piece(d);
    pieces_stand_between_separators(decimal(d), '.', Seq::empty());
    pieces_stand_between_separators(decimal(c), '.', decimal(d));
    pieces_stand_between_separators(decimal(b), '.', decimal(c) + seq!['.'] + decimal(d));
    pieces_stand_between_separators(
        decimal(a),
        '.',
        decimal(b) + seq!['.'] + (decimal(c) + seq!['.'] + decimal(d)),
    );
    let p = pieces(s, '.');
    assert(p =~= seq![decimal(a), decimal(b), decimal(c), decimal(d)]);
    octets_are_numbers_up_to_255(decimal(a));
    octets_are_numbers_up_to_255(decimal(b));
    octets_are_numbers_up_to_255(decimal(c));
    octets_are_numbers_up_to_255(decimal(d));
    decimal_denotes_its_number(a);
    decimal_denotes_its_number(b);
    decimal_denotes_its_number(c);
    decimal_denotes_its_number(d);
    if is_ipv4(s) {
        assert(is_octet(p[0]) && is_octet(p[1]) && is_octet(p[2]) && is_octet(p[3]));
    }
}

/// Every IPv4 address is four numbers up to 255 with dots between them.
pub proof fn ipv4_is_dotted_numbers(s: Seq<char>) -> (r: (nat, nat, nat, nat))
    requires
        is_ipv4(s),
    ensures
        s == dotted(r.0, r.1, r.2, r.3),
        r.0 <= 255 && r.1 <= 255 && r.2 <= 255 && r.3 <= 255,
{
    let p = pieces(s, '.');
    assert(is_octet(p[0]) && is_octet(p[1]) && is_octet(p[2]) && is_octet(p[3]));
    let i = first_piece(s, '.');
    let a = s.take(i);
    let s1 = s.skip(i + 1);
    pieces_stand_between_separators(a, '.', s1);
    assert(i < s.len());
    let p1 = pieces(s1, '.');
    assert(p =~= seq![a] + p1);
    assert(p1.len() == 3 && p1[0] == p[1] && p1[1] == p[2] && p1[2] == p[3]);
    let j = first_piece(s1, '.');
    let b = s1.take(j);
    let s2 = s1.skip(j + 1);
    pieces_stand_between_separators(b, '.', s2);
    assert(j < s1.len());
    let p2 = pieces(s2, '.');
    assert(p1 =~= seq![b] + p2);
    assert(p2.len() == 2 && p2[0] == p[2] && p2[1] == p[3]);
    let k = first_piece(s2, '.');
    let c = s2.take(k);
    let s3 = s2.skip(k + 1);
    pieces_stand_between_separators(c, '.', s3);
    assert(k < s2.len());
    let p3 = pieces(s3, '.');
    assert(p2 =~= seq![c] + p3);
    let l = first_piece(s3, '.');
    let d = s3.take(l);
    pieces_stand_between_separators(d, '.', s3.skip(l + 1));
    if l < s3.len() {
        assert(pieces(s3, '.').len() == 1 + pieces(s3.skip(l + 1), '.').len());
        some_piece(s3.skip(l + 1), '.');
    }
    assert(p3 =~= seq![d]);
    assert(p[0] == a && p[1] == b && p[2] == c && p[3] == d);
    digits_are_decimal(a);
    digits_are_decimal(b);
    digits_are_decimal(c);
    digits_are_decimal(d);
    (digits_value(a), digits_value(b), digits_value(c), digits_value(d))
}

proof fn some_piece(s: Seq<char>, sep: char)
    ensures
        pieces(s, sep).len() >= 1,
{
}

// ---------------------------------------------------------------------------
// Hostnames
// ---------------------------------------------------------------------------

/// The characters of labels: small and capital letters, digits and the hyphen.
pub proof fn label_characters(c: char)
    ensures
        is_label_char(c) <==> {
            ||| 0x61 <= c as int <= 0x7A
            ||| 0x41 <= c as int <= 0x5A
            ||| 0x30 <= c as int <= 0x39
            ||| c as int == 0x2D
        },
{
}

/// A single label is a hostname exactly where it is no number; one before a dot and a hostname
/// makes up a hostname, as long as that has no more than 253 characters.
pub proof fn hostnames_are_labels_with_dots(a: Seq<char>, rest: Seq<char>)
    requires
        is_one_piece(a, '.'),
    ensures
        is_hostname(a) <==> is_label(a) && !all_digits(a),
        is_hostname(a + seq!['.'] + rest) <==> {
            &&& is_label(a)
            &&& is_hostname(rest)
            &&& a.len() + 1 + rest.len() <= 253
        },
        is_label(a) <==> {
            &&& 1 <= a.len() <= 63
            &&& forall|i: int| 0 <= i < a.len() ==> is_label_char(#[trigger] a[i])
            &&& a[0] != '-'
            &&& a[a.len() - 1] != '-'
        },
{
    pieces_stand_between_separators(a, '.', rest);
    some_piece(rest, '.');
    let one = pieces(a, '.');
    assert(one[0] == a);
    let s = a + seq!['.'] + rest;
    let all = pieces(s, '.');
    let tail = pieces(rest, '.');
    assert(all[0] == a);
    assert(all.last() == tail.last());
    assert forall|i: int| 0 <= i < tail.len() implies #[trigger] tail[i] == all[i + 1] by {}
    if is_hostname(s) {
        assert forall|i: int| 0 <= i < tail.len() implies is_label(#[trigger] tail[i]) by {
            assert(is_label(all[i + 1]));
        }
    }
    if is_label(a) && is_hostname(rest) {
        assert forall|i: int| 0 <= i < all.len() implies is_label(#[trigger] all[i]) by {
            if i > 0 {
                assert(is_label(tail[i - 1]));
            }
        }
    }
    if is_hostname(a) {
        assert(is_label(one[0]));
    }
}

// ---------------------------------------------------------------------------
// IPv6
// ---------------------------------------------------------------------------

/// A group is one to four hexadecimal digits: the ten digits and the letters from a to f, small or
/// capital.
pub proof fn groups_are_hexadecimal(s: Seq<char>)
    ensures
        is_hex_group(s) <==> {
            &&& 1 <= s.len() <= 4
            &&& forall|i: int|
                0 <= i < s.len() ==> {
                    let c = #[trigger] s[i] as int;
                    0x30 <= c <= 0x39 || 0x41 <= c <= 0x46 || 0x61 <= c <= 0x66
                }
        },
{
    if is_hex_group(s) {
        assert forall|i: int| 0 <= i < s.len() implies {
            let c = #[trigger] s[i] as int;
            0x30 <= c <= 0x39 || 0x41 <= c <= 0x46 || 0x61 <= c <= 0x66
        } by {
            assert(is_hex_digit(s[i]));
        }
    }
}

/// Groups are counted between colons: a group alone is one, an IPv4 address at the end counts for
/// two where there may be one, and a text that is neither spoils the count.
pub proof fn groups_are_counted_between_colons(a: Seq<char>, rest: Seq<char>, ipv4: bool)
    requires
        is_one_piece(a, ':'),
    ensures
        groups_in(Seq::empty(), ipv4) == Some(0nat),
        is_hex_group(a) ==> groups_in(a, ipv4) == Some(1nat),
        a.len() > 0 && !is_hex_group(a) && ipv4 && is_ipv4(a) ==> groups_in(a, ipv4) == Some(2nat),
        a.len() > 0 && !is_hex_group(a) && !(ipv4 && is_ipv4(a)) ==> groups_in(a, ipv4) is None,
        !is_hex_group(a) ==> groups_in(a + seq![':'] + rest, ipv4) is None,
        is_hex_group(a) && rest.len() > 0 && groups_in(rest, ipv4) is None ==> groups_in(
            a + seq![':'] + rest,
            ipv4,
        ) is None,
        is_hex_group(a) && rest.len() > 0 && groups_in(rest, ipv4) is Some ==> groups_in(
            a + seq![':'] + rest,
            ipv4,
        ) == Some((groups_in(rest, ipv4)->0 + 1) as nat),
        is_hex_group(a) && rest.len() == 0 ==> groups_in(a + seq![':'] + rest, ipv4) is None,
{
    pieces_stand_between_separators(a, ':', rest);
    some_piece(rest, ':');
    let one = pieces(a, ':');
    assert(one[0] == a && one.last() == a);
    let s = a + seq![':'] + rest;
    let all = pieces(s, ':');
    let tail = pieces(rest, ':');
    let n = all.len() as int;
    assert(n == tail.len() + 1);
    assert(all[0] == a);
    assert(all.last() == tail.last());
    assert forall|i: int| 0 <= i < tail.len() implies #[trigger] tail[i] == all[i + 1] by {}
    let spoiled_tail = exists|i: int| 0 <= i < tail.len() - 1 && !is_hex_group(#[trigger] tail[i]);
    let spoiled = exists|i: int| 0 <= i < all.len() - 1 && !is_hex_group(#[trigger] all[i]);
    if !is_hex_group(a) {
        assert(!is_hex_group(all[0]));
        assert(spoiled);
    } else {
        if spoiled_tail {
            let i = choose|i: int| 0 <= i < tail.len() - 1 && !is_hex_group(#[trigger] tail[i]);
            assert(!is_hex_group(all[i + 1]));
            assert(spoiled);
        }
        if spoiled {
            let i = choose|i: int| 0 <= i < all.len() - 1 && !is_hex_group(#[trigger] all[i]);
            assert(i > 0);
            assert(!is_hex_group(tail[i - 1]));
            assert(spoiled_tail);
        }
    }
    if rest.len() == 0 {
        pieces_stand_between_separators(rest, ':', rest);
        assert(tail[0] == rest);
        empty_is_no_ipv4(rest);
    }
}

proof fn empty_is_no_ipv4(s: Seq<char>)
    requires
        s.len() == 0,
    ensures
        !is_ipv4(s),
{
    pieces_stand_between_separators(s, '.', s);
}

/// Without two colons in a row an IPv6 address has eight groups. With two of them it has seven at
/// most, those before them and those behind them counted together, and an IPv4 address may stand
/// for the last two of those behind them only.
pub proof fn ipv6_has_eight_groups(head: Seq<char>, tail: Seq<char>)
    requires
        forall|k: int| !(#[trigger] gap_at(head, k)),
        head.len() > 0 ==> head.last() != ':',
    ensures
        is_ipv6(head) <==> head.len() > 0 && groups_in(head, true) == Some(8nat),
        is_ipv6(head + seq![':', ':'] + tail) <==> {
            &&& groups_in(head, false) is Some
            &&& groups_in(tail, true) is Some
            &&& groups_in(head, false)->0 + groups_in(tail, true)->0 <= 7
        },
{
    let s = head + seq![':', ':'] + tail;
    let n = head.len() as int;
    assert(s[n] == ':' && s[n + 1] == ':');
    assert(gap_at(s, n));
    assert forall|k: int| 0 <= k < n implies !gap_at(s, k) by {
        if gap_at(s, k) {
            assert(s[k] == head[k]);
            if k + 1 < n {
                assert(s[k + 1] == head[k + 1]);
                assert(gap_at(head, k));
            }
        }
    }
    assert(first_gap_at(s, n));
    let c = choose|k: int| first_gap_at(s, k);
    assert(first_gap_at(s, c));
    if c < n {
        assert(!gap_at(s, c));
    } else if n < c {
        assert(!gap_at(s, n));
    }
    assert(s.take(n) =~= head);
    assert(s.skip(n + 2) =~= tail);
}

/// An IPv6 address stands in brackets where a port follows it, with the number of its scope behind
/// a percent sign or without.
pub proof fn ipv6_stands_in_brackets(s: Seq<char>, scope: nat)
    requires
        is_one_piece(s, '%'),
    ensures
        is_bracketed_ipv6(seq!['['] + s + seq![']']) <==> is_ipv6(s),
        is_bracketed_ipv6(seq!['['] + (s + seq!['%'] + decimal(scope)) + seq![']']) <==> is_ipv6(s)
            && scope <= u32::MAX,
        is_socket_host(seq!['['] + s + seq![']']) || !is_ipv6(s),
{
    let plain = seq!['['] + s + seq![']'];
    assert(plain.subrange(1, plain.len() - 1) =~= s);
    next_separator(s, '%', 0, s.len() as int);
    assert(s.take(s.len() as int) =~= s);
    let inner = s + seq!['%'] + decimal(scope);
    let scoped = seq!['['] + inner + seq![']'];
    assert(scoped.subrange(1, scoped.len() - 1) =~= inner);
    let n = s.len() as int;
    assert(inner[n] == '%');
    assert forall|k: int| 0 <= k < n implies inner[k] != '%' by {
        assert(inner[k] == s[k]);
    }
    next_separator(inner, '%', 0, n);
    assert(inner.take(n) =~= s);
    assert(inner.skip(n).skip(1) =~= decimal(scope));
    assert(inner.skip(n)[0] == '%');
    decimal_denotes_its_number(scope);
}

} // verus!
