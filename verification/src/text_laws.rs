//! What texts of numbers look like, and how texts are ordered and stripped.

use crate::text::{
    all_digits, ascii_lower, decimal, digits_value, diverge_at, has,
    hex_lower, hex_lower_byte, hex_upper, hex_upper_byte, hex_upper_run, hex_upper_word, is_digit,
    is_white_space, precedes, signed_decimal, stands_at, u32_of, without_trailing_nuls,
};
use vstd::prelude::*;
use vstd::string::*;
use vstd::utf8::*;

verus! {

// ---------------------------------------------------------------------------
// Numbers
// ---------------------------------------------------------------------------

/// The last character of a number in decimal is its last digit, and the characters before it are
/// the number without that digit; a number below ten is that digit alone.
pub proof fn decimal_ends_in_its_last_digit(n: nat)
    ensures
        decimal(n).last() == "0123456789"@[n as int % 10],
        n < 10 ==> decimal(n).len() == 1,
        n >= 10 ==> decimal(n).drop_last() == decimal(n / 10),
        n > 0 ==> decimal(n)[0] != '0',
    decreases n,
{
    reveal_strlit("0123456789");
    if n >= 10 {
        decimal_ends_in_its_last_digit(n / 10);
        assert(decimal(n).drop_last() =~= decimal(n / 10));
    }
}

/// A negative number is a minus sign and the number without its sign; others have no sign.
pub proof fn sign_stands_before_the_digits(n: nat)
    ensures
        signed_decimal(n as int) == decimal(n),
        n > 0 ==> signed_decimal(-n) == seq!['-'] + decimal(n),
{
}

/// A digit behind others makes ten times the number and the digit.
pub proof fn digit_behind_digits(s: Seq<char>, d: int)
    requires
        0 <= d < 10,
    ensures
        digits_value(s.push("0123456789"@[d])) == 10 * digits_value(s) + d,
        digits_value(Seq::empty()) == 0,
        is_digit("0123456789"@[d]),
{
    reveal_strlit("0123456789");
    assert(s.push("0123456789"@[d]).drop_last() =~= s);
}

/// Exactly the characters from `0` to `9` are digits.
pub proof fn ten_digits(c: char)
    ensures
        is_digit(c) <==> "0123456789"@.contains(c),
{
    reveal_strlit("0123456789");
    let all = "0123456789"@;
    if is_digit(c) {
        let d = c as int - 0x30;
        assert(all[d] == c);
    }
    if all.contains(c) {
        let d = choose|d: int| 0 <= d < all.len() && all[d] == c;
        assert(0 <= d < 10);
    }
}

/// A number that 32 bits hold is read from its digits, with or without a plus sign; no number is
/// read from nothing, from a sign alone or from digits that make more.
pub proof fn numbers_are_read_from_digits(s: Seq<char>)
    requires
        all_digits(s),
    ensures
        s.len() > 0 && digits_value(s) < 0x1_0000_0000 ==> {
            &&& u32_of(s) matches Some(n) && n == digits_value(s)
            &&& u32_of(seq!['+'] + s) matches Some(n) && n == digits_value(s)
        },
        s.len() == 0 || digits_value(s) >= 0x1_0000_0000 ==> {
            &&& u32_of(s) is None
            &&& u32_of(seq!['+'] + s) is None
        },
{
    let t = seq!['+'] + s;
    assert(t.skip(1) =~= s);
    if s.len() > 0 {
        assert(is_digit(s[0]));
        assert(s[0] != '+');
    }
}

/// A text with anything else than digits behind at most one plus sign holds no number.
pub proof fn other_texts_hold_no_number(s: Seq<char>, i: int)
    requires
        0 <= i < s.len(),
        !is_digit(s[i]),
        i > 0 || s[0] != '+',
    ensures
        u32_of(s) is None,
{
    let t = s.skip(1);
    if s[0] == '+' {
        assert(t[i - 1] == s[i]);
    }
}

/// Hexadecimal digits are the ten digits and the first six letters.
pub proof fn hexadecimal_digits(d: int)
    requires
        0 <= d < 16,
    ensures
        hex_upper(d) == "0123456789ABCDEF"@[d],
        hex_lower(d) == "0123456789abcdef"@[d],
{
    reveal_strlit("0123456789ABCDEF");
    reveal_strlit("0123456789abcdef");
}

/// A byte, or a word, in hexadecimal has two digits, or four, the most significant one first.
pub proof fn hexadecimal_texts(b: u8, w: u16)
    ensures
        hex_upper_byte(b) == seq![hex_upper(b as int / 16), hex_upper(b as int % 16)],
        hex_lower_byte(b) == seq![hex_lower(b as int / 16), hex_lower(b as int % 16)],
        hex_upper_word(w) == seq![
            hex_upper(w as int / 4096),
            hex_upper(w as int / 256 % 16),
            hex_upper(w as int / 16 % 16),
            hex_upper(w as int % 16),
        ],
{
    assert((w / 256) as u8 == w as int / 256);
    assert((w % 256) as u8 == w as int % 256);
    assert(w as int / 256 / 16 == w as int / 4096);
    assert(w as int % 256 / 16 == w as int / 16 % 16);
    assert(w as int % 256 % 16 == w as int % 16);
    assert(hex_upper_word(w) =~= seq![
        hex_upper(w as int / 4096),
        hex_upper(w as int / 256 % 16),
        hex_upper(w as int / 16 % 16),
        hex_upper(w as int % 16),
    ]);
}

/// Bytes in hexadecimal have two digits each, in the order of the bytes and without anything
/// between them.
pub proof fn hexadecimal_run(b: Seq<u8>, k: int)
    requires
        0 <= k < b.len(),
    ensures
        hex_upper_run(b).len() == 2 * b.len(),
        hex_upper_run(b)[2 * k] == "0123456789ABCDEF"@[b[k] as int / 16],
        hex_upper_run(b)[2 * k + 1] == "0123456789ABCDEF"@[b[k] as int % 16],
    decreases b.len(),
{
    hexadecimal_digits(b[k] as int / 16);
    hexadecimal_digits(b[k] as int % 16);
    hexadecimal_run_length(b.drop_last());
    if k < b.len() - 1 {
        hexadecimal_run(b.drop_last(), k);
    }
}

proof fn hexadecimal_run_length(b: Seq<u8>)
    ensures
        hex_upper_run(b).len() == 2 * b.len(),
    decreases b.len(),
{
    if b.len() > 0 {
        hexadecimal_run_length(b.drop_last());
    }
}

// ---------------------------------------------------------------------------
// Letters and NUL characters
// ---------------------------------------------------------------------------

/// Of the ASCII characters the 26 capital letters have small ones, and no other changes.
pub proof fn small_letters(c: char)
    ensures
        forall|i: int|
            0 <= i < 26 && c == #[trigger] "ABCDEFGHIJKLMNOPQRSTUVWXYZ"@[i] ==> ascii_lower(c)
                == "abcdefghijklmnopqrstuvwxyz"@[i],
        !"ABCDEFGHIJKLMNOPQRSTUVWXYZ"@.contains(c) ==> ascii_lower(c) == c,
{
    reveal_strlit("ABCDEFGHIJKLMNOPQRSTUVWXYZ");
    reveal_strlit("abcdefghijklmnopqrstuvwxyz");
    let all = "ABCDEFGHIJKLMNOPQRSTUVWXYZ"@;
    let i = c as int - 0x41;
    if 0 <= i < 26 {
        assert(all[i] == c);
    }
}

/// Stripping takes the NUL characters off the end of a text, all of them and nothing else.
pub proof fn only_trailing_nuls_go(s: Seq<char>)
    ensures
        ({
            let t = without_trailing_nuls(s);
            &&& t.len() <= s.len()
            &&& t == s.take(t.len() as int)
            &&& forall|i: int| t.len() <= i < s.len() ==> #[trigger] s[i] == '\0'
            &&& t.len() > 0 ==> t.last() != '\0'
        }),
    decreases s.len(),
{
    if s.len() > 0 && s.last() == '\0' {
        let u = s.drop_last();
        only_trailing_nuls_go(u);
        let t = without_trailing_nuls(s);
        assert(t =~= s.take(t.len() as int));
        assert forall|i: int| t.len() <= i < s.len() implies #[trigger] s[i] == '\0' by {
            if i < s.len() - 1 {
                assert(u[i] == s[i]);
            }
        }
    } else {
        assert(s =~= s.take(s.len() as int));
    }
}

/// A text occurs in another exactly where something may stand before and after it.
pub proof fn occurs_between(before: Seq<char>, pat: Seq<char>, after: Seq<char>)
    ensures
        has(before + pat + after, pat),
{
    let s = before + pat + after;
    assert(s.subrange(before.len() as int, (before.len() + pat.len()) as int) =~= pat);
    assert(stands_at(s, pat, before.len() as int));
}

/// Where a text occurs in another, the other is it with something before and after it.
pub proof fn occurrence_splits(s: Seq<char>, pat: Seq<char>) -> (r: (Seq<char>, Seq<char>))
    requires
        has(s, pat),
    ensures
        s == r.0 + pat + r.1,
{
    let i = choose|i: int| stands_at(s, pat, i);
    let before = s.take(i);
    let after = s.skip(i + pat.len());
    assert(s =~= before + s.subrange(i, i + pat.len()) + after);
    (before, after)
}

// ---------------------------------------------------------------------------
// Order
// ---------------------------------------------------------------------------

/// A text comes before every longer text that starts with it.
pub proof fn beginnings_come_first(a: Seq<char>, b: Seq<char>)
    requires
        b.len() > 0,
    ensures
        precedes(a, a + b),
{
    encoding_of_both(a, b);
    let x = encode_utf8(a);
    let y = encode_utf8(a + b);
    assert(encode_utf8(b).len() > 0);
    assert(y.take(x.len() as int) =~= x);
    assert(x.take(x.len() as int) =~= x);
    assert(diverge_at(x, y, x.len() as int));
}

/// Of two texts that are the same up to some place, the one with the smaller byte there comes
/// first.
pub proof fn first_difference_decides(a: Seq<char>, b: Seq<char>, i: int)
    requires
        0 <= i < encode_utf8(a).len(),
        i < encode_utf8(b).len(),
        encode_utf8(a).take(i) == encode_utf8(b).take(i),
        encode_utf8(a)[i] < encode_utf8(b)[i],
    ensures
        precedes(a, b),
        !precedes(b, a),
{
    assert(diverge_at(encode_utf8(a), encode_utf8(b), i));
    crate::text::precedes_is_asymmetric(a, b);
}

proof fn encoding_of_both(a: Seq<char>, b: Seq<char>)
    ensures
        encode_utf8(a + b) == encode_utf8(a) + encode_utf8(b),
    decreases a.len(),
{
    if a.len() == 0 {
        assert(a + b =~= b);
        assert(encode_utf8(a) + encode_utf8(b) =~= encode_utf8(b));
    } else {
        assert((a + b).drop_first() =~= a.drop_first() + b);
        encoding_of_both(a.drop_first(), b);
        assert(encode_utf8(a + b) =~= encode_utf8(a) + encode_utf8(b));
    }
}

/// Space, tabulator and the ends of lines are white space; of the other ASCII characters that can
/// be seen none is.
pub proof fn white_space_characters(c: char)
    ensures
        c == ' ' || c == '\t' || c == '\n' || c == '\r' ==> is_white_space(c),
        0x21 <= c as int <= 0x7E ==> !is_white_space(c),
{
}

} // verus!
