//! Text primitives: comparison, trimming, searching, number formatting and
//! number parsing, each stated over the sequence of characters of the text.

use vstd::prelude::*;
use vstd::string::*;
use vstd::utf8::*;

verus! {

// ---------------------------------------------------------------------------
// Order of texts
// ---------------------------------------------------------------------------

/// `a` and `b` agree before position `i` and first differ there (or one of them ends there).
pub open spec fn diverge_at(a: Seq<u8>, b: Seq<u8>, i: int) -> bool {
    &&& 0 <= i <= a.len()
    &&& i <= b.len()
    &&& a.take(i) == b.take(i)
    &&& (i < a.len() && i < b.len() ==> a[i] != b[i])
    &&& (a.len() == i || b.len() == i || a[i] != b[i])
}

/// Lexicographic order of byte sequences.
pub open spec fn bytes_precede(a: Seq<u8>, b: Seq<u8>) -> bool {
    exists|i: int|
        #[trigger] diverge_at(a, b, i) && i < b.len() && (i == a.len() || a[i] < b[i])
}

/// Order of texts: lexicographic by their UTF-8 bytes.
pub open spec fn precedes(a: Seq<char>, b: Seq<char>) -> bool {
    bytes_precede(encode_utf8(a), encode_utf8(b))
}

/// No text precedes itself.
pub proof fn precedes_is_irreflexive(a: Seq<char>)
    ensures
        !precedes(a, a),
{
}

/// Two texts cannot precede each other.
pub proof fn precedes_is_asymmetric(a: Seq<char>, b: Seq<char>)
    requires
        precedes(a, b),
    ensures
        !precedes(b, a),
{
    let x = encode_utf8(a);
    let y = encode_utf8(b);
    let i = choose|i: int|
        #[trigger] diverge_at(x, y, i) && i < y.len() && (i == x.len() || x[i] < y[i]);
    if precedes(b, a) {
        let j = choose|j: int|
            #[trigger] diverge_at(y, x, j) && j < x.len() && (j == y.len() || y[j] < x[j]);
        if i < j {
            assert(y.take(j)[i] == x.take(j)[i]);
        } else if j < i {
            assert(x.take(i)[j] == y.take(i)[j]);
        }
    }
}

/// The order of texts is transitive.
pub proof fn precedes_is_transitive(a: Seq<char>, b: Seq<char>, c: Seq<char>)
    requires
        precedes(a, b),
        precedes(b, c),
    ensures
        precedes(a, c),
{
    let x = encode_utf8(a);
    let y = encode_utf8(b);
    let z = encode_utf8(c);
    let i = choose|i: int|
        #[trigger] diverge_at(x, y, i) && i < y.len() && (i == x.len() || x[i] < y[i]);
    let j = choose|j: int|
        #[trigger] diverge_at(y, z, j) && j < z.len() && (j == y.len() || y[j] < z[j]);
    let k = if i <= j { i } else { j };
    assert(x.take(k) =~= z.take(k)) by {
        assert forall|p: int| 0 <= p < k implies x[p] == z[p] by {
            assert(x.take(i)[p] == y.take(i)[p]);
            assert(y.take(j)[p] == z.take(j)[p]);
        }
    }
    if i < j {
        assert(y.take(j)[i] == z.take(j)[i]);
    } else if j < i {
        assert(x.take(i)[j] == y.take(i)[j]);
    }
    assert(diverge_at(x, z, k));
}

/// Of two different texts one precedes the other.
pub proof fn precedes_is_total(a: Seq<char>, b: Seq<char>)
    ensures
        a == b || precedes(a, b) || precedes(b, a),
{
    let x = encode_utf8(a);
    let y = encode_utf8(b);
    encode_utf8_decode_utf8(a);
    encode_utf8_decode_utf8(b);
    assert(x.take(0) =~= y.take(0));
    first_divergence(x, y, 0);
    let i = choose|i: int| diverge_at(x, y, i);
    if i == x.len() && i == y.len() {
        assert(x =~= x.take(i));
        assert(y =~= y.take(i));
    } else if i < y.len() && (i == x.len() || x[i] < y[i]) {
        assert(bytes_precede(x, y));
    } else {
        assert(y.take(i) == x.take(i));
        assert(diverge_at(y, x, i));
        assert(bytes_precede(y, x));
    }
}

proof fn first_divergence(x: Seq<u8>, y: Seq<u8>, k: int)
    requires
        0 <= k <= x.len(),
        k <= y.len(),
        x.take(k) == y.take(k),
    ensures
        exists|i: int| diverge_at(x, y, i),
    decreases x.len() - k,
{
    if k == x.len() || k == y.len() || x[k] != y[k] {
        assert(diverge_at(x, y, k));
    } else {
        assert(x.take(k + 1) =~= x.take(k).push(x[k]));
        assert(y.take(k + 1) =~= y.take(k).push(y[k]));
        first_divergence(x, y, k + 1);
    }
}

/// Whether two texts are the same.
pub fn same(a: &str, b: &str) -> (r: bool)
    ensures
        r == (a@ == b@),
{
    let x = a.as_bytes();
    let y = b.as_bytes();
    proof {
        encode_utf8_decode_utf8(a@);
        encode_utf8_decode_utf8(b@);
    }
    if x.len() != y.len() {
        return false;
    }
    let mut i: usize = 0;
    while i < x.len()
        invariant
            i <= x.len(),
            x.len() == y.len(),
            x@ == encode_utf8(a@),
            y@ == encode_utf8(b@),
            x@.take(i as int) =~= y@.take(i as int),
        decreases x.len() - i,
    {
        if x[i] != y[i] {
            return false;
        }
        assert(x@.take(i + 1) =~= x@.take(i as int).push(x@[i as int]));
        assert(y@.take(i + 1) =~= y@.take(i as int).push(y@[i as int]));
        i = i + 1;
    }
    assert(x@.take(i as int) =~= x@);
    assert(y@.take(i as int) =~= y@);
    true
}

/// Whether `a` comes before `b` in the order of texts.
pub fn comes_before(a: &str, b: &str) -> (r: bool)
    ensures
        r == precedes(a@, b@),
{
    let x = a.as_bytes();
    let y = b.as_bytes();
    let mut i: usize = 0;
    while i < x.len() && i < y.len() && x[i] == y[i]
        invariant
            i <= x.len(),
            i <= y.len(),
            x@.take(i as int) =~= y@.take(i as int),
        decreases x.len() - i,
    {
        assert(x@.take(i + 1) =~= x@.take(i as int).push(x@[i as int]));
        assert(y@.take(i + 1) =~= y@.take(i as int).push(y@[i as int]));
        i = i + 1;
    }
    assert(diverge_at(x@, y@, i as int));
    let r = i < y.len() && (i == x.len() || x[i] < y[i]);
    proof {
        if !r && precedes(a@, b@) {
            let j = choose|j: int|
                #[trigger] diverge_at(x@, y@, j) && j < y@.len() && (j == x@.len() || x@[j]
                    < y@[j]);
            if i < j {
                assert(x@.take(j)[i as int] == y@.take(j)[i as int]);
            } else if j < i {
                assert(x@.take(i as int)[j] == y@.take(i as int)[j]);
            }
        }
    }
    r
}

// ---------------------------------------------------------------------------
// Characters
// ---------------------------------------------------------------------------

/// The characters of `s`, in order.
pub fn chars_of(s: &str) -> (r: Vec<char>)
    ensures
        r@ == s@,
{
    let mut v: Vec<char> = Vec::new();
    for c in it: s.chars()
        invariant
            it.seq() == s@,
            v@ == s@.take(it.index()),
    {
        v.push(c);
        assert(s@.take(it.index() + 1) =~= s@.take(it.index()).push(c));
    }
    assert(s@.take(s@.len() as int) =~= s@);
    v
}

/// Whether `c` has the Unicode property White_Space.
pub open spec fn is_white_space(c: char) -> bool {
    let u = c as int;
    ||| 0x09 <= u <= 0x0D
    ||| u == 0x20
    ||| u == 0x85
    ||| u == 0xA0
    ||| u == 0x1680
    ||| 0x2000 <= u <= 0x200A
    ||| u == 0x2028
    ||| u == 0x2029
    ||| u == 0x202F
    ||| u == 0x205F
    ||| u == 0x3000
}

/// Whether `c` is white space.
pub fn white_space(c: char) -> (r: bool)
    ensures
        r == is_white_space(c),
{
    let u: u32 = c as u32;
    (0x09 <= u && u <= 0x0D) || u == 0x20 || u == 0x85 || u == 0xA0 || u == 0x1680 || (0x2000 <= u
        && u <= 0x200A) || u == 0x2028 || u == 0x2029 || u == 0x202F || u == 0x205F || u == 0x3000
}

/// Whether `c` is one of the digits 0 to 9.
pub open spec fn is_digit(c: char) -> bool {
    0x30 <= c as int <= 0x39
}

/// The value of the digit `c`.
fn digit_of(c: char) -> (r: Option<u32>)
    ensures
        match r {
            Some(d) => is_digit(c) && d == c as int - 0x30,
            None => !is_digit(c),
        },
{
    let u: u32 = c as u32;
    if 0x30 <= u && u <= 0x39 {
        Some(u - 0x30)
    } else {
        None
    }
}

/// Whether every character of `s` is a digit.
pub open spec fn all_digits(s: Seq<char>) -> bool {
    forall|i: int| 0 <= i < s.len() ==> is_digit(#[trigger] s[i])
}

// ---------------------------------------------------------------------------
// Trimming
// ---------------------------------------------------------------------------

/// `s` without the white space it starts with.
pub open spec fn trim_start(s: Seq<char>) -> Seq<char>
    decreases s.len(),
{
    if s.len() > 0 && is_white_space(s[0]) {
        trim_start(s.skip(1))
    } else {
        s
    }
}

/// `s` without the white space it ends with.
pub open spec fn trim_end(s: Seq<char>) -> Seq<char>
    decreases s.len(),
{
    if s.len() > 0 && is_white_space(s.last()) {
        trim_end(s.drop_last())
    } else {
        s
    }
}

/// `s` without the white space at both ends.
pub open spec fn trimmed(s: Seq<char>) -> Seq<char> {
    trim_end(trim_start(s))
}

/// Whether `s` holds nothing but white space.
pub open spec fn is_blank(s: Seq<char>) -> bool {
    forall|i: int| 0 <= i < s.len() ==> is_white_space(#[trigger] s[i])
}

/// Trimming leaves nothing exactly of the blank texts.
pub proof fn trimmed_is_empty_iff_blank(s: Seq<char>)
    ensures
        (trimmed(s).len() == 0) == is_blank(s),
{
    trim_start_parts(s);
    let t = trim_start(s);
    trim_end_parts(t);
    let n = s.len() - t.len();
    if is_blank(s) {
        if t.len() > 0 {
            assert(s[n] == t[0]);
        }
    } else {
        let i = choose|i: int| 0 <= i < s.len() && !is_white_space(#[trigger] s[i]);
        assert(i >= n);
        assert(t[i - n] == s[i]);
    }
}

proof fn trim_start_parts(s: Seq<char>)
    ensures
        ({
            let t = trim_start(s);
            let n = s.len() - t.len();
            &&& 0 <= n
            &&& t == s.skip(n)
            &&& forall|i: int| 0 <= i < n ==> is_white_space(#[trigger] s[i])
            &&& t.len() > 0 ==> !is_white_space(t[0])
        }),
    decreases s.len(),
{
    if s.len() > 0 && is_white_space(s[0]) {
        trim_start_parts(s.skip(1));
        let t = trim_start(s);
        let n = s.len() - t.len();
        assert(t =~= s.skip(n));
        assert forall|i: int| 0 <= i < n implies is_white_space(#[trigger] s[i]) by {
            if i > 0 {
                assert(s.skip(1)[i - 1] == s[i]);
            }
        }
    } else {
        assert(s.skip(0) =~= s);
    }
}

proof fn trim_end_parts(s: Seq<char>)
    ensures
        ({
            let t = trim_end(s);
            &&& t.len() <= s.len()
            &&& t == s.take(t.len() as int)
            &&& forall|i: int| t.len() <= i < s.len() ==> is_white_space(#[trigger] s[i])
            &&& t.len() > 0 ==> !is_white_space(t.last())
        }),
    decreases s.len(),
{
    if s.len() > 0 && is_white_space(s.last()) {
        trim_end_parts(s.drop_last());
        let t = trim_end(s);
        assert(t =~= s.take(t.len() as int));
        assert forall|i: int| t.len() <= i < s.len() implies is_white_space(#[trigger] s[i]) by {
            if i < s.len() - 1 {
                assert(s.drop_last()[i] == s[i]);
            }
        }
    } else {
        assert(s.take(s.len() as int) =~= s);
    }
}

/// Blanks around a text that neither starts nor ends with white space are what trimming takes off.
pub proof fn blanks_are_trimmed(before: Seq<char>, s: Seq<char>, after: Seq<char>)
    requires
        is_blank(before),
        is_blank(after),
        s.len() > 0,
        !is_white_space(s[0]),
        !is_white_space(s.last()),
    ensures
        trimmed(before + s + after) == s,
{
    blanks_before_are_trimmed(before, s + after);
    assert(before + s + after =~= before + (s + after));
    blanks_after_are_trimmed(s, after);
}

proof fn blanks_before_are_trimmed(before: Seq<char>, s: Seq<char>)
    requires
        is_blank(before),
        s.len() > 0,
        !is_white_space(s[0]),
    ensures
        trim_start(before + s) == s,
    decreases before.len(),
{
    if before.len() == 0 {
        assert(before + s =~= s);
    } else {
        assert((before + s)[0] == before[0]);
        assert((before + s).skip(1) =~= before.skip(1) + s);
        blanks_before_are_trimmed(before.skip(1), s);
    }
}

proof fn blanks_after_are_trimmed(s: Seq<char>, after: Seq<char>)
    requires
        is_blank(after),
        s.len() > 0,
        !is_white_space(s.last()),
    ensures
        trim_end(s + after) == s,
    decreases after.len(),
{
    if after.len() == 0 {
        assert(s + after =~= s);
    } else {
        assert((s + after).last() == after[after.len() - 1]);
        assert((s + after).drop_last() =~= s + after.drop_last());
        assert forall|i: int| 0 <= i < after.drop_last().len() implies is_white_space(
            #[trigger] after.drop_last()[i],
        ) by {
            assert(after.drop_last()[i] == after[i]);
        }
        blanks_after_are_trimmed(s, after.drop_last());
    }
}

/// What trimming leaves of a text stands in it between blanks.
pub proof fn trimming_takes_blanks_off(s: Seq<char>) -> (r: (Seq<char>, Seq<char>))
    ensures
        s == r.0 + trimmed(s) + r.1,
        is_blank(r.0),
        is_blank(r.1),
{
    trim_start_parts(s);
    let t = trim_start(s);
    trim_end_parts(t);
    let u = trim_end(t);
    let n = s.len() - t.len();
    let before = s.take(n);
    let after = t.skip(u.len() as int);
    assert forall|i: int| 0 <= i < after.len() implies is_white_space(#[trigger] after[i]) by {
        assert(after[i] == t[u.len() + i]);
    }
    assert forall|i: int| 0 <= i < before.len() implies is_white_space(#[trigger] before[i]) by {
        assert(before[i] == s[i]);
    }
    assert(s =~= before + u + after);
    (before, after)
}

/// Whether `s` holds nothing but white space.
pub fn blank(s: &str) -> (r: bool)
    ensures
        r == is_blank(s@),
        r == (trimmed(s@).len() == 0),
{
    proof {
        trimmed_is_empty_iff_blank(s@);
    }
    let v = chars_of(s);
    let mut i: usize = 0;
    while i < v.len()
        invariant
            i <= v.len(),
            v@ == s@,
            forall|k: int| 0 <= k < i ==> is_white_space(#[trigger] s@[k]),
            (trimmed(s@).len() == 0) == is_blank(s@),
        decreases v.len() - i,
    {
        if !white_space(v[i]) {
            assert(!is_white_space(s@[i as int]));
            return false;
        }
        i = i + 1;
    }
    true
}

/// `s` without the white space at both ends.
pub fn trim(s: &str) -> (r: &str)
    ensures
        r@ == trimmed(s@),
{
    let v = chars_of(s);
    let mut from: usize = 0;
    assert(s@.skip(0) =~= s@);
    while from < v.len() && white_space(v[from])
        invariant
            from <= v.len(),
            v@ == s@,
            trim_start(s@.skip(from as int)) == trim_start(s@),
        decreases v.len() - from,
    {
        assert(s@.skip(from as int).skip(1) =~= s@.skip(from + 1));
        from = from + 1;
    }
    let ghost t = s@.skip(from as int);
    assert(trim_start(s@) == t);
    let mut to: usize = v.len();
    assert(s@.subrange(from as int, to as int) =~= t);
    while from < to && white_space(v[to - 1])
        invariant
            from <= to <= v.len(),
            v@ == s@,
            trim_end(s@.subrange(from as int, to as int)) == trim_end(t),
        decreases to,
    {
        assert(s@.subrange(from as int, to as int).drop_last() =~= s@.subrange(
            from as int,
            to - 1,
        ));
        to = to - 1;
    }
    s.substring_char(from, to)
}

/// `s` without the NUL characters it ends with.
pub open spec fn without_trailing_nuls(s: Seq<char>) -> Seq<char>
    decreases s.len(),
{
    if s.len() > 0 && s.last() == '\0' {
        without_trailing_nuls(s.drop_last())
    } else {
        s
    }
}

/// `s` without the NUL characters it ends with.
pub fn strip_trailing_nuls(s: &str) -> (r: String)
    ensures
        r@ == without_trailing_nuls(s@),
{
    let v = chars_of(s);
    let mut to: usize = v.len();
    assert(s@.take(to as int) =~= s@);
    while 0 < to && v[to - 1] == '\0'
        invariant
            to <= v.len(),
            v@ == s@,
            without_trailing_nuls(s@.take(to as int)) == without_trailing_nuls(s@),
        decreases to,
    {
        assert(s@.take(to as int).drop_last() =~= s@.take(to - 1));
        to = to - 1;
    }
    assert(s@.subrange(0, to as int) =~= s@.take(to as int));
    s.substring_char(0, to).to_owned()
}

// ---------------------------------------------------------------------------
// Searching
// ---------------------------------------------------------------------------

/// `pat` stands in `s` at position `i`.
pub open spec fn stands_at(s: Seq<char>, pat: Seq<char>, i: int) -> bool {
    &&& 0 <= i
    &&& i + pat.len() <= s.len()
    &&& s.subrange(i, i + pat.len()) == pat
}

/// `pat` occurs in `s`.
pub open spec fn has(s: Seq<char>, pat: Seq<char>) -> bool {
    exists|i: int| stands_at(s, pat, i)
}

/// `i` is the first position at or after `from` at which `pat` stands in `s`.
pub open spec fn first_at(s: Seq<char>, pat: Seq<char>, from: int, i: int) -> bool {
    &&& from <= i
    &&& stands_at(s, pat, i)
    &&& forall|k: int| from <= k < i ==> !stands_at(s, pat, k)
}

fn matches_here(v: &Vec<char>, p: &Vec<char>, at: usize) -> (r: bool)
    requires
        at <= v@.len(),
    ensures
        r == stands_at(v@, p@, at as int),
{
    if v.len() - at < p.len() {
        return false;
    }
    let mut k: usize = 0;
    while k < p.len()
        invariant
            k <= p.len(),
            at + p.len() <= v.len(),
            forall|q: int| 0 <= q < k ==> v@[at + q] == #[trigger] p@[q],
        decreases p.len() - k,
    {
        if v[at + k] != p[k] {
            assert(v@.subrange(at as int, at + p@.len())[k as int] != p@[k as int]);
            return false;
        }
        k = k + 1;
    }
    assert(v@.subrange(at as int, at + p@.len()) =~= p@);
    true
}

/// The first position at or after `from` at which `pat` stands in `s`.
pub fn find_from(s: &str, pat: &str, from: usize) -> (r: Option<usize>)
    requires
        from <= s@.len(),
    ensures
        match r {
            Some(i) => first_at(s@, pat@, from as int, i as int),
            None => forall|k: int| from <= k ==> !stands_at(s@, pat@, k),
        },
{
    let v = chars_of(s);
    let p = chars_of(pat);
    let mut i: usize = from;
    while i < v.len()
        invariant
            from <= i <= v.len(),
            v@ == s@,
            p@ == pat@,
            forall|k: int| from <= k < i ==> !stands_at(s@, pat@, k),
        decreases v.len() - i,
    {
        if matches_here(&v, &p, i) {
            return Some(i);
        }
        i = i + 1;
    }
    if matches_here(&v, &p, i) {
        return Some(i);
    }
    None
}

/// Whether `pat` occurs in `s`.
pub fn contains(s: &str, pat: &str) -> (r: bool)
    ensures
        r == has(s@, pat@),
{
    match find_from(s, pat, 0) {
        Some(i) => {
            assert(stands_at(s@, pat@, i as int));
            true
        },
        None => false,
    }
}

// ---------------------------------------------------------------------------
// Numbers
// ---------------------------------------------------------------------------

/// The decimal digit `d`.
pub open spec fn digit(d: nat) -> char {
    (0x30 + d) as char
}

/// `n` in decimal.
pub open spec fn decimal(n: nat) -> Seq<char>
    decreases n,
{
    if n < 10 {
        seq![digit(n)]
    } else {
        decimal(n / 10).push(digit(n % 10))
    }
}

/// `n` in decimal, with a minus sign where it is negative.
pub open spec fn signed_decimal(n: int) -> Seq<char> {
    if n < 0 {
        seq!['-'] + decimal((-n) as nat)
    } else {
        decimal(n as nat)
    }
}

fn digit_text(d: u64) -> (r: &'static str)
    requires
        d < 10,
    ensures
        r@ == seq![digit(d as nat)],
{
    proof {
        reveal_strlit("0");
        reveal_strlit("1");
        reveal_strlit("2");
        reveal_strlit("3");
        reveal_strlit("4");
        reveal_strlit("5");
        reveal_strlit("6");
        reveal_strlit("7");
        reveal_strlit("8");
        reveal_strlit("9");
    }
    let r = match d {
        0 => "0",
        1 => "1",
        2 => "2",
        3 => "3",
        4 => "4",
        5 => "5",
        6 => "6",
        7 => "7",
        8 => "8",
        _ => "9",
    };
    assert(r@ =~= seq![digit(d as nat)]);
    r
}

/// `n` in decimal.
pub fn to_decimal(n: u64) -> (r: String)
    ensures
        r@ == decimal(n as nat),
    decreases n,
{
    if n < 10 {
        digit_text(n).to_owned()
    } else {
        let mut s = to_decimal(n / 10);
        s.append(digit_text(n % 10));
        assert(s@ =~= decimal(n as nat / 10).push(digit(n as nat % 10)));
        s
    }
}

/// `n` in decimal, with a minus sign where it is negative.
pub fn to_signed_decimal(n: i64) -> (r: String)
    ensures
        r@ == signed_decimal(n as int),
{
    if n < 0 {
        let m: u64 = (-(n + 1)) as u64 + 1;
        proof {
            reveal_strlit("-");
        }
        let mut s = "-".to_owned();
        s.append(to_decimal(m).as_str());
        assert(s@ =~= seq!['-'] + decimal((-(n as int)) as nat));
        s
    } else {
        to_decimal(n as u64)
    }
}

/// The hexadecimal digit `d`, with capital letters.
pub open spec fn hex_upper(d: int) -> char {
    if d < 10 {
        (0x30 + d) as char
    } else {
        (0x41 + d - 10) as char
    }
}

/// The hexadecimal digit `d`, with small letters.
pub open spec fn hex_lower(d: int) -> char {
    if d < 10 {
        (0x30 + d) as char
    } else {
        (0x61 + d - 10) as char
    }
}

/// `b` as two hexadecimal digits with capital letters.
pub open spec fn hex_upper_byte(b: u8) -> Seq<char> {
    seq![hex_upper(b as int / 16), hex_upper(b as int % 16)]
}

/// `b` as two hexadecimal digits with small letters.
pub open spec fn hex_lower_byte(b: u8) -> Seq<char> {
    seq![hex_lower(b as int / 16), hex_lower(b as int % 16)]
}

/// `w` as four hexadecimal digits with capital letters.
pub open spec fn hex_upper_word(w: u16) -> Seq<char> {
    hex_upper_byte((w / 256) as u8) + hex_upper_byte((w % 256) as u8)
}

/// Bytes as a run of two-digit hexadecimal numbers with capital letters.
pub open spec fn hex_upper_run(b: Seq<u8>) -> Seq<char>
    decreases b.len(),
{
    if b.len() == 0 {
        Seq::empty()
    } else {
        hex_upper_run(b.drop_last()) + hex_upper_byte(b.last())
    }
}

fn hex_upper_text(d: u8) -> (r: &'static str)
    requires
        d < 16,
    ensures
        r@ == seq![hex_upper(d as int)],
{
    if d < 10 {
        digit_text(d as u64)
    } else {
        proof {
            reveal_strlit("A");
            reveal_strlit("B");
            reveal_strlit("C");
            reveal_strlit("D");
            reveal_strlit("E");
            reveal_strlit("F");
        }
        let r = match d {
            10 => "A",
            11 => "B",
            12 => "C",
            13 => "D",
            14 => "E",
            _ => "F",
        };
        assert(r@ =~= seq![hex_upper(d as int)]);
        r
    }
}

fn hex_lower_text(d: u8) -> (r: &'static str)
    requires
        d < 16,
    ensures
        r@ == seq![hex_lower(d as int)],
{
    if d < 10 {
        digit_text(d as u64)
    } else {
        proof {
            reveal_strlit("a");
            reveal_strlit("b");
            reveal_strlit("c");
            reveal_strlit("d");
            reveal_strlit("e");
            reveal_strlit("f");
        }
        let r = match d {
            10 => "a",
            11 => "b",
            12 => "c",
            13 => "d",
            14 => "e",
            _ => "f",
        };
        assert(r@ =~= seq![hex_lower(d as int)]);
        r
    }
}

/// `b` as two hexadecimal digits with capital letters.
pub fn to_hex_upper_byte(b: u8) -> (r: String)
    ensures
        r@ == hex_upper_byte(b),
{
    let mut s = hex_upper_text(b / 16).to_owned();
    s.append(hex_upper_text(b % 16));
    assert(s@ =~= hex_upper_byte(b));
    s
}

/// `b` as two hexadecimal digits with small letters.
pub fn to_hex_lower_byte(b: u8) -> (r: String)
    ensures
        r@ == hex_lower_byte(b),
{
    let mut s = hex_lower_text(b / 16).to_owned();
    s.append(hex_lower_text(b % 16));
    assert(s@ =~= hex_lower_byte(b));
    s
}

/// `w` as four hexadecimal digits with capital letters.
pub fn to_hex_upper_word(w: u16) -> (r: String)
    ensures
        r@ == hex_upper_word(w),
{
    let mut s = to_hex_upper_byte((w / 256) as u8);
    s.append(to_hex_upper_byte((w % 256) as u8).as_str());
    s
}

/// Bytes as a run of two-digit hexadecimal numbers with capital letters.
pub fn to_hex_upper_run(b: &[u8]) -> (r: String)
    ensures
        r@ == hex_upper_run(b@),
{
    let mut s = String::new();
    let mut i: usize = 0;
    while i < b.len()
        invariant
            i <= b.len(),
            s@ == hex_upper_run(b@.take(i as int)),
        decreases b.len() - i,
    {
        assert(b@.take(i + 1).drop_last() =~= b@.take(i as int));
        s.append(to_hex_upper_byte(b[i]).as_str());
        i = i + 1;
    }
    assert(b@.take(b@.len() as int) =~= b@);
    s
}

/// The number that a run of digits denotes.
pub open spec fn digits_value(s: Seq<char>) -> nat
    decreases s.len(),
{
    if s.len() == 0 {
        0
    } else {
        digits_value(s.drop_last()) * 10 + (s.last() as int - 0x30) as nat
    }
}

/// A number in decimal is a run of digits that denotes it.
pub proof fn decimal_denotes_its_number(n: nat)
    ensures
        decimal(n).len() > 0,
        all_digits(decimal(n)),
        digits_value(decimal(n)) == n,
    decreases n,
{
    let s = decimal(n);
    if n < 10 {
        assert(is_digit(s[0]));
        assert(s.drop_last() =~= Seq::<char>::empty());
        assert(digits_value(s.drop_last()) == 0);
    } else {
        let rest = decimal(n / 10);
        decimal_denotes_its_number(n / 10);
        assert(s.drop_last() =~= rest);
        assert forall|i: int| 0 <= i < s.len() implies is_digit(#[trigger] s[i]) by {
            if i < rest.len() {
                assert(s[i] == rest[i]);
            }
        }
    }
}

/// A run of digits, with blanks around it or not, denotes its number.
pub proof fn digits_are_read(before: Seq<char>, digits: Seq<char>, after: Seq<char>)
    requires
        is_blank(before),
        is_blank(after),
        digits.len() > 0,
        all_digits(digits),
        digits_value(digits) <= u32::MAX,
    ensures
        trimmed(before + digits + after) == digits,
        u32_of(digits) == Some(digits_value(digits) as u32),
{
    assert(is_digit(digits[0]));
    assert(is_digit(digits[digits.len() - 1]));
    blanks_are_trimmed(before, digits, after);
}

/// The number that `s` denotes as an unsigned 32-bit decimal: digits, at least one of them,
/// which a plus sign may precede.
pub open spec fn u32_of(s: Seq<char>) -> Option<u32> {
    let body = if s.len() > 0 && s[0] == '+' {
        s.skip(1)
    } else {
        s
    };
    if body.len() > 0 && all_digits(body) && digits_value(body) <= u32::MAX {
        Some(digits_value(body) as u32)
    } else {
        None
    }
}

proof fn digits_value_grows(s: Seq<char>, k: int)
    requires
        0 <= k <= s.len(),
        all_digits(s),
    ensures
        digits_value(s.take(k)) <= digits_value(s),
    decreases s.len(),
{
    if k < s.len() {
        assert(s.drop_last().take(k) =~= s.take(k));
        assert forall|i: int| 0 <= i < s.drop_last().len() implies is_digit(
            #[trigger] s.drop_last()[i],
        ) by {
            assert(s.drop_last()[i] == s[i]);
        }
        digits_value_grows(s.drop_last(), k);
    } else {
        assert(s.take(k) =~= s);
    }
}

/// The number that `s` denotes as an unsigned 32-bit decimal.
pub fn parse_u32(s: &str) -> (r: Option<u32>)
    ensures
        r == u32_of(s@),
{
    let v = chars_of(s);
    let mut i: usize = 0;
    if v.len() > 0 && v[0] == '+' {
        i = 1;
    }
    let ghost start = i as int;
    let ghost body = if s@.len() > 0 && s@[0] == '+' {
        s@.skip(1)
    } else {
        s@
    };
    assert(body =~= s@.skip(start));
    if i == v.len() {
        return None;
    }
    let mut value: u32 = 0;
    while i < v.len()
        invariant
            start <= i <= v.len(),
            v@ == s@,
            0 <= start < s@.len(),
            body == s@.skip(start),
            body.len() > 0,
            body == (if s@.len() > 0 && s@[0] == '+' {
                s@.skip(1)
            } else {
                s@
            }),
            all_digits(body.take(i - start)),
            value == digits_value(body.take(i - start)),
        decreases v.len() - i,
    {
        let ghost k = i - start;
        assert(body[k] == s@[i as int]);
        let d: u32 = match digit_of(v[i]) {
            Some(d) => d,
            None => {
                assert(!is_digit(body[k]));
                return None;
            },
        };
        proof {
            assert(body.take(k + 1).drop_last() =~= body.take(k));
            assert(body.take(k + 1).last() == body[k]);
            assert forall|q: int| 0 <= q < k + 1 implies is_digit(
                #[trigger] body.take(k + 1)[q],
            ) by {
                if q < k {
                    assert(body.take(k)[q] == body.take(k + 1)[q]);
                }
            }
            if all_digits(body) {
                digits_value_grows(body, k + 1);
            }
        }
        match value.checked_mul(10) {
            None => {
                return None;
            },
            Some(ten) => match ten.checked_add(d) {
                None => {
                    return None;
                },
                Some(next) => {
                    value = next;
                },
            },
        }
        i = i + 1;
    }
    assert(body.take(i - start) =~= body);
    Some(value)
}

/// Whether every character of `s` is a digit.
pub fn is_digit_run(s: &str) -> (r: bool)
    ensures
        r == all_digits(s@),
{
    let v = chars_of(s);
    let mut i: usize = 0;
    while i < v.len()
        invariant
            i <= v.len(),
            v@ == s@,
            forall|k: int| 0 <= k < i ==> is_digit(#[trigger] s@[k]),
        decreases v.len() - i,
    {
        if digit_of(v[i]).is_none() {
            assert(!is_digit(s@[i as int]));
            return false;
        }
        i = i + 1;
    }
    true
}

/// Three texts run together.
pub fn join3(a: &str, b: &str, c: &str) -> (r: String)
    ensures
        r@ == a@ + b@ + c@,
{
    let mut s = a.to_owned();
    s.append(b);
    s.append(c);
    s
}

/// Two texts run together.
pub fn join2(a: &str, b: &str) -> (r: String)
    ensures
        r@ == a@ + b@,
{
    let mut s = a.to_owned();
    s.append(b);
    s
}

// ---------------------------------------------------------------------------
// Calls into std
// ---------------------------------------------------------------------------

/// What `str::to_lowercase` makes of a text.
pub uninterp spec fn lowercase_of(s: Seq<char>) -> Seq<char>;

/// The small letter of an ASCII capital letter, and any other character unchanged.
pub open spec fn ascii_lower(c: char) -> char {
    if 0x41 <= c as int <= 0x5A {
        (c as int + 0x20) as char
    } else {
        c
    }
}

/// `str::to_lowercase`: the result is named [`lowercase_of`]; on a text of ASCII characters
/// alone it replaces each capital letter by its small letter and keeps the rest.
#[verifier::external_body]
pub(crate) fn lowercase(s: &str) -> (r: String)
    ensures
        r@ == lowercase_of(s@),
        is_ascii_chars(s@) ==> r@ == s@.map_values(|c: char| ascii_lower(c)),
{
    s.to_lowercase()
}

/// `std::str::from_utf8`: a text exactly where the bytes are well-formed UTF-8, and then the
/// text that they encode.
#[verifier::external_body]
pub(crate) fn utf8_text(bytes: &[u8]) -> (r: Option<String>)
    ensures
        match r {
            Some(s) => valid_utf8(bytes@) && s@ == decode_utf8(bytes@),
            None => !valid_utf8(bytes@),
        },
{
    std::str::from_utf8(bytes).ok().map(|s| s.to_owned())
}

} // verus!
