//! What the byte orders do to bytes, chunk by chunk.

use crate::core_model::tag_value::{order_name, reordered, WordOrder};
use vstd::prelude::*;
use vstd::string::*;

verus! {

/// `ABCD` leaves bytes as they are, whatever their number; no order changes their number.
pub proof fn plain_order_keeps_bytes(s: Seq<u8>)
    ensures
        reordered(WordOrder::ABCD, s) == s,
        forall|order: WordOrder| (#[trigger] reordered(order, s)).len() == s.len(),
{
    assert(reordered(WordOrder::ABCD, s) =~= s);
}

/// `BADC` swaps the two bytes of every word, and leaves a byte that is left over.
pub proof fn badc_swaps_bytes_of_words(s: Seq<u8>, k: int)
    requires
        0 <= k,
    ensures
        2 * k + 1 < s.len() ==> {
            &&& reordered(WordOrder::BADC, s)[2 * k] == s[2 * k + 1]
            &&& reordered(WordOrder::BADC, s)[2 * k + 1] == s[2 * k]
        },
        2 * k + 1 == s.len() ==> reordered(WordOrder::BADC, s)[2 * k] == s[2 * k],
{
    assert((2 * k) % 2 == 0 && (2 * k + 1) % 2 == 1);
}

/// `CDAB` swaps the two words of every four bytes, and leaves the bytes that are left over.
pub proof fn cdab_swaps_words_of_chunks(s: Seq<u8>, k: int)
    requires
        0 <= k,
    ensures
        4 * k + 4 <= s.len() ==> {
            &&& reordered(WordOrder::CDAB, s)[4 * k] == s[4 * k + 2]
            &&& reordered(WordOrder::CDAB, s)[4 * k + 1] == s[4 * k + 3]
            &&& reordered(WordOrder::CDAB, s)[4 * k + 2] == s[4 * k]
            &&& reordered(WordOrder::CDAB, s)[4 * k + 3] == s[4 * k + 1]
        },
        4 * k < s.len() < 4 * k + 4 ==> forall|i: int|
            4 * k <= i < s.len() ==> #[trigger] reordered(WordOrder::CDAB, s)[i] == s[i],
{
    assert((4 * k) / 4 == k && (4 * k) % 4 == 0);
    assert((4 * k + 1) / 4 == k && (4 * k + 1) % 4 == 1);
    assert((4 * k + 2) / 4 == k && (4 * k + 2) % 4 == 2);
    assert((4 * k + 3) / 4 == k && (4 * k + 3) % 4 == 3);
}

/// `DCBA` reverses every four bytes. Of fewer that are left over it swaps the first two, where
/// there are two, and leaves the others.
pub proof fn dcba_reverses_chunks(s: Seq<u8>, k: int)
    requires
        0 <= k,
    ensures
        4 * k + 4 <= s.len() ==> {
            &&& reordered(WordOrder::DCBA, s)[4 * k] == s[4 * k + 3]
            &&& reordered(WordOrder::DCBA, s)[4 * k + 1] == s[4 * k + 2]
            &&& reordered(WordOrder::DCBA, s)[4 * k + 2] == s[4 * k + 1]
            &&& reordered(WordOrder::DCBA, s)[4 * k + 3] == s[4 * k]
        },
        4 * k + 2 <= s.len() < 4 * k + 4 ==> {
            &&& reordered(WordOrder::DCBA, s)[4 * k] == s[4 * k + 1]
            &&& reordered(WordOrder::DCBA, s)[4 * k + 1] == s[4 * k]
        },
        4 * k + 1 == s.len() ==> reordered(WordOrder::DCBA, s)[4 * k] == s[4 * k],
        4 * k + 3 == s.len() ==> reordered(WordOrder::DCBA, s)[4 * k + 2] == s[4 * k + 2],
{
    assert((4 * k) / 4 == k && (4 * k) % 4 == 0);
    assert((4 * k + 1) / 4 == k && (4 * k + 1) % 4 == 1);
    assert((4 * k + 2) / 4 == k && (4 * k + 2) % 4 == 2);
    assert((4 * k + 3) / 4 == k && (4 * k + 3) % 4 == 3);
}

/// `DCBA` is `BADC` and `CDAB` together, where the bytes make up whole words.
pub proof fn dcba_swaps_both(s: Seq<u8>)
    requires
        s.len() % 2 == 0,
    ensures
        reordered(WordOrder::DCBA, s) == reordered(
            WordOrder::BADC,
            reordered(WordOrder::CDAB, s),
        ),
{
    let n = s.len() as int;
    let a = reordered(WordOrder::DCBA, s);
    let c = reordered(WordOrder::CDAB, s);
    let b = reordered(WordOrder::BADC, c);
    assert forall|i: int| 0 <= i < n implies a[i] == b[i] by {
        let k = i / 4;
        assert(i == 4 * k + i % 4);
        dcba_reverses_chunks(s, k);
        cdab_swaps_words_of_chunks(s, k);
        badc_swaps_bytes_of_words(c, 2 * k);
        badc_swaps_bytes_of_words(c, 2 * k + 1);
    }
    assert(a =~= b);
}

/// An order is named after the four letters that it puts bytes in.
pub proof fn orders_have_their_names()
    ensures
        order_name(WordOrder::ABCD) == seq!['A', 'B', 'C', 'D'],
        order_name(WordOrder::BADC) == seq!['B', 'A', 'D', 'C'],
        order_name(WordOrder::CDAB) == seq!['C', 'D', 'A', 'B'],
        order_name(WordOrder::DCBA) == seq!['D', 'C', 'B', 'A'],
{
    reveal_strlit("ABCD");
    reveal_strlit("BADC");
    reveal_strlit("CDAB");
    reveal_strlit("DCBA");
    assert("ABCD"@ =~= seq!['A', 'B', 'C', 'D']);
    assert("BADC"@ =~= seq!['B', 'A', 'D', 'C']);
    assert("CDAB"@ =~= seq!['C', 'D', 'A', 'B']);
    assert("DCBA"@ =~= seq!['D', 'C', 'B', 'A']);
}

} // verus!
