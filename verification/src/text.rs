//! Character/byte offset arithmetic on UTF-8 text.
//!
//! The front end addresses cursor positions and diagnostic spans in counts of
//! characters, while the analysis layer works in byte offsets into the UTF-8
//! encoded source. Both directions of the translation live here, stated over
//! the bytes of the text: a character begins at every byte that is not a
//! UTF-8 continuation byte.

use vstd::prelude::*;

verus! {

/// Whether `b` begins a UTF-8 encoded character (is not a continuation byte).
pub open spec fn is_char_start(b: u8) -> bool {
    (b & 0xC0) != 0x80
}

/// Number of characters encoded by `s`: the count of its character-start
/// bytes.
pub open spec fn char_count(s: Seq<u8>) -> nat
    decreases s.len(),
{
    if s.len() == 0 {
        0
    } else {
        char_count(s.drop_last()) + (if is_char_start(s.last()) {
            1nat
        } else {
            0nat
        })
    }
}

/// A text has no more characters than bytes.
pub proof fn lemma_char_count_le_len(s: Seq<u8>)
    ensures
        char_count(s) <= s.len(),
    decreases s.len(),
{
    if s.len() > 0 {
        lemma_char_count_le_len(s.drop_last());
    }
}

/// Counting characters distributes over concatenation.
pub proof fn lemma_char_count_add(a: Seq<u8>, b: Seq<u8>)
    ensures
        char_count(a + b) == char_count(a) + char_count(b),
    decreases b.len(),
{
    if b.len() == 0 {
        assert(a + b =~= a);
    } else {
        lemma_char_count_add(a, b.drop_last());
        assert((a + b).drop_last() =~= a + b.drop_last());
        assert((a + b).last() == b.last());
    }
}

/// Counts the characters encoded by `s[lo..hi]`.
pub fn count_chars_range(s: &Vec<u8>, lo: usize, hi: usize) -> (n: usize)
    requires
        lo <= hi <= s@.len(),
    ensures
        n == char_count(s@.subrange(lo as int, hi as int)),
{
    let mut n: usize = 0;
    let mut i: usize = lo;
    while i < hi
        invariant
            lo <= i <= hi <= s@.len(),
            n == char_count(s@.subrange(lo as int, i as int)),
            n <= i - lo,
        decreases hi - i,
    {
        proof {
            assert(s@.subrange(lo as int, i + 1).drop_last() =~= s@.subrange(
                lo as int,
                i as int,
            ));
            assert(s@.subrange(lo as int, i + 1).last() == s@[i as int]);
        }
        if (s[i] & 0xC0) != 0x80 {
            n = n + 1;
        }
        i = i + 1;
    }
    n
}

/// Counts the characters encoded by all of `s`.
pub fn count_chars(s: &Vec<u8>) -> (n: usize)
    ensures
        n == char_count(s@),
{
    let n = count_chars_range(s, 0, s.len());
    proof {
        assert(s@.subrange(0, s@.len() as int) =~= s@);
    }
    n
}

/// Byte offset at which the character numbered `n` (counting from zero)
/// begins, or the length of `s` when `s` encodes no more than `n` characters.
///
/// This is the forward translation applied to a cursor position supplied by
/// the client as a character count.
pub fn byte_offset_of_char(s: &Vec<u8>, n: usize) -> (r: usize)
    ensures
        n < char_count(s@) ==> r < s@.len() && is_char_start(s@[r as int]) && char_count(
            s@.take(r as int),
        ) == n,
        n >= char_count(s@) ==> r == s@.len(),
{
    let len = s.len();
    let mut chars: usize = 0;
    let mut i: usize = 0;
    while i < len
        invariant
            0 <= i <= len == s@.len(),
            chars == char_count(s@.take(i as int)),
            chars <= n,
        decreases len - i,
    {
        proof {
            assert(s@.take(i + 1).drop_last() =~= s@.take(i as int));
            assert(s@.take(i + 1).last() == s@[i as int]);
        }
        if (s[i] & 0xC0) != 0x80 {
            if chars == n {
                proof {
                    assert(s@ =~= s@.take(i as int) + s@.skip(i as int));
                    lemma_char_count_add(s@.take(i as int), s@.skip(i as int));
                    assert(s@.skip(i as int).len() > 0);
                    lemma_char_count_first_start(s@.skip(i as int));
                }
                return i;
            }
            chars = chars + 1;
        }
        i = i + 1;
    }
    proof {
        assert(s@.take(len as int) =~= s@);
    }
    len
}

/// A non-empty byte sequence beginning with a character-start byte encodes at
/// least one character.
proof fn lemma_char_count_first_start(s: Seq<u8>)
    requires
        s.len() > 0,
        is_char_start(s[0]),
    ensures
        char_count(s) >= 1,
    decreases s.len(),
{
    if s.len() == 1 {
    } else {
        lemma_char_count_first_start(s.drop_last());
        assert(s.drop_last()[0] == s[0]);
    }
}

/// Character starts are the only byte offsets at which a prefix character
/// count is attained for the first time: two distinct character-start bytes
/// have distinct prefix counts.
pub proof fn lemma_char_start_offsets_unique(s: Seq<u8>, i: int, j: int)
    requires
        0 <= i < j <= s.len(),
        is_char_start(s[i]),
    ensures
        char_count(s.take(i)) < char_count(s.take(j)),
{
    assert(s.take(j) =~= s.take(i) + s.take(j).skip(i));
    lemma_char_count_add(s.take(i), s.take(j).skip(i));
    assert(s.take(j).skip(i)[0] == s[i]);
    lemma_char_count_first_start(s.take(j).skip(i));
}

} // verus!
