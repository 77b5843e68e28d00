//! Mathematical models of the four tallies: how many bytes, line feeds,
//! non-continuation bytes, and maximal non-whitespace runs a byte sequence
//! holds.

use vstd::prelude::*;

verus! {

/// True when the byte, read as the Latin-1 code point of the same value, is
/// Unicode whitespace. These eight values are the only code points below
/// 0x100 with the White_Space property: tab, line feed, vertical tab, form
/// feed, carriage return, space, next line, and no-break space.
pub open spec fn whitespace_byte(b: u8) -> bool {
    b == 9 || b == 10 || b == 11 || b == 12 || b == 13 || b == 32 || b == 0x85 || b == 0xa0
}

/// Number of line-feed bytes (value 10) in the sequence. A trailing line
/// without a final line feed contributes nothing.
pub open spec fn count_lines(s: Seq<u8>) -> nat
    decreases s.len(),
{
    if s.len() == 0 {
        0
    } else {
        count_lines(s.drop_last()) + (if s.last() == 10 {
            1nat
        } else {
            0nat
        })
    }
}

/// Number of bytes that do not follow the UTF-8 continuation-byte bit
/// pattern. On valid UTF-8 this equals the number of encoded Unicode
/// scalar values (proved in the unicode module); on other input it is
/// still well defined and simply counts the non-continuation bytes.
pub open spec fn count_chars(s: Seq<u8>) -> nat
    decreases s.len(),
{
    if s.len() == 0 {
        0
    } else {
        count_chars(s.drop_last()) + (if vstd::utf8::is_continuation_byte(s.last()) {
            0nat
        } else {
            1nat
        })
    }
}

/// True when index i holds the first byte of a maximal run of consecutive
/// non-whitespace bytes: the byte there is not whitespace and is either at
/// the start of the sequence or right after a whitespace byte.
pub open spec fn word_start(s: Seq<u8>, i: int) -> bool {
    &&& 0 <= i < s.len()
    &&& !whitespace_byte(s[i])
    &&& (i == 0 || whitespace_byte(s[i - 1]))
}

/// Number of maximal runs of consecutive non-whitespace bytes, counted one
/// per run at the run's first byte.
pub open spec fn count_words(s: Seq<u8>) -> nat
    decreases s.len(),
{
    if s.len() == 0 {
        0
    } else {
        count_words(s.drop_last()) + (if word_start(s, s.len() - 1) {
            1nat
        } else {
            0nat
        })
    }
}

/// Index of the last non-whitespace byte in the sequence, or -2 when there
/// is none. This is the classifier's carried marker: -2 is its sentinel,
/// chosen two below the smallest real position so it never matches one.
pub open spec fn last_word_end(s: Seq<u8>) -> int
    decreases s.len(),
{
    if s.len() == 0 {
        -2
    } else if !whitespace_byte(s.last()) {
        s.len() - 1
    } else {
        last_word_end(s.drop_last())
    }
}

/// No tally can exceed the number of bytes read.
pub proof fn lemma_counts_le_len(s: Seq<u8>)
    ensures
        count_lines(s) <= s.len(),
        count_chars(s) <= s.len(),
        count_words(s) <= s.len(),
    decreases s.len(),
{
    if s.len() > 0 {
        lemma_counts_le_len(s.drop_last());
    }
}

/// The last-non-whitespace marker always lies between the sentinel and the
/// end of the sequence.
pub proof fn lemma_last_word_end_bound(s: Seq<u8>)
    ensures
        -2 <= last_word_end(s) < s.len(),
    decreases s.len(),
{
    if s.len() > 0 && whitespace_byte(s.last()) {
        lemma_last_word_end_bound(s.drop_last());
    }
}

/// Character counting is additive under concatenation: each byte is
/// classified on its own.
pub proof fn lemma_count_chars_concat(a: Seq<u8>, b: Seq<u8>)
    ensures
        count_chars(a + b) == count_chars(a) + count_chars(b),
    decreases b.len(),
{
    if b.len() == 0 {
        assert(a + b =~= a);
    } else {
        lemma_count_chars_concat(a, b.drop_last());
        assert((a + b).drop_last() =~= a + b.drop_last());
        assert((a + b).last() == b.last());
    }
}

/// When a sequence ending in a non-whitespace byte is extended, every word
/// start of the extension except one at its very first byte survives: a run
/// beginning exactly at the seam merges with the run that ends there.
proof fn lemma_count_words_concat_after_nonws(a: Seq<u8>, b: Seq<u8>)
    requires
        a.len() > 0,
        !whitespace_byte(a.last()),
    ensures
        count_words(a + b) == count_words(a) + count_words(b) - (if b.len() > 0
            && !whitespace_byte(b[0]) {
            1int
        } else {
            0int
        }),
    decreases b.len(),
{
    if b.len() == 0 {
        assert(a + b =~= a);
    } else if b.len() == 1 {
        assert((a + b).drop_last() =~= a);
        assert((a + b)[a.len() - 1] == a.last());
        assert((a + b).last() == b[0]);
        assert(!word_start(a + b, a.len() as int));
        assert(count_words(a + b) == count_words(a));
        assert(b.drop_last() =~= Seq::<u8>::empty());
        assert(count_words(Seq::<u8>::empty()) == 0);
        assert(count_words(b) == (if word_start(b, 0) {
            1nat
        } else {
            0nat
        }));
        assert(word_start(b, 0) == !whitespace_byte(b[0]));
    } else {
        lemma_count_words_concat_after_nonws(a, b.drop_last());
        assert((a + b).drop_last() =~= a + b.drop_last());
        let n = a.len() + b.len() - 1;
        assert((a + b)[n] == b[b.len() - 1]);
        assert((a + b)[n - 1] == b[b.len() - 2]);
        assert(word_start(a + b, n as int) == word_start(b, b.len() - 1));
        assert(b.drop_last()[0] == b[0]);
    }
}

/// Word counting is not additive under concatenation: when the first
/// sequence ends and the second begins with a non-whitespace byte, the two
/// runs at the seam merge into a single word, so the combined count falls
/// one short of the sum.
pub proof fn lemma_word_count_not_additive(a: Seq<u8>, b: Seq<u8>)
    requires
        a.len() > 0,
        b.len() > 0,
        !whitespace_byte(a.last()),
        !whitespace_byte(b[0]),
    ensures
        count_words(a + b) == count_words(a) + count_words(b) - 1,
        count_words(a) + count_words(b) != count_words(a + b),
{
    lemma_count_words_concat_after_nonws(a, b);
}

} // verus!
