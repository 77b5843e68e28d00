//! The stream classifier: a single forward pass that updates four tallies,
//! one byte at a time, carrying only the current position and the position
//! of the last non-whitespace byte.

use vstd::prelude::*;

use crate::counting::count_chars;
use crate::counting::count_lines;
use crate::counting::count_words;
use crate::counting::last_word_end;
use crate::counting::lemma_counts_le_len;
use crate::counting::lemma_last_word_end_bound;
use crate::counting::whitespace_byte;
use crate::counting::word_start;

verus! {

/// Which counters are enabled for a run, and the optional file name echoed
/// after the tallies in the output line.
pub struct Args {
    pub bytes: bool,
    pub lines: bool,
    pub words: bool,
    pub chars: bool,
    pub file_name: Option<String>,
}

/// The four tallies produced by one pass over a byte stream. A disabled
/// counter stays at zero.
#[derive(Clone, Copy, PartialEq, Eq, Structural, Debug)]
pub struct Count {
    pub bytes: u64,
    pub words: u64,
    pub lines: u64,
    pub chars: u64,
}

impl Args {
    /// Builds the counter selection from the four flags, applying the two
    /// resolution rules: when no counter is requested, lines, words and
    /// bytes are enabled; and byte counting suppresses character counting
    /// when both are requested.
    pub fn new(bytes: bool, lines: bool, words: bool, chars: bool, file_name: Option<
        String,
    >) -> (a: Args)
        ensures
            a.bytes == (bytes || (!bytes && !lines && !words && !chars)),
            a.lines == (lines || (!bytes && !lines && !words && !chars)),
            a.words == (words || (!bytes && !lines && !words && !chars)),
            a.chars == (chars && !bytes),
            a.file_name == file_name,
    {
        let none_given = !bytes && !lines && !words && !chars;
        let enable_bytes = bytes || none_given;
        let mut enable_chars = chars;
        if enable_bytes && enable_chars {
            enable_chars = false;
        }
        Args {
            bytes: enable_bytes,
            lines: lines || none_given,
            words: words || none_given,
            chars: enable_chars,
            file_name,
        }
    }
}

/// True when the byte follows the UTF-8 continuation-byte bit pattern,
/// that is, its two most-significant bits are 10.
pub fn is_continous_byte(byte: &u8) -> (r: bool)
    ensures
        r == vstd::utf8::is_continuation_byte(*byte),
{
    let b = *byte;
    proof {
        assert(((b & 0xc0) == 0x80) == (0x80 <= b <= 0xbf)) by (bit_vector);
    }
    (b & 0xc0) == 0x80
}

/// Whitespace test for a byte read as the Latin-1 code point of the same
/// value: true exactly for the Unicode White_Space code points below 0x100.
pub fn is_latin1_whitespace(b: u8) -> (r: bool)
    ensures
        r == whitespace_byte(b),
{
    (b >= 9 && b <= 13) || b == 32 || b == 0x85 || b == 0xa0
}

/// One step of the classifier: advances the position, then updates every
/// enabled tally for the byte just read. A word is counted at a
/// non-whitespace byte whose predecessor position does not carry the
/// last-non-whitespace marker, i.e. at the first byte of each maximal run.
pub fn update_count(
    args: &Args,
    byte: &u8,
    count: &mut Count,
    last_non_space_byte: &mut i64,
    curr_byte_count: &mut i64,
)
    requires
        *old(curr_byte_count) < i64::MAX,
        args.bytes ==> old(count).bytes < u64::MAX,
        args.chars ==> old(count).chars < u64::MAX,
        args.lines ==> old(count).lines < u64::MAX,
        args.words ==> old(count).words < u64::MAX,
    ensures
        *final(curr_byte_count) == *old(curr_byte_count) + 1,
        final(count).bytes == old(count).bytes + (if args.bytes {
            1int
        } else {
            0int
        }),
        final(count).chars == old(count).chars + (if args.chars
            && !vstd::utf8::is_continuation_byte(*byte) {
            1int
        } else {
            0int
        }),
        final(count).lines == old(count).lines + (if args.lines && *byte == 10 {
            1int
        } else {
            0int
        }),
        final(count).words == old(count).words + (if args.words && !whitespace_byte(*byte)
            && *old(curr_byte_count) != *old(last_non_space_byte) {
            1int
        } else {
            0int
        }),
        *final(last_non_space_byte) == (if args.words && !whitespace_byte(*byte) {
            *old(curr_byte_count) + 1
        } else {
            *old(last_non_space_byte) as int
        }),
{
    *curr_byte_count = *curr_byte_count + 1;

    if args.bytes {
        count.bytes = count.bytes + 1;
    }

    if args.chars {
        if !is_continous_byte(byte) {
            count.chars = count.chars + 1;
        }
    }

    if args.lines {
        if *byte == 10 {
            count.lines = count.lines + 1;
        }
    }

    if args.words {
        if !is_latin1_whitespace(*byte) {
            let last_byte = *curr_byte_count - 1;
            if last_byte != *last_non_space_byte {
                count.words = count.words + 1;
            }
            *last_non_space_byte = *curr_byte_count;
        }
    }
}

/// The tallies that one pass over the byte sequence s produces with the
/// given counters enabled: every enabled counter holds its count over s,
/// every disabled counter holds zero.
pub open spec fn is_count_of(c: Count, args: Args, s: Seq<u8>) -> bool {
    &&& c.bytes == (if args.bytes {
        s.len() as int
    } else {
        0int
    })
    &&& c.lines == (if args.lines {
        count_lines(s) as int
    } else {
        0int
    })
    &&& c.words == (if args.words {
        count_words(s) as int
    } else {
        0int
    })
    &&& c.chars == (if args.chars {
        count_chars(s) as int
    } else {
        0int
    })
}

/// The tallies are a function of the input and the counter selection
/// alone: any two counts of the same byte sequence under the same
/// selection are identical. There is no hidden state between runs.
pub proof fn lemma_count_deterministic(args: Args, s: Seq<u8>, c1: Count, c2: Count)
    requires
        is_count_of(c1, args, s),
        is_count_of(c2, args, s),
    ensures
        c1 == c2,
{
}

/// Counts the whole byte sequence in one forward pass, reading each byte
/// exactly once, in order, with O(1) carried state.
pub fn process(args: &Args, input: &Vec<u8>) -> (c: Count)
    requires
        input@.len() <= i64::MAX,
    ensures
        is_count_of(c, *args, input@),
{
    let mut count = Count { bytes: 0, words: 0, lines: 0, chars: 0 };
    let mut last_non_space_byte: i64 = -2;
    let mut curr_byte_count: i64 = -1;
    let ghost s = input@;
    let mut i: usize = 0;
    while i < input.len()
        invariant
            0 <= i <= s.len(),
            s == input@,
            s.len() <= i64::MAX,
            curr_byte_count == i as int - 1,
            count.bytes == (if args.bytes {
                i as int
            } else {
                0int
            }),
            count.lines == (if args.lines {
                count_lines(s.take(i as int)) as int
            } else {
                0int
            }),
            count.words == (if args.words {
                count_words(s.take(i as int)) as int
            } else {
                0int
            }),
            count.chars == (if args.chars {
                count_chars(s.take(i as int)) as int
            } else {
                0int
            }),
            last_non_space_byte == (if args.words {
                last_word_end(s.take(i as int))
            } else {
                -2int
            }),
        decreases s.len() - i,
    {
        proof {
            lemma_counts_le_len(s.take(i as int));
        }
        let b = input[i];
        update_count(args, &b, &mut count, &mut last_non_space_byte, &mut curr_byte_count);
        proof {
            let t = s.take(i as int + 1);
            assert(t.drop_last() =~= s.take(i as int));
            assert(t.last() == s[i as int]);
            if args.words {
                if !whitespace_byte(s[i as int]) {
                    if i == 0 {
                        assert(s.take(0) =~= Seq::<u8>::empty());
                        assert(last_word_end(Seq::<u8>::empty()) == -2);
                        assert(word_start(t, i as int));
                    } else {
                        assert(s.take(i as int).last() == s[i as int - 1]);
                        if whitespace_byte(s[i as int - 1]) {
                            assert(s.take(i as int).drop_last() =~= s.take(i as int - 1));
                            lemma_last_word_end_bound(s.take(i as int - 1));
                            assert(last_word_end(s.take(i as int)) < i as int - 1);
                            assert(word_start(t, i as int));
                        } else {
                            assert(last_word_end(s.take(i as int)) == i as int - 1);
                            assert(!word_start(t, i as int));
                        }
                    }
                } else {
                    assert(!word_start(t, i as int));
                }
            }
        }
        i = i + 1;
    }
    proof {
        assert(s.take(s.len() as int) =~= s);
    }
    count
}

} // verus!
