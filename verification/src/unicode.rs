//! Relates the byte-level character tally to UTF-8: on a valid UTF-8
//! sequence, counting the non-continuation bytes counts exactly the encoded
//! Unicode scalar values, because every scalar's encoding consists of one
//! leading byte followed only by continuation bytes.

use vstd::prelude::*;

use crate::counting::count_chars;
use crate::counting::lemma_count_chars_concat;

verus! {

/// A well-formed first scalar encoding contributes exactly one
/// non-continuation byte: its leading byte. The leading-byte ranges are
/// disjoint from the continuation-byte range, and the rest of the encoding
/// consists of continuation bytes only.
proof fn lemma_count_chars_first_scalar(s: Seq<u8>)
    requires
        vstd::utf8::valid_first_scalar(s),
    ensures
        1 <= vstd::utf8::length_of_first_scalar(s) <= s.len(),
        count_chars(vstd::utf8::take_first_scalar(s)) == 1,
{
    let k = vstd::utf8::length_of_first_scalar(s);
    let c = vstd::utf8::take_first_scalar(s);
    assert(c.len() == k);
    assert(count_chars(Seq::<u8>::empty()) == 0);
    assert(!vstd::utf8::is_continuation_byte(s[0]));
    if k == 1 {
        assert(c.drop_last() =~= Seq::<u8>::empty());
        assert(c.last() == s[0]);
        assert(count_chars(c) == 1);
    } else if k == 2 {
        let c1 = c.drop_last();
        assert(c1.drop_last() =~= Seq::<u8>::empty());
        assert(c1.last() == s[0]);
        assert(count_chars(c1) == 1);
        assert(c.last() == s[1]);
        assert(vstd::utf8::is_continuation_byte(c.last()));
        assert(count_chars(c) == 1);
    } else if k == 3 {
        let c2 = c.drop_last();
        let c1 = c2.drop_last();
        assert(c1.drop_last() =~= Seq::<u8>::empty());
        assert(c1.last() == s[0]);
        assert(count_chars(c1) == 1);
        assert(c2.last() == s[1]);
        assert(vstd::utf8::is_continuation_byte(c2.last()));
        assert(count_chars(c2) == 1);
        assert(c.last() == s[2]);
        assert(vstd::utf8::is_continuation_byte(c.last()));
        assert(count_chars(c) == 1);
    } else {
        assert(k == 4);
        let c3 = c.drop_last();
        let c2 = c3.drop_last();
        let c1 = c2.drop_last();
        assert(c1.drop_last() =~= Seq::<u8>::empty());
        assert(c1.last() == s[0]);
        assert(count_chars(c1) == 1);
        assert(c2.last() == s[1]);
        assert(vstd::utf8::is_continuation_byte(c2.last()));
        assert(count_chars(c2) == 1);
        assert(c3.last() == s[2]);
        assert(vstd::utf8::is_continuation_byte(c3.last()));
        assert(count_chars(c3) == 1);
        assert(c.last() == s[3]);
        assert(vstd::utf8::is_continuation_byte(c.last()));
        assert(count_chars(c) == 1);
    }
}

/// On a valid UTF-8 byte sequence, the character tally equals the number
/// of Unicode scalar values the sequence encodes.
pub proof fn lemma_char_count_utf8(s: Seq<u8>)
    requires
        vstd::utf8::valid_utf8(s),
    ensures
        count_chars(s) == vstd::utf8::decode_utf8(s).len(),
    decreases s.len(),
{
    if s.len() != 0 {
        lemma_count_chars_first_scalar(s);
        let head = vstd::utf8::take_first_scalar(s);
        let tail = vstd::utf8::pop_first_scalar(s);
        assert(s =~= head + tail);
        lemma_count_chars_concat(head, tail);
        lemma_char_count_utf8(tail);
    }
}

} // verus!
