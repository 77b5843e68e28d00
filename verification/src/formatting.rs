//! Builds the output line for a finished run: each enabled tally in the
//! fixed order lines, words, bytes, characters, each preceded by its
//! fixed-width padding, then the file name when one was given.

use vstd::prelude::*;
use vstd::string::StringExecFns;

use crate::classifier::Args;
use crate::classifier::Count;

verus! {

/// The decimal digit character for a value below ten.
pub open spec fn digit_char(d: nat) -> char {
    if d == 0 {
        '0'
    } else if d == 1 {
        '1'
    } else if d == 2 {
        '2'
    } else if d == 3 {
        '3'
    } else if d == 4 {
        '4'
    } else if d == 5 {
        '5'
    } else if d == 6 {
        '6'
    } else if d == 7 {
        '7'
    } else if d == 8 {
        '8'
    } else {
        '9'
    }
}

/// Decimal representation of n, most significant digit first, with no
/// leading zeros except for the single digit of n == 0 itself.
pub open spec fn dec_str(n: nat) -> Seq<char>
    decreases n,
{
    if n < 10 {
        seq![digit_char(n)]
    } else {
        dec_str(n / 10).push(digit_char(n % 10))
    }
}

/// Appends the single digit character for d.
fn push_digit(s: &mut String, d: u64)
    requires
        d < 10,
    ensures
        final(s)@ == old(s)@.push(digit_char(d as nat)),
{
    if d == 0 {
        s.append("0");
        proof {
            reveal_strlit("0");
            assert(old(s)@ + "0"@ =~= old(s)@.push('0'));
        }
    } else if d == 1 {
        s.append("1");
        proof {
            reveal_strlit("1");
            assert(old(s)@ + "1"@ =~= old(s)@.push('1'));
        }
    } else if d == 2 {
        s.append("2");
        proof {
            reveal_strlit("2");
            assert(old(s)@ + "2"@ =~= old(s)@.push('2'));
        }
    } else if d == 3 {
        s.append("3");
        proof {
            reveal_strlit("3");
            assert(old(s)@ + "3"@ =~= old(s)@.push('3'));
        }
    } else if d == 4 {
        s.append("4");
        proof {
            reveal_strlit("4");
            assert(old(s)@ + "4"@ =~= old(s)@.push('4'));
        }
    } else if d == 5 {
        s.append("5");
        proof {
            reveal_strlit("5");
            assert(old(s)@ + "5"@ =~= old(s)@.push('5'));
        }
    } else if d == 6 {
        s.append("6");
        proof {
            reveal_strlit("6");
            assert(old(s)@ + "6"@ =~= old(s)@.push('6'));
        }
    } else if d == 7 {
        s.append("7");
        proof {
            reveal_strlit("7");
            assert(old(s)@ + "7"@ =~= old(s)@.push('7'));
        }
    } else if d == 8 {
        s.append("8");
        proof {
            reveal_strlit("8");
            assert(old(s)@ + "8"@ =~= old(s)@.push('8'));
        }
    } else {
        s.append("9");
        proof {
            reveal_strlit("9");
            assert(old(s)@ + "9"@ =~= old(s)@.push('9'));
        }
    }
}

/// Decimal formatting of a 64-bit tally.
pub fn u64_to_dec(n: u64) -> (s: String)
    ensures
        s@ == dec_str(n as nat),
    decreases n,
{
    if n < 10 {
        let mut s = String::new();
        push_digit(&mut s, n);
        proof {
            assert(Seq::<char>::empty().push(digit_char(n as nat)) =~= seq![
                digit_char(n as nat),
            ]);
        }
        s
    } else {
        let q = n / 10;
        let r = n % 10;
        proof {
            assert(q < n) by (nonlinear_arith)
                requires
                    n >= 10,
                    q == n / 10,
            ;
        }
        let mut s = u64_to_dec(q);
        push_digit(&mut s, r);
        s
    }
}

/// The complete output line for the given counter selection and tallies:
/// four spaces then the line count when lines are enabled, three spaces
/// then the word count when words are enabled, two spaces then the byte
/// count when bytes are enabled, two spaces then the character count when
/// characters are enabled, and one space then the file name when one was
/// given.
pub open spec fn format_spec(args: Args, count: Count) -> Seq<char> {
    (if args.lines {
        "    "@ + dec_str(count.lines as nat)
    } else {
        Seq::<char>::empty()
    }) + (if args.words {
        "   "@ + dec_str(count.words as nat)
    } else {
        Seq::<char>::empty()
    }) + (if args.bytes {
        "  "@ + dec_str(count.bytes as nat)
    } else {
        Seq::<char>::empty()
    }) + (if args.chars {
        "  "@ + dec_str(count.chars as nat)
    } else {
        Seq::<char>::empty()
    }) + (match args.file_name {
        Some(f) => " "@ + f@,
        None => Seq::<char>::empty(),
    })
}

/// Builds the output line for the final tallies.
pub fn format_count(args: &Args, count: &Count) -> (s: String)
    ensures
        s@ == format_spec(*args, *count),
{
    let ghost part_lines: Seq<char> = if args.lines {
        "    "@ + dec_str(count.lines as nat)
    } else {
        Seq::<char>::empty()
    };
    let ghost part_words: Seq<char> = if args.words {
        "   "@ + dec_str(count.words as nat)
    } else {
        Seq::<char>::empty()
    };
    let ghost part_bytes: Seq<char> = if args.bytes {
        "  "@ + dec_str(count.bytes as nat)
    } else {
        Seq::<char>::empty()
    };
    let ghost part_chars: Seq<char> = if args.chars {
        "  "@ + dec_str(count.chars as nat)
    } else {
        Seq::<char>::empty()
    };
    let ghost part_name: Seq<char> = match &args.file_name {
        Some(f) => " "@ + f@,
        None => Seq::<char>::empty(),
    };

    let mut s = String::new();

    if args.lines {
        s.append("    ");
        let d = u64_to_dec(count.lines);
        s.append(d.as_str());
    }
    proof {
        assert(s@ =~= part_lines);
    }

    if args.words {
        s.append("   ");
        let d = u64_to_dec(count.words);
        s.append(d.as_str());
    }
    proof {
        assert(s@ =~= part_lines + part_words);
    }

    if args.bytes {
        s.append("  ");
        let d = u64_to_dec(count.bytes);
        s.append(d.as_str());
    }
    proof {
        assert(s@ =~= part_lines + part_words + part_bytes);
    }

    if args.chars {
        s.append("  ");
        let d = u64_to_dec(count.chars);
        s.append(d.as_str());
    }
    proof {
        assert(s@ =~= part_lines + part_words + part_bytes + part_chars);
    }

    match &args.file_name {
        Some(f) => {
            s.append(" ");
            s.append(f.as_str());
        },
        None => {},
    }
    proof {
        assert(s@ =~= part_lines + part_words + part_bytes + part_chars + part_name);
    }
    s
}

} // verus!
