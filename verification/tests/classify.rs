use wordcount::classifier::is_continous_byte;
use wordcount::classifier::is_latin1_whitespace;
use wordcount::classifier::process;
use wordcount::classifier::update_count;
use wordcount::classifier::Args;
use wordcount::classifier::Count;

fn all_counters(file_name: Option<String>) -> Args {
    Args { bytes: true, lines: true, words: true, chars: true, file_name }
}

#[test]
fn hello_world_all_counters() {
    let args = all_counters(None);
    let c = process(&args, &b"hello world\n".to_vec());
    assert_eq!(c.lines, 1);
    assert_eq!(c.words, 2);
    assert_eq!(c.bytes, 12);
    assert_eq!(c.chars, 12);
}

#[test]
fn hello_world_all_flags_suppresses_chars() {
    let args = Args::new(true, true, true, true, None);
    assert!(args.bytes && args.lines && args.words);
    assert!(!args.chars);
    let c = process(&args, &b"hello world\n".to_vec());
    assert_eq!(c.lines, 1);
    assert_eq!(c.words, 2);
    assert_eq!(c.bytes, 12);
    assert_eq!(c.chars, 0);
}

#[test]
fn empty_input_default_counters() {
    let args = Args::new(false, false, false, false, None);
    assert!(args.bytes && args.lines && args.words && !args.chars);
    let c = process(&args, &Vec::new());
    assert_eq!(c.lines, 0);
    assert_eq!(c.words, 0);
    assert_eq!(c.bytes, 0);
    assert_eq!(c.chars, 0);
}

#[test]
fn whitespace_only_input() {
    let args = Args::new(false, false, false, false, None);
    let c = process(&args, &b"  \t \n".to_vec());
    assert_eq!(c.words, 0);
    assert_eq!(c.lines, 1);
    assert_eq!(c.bytes, 5);
}

#[test]
fn euro_sign_chars_only() {
    let args = Args::new(false, false, false, true, None);
    assert!(args.chars && !args.bytes);
    let c = process(&args, &vec![0xe2, 0x82, 0xac]);
    assert_eq!(c.chars, 1);
    assert_eq!(c.bytes, 0);
}

#[test]
fn bytes_flag_suppresses_chars_flag() {
    let args = Args::new(true, false, false, true, None);
    assert!(args.bytes);
    assert!(!args.chars);
    assert!(!args.lines);
    assert!(!args.words);
    let c = process(&args, &b"abc".to_vec());
    assert_eq!(c.bytes, 3);
    assert_eq!(c.chars, 0);
}

#[test]
fn classification_is_idempotent() {
    let args = all_counters(None);
    let input = b"one two\nthree\tfour \x85 funf\n".to_vec();
    let first = process(&args, &input);
    let second = process(&args, &input);
    assert_eq!(first, second);
}

#[test]
fn word_count_not_additive_at_seam() {
    let args = Args::new(false, false, true, false, None);
    let a = b"foo".to_vec();
    let b = b"bar".to_vec();
    let mut joined = a.clone();
    joined.extend_from_slice(&b);
    let wa = process(&args, &a).words;
    let wb = process(&args, &b).words;
    let wj = process(&args, &joined).words;
    assert_eq!(wa, 1);
    assert_eq!(wb, 1);
    assert_eq!(wj, 1);
    assert_ne!(wa + wb, wj);
    assert_eq!(wj, wa + wb - 1);
}

#[test]
fn word_count_additive_across_whitespace() {
    let args = Args::new(false, false, true, false, None);
    let c = process(&args, &b"foo bar".to_vec());
    assert_eq!(c.words, 2);
}

#[test]
fn char_count_matches_scalar_count_on_valid_utf8() {
    let text = "h\u{e9}llo \u{20ac} w\u{00f6}rld \u{1f600}";
    let args = Args::new(false, false, false, true, None);
    let c = process(&args, &text.as_bytes().to_vec());
    assert_eq!(c.chars as usize, text.chars().count());
}

#[test]
fn line_count_ignores_trailing_partial_line() {
    let args = Args::new(false, true, false, false, None);
    let c = process(&args, &b"a\nb".to_vec());
    assert_eq!(c.lines, 1);
}

#[test]
fn continuation_byte_detection() {
    assert!(is_continous_byte(&0x80));
    assert!(is_continous_byte(&0xbf));
    assert!(is_continous_byte(&0x82));
    assert!(!is_continous_byte(&0x41));
    assert!(!is_continous_byte(&0x7f));
    assert!(!is_continous_byte(&0xc2));
    assert!(!is_continous_byte(&0xe2));
    assert!(!is_continous_byte(&0xf0));
}

#[test]
fn latin1_whitespace_values() {
    for b in [9u8, 10, 11, 12, 13, 32, 0x85, 0xa0] {
        assert!(is_latin1_whitespace(b));
    }
    for b in [0u8, 8, 14, 31, 33, b'a', 0x84, 0x86, 0x9f, 0xa1, 0xff] {
        assert!(!is_latin1_whitespace(b));
    }
}

#[test]
fn streaming_steps_match_whole_pass() {
    let args = all_counters(None);
    let input = b"  alpha beta\n\tgamma\n\n delta".to_vec();
    let mut count = Count { bytes: 0, words: 0, lines: 0, chars: 0 };
    let mut last_non_space_byte: i64 = -2;
    let mut curr_byte_count: i64 = -1;
    for byte in &input {
        update_count(&args, byte, &mut count, &mut last_non_space_byte, &mut curr_byte_count);
    }
    assert_eq!(count, process(&args, &input));
    assert_eq!(count.words, 4);
    assert_eq!(count.lines, 3);
    assert_eq!(count.bytes, input.len() as u64);
}

#[test]
fn default_rule_not_applied_when_chars_alone() {
    let args = Args::new(false, false, false, true, None);
    assert!(!args.bytes && !args.lines && !args.words && args.chars);
}

#[test]
fn new_keeps_file_name() {
    let args = Args::new(false, true, false, false, Some(String::from("notes.txt")));
    assert_eq!(args.file_name.as_deref(), Some("notes.txt"));
    assert!(args.lines && !args.bytes && !args.words && !args.chars);
}
