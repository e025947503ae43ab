use wcr::count::{count_buffered, ReadOutcome};
use wcr::counter::Tally;
use wcr::stream::ReadError;

fn tally(lines: u128, words: u128, bytes: u128, chars: u128) -> Tally {
    Tally { lines, words, bytes, chars }
}

fn in_chunks(content: &[u8], size: usize) -> Vec<ReadOutcome> {
    content.chunks(size).map(|chunk| ReadOutcome::Data(chunk.to_vec())).collect()
}

fn whole(content: &[u8]) -> Vec<ReadOutcome> {
    vec![ReadOutcome::Data(content.to_vec())]
}

#[test]
fn empty_record_counts_nothing() {
    assert_eq!(count_buffered(&[]), Ok(tally(0, 0, 0, 0)));
}

#[test]
fn stream_that_ends_at_once_counts_nothing() {
    assert_eq!(count_buffered(&[ReadOutcome::EndOfStream]), Ok(tally(0, 0, 0, 0)));
    assert_eq!(count_buffered(&[ReadOutcome::Data(Vec::new())]), Ok(tally(0, 0, 0, 0)));
}

#[test]
fn one_two_three() {
    assert_eq!(count_buffered(&whole(b"one two three\n")), Ok(tally(1, 3, 14, 14)));
}

#[test]
fn ab_cd_in_chunks_of_one_and_of_1024() {
    let expected = Ok(tally(0, 1, 5, 5));
    assert_eq!(count_buffered(&in_chunks(b"ab cd", 1)), expected);
    assert_eq!(count_buffered(&in_chunks(b"ab cd", 1024)), expected);
}

#[test]
fn trailing_word_counts_only_when_closed() {
    assert_eq!(count_buffered(&whole(b"abc")), Ok(tally(0, 0, 3, 3)));
    assert_eq!(count_buffered(&whole(b"abc ")), Ok(tally(0, 1, 4, 4)));
    assert_eq!(count_buffered(&whole(b"abc\n")), Ok(tally(1, 1, 4, 4)));
    assert_eq!(count_buffered(&whole(b"abc\t")), Ok(tally(0, 1, 4, 4)));
}

#[test]
fn only_newline_space_and_tab_delimit() {
    assert_eq!(count_buffered(&whole(b"a\rb\x0bc\x0cd ")), Ok(tally(0, 1, 8, 8)));
    assert_eq!(count_buffered(&whole(b"a\x00b ")), Ok(tally(0, 1, 4, 4)));
}

#[test]
fn runs_of_delimiters_close_one_word() {
    assert_eq!(count_buffered(&whole(b"  a \t\n  b\n\n")), Ok(tally(3, 2, 11, 11)));
    assert_eq!(count_buffered(&whole(b" \t\n")), Ok(tally(1, 0, 3, 3)));
}

#[test]
fn last_line_without_newline_is_not_counted() {
    assert_eq!(count_buffered(&whole(b"first\nsecond")), Ok(tally(1, 1, 12, 12)));
}

#[test]
fn word_cut_by_a_chunk_boundary_is_one_word() {
    let reads = vec![
        ReadOutcome::Data(b"hel".to_vec()),
        ReadOutcome::Data(b"lo wor".to_vec()),
        ReadOutcome::Data(b"ld\n".to_vec()),
    ];
    assert_eq!(count_buffered(&reads), Ok(tally(1, 2, 12, 12)));
}

#[test]
fn delimiter_first_in_a_chunk_closes_the_word_before_it() {
    let reads = vec![ReadOutcome::Data(b"ab".to_vec()), ReadOutcome::Data(b" cd".to_vec())];
    assert_eq!(count_buffered(&reads), Ok(tally(0, 1, 5, 5)));
    let reads = vec![ReadOutcome::Data(b"ab ".to_vec()), ReadOutcome::Data(b" cd ".to_vec())];
    assert_eq!(count_buffered(&reads), Ok(tally(0, 2, 7, 7)));
}

#[test]
fn bytes_lines_and_words_do_not_depend_on_the_chunking() {
    let mut content = Vec::new();
    for i in 0..700 {
        content.extend_from_slice(b"lorem ipsum\tdolor  sit\n");
        if i % 7 == 0 {
            content.extend_from_slice(b"\n \n");
        }
    }
    content.extend_from_slice(b"unfinished");
    let expected = count_buffered(&whole(&content)).unwrap();
    assert_eq!(expected.bytes, content.len() as u128);
    assert_eq!(expected.lines, content.iter().filter(|&&byte| byte == b'\n').count() as u128);
    assert_eq!(expected.words, 700 * 4);
    for size in [1, 2, 3, 5, 64, 1023, 1024, 1025, 4096] {
        assert_eq!(count_buffered(&in_chunks(&content, size)), Ok(expected));
    }
}

#[test]
fn reads_behind_the_end_are_not_counted() {
    let reads = vec![
        ReadOutcome::Data(b"a b ".to_vec()),
        ReadOutcome::EndOfStream,
        ReadOutcome::Data(b"c d ".to_vec()),
    ];
    assert_eq!(count_buffered(&reads), Ok(tally(0, 2, 4, 4)));
    let reads = vec![
        ReadOutcome::Data(b"a b ".to_vec()),
        ReadOutcome::Data(Vec::new()),
        ReadOutcome::Failed(String::from("too late")),
    ];
    assert_eq!(count_buffered(&reads), Ok(tally(0, 2, 4, 4)));
}

#[test]
fn failed_read_mid_stream_fails_the_count() {
    for taken in 0..5 {
        let mut reads = in_chunks(b"one two three four five six\n", 4);
        reads.truncate(taken);
        reads.push(ReadOutcome::Failed(String::from("device gone")));
        reads.push(ReadOutcome::Data(b"more\n".to_vec()));
        assert_eq!(
            count_buffered(&reads),
            Err(ReadError { cause: String::from("device gone") })
        );
    }
}

#[test]
fn first_failure_is_the_one_reported() {
    let reads = vec![
        ReadOutcome::Data(b"x ".to_vec()),
        ReadOutcome::Failed(String::from("first")),
        ReadOutcome::Failed(String::from("second")),
    ];
    assert_eq!(count_buffered(&reads), Err(ReadError { cause: String::from("first") }));
}

#[test]
fn invalid_text_is_counted_not_refused() {
    let reads = whole(&[0xFF, b'a', b'\n', 0xFE, b' ', 0x80, b'\n']);
    assert_eq!(count_buffered(&reads), Ok(tally(2, 3, 7, 7)));
}

#[test]
fn each_invalid_sequence_counts_as_one_character() {
    // A truncated three-byte sequence is replaced as a whole.
    assert_eq!(count_buffered(&whole(&[0xE2, 0x82])), Ok(tally(0, 0, 2, 1)));
    assert_eq!(count_buffered(&whole(&[b'a', 0xE2, 0x82, b'b'])), Ok(tally(0, 0, 4, 3)));
    // Two bytes that start nothing are two sequences.
    assert_eq!(count_buffered(&whole(&[0xFF, 0xFF])), Ok(tally(0, 0, 2, 2)));
    // A stray continuation byte is one.
    assert_eq!(count_buffered(&whole(&[0x80])), Ok(tally(0, 0, 1, 1)));
}

#[test]
fn valid_text_counts_characters_not_bytes() {
    let text = "na\u{ef}ve caf\u{e9} \u{20ac}5 \u{1f600}\n";
    let expected = tally(1, 4, text.len() as u128, text.chars().count() as u128);
    assert_eq!(expected, tally(1, 4, 23, 16));
    assert_eq!(count_buffered(&whole(text.as_bytes())), Ok(expected));
}

#[test]
fn character_cut_by_a_chunk_boundary_counts_on_both_sides() {
    let text = "\u{e9}";
    assert_eq!(count_buffered(&whole(text.as_bytes())), Ok(tally(0, 0, 2, 1)));
    assert_eq!(count_buffered(&in_chunks(text.as_bytes(), 1)), Ok(tally(0, 0, 2, 2)));
    let text = "\u{1f600}";
    assert_eq!(count_buffered(&whole(text.as_bytes())), Ok(tally(0, 0, 4, 1)));
    assert_eq!(count_buffered(&in_chunks(text.as_bytes(), 2)), Ok(tally(0, 0, 4, 3)));
    assert_eq!(count_buffered(&in_chunks(text.as_bytes(), 3)), Ok(tally(0, 0, 4, 2)));
}
