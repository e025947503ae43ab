use wcr::counter::{CounterState, Tally};
use wcr::decode::lossy_char_count;
use wcr::stream::{Action, ReadError, ReadStatus, BUFFER_CAPACITY};
use wcr::text::{count_newlines, delimits, scan_words, NEWLINE, SPACE, TAB};

#[test]
fn new_state_is_zero() {
    let state = CounterState::new();
    assert_eq!(state.lines(), 0);
    assert_eq!(state.words(), 0);
    assert_eq!(state.bytes(), 0);
    assert_eq!(state.chars(), 0);
    assert!(!state.in_word());
    assert_eq!(state.tally(), Tally { lines: 0, words: 0, bytes: 0, chars: 0 });
}

#[test]
fn counting_states_have_room() {
    let mut state = CounterState::new();
    assert!(state.has_room(0));
    assert!(state.has_room(usize::MAX));
    state.update(b"some text\n");
    assert!(state.has_room(1024));
}

#[test]
fn buffer_capacity_is_one_kilobyte() {
    assert_eq!(BUFFER_CAPACITY, 1024);
}

#[test]
fn update_carries_the_open_word_to_the_next_chunk() {
    let mut state = CounterState::new();
    state.update(b"one tw");
    assert_eq!(state.tally(), Tally { lines: 0, words: 1, bytes: 6, chars: 6 });
    assert!(state.in_word());
    state.update(b"o\nthree");
    assert_eq!(state.tally(), Tally { lines: 1, words: 2, bytes: 13, chars: 13 });
    assert!(state.in_word());
    state.update(b" ");
    assert_eq!(state.tally(), Tally { lines: 1, words: 3, bytes: 14, chars: 14 });
    assert!(!state.in_word());
}

#[test]
fn update_with_an_empty_chunk_changes_nothing() {
    let mut state = CounterState::new();
    state.update(b"ab");
    state.update(b"");
    assert_eq!(state.tally(), Tally { lines: 0, words: 0, bytes: 2, chars: 2 });
    assert!(state.in_word());
    state.update(b" ");
    assert_eq!(state.words(), 1);
}

#[test]
fn record_takes_the_character_count_as_given() {
    let mut state = CounterState::new();
    state.record(b"a b\nc", 40);
    assert_eq!(state.tally(), Tally { lines: 1, words: 2, bytes: 5, chars: 40 });
    state.record(b"\n", 2);
    assert_eq!(state.tally(), Tally { lines: 2, words: 3, bytes: 6, chars: 42 });
}

#[test]
fn step_counts_only_the_filled_front_of_the_buffer() {
    let mut buffer = [0u8; BUFFER_CAPACITY];
    let mut state = CounterState::new();
    buffer[..12].copy_from_slice(b"first line\n\n");
    assert_eq!(state.step(&buffer, ReadStatus::Filled(12)), Action::ReadAgain);
    assert_eq!(state.tally(), Tally { lines: 2, words: 2, bytes: 12, chars: 12 });
    // The second read fills less: what the first left behind it is not counted.
    buffer[..3].copy_from_slice(b"x y");
    assert_eq!(state.step(&buffer, ReadStatus::Filled(3)), Action::ReadAgain);
    assert_eq!(state.tally(), Tally { lines: 2, words: 3, bytes: 15, chars: 15 });
    assert_eq!(
        state.step(&buffer, ReadStatus::Filled(0)),
        Action::Finish(Tally { lines: 2, words: 3, bytes: 15, chars: 15 })
    );
}

#[test]
fn step_can_fill_the_whole_buffer() {
    let buffer = [b'z'; BUFFER_CAPACITY];
    let mut state = CounterState::new();
    assert_eq!(state.step(&buffer, ReadStatus::Filled(BUFFER_CAPACITY)), Action::ReadAgain);
    assert_eq!(state.tally(), Tally { lines: 0, words: 0, bytes: 1024, chars: 1024 });
}

#[test]
fn step_finishes_at_the_end_of_the_stream() {
    let mut state = CounterState::new();
    state.update(b"a b c\n");
    let expected = Tally { lines: 1, words: 3, bytes: 6, chars: 6 };
    assert_eq!(state.step(b"junk junk\n", ReadStatus::EndOfStream), Action::Finish(expected));
    assert_eq!(state.tally(), expected);
}

#[test]
fn step_aborts_on_a_failed_read() {
    let mut state = CounterState::new();
    state.update(b"a b c\n");
    assert_eq!(
        state.step(b"", ReadStatus::Failed(String::from("broken pipe"))),
        Action::Abort(ReadError { cause: String::from("broken pipe") })
    );
}

#[test]
fn delimiters_are_newline_space_and_tab() {
    assert_eq!((NEWLINE, SPACE, TAB), (b'\n', b' ', b'\t'));
    for byte in 0..=255u8 {
        assert_eq!(delimits(byte), byte == b'\n' || byte == b' ' || byte == b'\t');
    }
}

#[test]
fn count_newlines_counts_line_feeds() {
    assert_eq!(count_newlines(b""), 0);
    assert_eq!(count_newlines(b"no end"), 0);
    assert_eq!(count_newlines(b"\n"), 1);
    assert_eq!(count_newlines(b"a\r\nb\n\nc"), 3);
}

#[test]
fn scan_words_counts_closing_delimiters() {
    assert_eq!(scan_words(false, b""), (0, false));
    assert_eq!(scan_words(true, b""), (0, true));
    assert_eq!(scan_words(false, b" x"), (0, true));
    assert_eq!(scan_words(true, b" x"), (1, true));
    assert_eq!(scan_words(true, b"\n"), (1, false));
    assert_eq!(scan_words(false, b"\n"), (0, false));
    assert_eq!(scan_words(false, b"ab cd\tef\n"), (3, false));
    assert_eq!(scan_words(false, b"ab cd\tef"), (2, true));
}

#[test]
fn lossy_char_count_decodes_before_it_counts() {
    assert_eq!(lossy_char_count(b""), 0);
    assert_eq!(lossy_char_count(b"plain"), 5);
    assert_eq!(lossy_char_count("\u{20ac}".as_bytes()), 1);
    assert_eq!(lossy_char_count("a\u{e9}\u{1f600}".as_bytes()), 3);
    assert_eq!(lossy_char_count(&[0xC3]), 1);
    assert_eq!(lossy_char_count(&[0xF0, 0x9F, 0x98]), 1);
    assert_eq!(lossy_char_count(&[0xC0, 0x80]), 2);
    assert_eq!(lossy_char_count(&[0xED, 0xA0, 0x80]), 3);
}
