use logtail::file_reader::read_lines_starting_from_byte;

fn lines_of(data: &[u8], start: u64, budget: usize) -> (Vec<String>, u64) {
    let read = read_lines_starting_from_byte(data, start, budget).expect("the read succeeds");
    (read.lines, read.new_pos)
}

#[test]
fn reads_every_complete_line() {
    let (lines, new_pos) = lines_of(b"one\ntwo\nthree\n", 0, 1000);
    assert_eq!(lines, vec!["one".to_string(), "two".to_string(), "three".to_string()]);
    assert_eq!(new_pos, 14);
}

#[test]
fn leaves_a_line_without_newline_unread() {
    let (lines, new_pos) = lines_of(b"one\ntwo\npart", 0, 1000);
    assert_eq!(lines, vec!["one".to_string(), "two".to_string()]);
    assert_eq!(new_pos, 8);
}

#[test]
fn nothing_but_a_partial_line_gives_no_line_and_the_same_offset() {
    let (lines, new_pos) = lines_of(b"no newline yet", 40, 1000);
    assert!(lines.is_empty());
    assert_eq!(new_pos, 40);
}

#[test]
fn reading_the_same_partial_tail_again_gives_the_same() {
    let data = b"still being written";
    let first = lines_of(data, 7, 1000);
    let second = lines_of(data, 7, 1000);
    assert_eq!(first, second);
    assert_eq!(first, (vec![], 7));
}

#[test]
fn no_data_gives_no_line() {
    let (lines, new_pos) = lines_of(b"", 123, 1000);
    assert!(lines.is_empty());
    assert_eq!(new_pos, 123);
}

#[test]
fn the_new_offset_counts_from_the_start_offset() {
    let (lines, new_pos) = lines_of(b"abc\nde\n", 100, 1000);
    assert_eq!(lines, vec!["abc".to_string(), "de".to_string()]);
    assert_eq!(new_pos, 107);
}

#[test]
fn empty_lines_are_lines() {
    let (lines, new_pos) = lines_of(b"\n\nx\n", 0, 1000);
    assert_eq!(lines, vec!["".to_string(), "".to_string(), "x".to_string()]);
    assert_eq!(new_pos, 4);
}

#[test]
fn only_the_newline_is_stripped() {
    let (lines, new_pos) = lines_of(b"dos line\r\n", 0, 1000);
    assert_eq!(lines, vec!["dos line\r".to_string()]);
    assert_eq!(new_pos, 10);
}

#[test]
fn first_log_line_is_read_from_offset_zero() {
    let (lines, new_pos) = lines_of(b"2024-01-01T00:00:00Z hello\n", 0, 1_000_000);
    assert_eq!(lines, vec!["2024-01-01T00:00:00Z hello".to_string()]);
    assert_eq!(new_pos, 27);
}

#[test]
fn budget_smaller_than_each_pending_line_reads_nothing() {
    // two pending lines of 11 bytes each, newline included
    let (lines, new_pos) = lines_of(b"0123456789\nabcdefghij\n", 500, 10);
    assert!(lines.is_empty());
    assert_eq!(new_pos, 500);
}

#[test]
fn budget_of_ten_takes_the_first_of_two_six_byte_lines() {
    let (lines, new_pos) = lines_of(b"12345\nabcde\n", 500, 10);
    assert_eq!(lines, vec!["12345".to_string()]);
    assert_eq!(new_pos, 506);
}

#[test]
fn budget_of_five_takes_neither_of_two_six_byte_lines() {
    let (lines, new_pos) = lines_of(b"12345\nabcde\n", 500, 5);
    assert!(lines.is_empty());
    assert_eq!(new_pos, 500);
}

#[test]
fn a_line_that_fills_the_budget_exactly_is_taken() {
    let (lines, new_pos) = lines_of(b"12345\nabcde\n", 0, 12);
    assert_eq!(lines, vec!["12345".to_string(), "abcde".to_string()]);
    assert_eq!(new_pos, 12);
    let (lines, new_pos) = lines_of(b"12345\nabcde\n", 0, 11);
    assert_eq!(lines, vec!["12345".to_string()]);
    assert_eq!(new_pos, 6);
}

#[test]
fn budget_of_zero_reads_nothing() {
    let (lines, new_pos) = lines_of(b"\n", 3, 0);
    assert!(lines.is_empty());
    assert_eq!(new_pos, 3);
}

#[test]
fn the_line_left_over_is_read_by_the_next_call() {
    let data = b"first line\nsecond line\n";
    let (lines, new_pos) = lines_of(data, 0, 12);
    assert_eq!(lines, vec!["first line".to_string()]);
    assert_eq!(new_pos, 11);
    let (lines, new_pos) = lines_of(&data[11..], new_pos, 12);
    assert_eq!(lines, vec!["second line".to_string()]);
    assert_eq!(new_pos, 23);
}

#[test]
fn chained_reads_reproduce_the_file_once_and_in_order() {
    let content: &[u8] = b"alpha\nbeta\n\ngamma delta\nepsilon\n";
    let mut offset: u64 = 0;
    let mut seen: Vec<String> = Vec::new();
    let mut reads = 0;
    loop {
        let read = read_lines_starting_from_byte(&content[offset as usize..], offset, 12)
            .expect("the read succeeds");
        if read.new_pos == offset {
            break;
        }
        seen.extend(read.lines);
        offset = read.new_pos;
        reads += 1;
        assert!(reads <= 5);
    }
    assert_eq!(offset, content.len() as u64);
    assert_eq!(seen, vec!["alpha", "beta", "", "gamma delta", "epsilon"]);
    let mut joined: Vec<u8> = Vec::new();
    for line in &seen {
        joined.extend_from_slice(line.as_bytes());
        joined.push(b'\n');
    }
    assert_eq!(joined, content);
}

#[test]
fn reads_between_appends_hand_out_each_line_once() {
    let writes: [&[u8]; 3] = [b"a1\na2\n", b"b1\n", b"c1\nc2\nc3\n"];
    let mut file: Vec<u8> = Vec::new();
    let mut offset: u64 = 0;
    let mut seen: Vec<String> = Vec::new();
    for write in writes {
        file.extend_from_slice(write);
        let read = read_lines_starting_from_byte(&file[offset as usize..], offset, 1000)
            .expect("the read succeeds");
        seen.extend(read.lines);
        offset = read.new_pos;
    }
    assert_eq!(seen, vec!["a1", "a2", "b1", "c1", "c2", "c3"]);
    assert_eq!(offset, file.len() as u64);
}

#[test]
fn text_beyond_ascii_is_decoded() {
    let data = "grüße\n日本語\n".as_bytes();
    let (lines, new_pos) = lines_of(data, 0, 1000);
    assert_eq!(lines, vec!["grüße".to_string(), "日本語".to_string()]);
    assert_eq!(new_pos, data.len() as u64);
}

#[test]
fn a_complete_line_that_is_not_utf8_fails_the_read() {
    assert!(read_lines_starting_from_byte(b"ok\n\xff\xfe\nok\n", 0, 1000).is_none());
}

#[test]
fn a_line_that_is_not_utf8_fails_the_read_even_where_it_does_not_fit() {
    assert!(read_lines_starting_from_byte(b"ok\n\xff\xfe\xfd\n", 0, 4).is_none());
}

#[test]
fn a_partial_tail_that_is_not_utf8_does_no_harm() {
    let (lines, new_pos) = lines_of(b"ok\n\xe6\x97", 0, 1000);
    assert_eq!(lines, vec!["ok".to_string()]);
    assert_eq!(new_pos, 3);
}

#[test]
fn what_lies_behind_the_line_that_does_not_fit_is_not_looked_at() {
    let (lines, new_pos) = lines_of(b"ok\nthis one is too long\n\xff\n", 0, 5);
    assert_eq!(lines, vec!["ok".to_string()]);
    assert_eq!(new_pos, 3);
}

#[test]
fn a_new_offset_that_does_not_fit_fails_the_read() {
    assert!(read_lines_starting_from_byte(b"ab\n", u64::MAX - 2, 100).is_none());
    let (lines, new_pos) = lines_of(b"ab\n", u64::MAX - 3, 100);
    assert_eq!(lines, vec!["ab".to_string()]);
    assert_eq!(new_pos, u64::MAX);
    let (lines, new_pos) = lines_of(b"no line yet", u64::MAX, 100);
    assert!(lines.is_empty());
    assert_eq!(new_pos, u64::MAX);
}
