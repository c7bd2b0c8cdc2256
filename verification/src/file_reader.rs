//! Cutting the next batch of complete lines out of the unread part of a file.

use crate::models::logs::{texts, FileRead};
use vstd::prelude::*;
use vstd::slice::{slice_subrange, slice_to_vec};
use vstd::utf8::{decode_utf8, decode_utf8_encode_utf8, encode_utf8, valid_utf8};

verus! {

/// The byte that ends a line.
pub const NEWLINE: u8 = 0x0a;

/// The index of the first newline of `data`, or the length of `data` when it
/// holds none.
pub open spec fn first_newline(data: Seq<u8>) -> int
    decreases data.len(),
{
    if data.len() == 0 || data[0] == NEWLINE {
        0
    } else {
        1 + first_newline(data.skip(1))
    }
}

/// The lines that one read takes from the start of `data`, and the number of
/// bytes it consumes; `None` when it meets a line that is not UTF-8.
///
/// `data` is the unread part of the file and `budget` the number of its bytes
/// that the read may consume. A line counts with its newline. The read stops
/// before the first line that has no newline yet, and before the first line
/// that would take it past the budget; it has looked at that line before it
/// stops, and fails if the line is not UTF-8.
pub open spec fn scan_lines(data: Seq<u8>, budget: int) -> Option<(Seq<Seq<char>>, int)>
    decreases data.len(),
    via scan_lines_decreases
{
    let end = first_newline(data);
    if end >= data.len() {
        Some((Seq::empty(), 0))
    } else {
        let line = data.subrange(0, end);
        if !valid_utf8(line) {
            None
        } else if end + 1 > budget {
            Some((Seq::empty(), 0))
        } else {
            match scan_lines(data.skip(end + 1), budget - (end + 1)) {
                Some((rest, used)) => Some((seq![decode_utf8(line)] + rest, end + 1 + used)),
                None => None,
            }
        }
    }
}

#[via_fn]
proof fn scan_lines_decreases(data: Seq<u8>, budget: int) {
    lemma_first_newline(data);
}

/// The bytes of `lines` as they stand in a file: each line, then its newline.
pub open spec fn join_lines(lines: Seq<Seq<char>>) -> Seq<u8>
    decreases lines.len(),
{
    if lines.len() == 0 {
        Seq::empty()
    } else {
        encode_utf8(lines[0]) + seq![NEWLINE] + join_lines(lines.skip(1))
    }
}

/// `first_newline` finds a newline or the end, and passes over no newline.
pub proof fn lemma_first_newline(data: Seq<u8>)
    ensures
        0 <= first_newline(data) <= data.len(),
        first_newline(data) < data.len() ==> data[first_newline(data)] == NEWLINE,
        forall|i: int| 0 <= i < first_newline(data) ==> data[i] != NEWLINE,
    decreases data.len(),
{
    if data.len() > 0 && data[0] != NEWLINE {
        let rest = data.skip(1);
        lemma_first_newline(rest);
        assert forall|i: int| 0 <= i < first_newline(data) implies data[i] != NEWLINE by {
            if i > 0 {
                assert(data[i] == rest[i - 1]);
            }
        }
    }
}

/// Joining two runs of lines joins their bytes.
pub proof fn lemma_join_lines_concat(first: Seq<Seq<char>>, second: Seq<Seq<char>>)
    ensures
        join_lines(first + second) == join_lines(first) + join_lines(second),
    decreases first.len(),
{
    if first.len() == 0 {
        assert(first + second =~= second);
        assert(join_lines(first) + join_lines(second) =~= join_lines(second));
    } else {
        lemma_join_lines_concat(first.skip(1), second);
        assert((first + second).skip(1) =~= first.skip(1) + second);
        assert((first + second)[0] == first[0]);
        assert(join_lines(first + second) =~= join_lines(first) + join_lines(second));
    }
}

/// A read hands out exactly the bytes it consumes: the lines it returns, each
/// with its newline put back, are the bytes it has passed. It consumes
/// something only if it returns a line, and then stays within the budget and
/// stops behind a newline.
pub proof fn lemma_scan_returns_what_it_consumes(data: Seq<u8>, budget: int)
    ensures
        scan_lines(data, budget) matches Some((lines, used)) ==> {
            &&& 0 <= used <= data.len()
            &&& join_lines(lines) == data.subrange(0, used)
            &&& (lines.len() == 0 <==> used == 0)
            &&& (used > 0 ==> used <= budget && data[used - 1] == NEWLINE)
        },
    decreases data.len(),
{
    lemma_first_newline(data);
    let end = first_newline(data);
    if end < data.len() && valid_utf8(data.subrange(0, end)) && end + 1 <= budget {
        let line = data.subrange(0, end);
        let tail = data.skip(end + 1);
        lemma_scan_returns_what_it_consumes(tail, budget - (end + 1));
        if let Some((rest, used)) = scan_lines(tail, budget - (end + 1)) {
            let lines = seq![decode_utf8(line)] + rest;
            decode_utf8_encode_utf8(line);
            assert(lines.skip(1) =~= rest);
            assert(join_lines(lines) =~= data.subrange(0, end + 1 + used));
            if used > 0 {
                assert(tail[used - 1] == data[end + 1 + used - 1]);
            }
        }
    } else {
        assert(join_lines(Seq::<Seq<char>>::empty()) =~= data.subrange(0, 0));
    }
}

/// Every line of `data` has its newline, is UTF-8 and fits, with its
/// newline, into `budget`.
pub open spec fn readable(data: Seq<u8>, budget: int) -> bool
    decreases data.len(),
    via readable_decreases
{
    data.len() == 0 || {
        let end = first_newline(data);
        &&& end < data.len()
        &&& valid_utf8(data.subrange(0, end))
        &&& end + 1 <= budget
        &&& readable(data.skip(end + 1), budget)
    }
}

#[via_fn]
proof fn readable_decreases(data: Seq<u8>, budget: int) {
    lemma_first_newline(data);
}

/// The lines handed out by reads that follow one another on an unchanging
/// file, each starting where the one before stopped, until a read consumes
/// nothing.
pub open spec fn read_repeatedly(data: Seq<u8>, budget: int) -> Seq<Seq<char>>
    decreases data.len(),
    via read_repeatedly_decreases
{
    match scan_lines(data, budget) {
        Some((lines, used)) => if used > 0 {
            lines + read_repeatedly(data.skip(used), budget)
        } else {
            Seq::empty()
        },
        None => Seq::empty(),
    }
}

#[via_fn]
proof fn read_repeatedly_decreases(data: Seq<u8>, budget: int) {
    lemma_scan_returns_what_it_consumes(data, budget);
}

/// The lines handed out, and the offset reached, by a tailer that starts at
/// offset 0 and reads once from each of `contents` in turn: what the file
/// held at the time of each read. A read that fails leaves the offset where
/// it was.
pub open spec fn tail_reads(contents: Seq<Seq<u8>>, budget: int) -> (Seq<Seq<char>>, int)
    decreases contents.len(),
{
    if contents.len() == 0 {
        (Seq::empty(), 0)
    } else {
        let (lines, offset) = tail_reads(contents.drop_last(), budget);
        if 0 <= offset <= contents.last().len() {
            match scan_lines(contents.last().skip(offset), budget) {
                Some((more, used)) => (lines + more, offset + used),
                None => (lines, offset),
            }
        } else {
            (lines, offset)
        }
    }
}

/// Each of `contents` begins with the one before it: the file only grew.
pub open spec fn only_appended(contents: Seq<Seq<u8>>) -> bool {
    forall|i: int| 0 < i < contents.len() ==> (#[trigger] contents[i - 1]).is_prefix_of(contents[i])
}

/// A read of a file whose lines are all readable succeeds, consumes
/// something when anything is there and the budget is the one the lines fit,
/// and leaves a rest whose lines are all readable.
proof fn lemma_scan_of_readable(data: Seq<u8>, budget: int, left: int)
    requires
        readable(data, budget),
    ensures
        scan_lines(data, left) matches Some((lines, used)) && readable(data.skip(used), budget) && (
        data.len() > 0 && left >= budget ==> used > 0),
    decreases data.len(),
{
    lemma_first_newline(data);
    let end = first_newline(data);
    if end < data.len() && end + 1 <= left {
        let tail = data.skip(end + 1);
        lemma_scan_of_readable(tail, budget, left - (end + 1));
        lemma_scan_returns_what_it_consumes(tail, left - (end + 1));
        let (rest, used) = scan_lines(tail, left - (end + 1))->0;
        assert(tail.skip(used) =~= data.skip(end + 1 + used));
    } else {
        assert(data.skip(0) =~= data);
    }
}

/// Reads that follow one another reproduce the file: when every line of
/// `data` is complete, is UTF-8 and fits into the budget, the lines that the
/// reads hand out, each with its newline put back, are the bytes of `data`,
/// once and in order.
pub proof fn lemma_repeated_reads_reproduce_content(data: Seq<u8>, budget: int)
    requires
        readable(data, budget),
    ensures
        join_lines(read_repeatedly(data, budget)) == data,
    decreases data.len(),
{
    lemma_first_newline(data);
    lemma_scan_returns_what_it_consumes(data, budget);
    if data.len() == 0 {
        assert(join_lines(read_repeatedly(data, budget)) =~= data);
    } else {
        lemma_scan_of_readable(data, budget, budget);
        let (lines, used) = scan_lines(data, budget)->0;
        let tail = data.skip(used);
        lemma_repeated_reads_reproduce_content(tail, budget);
        lemma_join_lines_concat(lines, read_repeatedly(tail, budget));
        assert(data.subrange(0, used) + tail =~= data);
    }
}

/// A tailer of a growing file has handed out exactly what lies before its
/// offset: whatever was appended between its reads, the lines it has
/// returned so far, each with its newline put back, are the bytes of the file
/// from offset 0 to the offset it has reached. No line is returned twice and
/// none is passed over.
pub proof fn lemma_tail_reads_deliver_prefix(contents: Seq<Seq<u8>>, budget: int)
    requires
        contents.len() > 0,
        only_appended(contents),
    ensures
        0 <= tail_reads(contents, budget).1 <= contents.last().len(),
        join_lines(tail_reads(contents, budget).0) == contents.last().subrange(
            0,
            tail_reads(contents, budget).1,
        ),
    decreases contents.len(),
{
    let content = contents.last();
    let earlier = contents.drop_last();
    let (lines, offset) = tail_reads(earlier, budget);
    if earlier.len() == 0 {
        assert(join_lines(lines) =~= content.subrange(0, 0));
    } else {
        assert forall|i: int| 0 < i < earlier.len() implies (#[trigger] earlier[i
            - 1]).is_prefix_of(earlier[i]) by {
            assert(contents[i - 1].is_prefix_of(contents[i]));
        }
        lemma_tail_reads_deliver_prefix(earlier, budget);
        assert(earlier.last() == contents[contents.len() - 2]);
        assert(contents[contents.len() - 1 - 1].is_prefix_of(contents[contents.len() - 1]));
        assert(earlier.last().subrange(0, offset) =~= content.subrange(0, offset));
    }
    let unread = content.skip(offset);
    lemma_scan_returns_what_it_consumes(unread, budget);
    if let Some((more, used)) = scan_lines(unread, budget) {
        lemma_join_lines_concat(lines, more);
        assert(content.subrange(0, offset) + unread.subrange(0, used) =~= content.subrange(
            0,
            offset + used,
        ));
    }
}

/// `String::from_utf8`: the text that `bytes` encode when they are
/// well-formed UTF-8, and nothing when they are not.
#[verifier::external_body]
fn string_from_utf8(bytes: Vec<u8>) -> (r: Option<String>)
    ensures
        r is Some <==> valid_utf8(bytes@),
        r matches Some(s) ==> s@ == decode_utf8(bytes@),
{
    match String::from_utf8(bytes) {
        Ok(s) => Some(s),
        Err(_) => None,
    }
}

fn find_newline(data: &[u8], from: usize) -> (end: usize)
    requires
        from <= data@.len(),
    ensures
        end == from + first_newline(data@.skip(from as int)),
        from <= end <= data@.len(),
{
    let mut i: usize = from;
    proof {
        lemma_first_newline(data@.skip(from as int));
    }
    while i < data.len() && data[i] != NEWLINE
        invariant
            from <= i <= data@.len(),
            from + first_newline(data@.skip(from as int)) == i + first_newline(
                data@.skip(i as int),
            ),
        decreases data@.len() - i,
    {
        proof {
            assert(data@.skip(i as int).skip(1) =~= data@.skip(i + 1));
        }
        i += 1;
    }
    i
}

/// Reads the complete lines at the start of `data`, the part of a file that
/// begins at offset `start_byte`, without consuming more than `buf_size`
/// bytes.
///
/// A line is complete when a newline ends it; the newline is consumed and not
/// handed out. Bytes after the last newline stay unread, and so does every
/// line from the first that does not fit into what is left of `buf_size`. The
/// new offset is `start_byte` plus the bytes consumed: the next read starts
/// at the first byte that this one has left.
///
/// Nothing is returned when a complete line is not UTF-8, be it a line that
/// would be taken or the first one that does not fit. What lies behind the
/// first line that does not fit is not looked at, nor is a line that has no
/// newline yet. Nothing is returned either when the new offset would not fit
/// into 64 bits.
pub fn read_lines_starting_from_byte(data: &[u8], start_byte: u64, buf_size: usize) -> (r: Option<
    FileRead,
>)
    ensures
        match scan_lines(data@, buf_size as int) {
            Some((lines, used)) if start_byte + used <= u64::MAX => r matches Some(read)
                && read@.lines == lines && read.new_pos == start_byte + used,
            _ => r is None,
        },
        r matches Some(read) ==> {
            &&& start_byte <= read.new_pos <= start_byte + data@.len()
            &&& join_lines(read@.lines) == data@.subrange(0, read.new_pos - start_byte)
            &&& (read@.lines.len() == 0 <==> read.new_pos == start_byte)
            &&& (read.new_pos > start_byte ==> read.new_pos - start_byte <= buf_size)
        },
        (forall|i: int| 0 <= i < data@.len() ==> data@[i] != NEWLINE) ==> (r matches Some(read)
            && read@.lines.len() == 0 && read.new_pos == start_byte),
{
    let mut lines: Vec<String> = Vec::new();
    let mut start: usize = 0;
    proof {
        assert(data@.skip(0) =~= data@);
    }
    loop
        invariant
            start <= data@.len(),
            start == 0 || start <= buf_size,
            scan_lines(data@, buf_size as int) == match scan_lines(
                data@.skip(start as int),
                buf_size - start,
            ) {
                Some((rest, used)) => Some((texts(lines@) + rest, start + used)),
                None => None,
            },
        ensures
            start <= data@.len(),
            scan_lines(data@, buf_size as int) == Some((texts(lines@), start as int)),
        decreases data@.len() - start,
    {
        let end = find_newline(data, start);
        proof {
            assert(texts(lines@) + Seq::<Seq<char>>::empty() =~= texts(lines@));
        }
        if end >= data.len() {
            break ;
        }
        let bytes = slice_to_vec(slice_subrange(data, start, end));
        proof {
            assert(data@.skip(start as int).subrange(0, end - start) =~= data@.subrange(
                start as int,
                end as int,
            ));
        }
        match string_from_utf8(bytes) {
            None => {
                proof {
                    lemma_first_newline(data@);
                    lemma_first_newline(data@.skip(start as int));
                }
                return None;
            },
            Some(line) => {
                if end + 1 > buf_size {
                    break ;
                }
                proof {
                    assert(data@.skip(start as int).skip(end - start + 1) =~= data@.skip(end + 1));
                    assert(texts(lines@.push(line)) =~= texts(lines@).push(line@));
                    if let Some((rest, used)) = scan_lines(
                        data@.skip(end + 1),
                        buf_size - (end + 1),
                    ) {
                        assert(texts(lines@) + (seq![line@] + rest) =~= texts(lines@).push(line@)
                            + rest);
                    }
                }
                lines.push(line);
                start = end + 1;
            },
        }
    }
    proof {
        lemma_scan_returns_what_it_consumes(data@, buf_size as int);
        lemma_first_newline(data@);
    }
    if start as u64 > u64::MAX - start_byte {
        return None;
    }
    Some(FileRead { lines, new_pos: start_byte + start as u64 })
}

} // verus!
