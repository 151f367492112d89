//! The framing of a datagram's payload: entries joined by single line feeds.

use vstd::prelude::*;
use vstd::slice::{slice_subrange, slice_to_vec};
use vstd::utf8::{
    is_char_boundary_iff_not_is_continuation_byte, pop_first_scalar, valid_utf8, valid_utf8_split,
};

verus! {

/// The byte that separates two entries within one payload.
pub const SEPARATOR: u8 = 10;

/// The lines that have ended, and the line that is open.
#[verifier::ext_equal]
pub struct Scan {
    pub ended: Seq<Seq<u8>>,
    pub open: Seq<u8>,
}

/// `ended` with `line` behind it, unless `line` is empty.
pub open spec fn with_line(ended: Seq<Seq<u8>>, line: Seq<u8>) -> Seq<Seq<u8>> {
    if line.len() == 0 {
        ended
    } else {
        ended.push(line)
    }
}

/// Reading `bytes` from the left: a separator ends the open line, any other byte
/// belongs to it, and a line without bytes is dropped.
pub open spec fn scan(bytes: Seq<u8>) -> Scan
    decreases bytes.len(),
{
    if bytes.len() == 0 {
        Scan { ended: Seq::empty(), open: Seq::empty() }
    } else {
        let before = scan(bytes.drop_last());
        if bytes.last() == SEPARATOR {
            Scan { ended: with_line(before.ended, before.open), open: Seq::empty() }
        } else {
            Scan { ended: before.ended, open: before.open.push(bytes.last()) }
        }
    }
}

/// The lines of a payload that are not empty, in their order.
pub open spec fn split_lines(bytes: Seq<u8>) -> Seq<Seq<u8>> {
    with_line(scan(bytes).ended, scan(bytes).open)
}

/// Whether `line` can stand in a payload as one line: it has a byte, and none of
/// its bytes is the separator.
pub open spec fn is_line(line: Seq<u8>) -> bool {
    &&& line.len() > 0
    &&& forall|i: int| 0 <= i < line.len() ==> line[i] != SEPARATOR
}

/// What each of the byte strings holds.
pub open spec fn contents(strings: Seq<Vec<u8>>) -> Seq<Seq<u8>> {
    strings.map_values(|bytes: Vec<u8>| bytes@)
}

/// Splits a payload at its line feeds and returns the lines that are not empty.
pub fn lines(bytes: &[u8]) -> (found: Vec<Vec<u8>>)
    ensures
        contents(found@) == split_lines(bytes@),
{
    let mut found: Vec<Vec<u8>> = Vec::new();
    let mut start: usize = 0;
    let mut i: usize = 0;
    while i < bytes.len()
        invariant
            start <= i <= bytes.len(),
            scan(bytes@.take(i as int)) =~= (Scan {
                ended: contents(found@),
                open: bytes@.subrange(start as int, i as int),
            }),
        decreases bytes.len() - i,
    {
        proof {
            assert(bytes@.take(i + 1).drop_last() == bytes@.take(i as int));
        }
        if bytes[i] == SEPARATOR {
            if start < i {
                found.push(slice_to_vec(slice_subrange(bytes, start, i)));
            }
            start = i + 1;
        }
        i += 1;
    }
    assert(bytes@.take(i as int) == bytes@);
    if start < i {
        found.push(slice_to_vec(slice_subrange(bytes, start, i)));
    }
    found
}

/// A payload has no more lines than bytes.
pub proof fn lemma_lines_bounded(bytes: Seq<u8>)
    ensures
        scan(bytes).ended.len() + scan(bytes).open.len() <= bytes.len(),
        split_lines(bytes).len() <= bytes.len(),
    decreases bytes.len(),
{
    if bytes.len() > 0 {
        lemma_lines_bounded(bytes.drop_last());
    }
}

/// Bytes without a separator all belong to the open line.
pub proof fn lemma_scan_line(before: Seq<u8>, line: Seq<u8>)
    requires
        forall|i: int| 0 <= i < line.len() ==> line[i] != SEPARATOR,
    ensures
        scan(before + line) == (Scan { ended: scan(before).ended, open: scan(before).open + line }),
    decreases line.len(),
{
    if line.len() > 0 {
        let shorter = line.drop_last();
        lemma_scan_line(before, shorter);
        assert((before + line).drop_last() == before + shorter);
    }
}

/// A payload of one line splits into that line.
pub proof fn lemma_split_one_line(line: Seq<u8>)
    requires
        is_line(line),
    ensures
        split_lines(line) == seq![line],
{
    lemma_scan_line(Seq::empty(), line);
}

/// A line behind a payload and a separator is one more line of the payload.
pub proof fn lemma_split_appended_line(payload: Seq<u8>, line: Seq<u8>)
    requires
        is_line(line),
    ensures
        split_lines(payload.push(SEPARATOR) + line) == split_lines(payload).push(line),
{
    let ended = payload.push(SEPARATOR);
    assert(ended.drop_last() == payload);
    lemma_scan_line(ended, line);
}

/// What stands in front of a separator in UTF-8 text is UTF-8 text, and so is what
/// stands behind it: a line feed is never a part of a longer character.
pub proof fn lemma_utf8_around_separator(bytes: Seq<u8>, i: int)
    requires
        valid_utf8(bytes),
        0 <= i < bytes.len(),
        bytes[i] == SEPARATOR,
    ensures
        valid_utf8(bytes.subrange(0, i)),
        valid_utf8(bytes.subrange(i + 1, bytes.len() as int)),
{
    is_char_boundary_iff_not_is_continuation_byte(bytes, i);
    valid_utf8_split(bytes, i);
    let rest = bytes.subrange(i, bytes.len() as int);
    assert(pop_first_scalar(rest) =~= bytes.subrange(i + 1, bytes.len() as int));
}

/// Whether each of the lines is UTF-8 text.
pub open spec fn all_utf8(lines: Seq<Seq<u8>>) -> bool {
    forall|k: int| 0 <= k < lines.len() ==> valid_utf8(#[trigger] lines[k])
}

proof fn lemma_scan_utf8(bytes: Seq<u8>, n: int)
    requires
        valid_utf8(bytes),
        0 <= n <= bytes.len(),
        forall|j: int| n <= j < bytes.len() ==> bytes[j] != SEPARATOR,
    ensures
        all_utf8(scan(bytes).ended),
        valid_utf8(scan(bytes).open),
    decreases bytes.len(), n,
{
    if n == 0 {
        lemma_scan_line(Seq::empty(), bytes);
    } else if bytes[n - 1] != SEPARATOR {
        lemma_scan_utf8(bytes, n - 1);
    } else {
        let front = bytes.subrange(0, n - 1);
        let tail = bytes.subrange(n, bytes.len() as int);
        lemma_utf8_around_separator(bytes, n - 1);
        lemma_scan_utf8(front, front.len() as int);
        let ended = front.push(SEPARATOR);
        assert(ended.drop_last() == front);
        lemma_scan_line(ended, tail);
        assert(bytes =~= ended + tail);
    }
}

/// The lines of UTF-8 text are UTF-8 text.
pub proof fn lemma_lines_are_utf8(bytes: Seq<u8>)
    requires
        valid_utf8(bytes),
    ensures
        all_utf8(split_lines(bytes)),
{
    lemma_scan_utf8(bytes, bytes.len() as int);
}

} // verus!
