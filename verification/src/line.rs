//! Unfolding of physical lines into logical lines.
//!
//! A physical line ends at a line feed; a carriage return in front of that line
//! feed belongs to the line break. A physical line that starts with a space or a
//! tab continues the logical line before it, without that first byte. Empty
//! physical lines carry nothing. The bytes of a logical line are put together
//! first and read as text afterwards, so a character may be cut in two by a fold.
use vstd::prelude::*;
use vstd::utf8::{decode_utf8, valid_utf8};

verus! {

/// The line feed byte.
pub const LF: u8 = 10;

/// The carriage return byte.
pub const CR: u8 = 13;

/// The space byte.
pub const SPACE: u8 = 32;

/// The horizontal tab byte.
pub const TAB: u8 = 9;

/// The place of the first line feed at or after `pos`, or the length of `data`
/// where there is none.
pub open spec fn line_end(data: Seq<u8>, pos: int) -> int
    decreases data.len() - pos,
{
    if pos < 0 || pos >= data.len() {
        data.len() as int
    } else if data[pos] == LF {
        pos
    } else {
        line_end(data, pos + 1)
    }
}

/// Where the content of the physical line at `pos` ends: at its line feed, or
/// one byte earlier where a carriage return stands in front of the line feed.
pub open spec fn content_end(data: Seq<u8>, pos: int) -> int {
    let e = line_end(data, pos);
    if e < data.len() && pos < e && data[e - 1] == CR {
        e - 1
    } else {
        e
    }
}

/// The content of the physical line that starts at `pos`, without its line
/// break.
pub open spec fn physical_line(data: Seq<u8>, pos: int) -> Seq<u8> {
    data.subrange(pos, content_end(data, pos))
}

/// Where the physical line after the one at `pos` starts.
pub open spec fn after_line(data: Seq<u8>, pos: int) -> int {
    let e = line_end(data, pos);
    if e < data.len() {
        e + 1
    } else {
        e
    }
}

/// The first line feed after `pos` lies between `pos` and the end of `data`,
/// and no line feed stands in front of it.
pub proof fn lemma_line_end(data: Seq<u8>, pos: int)
    requires
        0 <= pos <= data.len(),
    ensures
        pos <= line_end(data, pos) <= data.len(),
        line_end(data, pos) < data.len() ==> data[line_end(data, pos)] == LF,
        forall|j: int| pos <= j < line_end(data, pos) ==> data[j] != LF,
        pos <= content_end(data, pos) <= line_end(data, pos),
        pos < data.len() ==> pos < after_line(data, pos) <= data.len(),
    decreases data.len() - pos,
{
    if pos < data.len() && data[pos] != LF {
        lemma_line_end(data, pos + 1);
    }
}

/// Skips the empty physical lines from `pos` on. Gives the start of the first
/// physical line with content (or a place at the end of `data`) and `count`
/// plus the number of lines skipped.
pub open spec fn skip_blank(data: Seq<u8>, pos: int, count: nat) -> (int, nat)
    decreases data.len() - pos,
    via skip_blank_decreases
{
    if pos < 0 || pos >= data.len() {
        (pos, count)
    } else if physical_line(data, pos).len() == 0 {
        skip_blank(data, after_line(data, pos), count + 1)
    } else {
        (pos, count)
    }
}

#[via_fn]
proof fn skip_blank_decreases(data: Seq<u8>, pos: int, count: nat) {
    if 0 <= pos < data.len() {
        lemma_line_end(data, pos);
    }
}

/// Gathers the physical lines from `pos` on that continue a logical line whose
/// bytes so far are `acc`. An empty line is passed over; a line that starts
/// with a space or a tab gives its bytes after the first. Gives the bytes of
/// the whole logical line, the start of the first physical line that does not
/// continue it, and `count` plus the number of lines taken.
pub open spec fn gather(data: Seq<u8>, pos: int, acc: Seq<u8>, count: nat) -> (Seq<u8>, int, nat)
    decreases data.len() - pos,
    via gather_decreases
{
    if pos < 0 || pos >= data.len() {
        (acc, pos, count)
    } else {
        let content = physical_line(data, pos);
        if content.len() == 0 {
            gather(data, after_line(data, pos), acc, count + 1)
        } else if content[0] == SPACE || content[0] == TAB {
            gather(data, after_line(data, pos), acc + content.skip(1), count + 1)
        } else {
            (acc, pos, count)
        }
    }
}

#[via_fn]
proof fn gather_decreases(data: Seq<u8>, pos: int, acc: Seq<u8>, count: nat) {
    if 0 <= pos < data.len() {
        lemma_line_end(data, pos);
    }
}

/// Skipping and gathering never move backwards and never pass the end.
pub proof fn lemma_progress(data: Seq<u8>, pos: int, acc: Seq<u8>, count: nat)
    requires
        0 <= pos <= data.len(),
    ensures
        pos <= skip_blank(data, pos, count).0 <= data.len(),
        skip_blank(data, pos, count).1 >= count,
        skip_blank(data, pos, count).1 - count <= skip_blank(data, pos, count).0 - pos,
        pos <= gather(data, pos, acc, count).1 <= data.len(),
        gather(data, pos, acc, count).2 >= count,
        gather(data, pos, acc, count).2 - count <= gather(data, pos, acc, count).1 - pos,
    decreases data.len() - pos,
{
    if pos < data.len() {
        lemma_line_end(data, pos);
        let content = physical_line(data, pos);
        let next = after_line(data, pos);
        lemma_progress(data, next, acc, count + 1);
        if content.len() > 0 {
            lemma_progress(data, next, acc + content.skip(1), count + 1);
        }
    }
}

/// A logical line before it is read as text: its bytes and the number of the
/// physical line on which it starts, counted from one.
pub struct RawLine {
    pub bytes: Seq<u8>,
    pub number: nat,
}

/// The logical lines of `data` from `pos` on, where `number` physical lines lie
/// in front of `pos`.
pub open spec fn unfold_from(data: Seq<u8>, pos: int, number: nat) -> Seq<RawLine>
    decreases data.len() - pos,
    via unfold_from_decreases
{
    let (start, skipped) = skip_blank(data, pos, 0);
    if pos < 0 || start < 0 || start >= data.len() {
        Seq::empty()
    } else {
        let head = (number + skipped + 1) as nat;
        let (bytes, next, extra) = gather(
            data,
            after_line(data, start),
            physical_line(data, start),
            0,
        );
        seq![RawLine { bytes, number: head }] + unfold_from(data, next, head + extra)
    }
}

#[via_fn]
proof fn unfold_from_decreases(data: Seq<u8>, pos: int, number: nat) {
    if 0 <= pos <= data.len() {
        lemma_progress(data, pos, Seq::empty(), 0);
        let start = skip_blank(data, pos, 0).0;
        if start < data.len() {
            lemma_line_end(data, start);
            lemma_progress(data, after_line(data, start), physical_line(data, start), 0);
        }
    }
}

/// The logical lines of `data`.
pub open spec fn unfold(data: Seq<u8>) -> Seq<RawLine> {
    unfold_from(data, 0, 0)
}

/// What a logical line reads as: its text and number where its bytes are
/// well-formed UTF-8, else the number alone.
pub open spec fn read_line(raw: RawLine) -> Result<(Seq<char>, usize), usize> {
    if valid_utf8(raw.bytes) {
        Ok((decode_utf8(raw.bytes), raw.number as usize))
    } else {
        Err(raw.number as usize)
    }
}

/// An unfolded line: its text and the number of the physical line on which it
/// starts. Nothing in it has been split or checked yet.
#[derive(Debug, Default)]
pub struct Line {
    inner: String,
    number: usize,
}

impl View for Line {
    type V = (Seq<char>, usize);

    closed spec fn view(&self) -> (Seq<char>, usize) {
        (self.inner@, self.number)
    }
}

impl Line {
    /// The logical line with the given text that starts at the physical line
    /// with the given number.
    pub fn new(line: String, line_number: usize) -> (r: Line)
        ensures
            r@ == (line@, line_number),
    {
        Line { inner: line, number: line_number }
    }

    /// The text of the line.
    pub fn as_str(&self) -> (s: &str)
        ensures
            s@ == self@.0,
    {
        self.inner.as_str()
    }

    /// The number of the physical line at which the line starts.
    pub fn number(&self) -> (n: usize)
        ensures
            n == self@.1,
    {
        self.number
    }
}

/// A logical line whose bytes are not well-formed UTF-8.
#[derive(Debug, Clone, Copy, PartialEq, Eq)]
pub struct LineError {
    /// The number of the physical line on which the logical line starts.
    pub number: usize,
}

/// What [`LineReader::next`] hands out for a logical line.
pub open spec fn line_outcome(r: Result<Line, LineError>) -> Result<(Seq<char>, usize), usize> {
    match r {
        Ok(line) => Ok(line@),
        Err(e) => Err(e.number),
    }
}

/// Calls `String::from_utf8`: the text that the bytes encode, where they are
/// well-formed UTF-8, and nothing otherwise.
#[verifier::external_body]
fn text_of_bytes(bytes: Vec<u8>) -> (r: Option<String>)
    ensures
        r is Some <==> valid_utf8(bytes@),
        r matches Some(s) ==> s@ == decode_utf8(bytes@),
{
    String::from_utf8(bytes).ok()
}

/// Hands out the logical lines of a byte buffer one after the other.
pub struct LineReader {
    data: Vec<u8>,
    pos: usize,
    number: usize,
}

impl LineReader {
    #[verifier::type_invariant]
    spec fn inv(self) -> bool {
        self.number <= self.pos <= self.data@.len()
    }

    /// The bytes that the reader was made from.
    pub closed spec fn bytes(&self) -> Seq<u8> {
        self.data@
    }

    /// The logical lines that have not been handed out yet.
    pub closed spec fn remaining(&self) -> Seq<RawLine> {
        unfold_from(self.data@, self.pos as int, self.number as nat)
    }

    /// A reader at the start of `reader`.
    pub fn new(reader: Vec<u8>) -> (r: LineReader)
        ensures
            r.bytes() == reader@,
            r.remaining() == unfold(reader@),
    {
        LineReader { data: reader, pos: 0, number: 0 }
    }

    /// The content end and the successor of the physical line at `pos`.
    fn scan(&self, pos: usize) -> (r: (usize, usize))
        requires
            pos < self.data@.len(),
        ensures
            r.0 == content_end(self.data@, pos as int),
            r.1 == after_line(self.data@, pos as int),
            pos <= r.0 <= self.data@.len(),
            pos < r.1 <= self.data@.len(),
            r.0 <= r.1,
    {
        let n = self.data.len();
        let mut e: usize = pos;
        while e < n && self.data[e] != LF
            invariant
                pos <= e <= n,
                n == self.data@.len(),
                line_end(self.data@, e as int) == line_end(self.data@, pos as int),
            decreases n - e,
        {
            e += 1;
        }
        proof {
            lemma_line_end(self.data@, pos as int);
        }
        if e < n {
            if pos < e && self.data[e - 1] == CR {
                (e - 1, e + 1)
            } else {
                (e, e + 1)
            }
        } else {
            (e, e)
        }
    }

    /// Appends `data[from..to]` to `out`.
    fn copy_bytes(&self, out: &mut Vec<u8>, from: usize, to: usize)
        requires
            from <= to <= self.data@.len(),
        ensures
            final(out)@ == old(out)@ + self.data@.subrange(from as int, to as int),
    {
        let mut i: usize = from;
        while i < to
            invariant
                from <= i <= to <= self.data@.len(),
                out@ == old(out)@ + self.data@.subrange(from as int, i as int),
            decreases to - i,
        {
            out.push(self.data[i]);
            i += 1;
            assert(out@ =~= old(out)@ + self.data@.subrange(from as int, i as int));
        }
    }

    /// The next logical line, or `None` when the buffer holds no more. A line
    /// whose bytes are not well-formed UTF-8 comes as the error with its
    /// number, and the reader goes on behind it.
    pub fn next(&mut self) -> (r: Option<Result<Line, LineError>>)
        ensures
            final(self).bytes() == old(self).bytes(),
            old(self).remaining().len() == 0 ==> r is None && final(self).remaining().len() == 0,
            old(self).remaining().len() > 0 ==> r is Some && line_outcome(r->0) == read_line(
                old(self).remaining()[0],
            ) && final(self).remaining() == old(self).remaining().drop_first(),
    {
        proof {
            use_type_invariant(&*self);
        }
        let n = self.data.len();
        let ghost data = self.data@;
        let ghost pos0 = self.pos as int;
        let ghost number0 = self.number as nat;
        let mut pos: usize = self.pos;
        let mut number: usize = self.number;
        let mut found = false;
        while pos < n && !found
            invariant
                self.data@ == data,
                n == data.len(),
                number <= pos <= n,
                pos0 <= pos,
                number >= number0,
                skip_blank(data, pos as int, (number - number0) as nat) == skip_blank(
                    data,
                    pos0,
                    0,
                ),
                found ==> pos < n && physical_line(data, pos as int).len() > 0,
            decreases n - pos + (if found { 0int } else { 1int }),
        {
            let (end, next) = self.scan(pos);
            if end == pos {
                pos = next;
                number += 1;
            } else {
                found = true;
            }
        }
        if !found {
            self.pos = pos;
            self.number = number;
            proof {
                assert(skip_blank(data, pos0, 0).0 >= data.len());
                assert(skip_blank(data, pos as int, 0).0 == pos);
            }
            return None;
        }
        let ghost start = pos as int;
        assert(skip_blank(data, pos0, 0) == (start, (number - number0) as nat));
        let (end, next) = self.scan(pos);
        number += 1;
        let head_number = number;
        let mut bytes: Vec<u8> = Vec::new();
        self.copy_bytes(&mut bytes, pos, end);
        assert(bytes@ =~= physical_line(data, start));
        pos = next;
        let ghost first = pos as int;
        let ghost head = bytes@;
        let mut more = true;
        while pos < n && more
            invariant
                self.data@ == data,
                n == data.len(),
                head_number <= number <= pos <= n,
                first <= pos,
                gather(data, pos as int, bytes@, (number - head_number) as nat) == gather(
                    data,
                    first,
                    head,
                    0,
                ),
                !more ==> gather(data, pos as int, bytes@, (number - head_number) as nat) == (
                    bytes@,
                    pos as int,
                    (number - head_number) as nat,
                ),
            decreases n - pos + (if more { 1int } else { 0int }),
        {
            let (end, next) = self.scan(pos);
            if end == pos {
                pos = next;
                number += 1;
            } else if self.data[pos] == SPACE || self.data[pos] == TAB {
                let ghost before = bytes@;
                self.copy_bytes(&mut bytes, pos + 1, end);
                proof {
                    let content = physical_line(data, pos as int);
                    assert(content[0] == data[pos as int]);
                    assert(content.skip(1) =~= data.subrange(pos + 1, end as int));
                    assert(bytes@ =~= before + content.skip(1));
                }
                pos = next;
                number += 1;
            } else {
                proof {
                    let content = physical_line(data, pos as int);
                    assert(content[0] == data[pos as int]);
                }
                more = false;
            }
        }
        self.pos = pos;
        self.number = number;
        proof {
            assert(gather(data, first, head, 0) == (
                bytes@,
                pos as int,
                (number - head_number) as nat,
            ));
            let raw = RawLine { bytes: bytes@, number: head_number as nat };
            let rest = unfold_from(data, pos as int, number as nat);
            assert(unfold_from(data, pos0, number0) == seq![raw] + rest);
            assert((seq![raw] + rest).drop_first() =~= rest);
        }
        match text_of_bytes(bytes) {
            Some(text) => Some(Ok(Line::new(text, head_number))),
            None => Some(Err(LineError { number: head_number })),
        }
    }
}

} // verus!
