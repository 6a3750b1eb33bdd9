//! What folding and unfolding have to do with each other.
use crate::generator::property::{fold, fold_from};
use crate::line::{
    after_line, content_end, gather, lemma_line_end, line_end, physical_line, read_line,
    skip_blank, unfold, unfold_from, RawLine, CR, LF, SPACE,
};
use vstd::prelude::*;
use vstd::utf8::{
    encode_scalar, encode_utf8, encode_utf8_decode_utf8, encode_utf8_valid_utf8,
    has_width_1_encoding,
};

verus! {

/// Whether no line feed stands in a text.
pub open spec fn no_line_feed(t: Seq<char>) -> bool {
    forall|i: int| 0 <= i < t.len() ==> #[trigger] t[i] != '\n'
}

/// Whether no line feed stands among bytes.
pub open spec fn no_lf_byte(b: Seq<u8>) -> bool {
    forall|i: int| 0 <= i < b.len() ==> #[trigger] b[i] != LF
}

proof fn lemma_bytes_of_wide_scalars(a: u8)
    ensures
        (0xC0u8 | a) != 10,
        (0xE0u8 | a) != 10,
        (0xF0u8 | a) != 10,
        (0x80u8 | a) != 10,
{
    assert((0xC0u8 | a) != 10) by (bit_vector);
    assert((0xE0u8 | a) != 10) by (bit_vector);
    assert((0xF0u8 | a) != 10) by (bit_vector);
    assert((0x80u8 | a) != 10) by (bit_vector);
}

proof fn lemma_scalar_bytes(c: char)
    requires
        c != '\n',
    ensures
        encode_scalar(c as u32).len() >= 1,
        no_lf_byte(encode_scalar(c as u32)),
{
    let s = c as u32;
    assert(s != 10);
    if has_width_1_encoding(s) {
        assert((s & 0x7F) as u8 != 10) by (bit_vector)
            requires
                s <= 0x7F,
                s != 10,
        ;
    } else {
        lemma_bytes_of_wide_scalars(((s >> 6) & 0x1F) as u8);
        lemma_bytes_of_wide_scalars(((s >> 12) & 0x0F) as u8);
        lemma_bytes_of_wide_scalars(((s >> 18) & 0x7) as u8);
        lemma_bytes_of_wide_scalars((s & 0x3F) as u8);
        lemma_bytes_of_wide_scalars(((s >> 6) & 0x3F) as u8);
        lemma_bytes_of_wide_scalars(((s >> 12) & 0x3F) as u8);
    }
}

/// The encoding of a text without line feeds holds no line feed byte, and
/// the encoding of a text that is not empty is not empty.
pub proof fn lemma_encode_no_lf(t: Seq<char>)
    requires
        no_line_feed(t),
    ensures
        no_lf_byte(encode_utf8(t)),
        t.len() > 0 ==> encode_utf8(t).len() > 0,
    decreases t.len(),
{
    if t.len() > 0 {
        lemma_scalar_bytes(t[0]);
        let rest = t.drop_first();
        assert(no_line_feed(rest)) by {
            assert forall|i: int| 0 <= i < rest.len() implies #[trigger] rest[i] != '\n' by {
                assert(rest[i] == t[i + 1]);
            }
        }
        lemma_encode_no_lf(rest);
        let head = encode_scalar(t[0] as u32);
        let tail = encode_utf8(rest);
        assert(encode_utf8(t) == head + tail);
        assert forall|i: int| 0 <= i < (head + tail).len() implies #[trigger] (head + tail)[i]
            != LF by {
            if i < head.len() {
                assert((head + tail)[i] == head[i]);
            } else {
                assert((head + tail)[i] == tail[i - head.len()]);
            }
        }
    }
}

/// The encoding of two texts, one behind the other, is the encoding of the
/// first followed by the encoding of the second.
pub proof fn lemma_encode_concat(a: Seq<char>, b: Seq<char>)
    ensures
        encode_utf8(a + b) == encode_utf8(a) + encode_utf8(b),
    decreases a.len(),
{
    if a.len() == 0 {
        assert(a + b =~= b);
        assert(encode_utf8(a) =~= Seq::<u8>::empty());
        assert(encode_utf8(a) + encode_utf8(b) =~= encode_utf8(b));
    } else {
        lemma_encode_concat(a.drop_first(), b);
        assert((a + b).drop_first() =~= a.drop_first() + b);
        assert((a + b)[0] == a[0]);
        assert(encode_utf8(a + b) =~= encode_utf8(a) + encode_utf8(b));
    }
}

proof fn lemma_encode_breaks()
    ensures
        encode_utf8(seq!['\r', '\n']) == seq![CR, LF],
        encode_utf8(seq!['\r', '\n', ' ']) == seq![CR, LF, SPACE],
{
    let a = seq!['\r', '\n'];
    let b = seq!['\r', '\n', ' '];
    assert(vstd::utf8::is_ascii_chars(a));
    assert(vstd::utf8::is_ascii_chars(b));
    vstd::utf8::is_ascii_chars_encode_utf8(a);
    vstd::utf8::is_ascii_chars_encode_utf8(b);
    assert(a[0] as u8 == CR && a[1] as u8 == LF);
    assert(b[0] as u8 == CR && b[1] as u8 == LF && b[2] as u8 == SPACE);
    assert(encode_utf8(a) =~= seq![CR, LF]);
    assert(encode_utf8(b) =~= seq![CR, LF, SPACE]);
}

/// A physical line whose content `x` holds no line feed and is followed by a
/// carriage return and a line feed is read as `x`.
proof fn lemma_scan(data: Seq<u8>, pos: int, x: Seq<u8>)
    requires
        0 <= pos,
        pos + x.len() + 2 <= data.len(),
        data.subrange(pos, pos + x.len()) == x,
        no_lf_byte(x),
        data[pos + x.len()] == CR,
        data[pos + x.len() + 1] == LF,
    ensures
        line_end(data, pos) == pos + x.len() + 1,
        content_end(data, pos) == pos + x.len(),
        physical_line(data, pos) == x,
        after_line(data, pos) == pos + x.len() + 2,
{
    lemma_line_end(data, pos);
    let e = line_end(data, pos);
    let target = pos + x.len() + 1;
    if e > target {
        assert(data[target] != LF);
    }
    if e < target {
        if e < pos + x.len() {
            assert(x[e - pos] == data[e]);
            assert(x[e - pos] != LF);
        }
    }
    assert(e == target);
}

/// The continuation lines that carry the text `r`: a space, and then `r`
/// folded with 74 characters to the line.
pub open spec fn continuation(r: Seq<char>) -> Seq<char> {
    seq![' '] + fold_from(r, 74)
}

proof fn lemma_take_skip_no_lf(r: Seq<char>, n: int)
    requires
        no_line_feed(r),
        0 <= n <= r.len(),
    ensures
        no_line_feed(r.take(n)),
        no_line_feed(r.skip(n)),
{
    assert forall|i: int| 0 <= i < r.take(n).len() implies #[trigger] r.take(n)[i] != '\n' by {
        assert(r.take(n)[i] == r[i]);
    }
    assert forall|i: int| 0 <= i < r.skip(n).len() implies #[trigger] r.skip(n)[i] != '\n' by {
        assert(r.skip(n)[i] == r[i + n]);
    }
}

/// Gathering the continuation lines that carry `r` adds the encoding of `r`
/// and ends at the end of the data.
proof fn lemma_gather_continuation(data: Seq<u8>, pos: int, r: Seq<char>, acc: Seq<u8>, count: nat)
    requires
        0 <= pos <= data.len(),
        data.skip(pos) == encode_utf8(continuation(r)),
        no_line_feed(r),
    ensures
        gather(data, pos, acc, count).0 == acc + encode_utf8(r),
        gather(data, pos, acc, count).1 == data.len(),
    decreases r.len(),
{
    lemma_encode_breaks();
    let tail = data.skip(pos);
    if r.len() < 74 {
        let x = seq![SPACE] + encode_utf8(r);
        lemma_encode_no_lf(r);
        assert(continuation(r) =~= seq![' '] + (r + seq!['\r', '\n']));
        lemma_encode_concat(seq![' '], r + seq!['\r', '\n']);
        lemma_encode_concat(r, seq!['\r', '\n']);
        lemma_encode_space();
        assert(tail =~= x + seq![CR, LF]);
        assert(data.len() == pos + x.len() + 2);
        assert(data.subrange(pos, pos + x.len()) =~= x) by {
            assert forall|i: int| 0 <= i < x.len() implies data.subrange(pos, pos + x.len())[i]
                == x[i] by {
                assert(tail[i] == data[pos + i]);
            }
        }
        assert(tail[x.len() as int] == data[pos + x.len()]);
        assert(tail[x.len() as int + 1] == data[pos + x.len() + 1]);
        assert(no_lf_byte(x)) by {
            assert forall|i: int| 0 <= i < x.len() implies #[trigger] x[i] != LF by {
                if i > 0 {
                    assert(x[i] == encode_utf8(r)[i - 1]);
                }
            }
        }
        lemma_scan(data, pos, x);
        assert(x.skip(1) =~= encode_utf8(r));
        assert(physical_line(data, pos)[0] == SPACE);
        assert(physical_line(data, pos).len() > 0);
        assert(gather(data, pos, acc, count) == gather(
            data,
            data.len() as int,
            acc + encode_utf8(r),
            count + 1,
        ));
        assert(gather(data, data.len() as int, acc + encode_utf8(r), count + 1) == (
            acc + encode_utf8(r),
            data.len() as int,
            count + 1,
        ));
    } else {
        let c = r.take(74);
        let rest = r.skip(74);
        let x = seq![SPACE] + encode_utf8(c);
        lemma_take_skip_no_lf(r, 74);
        lemma_encode_no_lf(c);
        assert(fold_from(r, 74) == c + seq!['\r', '\n', ' '] + fold_from(rest, 74));
        assert(continuation(r) =~= seq![' '] + (c + (seq!['\r', '\n'] + continuation(rest))));
        lemma_encode_concat(seq![' '], c + (seq!['\r', '\n'] + continuation(rest)));
        lemma_encode_concat(c, seq!['\r', '\n'] + continuation(rest));
        lemma_encode_concat(seq!['\r', '\n'], continuation(rest));
        lemma_encode_space();
        let more = encode_utf8(continuation(rest));
        assert(tail =~= x + seq![CR, LF] + more);
        assert(data.len() == pos + x.len() + 2 + more.len());
        assert(data.subrange(pos, pos + x.len()) =~= x) by {
            assert forall|i: int| 0 <= i < x.len() implies data.subrange(pos, pos + x.len())[i]
                == x[i] by {
                assert(tail[i] == data[pos + i]);
            }
        }
        assert(tail[x.len() as int] == data[pos + x.len()]);
        assert(tail[x.len() as int + 1] == data[pos + x.len() + 1]);
        assert(no_lf_byte(x)) by {
            assert forall|i: int| 0 <= i < x.len() implies #[trigger] x[i] != LF by {
                if i > 0 {
                    assert(x[i] == encode_utf8(c)[i - 1]);
                }
            }
        }
        lemma_scan(data, pos, x);
        let next = pos + x.len() + 2;
        assert(data.skip(next) =~= more) by {
            assert forall|i: int| 0 <= i < more.len() implies data.skip(next)[i] == more[i] by {
                assert(tail[x.len() + 2 + i] == data[pos + x.len() + 2 + i]);
            }
        }
        assert(x.skip(1) =~= encode_utf8(c));
        assert(physical_line(data, pos)[0] == SPACE);
        assert(physical_line(data, pos).len() > 0);
        assert(gather(data, pos, acc, count) == gather(
            data,
            next,
            acc + encode_utf8(c),
            count + 1,
        ));
        lemma_gather_continuation(data, next, rest, acc + encode_utf8(c), count + 1);
        assert(r =~= c + rest);
        lemma_encode_concat(c, rest);
        assert(acc + encode_utf8(c) + encode_utf8(rest) =~= acc + encode_utf8(r));
    }
}

proof fn lemma_encode_space()
    ensures
        encode_utf8(seq![' ']) == seq![SPACE],
{
    let a = seq![' '];
    assert(vstd::utf8::is_ascii_chars(a));
    vstd::utf8::is_ascii_chars_encode_utf8(a);
    assert(a[0] as u8 == SPACE);
    assert(encode_utf8(a) =~= seq![SPACE]);
}

/// Unfolding undoes folding: the folded form of a text, written as bytes, is
/// read back as one logical line that holds the text and starts at the first
/// physical line. This holds of every text that is not empty and holds no
/// line feed, wherever its characters of more than one byte stand.
pub proof fn lemma_unfold_fold(t: Seq<char>)
    requires
        t.len() > 0,
        no_line_feed(t),
    ensures
        unfold(encode_utf8(fold(t))) == seq![RawLine { bytes: encode_utf8(t), number: 1 }],
        read_line(RawLine { bytes: encode_utf8(t), number: 1 }) == Ok::<(Seq<char>, usize), usize>(
            (t, 1usize),
        ),
{
    lemma_encode_breaks();
    encode_utf8_valid_utf8(t);
    encode_utf8_decode_utf8(t);
    let data = encode_utf8(fold(t));
    let first: Seq<char> = if t.len() < 75 {
        t
    } else {
        t.take(75)
    };
    let x = encode_utf8(first);
    lemma_take_skip_no_lf(t, if t.len() < 75 {
        t.len() as int
    } else {
        75
    });
    assert(t.take(t.len() as int) =~= t);
    lemma_encode_no_lf(first);
    if t.len() < 75 {
        lemma_encode_concat(t, seq!['\r', '\n']);
        assert(data =~= x + seq![CR, LF]);
        assert(data.subrange(0, x.len() as int) =~= x);
        lemma_scan(data, 0, x);
        assert(physical_line(data, 0).len() > 0);
        assert(skip_blank(data, 0, 0) == (0int, 0nat));
        assert(gather(data, data.len() as int, x, 0) == (x, data.len() as int, 0nat));
        assert(skip_blank(data, data.len() as int, 0) == (data.len() as int, 0nat));
        assert(unfold_from(data, data.len() as int, 1) =~= Seq::empty());
        assert(unfold_from(data, 0, 0) =~= seq![RawLine { bytes: x, number: 1 }]);
    } else {
        let rest = t.skip(75);
        assert(fold(t) =~= first + (seq!['\r', '\n'] + continuation(rest)));
        lemma_encode_concat(first, seq!['\r', '\n'] + continuation(rest));
        lemma_encode_concat(seq!['\r', '\n'], continuation(rest));
        let more = encode_utf8(continuation(rest));
        assert(data =~= x + seq![CR, LF] + more);
        assert(data.subrange(0, x.len() as int) =~= x);
        lemma_scan(data, 0, x);
        let next: int = x.len() as int + 2;
        assert(data.skip(next) =~= more);
        lemma_gather_continuation(data, next, rest, x, 0);
        assert(t =~= first + rest);
        lemma_encode_concat(first, rest);
        assert(physical_line(data, 0).len() > 0);
        assert(skip_blank(data, 0, 0) == (0int, 0nat));
        let extra = gather(data, next, x, 0).2;
        assert(skip_blank(data, data.len() as int, 0) == (data.len() as int, 0nat));
        assert(unfold_from(data, data.len() as int, 1 + extra) =~= Seq::empty());
        assert(unfold_from(data, 0, 0) =~= seq![RawLine { bytes: encode_utf8(t), number: 1 }]);
    }
}

/// Whether bytes can follow a logical line without being taken for a part of
/// it: they are empty, or their first byte is none of space, tab, carriage
/// return and line feed.
pub open spec fn starts_line(more: Seq<u8>) -> bool {
    more.len() == 0 || (more[0] != SPACE && more[0] != crate::line::TAB && more[0] != CR && more[0]
        != LF)
}

/// The number of continuation lines that carry the text `r`.
pub open spec fn continuation_lines(r: Seq<char>) -> nat
    decreases r.len(),
{
    if r.len() < 74 {
        1
    } else {
        1 + continuation_lines(r.skip(74))
    }
}

/// The number of physical lines of the folded form of `t`.
pub open spec fn folded_lines(t: Seq<char>) -> nat {
    if t.len() < 75 {
        1
    } else {
        1 + continuation_lines(t.skip(75))
    }
}

proof fn lemma_not_continued(data: Seq<u8>, pos: int, acc: Seq<u8>, count: nat)
    requires
        0 <= pos <= data.len(),
        starts_line(data.skip(pos)),
    ensures
        gather(data, pos, acc, count) == (acc, pos, count),
        pos < data.len() ==> physical_line(data, pos).len() > 0,
{
    if pos < data.len() {
        assert(data.skip(pos)[0] == data[pos]);
        lemma_line_end(data, pos);
        let e = line_end(data, pos);
        assert(e > pos);
        if e < data.len() && data[e - 1] == CR {
            assert(e - 1 > pos);
        }
        assert(physical_line(data, pos).len() > 0);
        assert(physical_line(data, pos)[0] == data[pos]);
    }
}

/// Gathering the continuation lines that carry `r`, with other lines behind
/// them, adds the encoding of `r` and ends in front of the other lines.
proof fn lemma_gather_continuation_then(
    data: Seq<u8>,
    pos: int,
    r: Seq<char>,
    acc: Seq<u8>,
    count: nat,
    more: Seq<u8>,
)
    requires
        0 <= pos <= data.len(),
        data.skip(pos) == encode_utf8(continuation(r)) + more,
        no_line_feed(r),
        starts_line(more),
    ensures
        gather(data, pos, acc, count) == (
            acc + encode_utf8(r),
            data.len() - more.len(),
            count + continuation_lines(r),
        ),
    decreases r.len(),
{
    lemma_encode_breaks();
    lemma_encode_space();
    let tail = data.skip(pos);
    let c: Seq<char> = if r.len() < 74 {
        r
    } else {
        r.take(74)
    };
    let x = seq![SPACE] + encode_utf8(c);
    assert(r.take(r.len() as int) =~= r);
    lemma_take_skip_no_lf(r, c.len() as int);
    lemma_encode_no_lf(c);
    let behind: Seq<u8> = if r.len() < 74 {
        more
    } else {
        encode_utf8(continuation(r.skip(74))) + more
    };
    if r.len() < 74 {
        assert(continuation(r) =~= seq![' '] + (r + seq!['\r', '\n']));
        lemma_encode_concat(seq![' '], r + seq!['\r', '\n']);
        lemma_encode_concat(r, seq!['\r', '\n']);
    } else {
        let rest = r.skip(74);
        assert(fold_from(r, 74) == c + seq!['\r', '\n', ' '] + fold_from(rest, 74));
        assert(continuation(r) =~= seq![' '] + (c + (seq!['\r', '\n'] + continuation(rest))));
        lemma_encode_concat(seq![' '], c + (seq!['\r', '\n'] + continuation(rest)));
        lemma_encode_concat(c, seq!['\r', '\n'] + continuation(rest));
        lemma_encode_concat(seq!['\r', '\n'], continuation(rest));
    }
    assert(tail =~= x + seq![CR, LF] + behind);
    assert(data.len() == pos + x.len() + 2 + behind.len());
    assert(data.subrange(pos, pos + x.len()) =~= x) by {
        assert forall|i: int| 0 <= i < x.len() implies data.subrange(pos, pos + x.len())[i]
            == x[i] by {
            assert(tail[i] == data[pos + i]);
        }
    }
    assert(tail[x.len() as int] == data[pos + x.len()]);
    assert(tail[x.len() as int + 1] == data[pos + x.len() + 1]);
    assert(no_lf_byte(x)) by {
        assert forall|i: int| 0 <= i < x.len() implies #[trigger] x[i] != LF by {
            if i > 0 {
                assert(x[i] == encode_utf8(c)[i - 1]);
            }
        }
    }
    lemma_scan(data, pos, x);
    let next = pos + x.len() + 2;
    assert(data.skip(next) =~= behind) by {
        assert forall|i: int| 0 <= i < behind.len() implies data.skip(next)[i] == behind[i] by {
            assert(tail[x.len() + 2 + i] == data[pos + x.len() + 2 + i]);
        }
    }
    assert(x.skip(1) =~= encode_utf8(c));
    assert(physical_line(data, pos)[0] == SPACE);
    assert(physical_line(data, pos).len() > 0);
    assert(gather(data, pos, acc, count) == gather(data, next, acc + encode_utf8(c), count + 1));
    if r.len() < 74 {
        lemma_not_continued(data, next, acc + encode_utf8(c), count + 1);
    } else {
        let rest = r.skip(74);
        lemma_gather_continuation_then(data, next, rest, acc + encode_utf8(c), count + 1, more);
        assert(r =~= c + rest);
        lemma_encode_concat(c, rest);
        assert(acc + encode_utf8(c) + encode_utf8(rest) =~= acc + encode_utf8(r));
    }
}

/// Whether a text can be written as a logical line and told from the lines
/// around it: it is not empty, holds no line feed and starts with none of
/// space, tab and carriage return.
pub open spec fn is_line(t: Seq<char>) -> bool {
    t.len() > 0 && no_line_feed(t) && t[0] != ' ' && t[0] != '\t' && t[0] != '\r'
}

proof fn lemma_first_byte(t: Seq<char>)
    requires
        is_line(t),
    ensures
        encode_utf8(t).len() > 0,
        starts_line(encode_utf8(t)),
{
    lemma_encode_no_lf(t);
    let s = t[0] as u32;
    let e = encode_scalar(s);
    lemma_scalar_bytes(t[0]);
    assert(t[0] != '\n');
    lemma_char_codes(t[0]);
    assert(encode_utf8(t) == e + encode_utf8(t.drop_first()));
    assert(encode_utf8(t)[0] == e[0]);
    if has_width_1_encoding(s) {
        assert((s & 0x7F) as u8 != 32 && (s & 0x7F) as u8 != 9 && (s & 0x7F) as u8 != 13 && (s
            & 0x7F) as u8 != 10) by (bit_vector)
            requires
                s <= 0x7F,
                s != 32,
                s != 9,
                s != 13,
                s != 10,
        ;
    } else {
        lemma_wide_lead(((s >> 6) & 0x1F) as u8);
        lemma_wide_lead(((s >> 12) & 0x0F) as u8);
        lemma_wide_lead(((s >> 18) & 0x7) as u8);
    }
}

proof fn lemma_char_codes(c: char)
    requires
        c != ' ',
        c != '\t',
        c != '\r',
        c != '\n',
    ensures
        c as u32 != 32,
        c as u32 != 9,
        c as u32 != 13,
        c as u32 != 10,
{
}

proof fn lemma_wide_lead(a: u8)
    ensures
        (0xC0u8 | a) >= 0xC0,
        (0xE0u8 | a) >= 0xC0,
        (0xF0u8 | a) >= 0xC0,
{
    assert((0xC0u8 | a) >= 0xC0) by (bit_vector);
    assert((0xE0u8 | a) >= 0xC0) by (bit_vector);
    assert((0xF0u8 | a) >= 0xC0) by (bit_vector);
}

/// The first logical line of data that starts with the folded form of a
/// text is that text, and the lines behind it are read from where the folded
/// form ends.
pub proof fn lemma_unfold_first(data: Seq<u8>, pos: int, number: nat, t: Seq<char>, more: Seq<u8>)
    requires
        0 <= pos <= data.len(),
        data.skip(pos) == encode_utf8(fold(t)) + more,
        is_line(t),
        starts_line(more),
    ensures
        unfold_from(data, pos, number) == seq![
            RawLine { bytes: encode_utf8(t), number: number + 1 },
        ] + unfold_from(data, data.len() - more.len(), number + folded_lines(t)),
{
    lemma_encode_breaks();
    let tail = data.skip(pos);
    let first: Seq<char> = if t.len() < 75 {
        t
    } else {
        t.take(75)
    };
    let x = encode_utf8(first);
    assert(t.take(t.len() as int) =~= t);
    lemma_take_skip_no_lf(t, first.len() as int);
    lemma_encode_no_lf(first);
    let behind: Seq<u8> = if t.len() < 75 {
        more
    } else {
        encode_utf8(continuation(t.skip(75))) + more
    };
    if t.len() < 75 {
        lemma_encode_concat(t, seq!['\r', '\n']);
    } else {
        let rest = t.skip(75);
        assert(fold(t) =~= first + (seq!['\r', '\n'] + continuation(rest)));
        lemma_encode_concat(first, seq!['\r', '\n'] + continuation(rest));
        lemma_encode_concat(seq!['\r', '\n'], continuation(rest));
    }
    assert(tail =~= x + seq![CR, LF] + behind);
    assert(data.len() == pos + x.len() + 2 + behind.len());
    assert(data.subrange(pos, pos + x.len()) =~= x) by {
        assert forall|i: int| 0 <= i < x.len() implies data.subrange(pos, pos + x.len())[i]
            == x[i] by {
            assert(tail[i] == data[pos + i]);
        }
    }
    assert(tail[x.len() as int] == data[pos + x.len()]);
    assert(tail[x.len() as int + 1] == data[pos + x.len() + 1]);
    lemma_scan(data, pos, x);
    let next = pos + x.len() + 2;
    assert(data.skip(next) =~= behind) by {
        assert forall|i: int| 0 <= i < behind.len() implies data.skip(next)[i] == behind[i] by {
            assert(tail[x.len() + 2 + i] == data[pos + x.len() + 2 + i]);
        }
    }
    assert(x.len() > 0);
    assert(physical_line(data, pos).len() > 0);
    assert(skip_blank(data, pos, 0) == (pos, 0nat));
    if t.len() < 75 {
        lemma_not_continued(data, next, x, 0);
    } else {
        let rest = t.skip(75);
        lemma_gather_continuation_then(data, next, rest, x, 0, more);
        assert(t =~= first + rest);
        lemma_encode_concat(first, rest);
    }
}

/// The folded forms of the texts, one after the other.
pub open spec fn folded_all(lines: Seq<Seq<char>>) -> Seq<char>
    decreases lines.len(),
{
    if lines.len() == 0 {
        Seq::empty()
    } else {
        fold(lines[0]) + folded_all(lines.drop_first())
    }
}

/// The number of the physical line in front of the logical line at the
/// place `i`.
pub open spec fn lines_before(lines: Seq<Seq<char>>, i: int) -> nat
    decreases i,
{
    if i <= 0 {
        0
    } else {
        lines_before(lines, i - 1) + folded_lines(lines[i - 1])
    }
}

proof fn lemma_fold_starts(t: Seq<char>)
    requires
        is_line(t),
    ensures
        starts_line(encode_utf8(fold(t))),
        encode_utf8(fold(t)).len() > 0,
{
    lemma_first_byte(t);
    let first: Seq<char> = if t.len() < 75 {
        t
    } else {
        t.take(75)
    };
    let behind: Seq<char> = if t.len() < 75 {
        seq!['\r', '\n']
    } else {
        seq!['\r', '\n', ' '] + fold_from(t.skip(75), 74)
    };
    assert(fold(t) =~= first + behind);
    lemma_encode_concat(first, behind);
    assert(first[0] == t[0]);
    assert(is_line(first)) by {
        assert forall|i: int| 0 <= i < first.len() implies #[trigger] first[i] != '\n' by {
            assert(first[i] == t[i]);
        }
    }
    lemma_first_byte(first);
    assert(encode_utf8(fold(t))[0] == encode_utf8(first)[0]);
}

/// Unfolding undoes folding, line by line: the folded forms of texts, one
/// after the other and written as bytes, are read back as one logical line
/// for each text, in order. The logical line at the place `i` holds the text
/// at that place and starts at the physical line that follows the physical
/// lines of the texts in front of it.
pub proof fn lemma_unfold_folded_all(lines: Seq<Seq<char>>, from: int, number: nat, data: Seq<u8>, pos: int)
    requires
        0 <= from <= lines.len(),
        forall|i: int| 0 <= i < lines.len() ==> is_line(#[trigger] lines[i]),
        0 <= pos <= data.len(),
        data.skip(pos) == encode_utf8(folded_all(lines.skip(from))),
    ensures
        unfold_from(data, pos, number).len() == lines.len() - from,
        forall|i: int|
            0 <= i < lines.len() - from ==> #[trigger] unfold_from(data, pos, number)[i]
                == (RawLine {
                bytes: encode_utf8(lines[from + i]),
                number: (number + lines_before(lines.skip(from), i) + 1) as nat,
            }),
    decreases lines.len() - from,
{
    let rest = lines.skip(from);
    if from == lines.len() {
        assert(rest =~= Seq::<Seq<char>>::empty());
        assert(data.skip(pos).len() == 0);
        assert(skip_blank(data, pos, 0) == (pos, 0nat));
        assert(unfold_from(data, pos, number) =~= Seq::empty());
    } else {
        let t = lines[from];
        assert(rest[0] == t);
        assert(rest.drop_first() =~= lines.skip(from + 1));
        let more = encode_utf8(folded_all(lines.skip(from + 1)));
        lemma_encode_concat(fold(t), folded_all(lines.skip(from + 1)));
        if from + 1 < lines.len() {
            let u = lines[from + 1];
            assert(lines.skip(from + 1)[0] == u);
            lemma_fold_starts(u);
            lemma_encode_concat(fold(u), folded_all(lines.skip(from + 1).drop_first()));
            assert(more[0] == encode_utf8(fold(u))[0]);
        } else {
            assert(lines.skip(from + 1) =~= Seq::<Seq<char>>::empty());
            assert(more =~= Seq::<u8>::empty());
        }
        lemma_unfold_first(data, pos, number, t, more);
        let next = data.len() - more.len();
        assert(data.skip(next) =~= more) by {
            let tail = data.skip(pos);
            assert forall|i: int| 0 <= i < more.len() implies data.skip(next)[i] == more[i] by {
                assert(tail[tail.len() - more.len() + i] == data[next + i]);
            }
        }
        lemma_unfold_folded_all(lines, from + 1, number + folded_lines(t), data, next);
        let out = unfold_from(data, pos, number);
        let tail_out = unfold_from(data, next, number + folded_lines(t));
        assert(out == seq![RawLine { bytes: encode_utf8(t), number: number + 1 }] + tail_out);
        assert forall|i: int| 0 <= i < lines.len() - from implies #[trigger] out[i] == (RawLine {
            bytes: encode_utf8(lines[from + i]),
            number: (number + lines_before(rest, i) + 1) as nat,
        }) by {
            if i > 0 {
                assert(out[i] == tail_out[i - 1]);
                lemma_lines_before_shift(rest, i);
                assert(rest.drop_first() =~= lines.skip(from + 1));
            }
        }
    }
}

proof fn lemma_lines_before_shift(lines: Seq<Seq<char>>, i: int)
    requires
        0 < i <= lines.len(),
    ensures
        lines_before(lines, i) == folded_lines(lines[0]) + lines_before(lines.drop_first(), i - 1),
    decreases i,
{
    if i > 1 {
        lemma_lines_before_shift(lines, i - 1);
        assert(lines.drop_first()[i - 2] == lines[i - 1]);
        assert(lines_before(lines, i) == lines_before(lines, i - 1) + folded_lines(lines[i - 1]));
        assert(lines_before(lines.drop_first(), i - 1) == lines_before(lines.drop_first(), i - 2)
            + folded_lines(lines.drop_first()[i - 2]));
    } else {
        assert(lines_before(lines, 0) == 0);
        assert(lines_before(lines, 1) == lines_before(lines, 0) + folded_lines(lines[0]));
        assert(lines_before(lines.drop_first(), 0) == 0);
    }
}

} // verus!
