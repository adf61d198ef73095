//! The tail-read algorithm's computing core, on bytes.
//!
//! A real log file is read backwards in fixed chunks, accumulating a
//! buffer, until the buffer holds more newlines than records wanted or the
//! file's start is reached; the buffer's last lines are then the answer.
//! The chunk reads are I/O and live with the surrounding process; the two
//! decisions — when to stop, and which lines to return — are here, with
//! exact contracts.

use vstd::prelude::*;

verus! {

/// The newline byte.
pub const NEWLINE_BYTE: u8 = 10;

/// How many newline bytes `buf` holds.
pub open spec fn spec_newline_count(buf: Seq<u8>) -> int
    decreases buf.len(),
{
    if buf.len() == 0 {
        0
    } else {
        (if buf[0] == NEWLINE_BYTE {
            1int
        } else {
            0int
        }) + spec_newline_count(buf.drop_first())
    }
}

/// The index of the first newline byte of `buf`, or `buf.len()` if none.
pub open spec fn spec_first_newline_byte(buf: Seq<u8>) -> int
    decreases buf.len(),
{
    if buf.len() == 0 {
        0
    } else if buf[0] == NEWLINE_BYTE {
        0
    } else {
        1 + spec_first_newline_byte(buf.drop_first())
    }
}

/// The lines of `buf`: split at each newline byte, separators dropped, no
/// final empty line when `buf` ends with a newline.
pub open spec fn spec_byte_lines(buf: Seq<u8>) -> Seq<Seq<u8>>
    decreases buf.len(),
{
    if buf.len() == 0 {
        Seq::empty()
    } else {
        let cut = spec_first_newline_byte(buf);
        if 0 <= cut < buf.len() {
            seq![buf.subrange(0, cut)] + spec_byte_lines(buf.subrange(cut + 1, buf.len() as int))
        } else {
            seq![buf]
        }
    }
}

/// The last `n` lines of `buf`, in original order; all of them if fewer
/// exist.
pub open spec fn spec_last_byte_lines(buf: Seq<u8>, n: int) -> Seq<Seq<u8>> {
    let all = spec_byte_lines(buf);
    if n < all.len() {
        all.subrange(all.len() - n, all.len() as int)
    } else {
        all
    }
}

/// How many newline bytes `buf` holds.
pub fn count_newlines(buf: &Vec<u8>) -> (r: usize)
    ensures
        r == spec_newline_count(buf@),
{
    proof {
        lemma_newline_count_bounds(buf@);
    }
    let mut count: usize = 0;
    let mut i: usize = 0;
    while i < buf.len()
        invariant
            i <= buf.len(),
            count == spec_newline_count(buf@.subrange(0, i as int)),
            count <= i,
        decreases buf.len() - i,
    {
        proof {
            lemma_newline_count_snoc(buf@, i as int);
        }
        if buf[i] == NEWLINE_BYTE {
            count = count + 1;
        }
        i = i + 1;
    }
    proof {
        assert(buf@.subrange(0, buf@.len() as int) =~= buf@);
    }
    count
}

proof fn lemma_newline_count_bounds(buf: Seq<u8>)
    ensures
        0 <= spec_newline_count(buf) <= buf.len(),
    decreases buf.len(),
{
    if buf.len() > 0 {
        lemma_newline_count_bounds(buf.drop_first());
    }
}

/// Counting one more byte at the end of a prefix.
proof fn lemma_newline_count_snoc(buf: Seq<u8>, i: int)
    requires
        0 <= i < buf.len(),
    ensures
        spec_newline_count(buf.subrange(0, i + 1)) == spec_newline_count(buf.subrange(0, i)) + (
        if buf[i] == NEWLINE_BYTE {
            1int
        } else {
            0int
        }),
    decreases i,
{
    let longer = buf.subrange(0, i + 1);
    let shorter = buf.subrange(0, i);
    if i == 0 {
        assert(longer.drop_first() =~= Seq::<u8>::empty());
        assert(shorter =~= Seq::<u8>::empty());
        assert(longer[0] == buf[0]);
    } else {
        let sub = buf.subrange(1, buf.len() as int);
        assert(longer.drop_first() =~= sub.subrange(0, i));
        assert(shorter.drop_first() =~= sub.subrange(0, i - 1));
        assert(longer[0] == buf[0]);
        assert(shorter[0] == buf[0]);
        assert(sub[i - 1] == buf[i]);
        lemma_newline_count_snoc(sub, i - 1);
        assert(spec_newline_count(longer) == (if longer[0] == NEWLINE_BYTE {
            1int
        } else {
            0int
        }) + spec_newline_count(longer.drop_first()));
        assert(spec_newline_count(shorter) == (if shorter[0] == NEWLINE_BYTE {
            1int
        } else {
            0int
        }) + spec_newline_count(shorter.drop_first()));
    }
}

/// The backward scan's guard: more chunks are needed while the start of
/// the file has not been reached and the accumulated buffer does not yet
/// hold more than `n` newlines.
pub fn tail_scan_needs_more(buf: &Vec<u8>, n: usize, position: u64) -> (r: bool)
    ensures
        r == (position > 0 && spec_newline_count(buf@) <= n),
{
    if position == 0 {
        return false;
    }
    let count = count_newlines(buf);
    count <= n
}

/// The last `n` newline-delimited lines of the accumulated buffer, in
/// original order; all of them if fewer exist.
pub fn last_n_byte_lines(buf: &Vec<u8>, n: usize) -> (r: Vec<Vec<u8>>)
    ensures
        r@.map_values(|line: Vec<u8>| line@) == spec_last_byte_lines(buf@, n as int),
{
    let ghost text = buf@;
    let mut all: Vec<Vec<u8>> = Vec::new();
    let mut line: Vec<u8> = Vec::new();
    let mut start: usize = 0;
    let mut i: usize = 0;
    proof {
        assert(text.subrange(0, 0) =~= Seq::<u8>::empty());
        assert(all@.map_values(|l: Vec<u8>| l@) =~= Seq::<Seq<u8>>::empty());
        assert(text.subrange(0, text.len() as int) =~= text);
    }
    while i < buf.len()
        invariant
            text == buf@,
            0 <= start <= i <= buf.len(),
            line@ == text.subrange(start as int, i as int),
            forall|j: int| start <= j < i ==> text[j] != NEWLINE_BYTE,
            spec_byte_lines(text) == all@.map_values(|l: Vec<u8>| l@) + spec_byte_lines(
                text.subrange(start as int, text.len() as int),
            ),
        decreases buf.len() - i,
    {
        let b = buf[i];
        if b == NEWLINE_BYTE {
            proof {
                let record = text.subrange(start as int, i + 1);
                lemma_byte_lines_record_prefix(record, text.subrange(i + 1, text.len() as int));
                assert(text.subrange(start as int, text.len() as int) =~= record + text.subrange(
                    i + 1,
                    text.len() as int,
                ));
                assert(record.subrange(0, record.len() - 1) =~= text.subrange(
                    start as int,
                    i as int,
                ));
                assert(all@.push(line).map_values(|l: Vec<u8>| l@) =~= all@.map_values(
                    |l: Vec<u8>| l@,
                ).push(line@));
            }
            all.push(line);
            line = Vec::new();
            start = i + 1;
            proof {
                assert(line@ =~= text.subrange(start as int, i + 1));
            }
        } else {
            line.push(b);
            proof {
                assert(line@ =~= text.subrange(start as int, i + 1));
            }
        }
        i = i + 1;
    }
    if start < buf.len() {
        proof {
            let remainder = text.subrange(start as int, text.len() as int);
            lemma_first_newline_byte_none(remainder);
            assert(all@.push(line).map_values(|l: Vec<u8>| l@) =~= all@.map_values(
                |l: Vec<u8>| l@,
            ).push(line@));
        }
        all.push(line);
    } else {
        proof {
            assert(text.subrange(start as int, text.len() as int) =~= Seq::<u8>::empty());
        }
    }
    let total = all.len();
    let cut = if n < total {
        total - n
    } else {
        0
    };
    let tail = all.split_off(cut);
    proof {
        assert(tail@.map_values(|l: Vec<u8>| l@) =~= spec_last_byte_lines(text, n as int));
    }
    tail
}

proof fn lemma_first_newline_byte_bounds(buf: Seq<u8>)
    ensures
        0 <= spec_first_newline_byte(buf) <= buf.len(),
        spec_first_newline_byte(buf) < buf.len() ==> buf[spec_first_newline_byte(buf)]
            == NEWLINE_BYTE,
    decreases buf.len(),
{
    if buf.len() > 0 && buf[0] != NEWLINE_BYTE {
        lemma_first_newline_byte_bounds(buf.drop_first());
    }
}

/// A buffer without newline bytes is one single line.
proof fn lemma_first_newline_byte_none(buf: Seq<u8>)
    requires
        forall|j: int| 0 <= j < buf.len() ==> buf[j] != NEWLINE_BYTE,
    ensures
        spec_first_newline_byte(buf) == buf.len(),
    decreases buf.len(),
{
    if buf.len() > 0 {
        assert(forall|j: int| 0 <= j < buf.drop_first().len() ==> buf.drop_first()[j] == buf[
            j + 1
        ] && buf.drop_first()[j] != NEWLINE_BYTE);
        lemma_first_newline_byte_none(buf.drop_first());
    }
}

proof fn lemma_first_newline_byte_at(buf: Seq<u8>, i: int)
    requires
        0 <= i < buf.len(),
        buf[i] == NEWLINE_BYTE,
        forall|j: int| 0 <= j < i ==> buf[j] != NEWLINE_BYTE,
    ensures
        spec_first_newline_byte(buf) == i,
    decreases buf.len(),
{
    if i > 0 {
        let rest = buf.drop_first();
        assert(rest[i - 1] == buf[i]);
        assert forall|j: int| 0 <= j < i - 1 implies rest[j] != NEWLINE_BYTE by {
            assert(rest[j] == buf[j + 1]);
        }
        lemma_first_newline_byte_at(rest, i - 1);
    }
}

/// Splitting a buffer that starts with one newline-terminated line peels
/// exactly that line off.
proof fn lemma_byte_lines_record_prefix(record: Seq<u8>, rest: Seq<u8>)
    requires
        record.len() > 0,
        record[record.len() - 1] == NEWLINE_BYTE,
        forall|j: int| 0 <= j < record.len() - 1 ==> record[j] != NEWLINE_BYTE,
    ensures
        spec_byte_lines(record + rest) == seq![record.subrange(0, record.len() - 1)]
            + spec_byte_lines(rest),
{
    let joined = record + rest;
    let last = record.len() - 1;
    assert(joined[last] == NEWLINE_BYTE);
    assert forall|j: int| 0 <= j < last implies joined[j] != NEWLINE_BYTE by {
        assert(joined[j] == record[j]);
    }
    lemma_first_newline_byte_at(joined, last);
    assert(joined.subrange(0, last) =~= record.subrange(0, record.len() - 1));
    assert(joined.subrange(last + 1, joined.len() as int) =~= rest);
}

} // verus!
