//! Newline-delimited records, as sequences of characters.
//!
//! The file stores records as UTF-8 text terminated by `'\n'`.  This module
//! defines what the lines of such text are, proves the round-trip law —
//! appending well-formed records and reading the last `n` lines back gives
//! exactly those records with their trailing newline stripped — and carries
//! the executable tail reader used by the simulated file.

use vstd::prelude::*;

verus! {

/// A well-formed record: non-empty, terminated by `'\n'`, with no other
/// newline inside.
pub open spec fn is_record(s: Seq<char>) -> bool {
    &&& s.len() > 0
    &&& s[s.len() - 1] == '\n'
    &&& forall|j: int| 0 <= j < s.len() - 1 ==> s[j] != '\n'
}

/// Text with no newline anywhere: the payloads and configuration values
/// woven into a record must satisfy this for the record to stay one line.
pub open spec fn has_no_newline(s: Seq<char>) -> bool {
    forall|j: int| 0 <= j < s.len() ==> s[j] != '\n'
}

/// The index of the first `'\n'` of `s`, or `s.len()` if there is none.
pub open spec fn first_newline(s: Seq<char>) -> int
    decreases s.len(),
{
    if s.len() == 0 {
        0
    } else if s[0] == '\n' {
        0
    } else {
        1 + first_newline(s.subrange(1, s.len() as int))
    }
}

/// The lines of `s`: split at each `'\n'`, the separators dropped, and no
/// final empty line when `s` ends with `'\n'`.
pub open spec fn spec_lines(s: Seq<char>) -> Seq<Seq<char>>
    decreases s.len(),
{
    if s.len() == 0 {
        Seq::empty()
    } else {
        let cut = first_newline(s);
        if 0 <= cut < s.len() {
            seq![s.subrange(0, cut)] + spec_lines(s.subrange(cut + 1, s.len() as int))
        } else {
            seq![s]
        }
    }
}

/// The last `n` lines of `s`, in original order; all of them if fewer than
/// `n` exist.
pub open spec fn spec_last_lines(s: Seq<char>, n: int) -> Seq<Seq<char>> {
    let all = spec_lines(s);
    if n < all.len() {
        all.subrange(all.len() - n, all.len() as int)
    } else {
        all
    }
}

/// The concatenation of a sequence of records, in order.
pub open spec fn concat_all(records: Seq<Seq<char>>) -> Seq<char>
    decreases records.len(),
{
    if records.len() == 0 {
        Seq::empty()
    } else {
        records[0] + concat_all(records.drop_first())
    }
}

/// Appending one more record concatenates it at the end.
pub proof fn lemma_concat_all_push(records: Seq<Seq<char>>, record: Seq<char>)
    ensures
        concat_all(records.push(record)) == concat_all(records) + record,
    decreases records.len(),
{
    if records.len() == 0 {
        assert(records.push(record)[0] == record);
        assert(records.push(record).drop_first() =~= Seq::<Seq<char>>::empty());
        assert(concat_all(records.push(record).drop_first()) =~= Seq::<char>::empty());
        assert(concat_all(records.push(record)) =~= concat_all(records) + record);
    } else {
        assert(records.push(record)[0] == records[0]);
        assert(records.push(record).drop_first() =~= records.drop_first().push(record));
        lemma_concat_all_push(records.drop_first(), record);
        assert(concat_all(records.push(record)) =~= concat_all(records) + record);
    }
}

pub proof fn lemma_first_newline_bounds(s: Seq<char>)
    ensures
        0 <= first_newline(s) <= s.len(),
        first_newline(s) < s.len() ==> s[first_newline(s)] == '\n',
        forall|j: int| 0 <= j < first_newline(s) ==> s[j] != '\n',
    decreases s.len(),
{
    if s.len() == 0 {
    } else if s[0] == '\n' {
    } else {
        let rest = s.subrange(1, s.len() as int);
        lemma_first_newline_bounds(rest);
        assert forall|j: int| 0 <= j < first_newline(s) implies s[j] != '\n' by {
            if j > 0 {
                assert(rest[j - 1] == s[j]);
            }
        }
    }
}

/// The first newline is characterised by being a newline with none before
/// it.
pub proof fn lemma_first_newline_at(s: Seq<char>, i: int)
    requires
        0 <= i < s.len(),
        s[i] == '\n',
        forall|j: int| 0 <= j < i ==> s[j] != '\n',
    ensures
        first_newline(s) == i,
    decreases s.len(),
{
    if i == 0 {
    } else {
        let rest = s.subrange(1, s.len() as int);
        assert(rest[i - 1] == s[i]);
        assert forall|j: int| 0 <= j < i - 1 implies rest[j] != '\n' by {
            assert(rest[j] == s[j + 1]);
        }
        lemma_first_newline_at(rest, i - 1);
    }
}

/// Splitting text that starts with a well-formed record peels exactly that
/// record off as its first line.
pub proof fn lemma_lines_of_record_prefix(record: Seq<char>, rest: Seq<char>)
    requires
        is_record(record),
    ensures
        spec_lines(record + rest) == seq![record.drop_last()] + spec_lines(rest),
{
    let joined = record + rest;
    let last = record.len() - 1;
    assert(joined[last] == '\n');
    assert forall|j: int| 0 <= j < last implies joined[j] != '\n' by {
        assert(joined[j] == record[j]);
    }
    lemma_first_newline_at(joined, last);
    assert(joined.subrange(0, last) =~= record.drop_last());
    assert(joined.subrange(last + 1, joined.len() as int) =~= rest);
}

/// The lines of a concatenation of well-formed records are exactly those
/// records, each with its trailing newline stripped, in order.
pub proof fn lemma_lines_of_concat(records: Seq<Seq<char>>)
    requires
        forall|i: int| 0 <= i < records.len() ==> is_record(#[trigger] records[i]),
    ensures
        spec_lines(concat_all(records)) == records.map_values(|r: Seq<char>| r.drop_last()),
    decreases records.len(),
{
    let stripped = records.map_values(|r: Seq<char>| r.drop_last());
    if records.len() == 0 {
        assert(spec_lines(concat_all(records)) =~= stripped);
    } else {
        let tail = records.drop_first();
        assert(forall|i: int| 0 <= i < tail.len() ==> is_record(#[trigger] tail[i]));
        lemma_lines_of_concat(tail);
        lemma_lines_of_record_prefix(records[0], concat_all(tail));
        assert(spec_lines(concat_all(records)) =~= stripped);
    }
}

/// The round-trip law.  After any successful sequence of record writes, the
/// last `n` lines of the file are the last `n` records exactly as written,
/// in append order, with their trailing newline stripped — whenever `n` asks
/// for no more records than were written.
pub proof fn lemma_tail_round_trip(records: Seq<Seq<char>>, n: int)
    requires
        forall|i: int| 0 <= i < records.len() ==> is_record(#[trigger] records[i]),
        0 <= n <= records.len(),
    ensures
        spec_last_lines(concat_all(records), n) == records.subrange(
            records.len() - n,
            records.len() as int,
        ).map_values(|r: Seq<char>| r.drop_last()),
{
    lemma_lines_of_concat(records);
    let stripped = records.map_values(|r: Seq<char>| r.drop_last());
    let tail = records.subrange(records.len() - n, records.len() as int);
    assert(spec_last_lines(concat_all(records), n) =~= tail.map_values(
        |r: Seq<char>| r.drop_last(),
    ));
}

/// The last `n` newline-delimited lines of `contents`, in original order;
/// all of them if fewer than `n` exist.
pub fn last_n_lines(contents: &str, n: usize) -> (r: Vec<String>)
    ensures
        r@.map_values(|line: String| line@) == spec_last_lines(contents@, n as int),
{
    let ghost text = contents@;
    let len = contents.unicode_len();
    let mut all: Vec<String> = Vec::new();
    let mut start: usize = 0;
    let mut i: usize = 0;
    proof {
        assert(text.subrange(0, len as int) =~= text);
        assert(all@.map_values(|line: String| line@) =~= Seq::<Seq<char>>::empty());
    }
    while i < len
        invariant
            text == contents@,
            len == text.len(),
            0 <= start <= i <= len,
            forall|j: int| start <= j < i ==> text[j] != '\n',
            spec_lines(text) == all@.map_values(|line: String| line@) + spec_lines(
                text.subrange(start as int, len as int),
            ),
        decreases len - i,
    {
        let c = contents.get_char(i);
        if c == '\n' {
            let line = contents.substring_char(start, i).to_owned();
            proof {
                let record = text.subrange(start as int, i + 1);
                let remainder = text.subrange(start as int, len as int);
                assert(record[record.len() - 1] == text[i as int]);
                assert(forall|j: int| 0 <= j < record.len() - 1 ==> record[j] == text[
                    start + j
                ] && record[j] != '\n');
                lemma_lines_of_record_prefix(record, text.subrange(i + 1, len as int));
                assert(remainder =~= record + text.subrange(i + 1, len as int));
                assert(record.drop_last() =~= text.subrange(start as int, i as int));
                assert(all@.push(line).map_values(|l: String| l@) =~= all@.map_values(
                    |l: String| l@,
                ).push(line@));
            }
            all.push(line);
            start = i + 1;
        }
        i += 1;
    }
    if start < len {
        let line = contents.substring_char(start, len).to_owned();
        proof {
            let remainder = text.subrange(start as int, len as int);
            lemma_first_newline_bounds(remainder);
            assert(first_newline(remainder) == remainder.len()) by {
                if first_newline(remainder) < remainder.len() {
                    assert(text[start + first_newline(remainder)] == '\n');
                }
            }
            assert(all@.push(line).map_values(|l: String| l@) =~= all@.map_values(
                |l: String| l@,
            ).push(line@));
        }
        all.push(line);
    } else {
        proof {
            assert(text.subrange(start as int, len as int) =~= Seq::<char>::empty());
        }
    }
    let total = all.len();
    let cut = if n < total {
        total - n
    } else {
        0
    };
    let tail = all.split_off(cut);
    proof {
        assert(tail@.map_values(|line: String| line@) =~= spec_last_lines(text, n as int));
    }
    tail
}

} // verus!
