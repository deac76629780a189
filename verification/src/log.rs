//! The append-only persistence log as text: one record per line, lines
//! ended by line feeds, read back in full at startup.
//!
//! Appending and reading the underlying file is the runtime's work; what
//! is verified here is the text itself: how records become lines and how
//! the whole text is read back, with any malformed line making the log
//! unreadable rather than silently skipped.

use vstd::prelude::*;

verus! {

use crate::bytes::NEWLINE;
use crate::record::{
    PersistedRecord, RecordView, encode_record, encode_record_spec, parse_record,
    parse_record_spec, wf_record,
};

/// The lines accumulated from position `i` on, with `cur` the part of
/// the current line read so far: a line feed ends a line, and a last
/// line may end at the end of the text instead.
pub open spec fn lines_from(s: Seq<u8>, i: int, cur: Seq<u8>) -> Seq<Seq<u8>>
    decreases s.len() - i,
    when 0 <= i
{
    if i >= s.len() {
        if cur.len() == 0 {
            Seq::empty()
        } else {
            seq![cur]
        }
    } else if s[i] == NEWLINE {
        seq![cur] + lines_from(s, i + 1, Seq::empty())
    } else {
        lines_from(s, i + 1, cur.push(s[i]))
    }
}

/// The lines of the log text, in order.
pub open spec fn split_lines_spec(s: Seq<u8>) -> Seq<Seq<u8>> {
    lines_from(s, 0, Seq::empty())
}

/// The contents of a sequence of line buffers.
pub open spec fn line_views(v: Seq<Vec<u8>>) -> Seq<Seq<u8>> {
    v.map_values(|l: Vec<u8>| l@)
}

/// Splits the log text into its lines.
pub fn split_lines(content: &[u8]) -> (r: Vec<Vec<u8>>)
    ensures
        line_views(r@) == split_lines_spec(content@),
{
    let mut out: Vec<Vec<u8>> = Vec::new();
    let mut cur: Vec<u8> = Vec::new();
    let mut i: usize = 0;
    while i < content.len()
        invariant
            0 <= i <= content@.len(),
            split_lines_spec(content@) == line_views(out@) + lines_from(
                content@,
                i as int,
                cur@,
            ),
        decreases content@.len() - i,
    {
        let b = content[i];
        if b == NEWLINE {
            let ghost prev_out = out@;
            let ghost prev_cur = cur@;
            out.push(cur);
            cur = Vec::new();
            proof {
                assert(line_views(out@) =~= line_views(prev_out) + seq![prev_cur]);
                assert(line_views(prev_out) + (seq![prev_cur] + lines_from(
                    content@,
                    i as int + 1,
                    Seq::empty(),
                )) =~= line_views(out@) + lines_from(content@, i as int + 1, cur@));
            }
        } else {
            cur.push(b);
        }
        i += 1;
    }
    if cur.len() > 0 {
        let ghost prev_out = out@;
        let ghost prev_cur = cur@;
        out.push(cur);
        proof {
            assert(line_views(out@) =~= line_views(prev_out) + seq![prev_cur]);
            assert(split_lines_spec(content@) =~= line_views(out@));
        }
    } else {
        proof {
            assert(split_lines_spec(content@) =~= line_views(out@));
        }
    }
    out
}

/// The records a log text denotes, in append order: defined exactly when
/// every line parses as a record.
pub open spec fn parse_log_spec(content: Seq<u8>) -> Option<Seq<RecordView>> {
    let ls = split_lines_spec(content);
    if forall|i: int| 0 <= i < ls.len() ==> parse_record_spec(ls[i]) is Some {
        Some(Seq::new(ls.len(), |i: int| parse_record_spec(ls[i]).unwrap()))
    } else {
        None
    }
}

/// The contents of a sequence of records.
pub open spec fn record_views(v: Seq<PersistedRecord>) -> Seq<RecordView> {
    v.map_values(|r: PersistedRecord| r@)
}

/// Reads the whole log text back into records, in append order; one
/// malformed line makes the whole log unreadable — recovery must not
/// silently misinterpret or drop a schedule.
pub fn parse_log(content: &[u8]) -> (r: Option<Vec<PersistedRecord>>)
    ensures
        match r {
            Some(recs) => parse_log_spec(content@) == Some(record_views(recs@)),
            None => parse_log_spec(content@) is None,
        },
{
    let lines = split_lines(content);
    let ghost ls = split_lines_spec(content@);
    let mut out: Vec<PersistedRecord> = Vec::new();
    let mut i: usize = 0;
    while i < lines.len()
        invariant
            0 <= i <= lines@.len(),
            line_views(lines@) == ls,
            ls == split_lines_spec(content@),
            out@.len() == i,
            forall|j: int|
                0 <= j < i ==> #[trigger] parse_record_spec(ls[j]) == Some(out@[j]@),
        decreases lines@.len() - i,
    {
        assert(lines@[i as int]@ == ls[i as int]);
        match parse_record(lines[i].as_slice()) {
            Some(rec) => {
                out.push(rec);
            },
            None => {
                assert(parse_record_spec(ls[i as int]) is None);
                return None;
            },
        }
        i += 1;
    }
    proof {
        assert(forall|j: int| 0 <= j < ls.len() ==> parse_record_spec(ls[j]) is Some);
        assert(record_views(out@) =~= Seq::new(
            ls.len(),
            |j: int| parse_record_spec(ls[j]).unwrap(),
        ));
    }
    Some(out)
}

/// One record as it stands in the log: its line followed by the line
/// feed that ends it.
pub fn append_line(rec: &PersistedRecord) -> (r: Vec<u8>)
    requires
        wf_record(rec@),
    ensures
        r@ == encode_record_spec(rec@) + seq![NEWLINE],
        r@.len() > 0,
{
    let mut line = encode_record(rec);
    line.push(NEWLINE);
    line
}

} // verus!
