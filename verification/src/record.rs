//! The durable projection of an authorized session and its textual form:
//! one line of four fields joined by the `::` delimiter,
//!
//! ```text
//! <sessionId>::<credential>::<anchor as RFC 2822 timestamp>::<period name>
//! ```
//!
//! and the strict parse that recovery applies to each line.

use vstd::prelude::*;

verus! {

use vstd::slice::slice_subrange;
use crate::bytes::{
    COLON, NEWLINE, contains_byte, first_sep, has_sep, lemma_concat_contains_byte,
    lemma_first_sep_characterization, find_sep, push_all, sep_at,
};
use crate::decimal::{dec_of, dec_parse, lemma_dec_of_clean, push_dec_i64, parse_dec_i64};
use crate::period::{
    Period, period_name, period_of_name, lemma_period_name_clean, lemma_period_of_name_complete,
};
use crate::timestamp::{
    format_rfc2822, parse_rfc2822, rfc2822_of, rfc2822_parse, ts_in_range, TS_MAX,
};

/// The mathematical contents of a persisted record.
pub struct RecordView {
    pub session_id: i64,
    pub credential: Seq<u8>,
    pub anchor: i64,
    pub period: Period,
}

/// The durable projection of one authorized session: appended to the log
/// exactly once, when the session first becomes authorized.
#[derive(Debug)]
pub struct PersistedRecord {
    /// The conversation the schedule belongs to.
    pub session_id: i64,
    /// The opaque token obtained from the completed handshake.
    pub credential: Vec<u8>,
    /// The instant the schedule is aligned to.
    pub anchor: i64,
    /// The recurrence period, persisted under its symbolic name.
    pub period: Period,
}

impl View for PersistedRecord {
    type V = RecordView;

    open spec fn view(&self) -> RecordView {
        RecordView {
            session_id: self.session_id,
            credential: self.credential@,
            anchor: self.anchor,
            period: self.period,
        }
    }
}

/// A credential the record format preserves: free of the field delimiter,
/// free of line feeds, and not ending in a colon (a trailing colon would
/// fuse with the delimiter that follows it).
pub open spec fn wf_credential(c: Seq<u8>) -> bool {
    &&& !has_sep(c)
    &&& !contains_byte(c, NEWLINE)
    &&& (c.len() > 0 ==> c[c.len() - 1] != COLON)
}

/// A record the log can faithfully hold.
pub open spec fn wf_record(r: RecordView) -> bool {
    wf_credential(r.credential) && ts_in_range(r.anchor)
}

/// Decides `wf_credential`, so a caller can test a credential before
/// persisting it.
pub fn credential_ok(c: &[u8]) -> (r: bool)
    ensures
        r == wf_credential(c@),
{
    if c.len() > 0 && c[c.len() - 1] == COLON {
        return false;
    }
    let mut i: usize = 0;
    while i < c.len()
        invariant
            0 <= i <= c@.len(),
            c@.len() > 0 ==> c@[c@.len() - 1] != COLON,
            forall|j: int| 0 <= j < i ==> !sep_at(c@, j),
            forall|j: int| 0 <= j < i ==> c@[j] != NEWLINE,
        decreases c@.len() - i,
    {
        if c[i] == NEWLINE {
            assert(contains_byte(c@, NEWLINE));
            return false;
        }
        if i + 1 < c.len() && c[i] == COLON && c[i + 1] == COLON {
            assert(sep_at(c@, i as int));
            return false;
        }
        assert(!sep_at(c@, i as int));
        i += 1;
    }
    proof {
        if has_sep(c@) {
            let j = choose|j: int| sep_at(c@, j);
            assert(!sep_at(c@, j));
        }
        if contains_byte(c@, NEWLINE) {
            let j = choose|j: int| 0 <= j < c@.len() && c@[j] == NEWLINE;
            assert(c@[j] != NEWLINE);
        }
    }
    true
}

/// The two-byte field delimiter.
pub open spec fn sep_seq() -> Seq<u8> {
    seq![COLON, COLON]
}

/// Four fields joined by the delimiter.
pub open spec fn join_fields(id: Seq<u8>, cred: Seq<u8>, ts: Seq<u8>, name: Seq<u8>) -> Seq<u8> {
    id + sep_seq() + cred + sep_seq() + ts + sep_seq() + name
}

/// The persisted line of a record.
pub open spec fn encode_record_spec(r: RecordView) -> Seq<u8> {
    join_fields(
        dec_of(r.session_id as int),
        r.credential,
        rfc2822_of(r.anchor),
        period_name(r.period),
    )
}

/// Splits off the field before the first delimiter, with the rest.
pub open spec fn split_first(s: Seq<u8>) -> Option<(Seq<u8>, Seq<u8>)> {
    match first_sep(s) {
        Some(i) => Some((s.take(i), s.skip(i + 2))),
        None => None,
    }
}

/// The four delimiter-separated fields of a line, if it has exactly the
/// shape of a record: each of the first three fields ends at the first
/// delimiter of what remains.
pub open spec fn split4(s: Seq<u8>) -> Option<(Seq<u8>, Seq<u8>, Seq<u8>, Seq<u8>)> {
    match split_first(s) {
        None => None,
        Some((f0, r0)) => match split_first(r0) {
            None => None,
            Some((f1, r1)) => match split_first(r1) {
                None => None,
                Some((f2, f3)) => Some((f0, f1, f2, f3)),
            },
        },
    }
}

/// The record a line denotes: defined exactly on lines of four
/// delimiter-joined fields whose session id is canonical decimal, whose
/// timestamp chrono reads back as an in-range instant, and whose period
/// name is known.
pub open spec fn parse_record_spec(line: Seq<u8>) -> Option<RecordView> {
    match split4(line) {
        None => None,
        Some((f0, f1, f2, f3)) => match dec_parse(f0) {
            None => None,
            Some(id) => match rfc2822_parse(f2) {
                None => None,
                Some(t) => if !ts_in_range(t) {
                    None
                } else {
                    match period_of_name(f3) {
                        None => None,
                        Some(p) => Some(
                            RecordView { session_id: id, credential: f1, anchor: t, period: p },
                        ),
                    }
                },
            },
        },
    }
}

/// Splitting a delimiter-joined concatenation at the first delimiter
/// recovers the first field, provided that field is delimiter-free and
/// does not end in a colon.
pub proof fn lemma_split_first_concat(a: Seq<u8>, rest: Seq<u8>)
    requires
        !has_sep(a),
        a.len() > 0 ==> a[a.len() - 1] != COLON,
    ensures
        split_first(a + sep_seq() + rest) == Some((a, rest)),
{
    let s = a + sep_seq() + rest;
    assert(s[a.len() as int] == COLON);
    assert(s[a.len() as int + 1] == COLON);
    assert(sep_at(s, a.len() as int));
    assert forall|j: int| 0 <= j < a.len() implies !sep_at(s, j) by {
        if j + 1 < a.len() {
            assert(s[j] == a[j]);
            assert(s[j + 1] == a[j + 1]);
            if sep_at(s, j) {
                assert(sep_at(a, j));
            }
        } else {
            assert(j == a.len() - 1);
            assert(s[j] == a[j]);
        }
    }
    lemma_first_sep_characterization(s, a.len() as int);
    assert(s.take(a.len() as int) =~= a);
    assert(s.skip(a.len() as int + 2) =~= rest);
}

/// Encoding a well-formed record and parsing the line back yields the
/// identical record, for every period and for any timestamp text that
/// chrono reads back as the anchor — which `format_rfc2822` guarantees of
/// the text it produces.
pub proof fn lemma_record_round_trip(r: RecordView)
    requires
        wf_record(r),
        rfc2822_of(r.anchor).len() > 0,
        !has_sep(rfc2822_of(r.anchor)),
        rfc2822_of(r.anchor)[rfc2822_of(r.anchor).len() - 1] != COLON,
        rfc2822_parse(rfc2822_of(r.anchor)) == Some(r.anchor),
    ensures
        parse_record_spec(encode_record_spec(r)) == Some(r),
{
    let id = dec_of(r.session_id as int);
    let cred = r.credential;
    let ts = rfc2822_of(r.anchor);
    let name = period_name(r.period);
    let line = encode_record_spec(r);
    lemma_dec_of_clean(r.session_id as int);
    assert(line =~= id + sep_seq() + (cred + sep_seq() + (ts + sep_seq() + name)));
    lemma_split_first_concat(id, cred + sep_seq() + (ts + sep_seq() + name));
    lemma_split_first_concat(cred, ts + sep_seq() + name);
    lemma_split_first_concat(ts, name);
    assert(split4(line) == Some((id, cred, ts, name)));
    crate::decimal::lemma_dec_round_trip(r.session_id);
    lemma_period_of_name_complete(r.period);
    assert(parse_record_spec(line) == Some(
        RecordView {
            session_id: r.session_id,
            credential: cred,
            anchor: r.anchor,
            period: r.period,
        },
    ));
    assert(RecordView {
        session_id: r.session_id,
        credential: cred,
        anchor: r.anchor,
        period: r.period,
    } == r);
}

/// Encodes a record as one log line, without the trailing line feed.
pub fn encode_record(rec: &PersistedRecord) -> (line: Vec<u8>)
    requires
        wf_record(rec@),
    ensures
        line@ == encode_record_spec(rec@),
        !contains_byte(line@, NEWLINE),
        rfc2822_of(rec@.anchor).len() > 0,
        !has_sep(rfc2822_of(rec@.anchor)),
        rfc2822_of(rec@.anchor)[rfc2822_of(rec@.anchor).len() - 1] != COLON,
        !contains_byte(rfc2822_of(rec@.anchor), NEWLINE),
        rfc2822_parse(rfc2822_of(rec@.anchor)) == Some::<i64>(rec@.anchor),
{
    let mut line: Vec<u8> = Vec::new();
    push_dec_i64(&mut line, rec.session_id);
    line.push(COLON);
    line.push(COLON);
    push_all(&mut line, rec.credential.as_slice());
    line.push(COLON);
    line.push(COLON);
    let ts = format_rfc2822(rec.anchor);
    push_all(&mut line, ts.as_slice());
    line.push(COLON);
    line.push(COLON);
    let name = rec.period.name();
    push_all(&mut line, name.as_slice());
    proof {
        let id = dec_of(rec@.session_id as int);
        assert(line@ =~= join_fields(id, rec@.credential, ts@, name@));
        lemma_dec_of_clean(rec@.session_id as int);
        lemma_period_name_clean(rec@.period);
        assert(!contains_byte(name@, NEWLINE)) by {
            if contains_byte(name@, NEWLINE) {
                let i = choose|i: int| 0 <= i < name@.len() && name@[i] == NEWLINE;
            }
        }
        assert(!contains_byte(sep_seq(), NEWLINE)) by {
            if contains_byte(sep_seq(), NEWLINE) {
                let i = choose|i: int| 0 <= i < 2 && sep_seq()[i] == NEWLINE;
            }
        }
        lemma_concat_contains_byte(id, sep_seq(), NEWLINE);
        lemma_concat_contains_byte(id + sep_seq(), rec@.credential, NEWLINE);
        lemma_concat_contains_byte(id + sep_seq() + rec@.credential, sep_seq(), NEWLINE);
        lemma_concat_contains_byte(id + sep_seq() + rec@.credential + sep_seq(), ts@, NEWLINE);
        lemma_concat_contains_byte(
            id + sep_seq() + rec@.credential + sep_seq() + ts@,
            sep_seq(),
            NEWLINE,
        );
        lemma_concat_contains_byte(
            id + sep_seq() + rec@.credential + sep_seq() + ts@ + sep_seq(),
            name@,
            NEWLINE,
        );
    }
    line
}

/// Reads one log line back into a record: the strict inverse of
/// `encode_record`, and `None` on every malformed line — recovery treats
/// that as fatal rather than guessing at a schedule.
/// Splits a line into its four delimiter-separated fields, if it has
/// exactly that shape.
fn split_line<'a>(line: &'a [u8]) -> (r: Option<(&'a [u8], &'a [u8], &'a [u8], &'a [u8])>)
    ensures
        match r {
            Some(t) => split4(line@) == Some((t.0@, t.1@, t.2@, t.3@)),
            None => split4(line@) is None,
        },
{
    let i0 = match find_sep(line) {
        Some(i) => i,
        None => {
            return None;
        },
    };
    assert(sep_at(line@, i0 as int));
    let n0 = line.len();
    let f0 = slice_subrange(line, 0, i0);
    let r0 = slice_subrange(line, i0 + 2, n0);
    proof {
        assert(f0@ =~= line@.take(i0 as int));
        assert(r0@ =~= line@.skip(i0 as int + 2));
        assert(split_first(line@) == Some((f0@, r0@)));
    }
    let i1 = match find_sep(r0) {
        Some(i) => i,
        None => {
            return None;
        },
    };
    assert(sep_at(r0@, i1 as int));
    let n1 = r0.len();
    let f1 = slice_subrange(r0, 0, i1);
    let r1 = slice_subrange(r0, i1 + 2, n1);
    proof {
        assert(f1@ =~= r0@.take(i1 as int));
        assert(r1@ =~= r0@.skip(i1 as int + 2));
        assert(split_first(r0@) == Some((f1@, r1@)));
    }
    let i2 = match find_sep(r1) {
        Some(i) => i,
        None => {
            return None;
        },
    };
    assert(sep_at(r1@, i2 as int));
    let n2 = r1.len();
    let f2 = slice_subrange(r1, 0, i2);
    let f3 = slice_subrange(r1, i2 + 2, n2);
    proof {
        assert(f2@ =~= r1@.take(i2 as int));
        assert(f3@ =~= r1@.skip(i2 as int + 2));
        assert(split_first(r1@) == Some((f2@, f3@)));
    }
    Some((f0, f1, f2, f3))
}

/// Reads one log line back into a record: the strict inverse of
/// `encode_record`, and `None` on every malformed line — recovery treats
/// that as fatal rather than guessing at a schedule.
pub fn parse_record(line: &[u8]) -> (r: Option<PersistedRecord>)
    ensures
        match r {
            Some(rec) => parse_record_spec(line@) == Some(rec@),
            None => parse_record_spec(line@) is None,
        },
{
    let (f0, f1, f2, f3) = match split_line(line) {
        Some(t) => t,
        None => {
            return None;
        },
    };
    let id = match parse_dec_i64(f0) {
        Some(v) => v,
        None => {
            return None;
        },
    };
    let t = match parse_rfc2822(f2) {
        Some(v) => v,
        None => {
            return None;
        },
    };
    if t < 0 || t >= TS_MAX {
        return None;
    }
    let p = match Period::from_name(f3) {
        Some(v) => v,
        None => {
            proof {
                crate::period::lemma_period_of_name_none_helper(f3@);
            }
            return None;
        },
    };
    proof {
        lemma_period_of_name_complete(p);
        assert(period_of_name(f3@) == Some(p));
    }
    let mut cred: Vec<u8> = Vec::new();
    push_all(&mut cred, f1);
    Some(PersistedRecord { session_id: id, credential: cred, anchor: t, period: p })
}

} // verus!
