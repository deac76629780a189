//! The fixed enumeration of recurrence periods and its symbolic names.
//!
//! A period is persisted under its symbolic name, never its numeric
//! duration, so the name-to-duration mapping can evolve without rewriting
//! old records.

use vstd::prelude::*;

verus! {

use crate::bytes::bytes_eq;

/// A recurrence period for scheduled deliveries.
#[derive(Clone, Copy, PartialEq, Eq, Structural, Debug)]
pub enum Period {
    Minute,
    Hour,
    ThreeHours,
    SixHours,
    TwelveHours,
    Day,
}

/// The symbolic name under which a period is persisted.
pub open spec fn period_name(p: Period) -> Seq<u8> {
    match p {
        Period::Minute => seq![109, 105, 110, 117, 116, 101],
        Period::Hour => seq![104, 111, 117, 114],
        Period::ThreeHours => seq![
            116, 104, 114, 101, 101, 95, 104, 111, 117, 114, 115,
        ],
        Period::SixHours => seq![115, 105, 120, 95, 104, 111, 117, 114, 115],
        Period::TwelveHours => seq![
            116, 119, 101, 108, 118, 101, 95, 104, 111, 117, 114, 115,
        ],
        Period::Day => seq![100, 97, 121],
    }
}

/// The duration of one period, in seconds.
pub open spec fn period_seconds(p: Period) -> int {
    match p {
        Period::Minute => 60,
        Period::Hour => 3600,
        Period::ThreeHours => 10800,
        Period::SixHours => 21600,
        Period::TwelveHours => 43200,
        Period::Day => 86400,
    }
}

/// The period a symbolic name denotes, if any.
pub open spec fn period_of_name(s: Seq<u8>) -> Option<Period> {
    if s == period_name(Period::Minute) {
        Some(Period::Minute)
    } else if s == period_name(Period::Hour) {
        Some(Period::Hour)
    } else if s == period_name(Period::ThreeHours) {
        Some(Period::ThreeHours)
    } else if s == period_name(Period::SixHours) {
        Some(Period::SixHours)
    } else if s == period_name(Period::TwelveHours) {
        Some(Period::TwelveHours)
    } else if s == period_name(Period::Day) {
        Some(Period::Day)
    } else {
        None
    }
}

/// Looking a period's own name up yields that period: names and the
/// lookup over them round-trip.
pub proof fn lemma_period_of_name_complete(p: Period)
    ensures
        period_of_name(period_name(p)) == Some(p),
{
    assert(period_name(Period::Minute).len() == 6);
    assert(period_name(Period::Hour).len() == 4);
    assert(period_name(Period::ThreeHours).len() == 11);
    assert(period_name(Period::SixHours).len() == 9);
    assert(period_name(Period::TwelveHours).len() == 12);
    assert(period_name(Period::Day).len() == 3);
}

/// A sequence that is no period's name is rejected by the lookup.
pub proof fn lemma_period_of_name_none_helper(s: Seq<u8>)
    requires
        forall|p: Period| s != period_name(p),
    ensures
        period_of_name(s) is None,
{
    assert(s != period_name(Period::Minute));
    assert(s != period_name(Period::Hour));
    assert(s != period_name(Period::ThreeHours));
    assert(s != period_name(Period::SixHours));
    assert(s != period_name(Period::TwelveHours));
    assert(s != period_name(Period::Day));
}

/// A period's name holds neither a colon nor a line feed, so it never
/// disturbs the record format around it.
pub proof fn lemma_period_name_clean(p: Period)
    ensures
        period_name(p).len() >= 1,
        forall|i: int| 0 <= i < period_name(p).len() ==> period_name(p)[i] != 58 && period_name(
            p,
        )[i] != 10,
{
    let s = period_name(p);
    match p {
        Period::Minute => {
            assert(forall|i: int| 0 <= i < s.len() ==> s[i] != 58 && s[i] != 10);
        },
        Period::Hour => {
            assert(forall|i: int| 0 <= i < s.len() ==> s[i] != 58 && s[i] != 10);
        },
        Period::ThreeHours => {
            assert(forall|i: int| 0 <= i < s.len() ==> s[i] != 58 && s[i] != 10);
        },
        Period::SixHours => {
            assert(forall|i: int| 0 <= i < s.len() ==> s[i] != 58 && s[i] != 10);
        },
        Period::TwelveHours => {
            assert(forall|i: int| 0 <= i < s.len() ==> s[i] != 58 && s[i] != 10);
        },
        Period::Day => {
            assert(forall|i: int| 0 <= i < s.len() ==> s[i] != 58 && s[i] != 10);
        },
    }
}

impl Period {
    /// The symbolic name of this period, as persisted in a record.
    pub fn name(&self) -> (r: Vec<u8>)
        ensures
            r@ == period_name(*self),
    {
        match self {
            Period::Minute => {
                let v: Vec<u8> = vec![109, 105, 110, 117, 116, 101];
                assert(v@ =~= period_name(Period::Minute));
                v
            },
            Period::Hour => {
                let v: Vec<u8> = vec![104, 111, 117, 114];
                assert(v@ =~= period_name(Period::Hour));
                v
            },
            Period::ThreeHours => {
                let v: Vec<u8> = vec![
                    116, 104, 114, 101, 101, 95, 104, 111, 117, 114, 115,
                ];
                assert(v@ =~= period_name(Period::ThreeHours));
                v
            },
            Period::SixHours => {
                let v: Vec<u8> = vec![115, 105, 120, 95, 104, 111, 117, 114, 115];
                assert(v@ =~= period_name(Period::SixHours));
                v
            },
            Period::TwelveHours => {
                let v: Vec<u8> = vec![
                    116, 119, 101, 108, 118, 101, 95, 104, 111, 117, 114, 115,
                ];
                assert(v@ =~= period_name(Period::TwelveHours));
                v
            },
            Period::Day => {
                let v: Vec<u8> = vec![100, 97, 121];
                assert(v@ =~= period_name(Period::Day));
                v
            },
        }
    }

    /// Recovers a period from its symbolic name; an unknown name yields
    /// `None`, and a known name yields exactly the period it names.
    pub fn from_name(s: &[u8]) -> (r: Option<Period>)
        ensures
            match r {
                Some(p) => s@ == period_name(p),
                None => forall|p: Period| s@ != period_name(p),
            },
    {
        let candidates: [Period; 6] = [
            Period::Minute,
            Period::Hour,
            Period::ThreeHours,
            Period::SixHours,
            Period::TwelveHours,
            Period::Day,
        ];
        let mut i: usize = 0;
        while i < 6
            invariant
                0 <= i <= 6,
                candidates@ =~= seq![
                    Period::Minute,
                    Period::Hour,
                    Period::ThreeHours,
                    Period::SixHours,
                    Period::TwelveHours,
                    Period::Day,
                ],
                forall|j: int| 0 <= j < i ==> s@ != period_name(candidates@[j]),
            decreases 6 - i,
        {
            let name = candidates[i].name();
            if bytes_eq(s, name.as_slice()) {
                return Some(candidates[i]);
            }
            i += 1;
        }
        assert forall|p: Period| s@ != period_name(p) by {
            match p {
                Period::Minute => assert(s@ != period_name(candidates@[0])),
                Period::Hour => assert(s@ != period_name(candidates@[1])),
                Period::ThreeHours => assert(s@ != period_name(candidates@[2])),
                Period::SixHours => assert(s@ != period_name(candidates@[3])),
                Period::TwelveHours => assert(s@ != period_name(candidates@[4])),
                Period::Day => assert(s@ != period_name(candidates@[5])),
            }
        }
        None
    }

    /// The duration of one period, in seconds.
    pub fn seconds(&self) -> (r: i64)
        ensures
            r == period_seconds(*self),
    {
        match self {
            Period::Minute => 60,
            Period::Hour => 3600,
            Period::ThreeHours => 10800,
            Period::SixHours => 21600,
            Period::TwelveHours => 43200,
            Period::Day => 86400,
        }
    }
}

} // verus!
