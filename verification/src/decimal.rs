//! Canonical decimal text for 64-bit session identifiers: encoding,
//! strict parsing, and the round-trip between them.

use vstd::prelude::*;

verus! {

use vstd::arithmetic::div_mod::{lemma_fundamental_div_mod, lemma_fundamental_div_mod_converse};
use crate::bytes::{COLON, MINUS, NEWLINE, contains_byte, has_sep, sep_at};

/// `b` is an ASCII decimal digit.
pub open spec fn is_digit(b: u8) -> bool {
    48 <= b <= 57
}

/// Every byte of `s` is an ASCII decimal digit.
pub open spec fn all_digits(s: Seq<u8>) -> bool {
    forall|i: int| 0 <= i < s.len() ==> is_digit(s[i])
}

/// The decimal digits of the non-negative integer `n`, most significant
/// first, with no leading zero.
pub open spec fn dec_u(n: nat) -> Seq<u8>
    decreases n,
{
    if n < 10 {
        seq![(48 + n) as u8]
    } else {
        dec_u(n / 10).push((48 + n % 10) as u8)
    }
}

/// The canonical decimal text of the integer `n`: its digits, preceded by
/// `-` when `n` is negative.
pub open spec fn dec_of(n: int) -> Seq<u8> {
    if n < 0 {
        seq![MINUS] + dec_u((-n) as nat)
    } else {
        dec_u(n as nat)
    }
}

/// The integer value of a digit string, most significant digit first.
pub open spec fn val_u(s: Seq<u8>) -> int
    decreases s.len(),
{
    if s.len() == 0 {
        0
    } else {
        val_u(s.drop_last()) * 10 + (s.last() - 48)
    }
}

/// `s` is the canonical digit string of some non-negative integer:
/// non-empty, digits only, and no leading zero.
pub open spec fn canonical_u(s: Seq<u8>) -> bool {
    s.len() > 0 && all_digits(s) && (s.len() == 1 || s[0] != 48)
}

/// The integer a strict decimal parse reads from `s`: defined exactly on
/// the canonical text of each `i64` value.
pub open spec fn dec_parse(s: Seq<u8>) -> Option<i64> {
    if s.len() >= 2 && s[0] == MINUS {
        let m = s.skip(1);
        if canonical_u(m) && 1 <= val_u(m) <= 9223372036854775808 {
            Some((-val_u(m)) as i64)
        } else {
            None
        }
    } else {
        if canonical_u(s) && val_u(s) <= 9223372036854775807 {
            Some(val_u(s) as i64)
        } else {
            None
        }
    }
}

/// The digit string of `n` is canonical and evaluates back to `n`.
pub proof fn lemma_dec_u_props(n: nat)
    ensures
        dec_u(n).len() >= 1,
        all_digits(dec_u(n)),
        val_u(dec_u(n)) == n,
        n >= 1 ==> dec_u(n)[0] != 48,
        n == 0 ==> dec_u(n) == seq![48u8],
    decreases n,
{
    if n < 10 {
        assert(dec_u(n) == seq![(48 + n) as u8]);
        assert(dec_u(n).drop_last() =~= Seq::<u8>::empty());
        assert(val_u(Seq::<u8>::empty()) == 0);
        assert(dec_u(n).last() == (48 + n) as u8);
        assert(((48 + n) as u8) - 48 == n);
        if n == 0 {
            assert(dec_u(n) =~= seq![48u8]);
        }
    } else {
        lemma_dec_u_props(n / 10);
        let s = dec_u(n);
        let prefix = dec_u(n / 10);
        assert(s == prefix.push((48 + n % 10) as u8));
        assert(s.drop_last() =~= prefix);
        assert(s.last() == (48 + n % 10) as u8);
        lemma_fundamental_div_mod(n as int, 10);
        assert(val_u(s) == val_u(prefix) * 10 + n % 10);
        assert(s[0] == prefix[0]);
        assert(n / 10 >= 1);
        assert forall|i: int| 0 <= i < s.len() implies is_digit(s[i]) by {
            if i < prefix.len() {
                assert(s[i] == prefix[i]);
            }
        }
    }
}

/// A digit string evaluates to a non-negative integer.
pub proof fn lemma_val_u_nonneg(s: Seq<u8>)
    requires
        all_digits(s),
    ensures
        val_u(s) >= 0,
    decreases s.len(),
{
    if s.len() > 0 {
        assert(all_digits(s.drop_last())) by {
            assert(forall|i: int|
                0 <= i < s.drop_last().len() ==> s.drop_last()[i] == s[i]);
        }
        lemma_val_u_nonneg(s.drop_last());
        assert(is_digit(s.last()));
    }
}

/// The canonical decimal text of any `i64` parses back to exactly that
/// value.
pub proof fn lemma_dec_round_trip(n: i64)
    ensures
        dec_parse(dec_of(n as int)) == Some(n),
{
    if n >= 0 {
        lemma_dec_u_props(n as nat);
        let s = dec_of(n as int);
        assert(s == dec_u(n as nat));
        assert(canonical_u(s));
        assert(s[0] != MINUS);
        assert(val_u(s) == n);
    } else {
        let m = dec_u((-(n as int)) as nat);
        lemma_dec_u_props((-(n as int)) as nat);
        let s = dec_of(n as int);
        assert(s == seq![MINUS] + m);
        assert(s.len() >= 2 && s[0] == MINUS);
        assert(s.skip(1) =~= m);
        assert(canonical_u(m));
        assert(val_u(m) == -(n as int));
        assert(1 <= val_u(m) <= 9223372036854775808);
        assert(dec_parse(s) == Some((-val_u(m)) as i64));
        assert((-val_u(m)) as i64 == n);
    }
}

/// The decimal text of an integer never holds a colon, a line feed, or
/// the field delimiter, and never ends in a colon.
pub proof fn lemma_dec_of_clean(n: int)
    ensures
        dec_of(n).len() >= 1,
        !contains_byte(dec_of(n), COLON),
        !contains_byte(dec_of(n), NEWLINE),
        !has_sep(dec_of(n)),
        dec_of(n)[dec_of(n).len() - 1] != COLON,
{
    let s = dec_of(n);
    let m: nat = if n < 0 { (-n) as nat } else { n as nat };
    lemma_dec_u_props(m);
    assert(forall|i: int| 0 <= i < s.len() ==> s[i] == MINUS || is_digit(s[i])) by {
        if n < 0 {
            assert(forall|i: int| 1 <= i < s.len() ==> s[i] == dec_u(m)[i - 1]);
        }
    }
    assert(forall|i: int| 0 <= i < s.len() ==> s[i] != COLON && s[i] != NEWLINE);
    assert(!has_sep(s)) by {
        if has_sep(s) {
            let i = choose|i: int| sep_at(s, i);
            assert(s[i] == COLON);
        }
    }
    assert(is_digit(s[s.len() - 1])) by {
        if n < 0 {
            assert(s[s.len() - 1] == dec_u(m)[dec_u(m).len() - 1]);
        }
    }
}

/// Appends the digits of `n` to `buf`.
fn push_dec_u(buf: &mut Vec<u8>, n: u64)
    ensures
        final(buf)@ == old(buf)@ + dec_u(n as nat),
    decreases n,
{
    if n < 10 {
        buf.push(48 + n as u8);
        assert(final(buf)@ =~= old(buf)@ + dec_u(n as nat));
    } else {
        push_dec_u(buf, n / 10);
        buf.push(48 + (n % 10) as u8);
        assert((n / 10) as nat == (n as nat) / 10);
        assert((n % 10) as nat == (n as nat) % 10);
        assert(final(buf)@ =~= old(buf)@ + dec_u(n as nat));
    }
}

/// Appends the canonical decimal text of `n` to `buf`.
pub fn push_dec_i64(buf: &mut Vec<u8>, n: i64)
    ensures
        final(buf)@ == old(buf)@ + dec_of(n as int),
{
    if n >= 0 {
        push_dec_u(buf, n as u64);
    } else {
        buf.push(MINUS);
        let mag: u64 = ((-(n + 1)) as u64) + 1;
        assert(mag as int == -(n as int));
        push_dec_u(buf, mag);
        assert(final(buf)@ =~= old(buf)@ + dec_of(n as int));
    }
}

/// Reads an `i64` from strict canonical decimal text: the inverse of
/// `push_dec_i64`, and `None` on every other input.
pub fn parse_dec_i64(s: &[u8]) -> (r: Option<i64>)
    ensures
        r == dec_parse(s@),
{
    if s.len() == 0 {
        return None;
    }
    let neg: bool = s[0] == MINUS;
    let start: usize = if neg { 1 } else { 0 };
    if start >= s.len() {
        return None;
    }
    let ghost m: Seq<u8> = s@.skip(start as int);
    if s[start] == 48 && s.len() - start > 1 {
        proof {
            assert(m[0] == s@[start as int]);
            assert(m.len() == s@.len() - start);
            assert(!canonical_u(m));
            if neg {
                assert(s@.len() >= 2 && s@[0] == MINUS);
            } else {
                assert(m =~= s@);
            }
        }
        return None;
    }
    let mut i: usize = start;
    let mut acc: u64 = 0;
    let mut overflow: bool = false;
    while i < s.len()
        invariant
            0 <= start <= i <= s@.len(),
            start < s@.len(),
            neg ==> s@[0] == MINUS && start == 1,
            !neg ==> s@[0] != MINUS && start == 0,
            s@.len() - start == 1 || s@[start as int] != 48,
            m == s@.skip(start as int),
            forall|j: int| start <= j < i ==> is_digit(s@[j]),
            !overflow ==> acc == val_u(s@.subrange(start as int, i as int)),
            overflow ==> val_u(s@.subrange(start as int, i as int)) > 18446744073709551615,
        decreases s@.len() - i,
    {
        let b = s[i];
        if b < 48 || b > 57 {
            proof {
                assert(m[i - start] == s@[i as int]);
                assert(!is_digit(m[i - start]));
                assert(!all_digits(m));
                if neg {
                    assert(s@.len() >= 2 && s@[0] == MINUS);
                    assert(!canonical_u(s@.skip(1)));
                } else {
                    assert(m =~= s@);
                    assert(!canonical_u(s@));
                }
                assert(dec_parse(s@) is None);
            }
            return None;
        }
        let d = (b - 48) as u64;
        let ghost pre = s@.subrange(start as int, i as int);
        let ghost post = s@.subrange(start as int, i as int + 1);
        proof {
            assert(post.drop_last() =~= pre);
            assert(post.last() == s@[i as int]);
            assert(val_u(post) == val_u(pre) * 10 + d);
            assert(all_digits(pre)) by {
                assert(forall|j: int| 0 <= j < pre.len() ==> pre[j] == s@[start + j]);
            }
            lemma_val_u_nonneg(pre);
        }
        if overflow {
            proof {
                assert(val_u(post) >= val_u(pre)) by {
                    assert(val_u(pre) * 10 >= val_u(pre)) by (nonlinear_arith)
                        requires val_u(pre) >= 0;
                }
            }
        } else {
            match acc.checked_mul(10) {
                Some(t) => match t.checked_add(d) {
                    Some(t2) => {
                        acc = t2;
                    },
                    None => {
                        overflow = true;
                        assert(val_u(post) > 18446744073709551615);
                    },
                },
                None => {
                    overflow = true;
                    proof {
                        assert(val_u(pre) * 10 > 18446744073709551615);
                        assert(val_u(post) > 18446744073709551615);
                    }
                },
            }
        }
        i += 1;
    }
    proof {
        assert(s@.subrange(start as int, s@.len() as int) =~= m);
        assert(all_digits(m));
        assert(canonical_u(m)) by {
            assert(m[0] == s@[start as int]);
        }
    }
    if overflow {
        proof {
            assert(val_u(m) > 18446744073709551615);
            if neg {
                assert(s@.len() >= 2 && s@[0] == MINUS);
            } else {
                assert(m =~= s@);
            }
        }
        return None;
    }
    assert(acc == val_u(m));
    if neg {
        assert(s@.len() >= 2 && s@[0] == MINUS);
        if acc == 0 {
            return None;
        }
        if acc <= 9223372036854775807 {
            Some(-(acc as i64))
        } else if acc == 9223372036854775808 {
            Some(i64::MIN)
        } else {
            None
        }
    } else {
        assert(m =~= s@);
        assert(!(s@.len() >= 2 && s@[0] == MINUS));
        if acc <= 9223372036854775807 {
            Some(acc as i64)
        } else {
            None
        }
    }
}

} // verus!
