//! Decimal rendering and parsing of unsigned 64-bit integers, character-level.
//!
//! Token payloads carry the expiration timestamp as its decimal digits, so
//! both directions are specified exactly and related by round-trip lemmas.

use vstd::prelude::*;
use vstd::string::StrSliceExecFns;

verus! {

/// The decimal digit character for a single digit value.
pub open spec fn digit_char(d: nat) -> char
    recommends
        d < 10,
{
    ((48 + d) as u8) as char
}

pub open spec fn is_digit_char(c: char) -> bool {
    48 <= c as u32 && c as u32 <= 57
}

/// The numeric value of a decimal digit character.
pub open spec fn digit_val(c: char) -> nat
    recommends
        is_digit_char(c),
{
    (c as u32 - 48) as nat
}

/// The decimal digit characters of `n`, most significant first, no sign and
/// no leading zero (except for `n == 0` itself).
pub open spec fn dec_chars(n: nat) -> Seq<char>
    decreases n,
{
    if n < 10 {
        seq![digit_char(n)]
    } else {
        dec_chars(n / 10) + seq![digit_char(n % 10)]
    }
}

/// The value of a digit string, most significant first.
pub open spec fn digits_val(s: Seq<char>) -> nat
    decreases s.len(),
{
    if s.len() == 0 {
        0
    } else {
        digits_val(s.drop_last()) * 10 + digit_val(s.last())
    }
}

pub open spec fn all_digit_chars(s: Seq<char>) -> bool {
    forall|i: int| 0 <= i < s.len() ==> is_digit_char(#[trigger] s[i])
}

/// What `str::parse::<u64>` accepts: an optional leading `+`, then one or
/// more decimal digits, and a value that fits in 64 bits.
pub open spec fn parse_u64_chars(s: Seq<char>) -> Option<u64> {
    let body = if s.len() > 0 && s[0] == '+' {
        s.drop_first()
    } else {
        s
    };
    if body.len() > 0 && all_digit_chars(body) && digits_val(body) <= u64::MAX {
        Some(digits_val(body) as u64)
    } else {
        None
    }
}

pub proof fn lemma_dec_chars_digits(n: nat)
    ensures
        dec_chars(n).len() >= 1,
        all_digit_chars(dec_chars(n)),
        forall|i: int| 0 <= i < dec_chars(n).len() ==> #[trigger] dec_chars(n)[i] != '\0',
        forall|i: int| 0 <= i < dec_chars(n).len() ==> #[trigger] dec_chars(n)[i] != '.',
    decreases n,
{
    if n >= 10 {
        lemma_dec_chars_digits(n / 10);
    }
}

pub proof fn lemma_digits_val_snoc(s: Seq<char>, c: char)
    ensures
        digits_val(s + seq![c]) == digits_val(s) * 10 + digit_val(c),
{
    assert((s + seq![c]).drop_last() =~= s);
    assert((s + seq![c]).last() == c);
}

/// Rendering and then reading back the digits of `n` gives `n` again.
pub proof fn lemma_dec_chars_val(n: nat)
    ensures
        digits_val(dec_chars(n)) == n,
    decreases n,
{
    if n < 10 {
        assert(dec_chars(n) =~= seq![digit_char(n)]);
        assert(digits_val(seq![digit_char(n)].drop_last()) == 0) by {
            assert(seq![digit_char(n)].drop_last() =~= Seq::<char>::empty());
        }
    } else {
        lemma_dec_chars_val(n / 10);
        lemma_digits_val_snoc(dec_chars(n / 10), digit_char(n % 10));
    }
}

/// The full round trip at the `parse` level: the decimal rendering of any
/// `u64` parses back to the same value.
pub proof fn lemma_parse_dec_chars(n: u64)
    ensures
        parse_u64_chars(dec_chars(n as nat)) == Some(n),
{
    lemma_dec_chars_digits(n as nat);
    lemma_dec_chars_val(n as nat);
    assert(dec_chars(n as nat)[0] != '+');
}

proof fn lemma_digits_val_prefix_monotonic(s: Seq<char>, i: int, j: int)
    requires
        0 <= i <= j <= s.len(),
    ensures
        digits_val(s.take(i)) <= digits_val(s.take(j)),
    decreases j - i,
{
    if i < j {
        lemma_digits_val_prefix_monotonic(s, i, j - 1);
        assert(s.take(j).drop_last() =~= s.take(j - 1));
        assert(digits_val(s.take(j)) == digits_val(s.take(j - 1)) * 10 + digit_val(
            s.take(j).last(),
        ));
    }
}

/// Renders `n` in decimal.
pub fn u64_to_dec_string(n: u64) -> (r: String)
    ensures
        r@ == dec_chars(n as nat),
{
    let mut rev: Vec<char> = Vec::new();
    let mut val: u64 = n;
    while val >= 10
        invariant
            dec_chars(n as nat) =~= dec_chars(val as nat) + rev@.reverse(),
        decreases val,
    {
        let ghost ov = val as nat;
        let ghost old_rev = rev@;
        let d: u8 = (val % 10) as u8;
        rev.push((48 + d) as char);
        val = val / 10;
        proof {
            assert(val as nat == ov / 10);
            assert(d as nat == ov % 10);
            assert(dec_chars(ov) =~= dec_chars(val as nat) + seq![digit_char(ov % 10)]);
            assert(rev@.reverse() =~= seq![digit_char(ov % 10)] + old_rev.reverse());
            assert(dec_chars(n as nat) =~= dec_chars(val as nat) + rev@.reverse());
        }
    }
    let ghost old_rev = rev@;
    rev.push((48 + val as u8) as char);
    proof {
        assert(rev@.reverse() =~= seq![digit_char(val as nat)] + old_rev.reverse());
        assert(dec_chars(n as nat) =~= rev@.reverse());
    }
    let mut s = String::new();
    let len = rev.len();
    let mut k: usize = 0;
    while k < len
        invariant
            len == rev@.len(),
            k <= len,
            s@ =~= rev@.reverse().take(k as int),
        decreases len - k,
    {
        let ghost old_s = s@;
        crate::strutil::string_push(&mut s, rev[len - 1 - k]);
        k = k + 1;
        proof {
            assert(rev@.reverse()[k - 1] == rev@[len - k]);
            assert(s@ =~= rev@.reverse().take(k as int));
        }
    }
    proof {
        assert(s@ =~= rev@.reverse());
    }
    s
}

/// Parses a decimal `u64` the way `str::parse::<u64>` does: an optional
/// leading `+`, then only digits, rejecting empty input and overflow.
pub fn parse_u64(s: &str) -> (r: Option<u64>)
    ensures
        r == parse_u64_chars(s@),
{
    let n = s.unicode_len();
    let start: usize = if n > 0 && s.get_char(0) == '+' {
        1
    } else {
        0
    };
    let ghost body = if s@.len() > 0 && s@[0] == '+' {
        s@.drop_first()
    } else {
        s@
    };
    proof {
        assert(body =~= s@.subrange(start as int, n as int));
    }
    if n == start {
        proof {
            assert(body.len() == 0);
        }
        return None;
    }
    let mut acc: u64 = 0;
    let mut i: usize = start;
    while i < n
        invariant
            start <= i <= n,
            n == s@.len(),
            start <= 1,
            n > start,
            body == (if s@.len() > 0 && s@[0] == '+' {
                s@.drop_first()
            } else {
                s@
            }),
            body =~= s@.subrange(start as int, n as int),
            all_digit_chars(body.take(i - start)),
            acc == digits_val(body.take(i - start)),
        decreases n - i,
    {
        let c = s.get_char(i);
        let u: u32 = c as u32;
        proof {
            assert(body[i - start] == c);
        }
        if !(48 <= u && u <= 57) {
            proof {
                assert(!is_digit_char(body[i - start]));
            }
            return None;
        }
        let d: u64 = (u - 48) as u64;
        let ghost prev = body.take(i - start);
        proof {
            assert(body.take(i - start + 1).drop_last() =~= prev);
            assert(body.take(i - start + 1).last() == c);
            assert(digits_val(body.take(i - start + 1)) == digits_val(prev) * 10 + digit_val(c));
            assert(all_digit_chars(prev + seq![c]));
            assert(body.take(i - start + 1) =~= prev + seq![c]);
        }
        let shifted = match acc.checked_mul(10) {
            Some(v) => v,
            None => {
                proof {
                    assert(digits_val(body.take(i - start + 1)) > u64::MAX);
                    lemma_digits_val_prefix_monotonic(body, i - start + 1, body.len() as int);
                    assert(body.take(body.len() as int) =~= body);
                }
                return None;
            },
        };
        acc = match shifted.checked_add(d) {
            Some(v) => v,
            None => {
                proof {
                    assert(digits_val(body.take(i - start + 1)) > u64::MAX);
                    lemma_digits_val_prefix_monotonic(body, i - start + 1, body.len() as int);
                    assert(body.take(body.len() as int) =~= body);
                }
                return None;
            },
        };
        i = i + 1;
    }
    proof {
        assert(body.take(i - start) =~= body);
    }
    Some(acc)
}

} // verus!
