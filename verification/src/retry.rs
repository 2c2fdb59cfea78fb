//! Recognizing the backoff demand inside a rate-limit reason string.
//!
//! A reason string demands a backoff where it contains "retry after "
//! followed by at least one decimal digit. The demanded interval, in
//! seconds, is the value of the digit run right after the first such
//! occurrence.

use vstd::prelude::*;

verus! {

/// The marker announcing a backoff interval.
pub open spec fn retry_marker() -> Seq<char> {
    seq!['r', 'e', 't', 'r', 'y', ' ', 'a', 'f', 't', 'e', 'r', ' ']
}

/// `c` is an ASCII decimal digit.
pub open spec fn is_digit(c: char) -> bool {
    48 <= c as u32 <= 57
}

/// The value of one ASCII decimal digit.
pub open spec fn digit_val(c: char) -> int {
    c as u32 - 48
}

/// The marker stands at `i` in `s`, with at least one digit right after it.
pub open spec fn match_at(s: Seq<char>, i: int) -> bool {
    &&& 0 <= i
    &&& i + 12 < s.len()
    &&& s.subrange(i, i + 12) == retry_marker()
    &&& is_digit(s[i + 12])
}

/// The leftmost position at or after `i` where the marker stands with a
/// digit after it, if any.
pub open spec fn scan_from(s: Seq<char>, i: int) -> Option<int>
    decreases s.len() - i,
{
    if s.len() <= i + 12 {
        None
    } else if match_at(s, i) {
        Some(i)
    } else {
        scan_from(s, i + 1)
    }
}

/// Where the digit run starting at `j` ends (exclusive).
pub open spec fn digit_run_end(s: Seq<char>, j: int) -> int
    decreases s.len() - j,
{
    if 0 <= j < s.len() && is_digit(s[j]) {
        digit_run_end(s, j + 1)
    } else {
        j
    }
}

/// The decimal value of a digit sequence, most significant digit first.
pub open spec fn digits_value(ds: Seq<char>) -> int
    decreases ds.len(),
{
    if ds.len() == 0 {
        0
    } else {
        digits_value(ds.drop_last()) * 10 + digit_val(ds.last())
    }
}

/// The seconds demanded by the first "retry after N" inside `s`, if any:
/// the value of the whole digit run after the first marker a digit follows.
pub open spec fn retry_after(s: Seq<char>) -> Option<int> {
    match scan_from(s, 0) {
        Some(i) => Some(digits_value(s.subrange(i + 12, digit_run_end(s, i + 12)))),
        None => None,
    }
}

proof fn lemma_run_end(s: Seq<char>, j0: int, j: int)
    requires
        0 <= j0 <= j <= s.len(),
        forall|t: int| #![auto] j0 <= t < j ==> is_digit(s[t]),
        j == s.len() || !is_digit(s[j]),
    ensures
        digit_run_end(s, j0) == j,
    decreases j - j0,
{
    if j0 < j {
        lemma_run_end(s, j0 + 1, j);
    }
}

proof fn lemma_digits_value_step(s: Seq<char>, j0: int, j: int)
    requires
        0 <= j0 <= j < s.len(),
    ensures
        digits_value(s.subrange(j0, j + 1)) == digits_value(s.subrange(j0, j)) * 10 + digit_val(
            s[j],
        ),
{
    let a = s.subrange(j0, j + 1);
    assert(a.drop_last() =~= s.subrange(j0, j));
    assert(a.last() == s[j]);
}

/// One character of the marker.
fn marker_char(k: usize) -> (c: char)
    requires
        k < 12,
    ensures
        c == retry_marker()[k as int],
{
    if k == 0 {
        'r'
    } else if k == 1 {
        'e'
    } else if k == 2 {
        't'
    } else if k == 3 {
        'r'
    } else if k == 4 {
        'y'
    } else if k == 5 {
        ' '
    } else if k == 6 {
        'a'
    } else if k == 7 {
        'f'
    } else if k == 8 {
        't'
    } else if k == 9 {
        'e'
    } else if k == 10 {
        'r'
    } else {
        ' '
    }
}

fn digit_check(c: char) -> (b: bool)
    ensures
        b == is_digit(c),
{
    let v: u32 = c as u32;
    48 <= v && v <= 57
}

fn check_match_at(s: &str, len: usize, i: usize) -> (b: bool)
    requires
        s@.len() == len,
        i + 12 < len,
    ensures
        b == match_at(s@, i as int),
{
    let mut k: usize = 0;
    while k < 12
        invariant
            s@.len() == len,
            i + 12 < len,
            k <= 12,
            forall|t: int| #![auto] 0 <= t < k ==> s@[i + t] == retry_marker()[t],
        decreases 12 - k,
    {
        let c = s.get_char(i + k);
        let p = marker_char(k);
        if c != p {
            proof {
                assert(s@.subrange(i as int, i as int + 12)[k as int] == s@[i + k]);
            }
            return false;
        }
        k += 1;
    }
    proof {
        assert(s@.subrange(i as int, i as int + 12) =~= retry_marker());
    }
    let d = s.get_char(i + 12);
    digit_check(d)
}

/// Find the backoff demand in a reason string: the decimal number after the
/// first "retry after " that a digit follows. `None` where no such pattern
/// occurs, and also where the number does not fit in 64 bits — such a
/// response is then handed back untouched rather than retried.
pub fn parse_retry_after(s: &str) -> (r: Option<u64>)
    ensures
        match retry_after(s@) {
            Some(n) => if n <= u64::MAX {
                r == Some(n as u64)
            } else {
                r is None
            },
            None => r is None,
        },
        r matches Some(v) ==> retry_after(s@) == Some(v as int),
{
    let len = s.unicode_len();
    let mut i: usize = 0;
    let mut found: Option<usize> = None;
    while found.is_none() && i + 12 < len
        invariant
            s@.len() == len,
            i == 0 || i + 12 <= len,
            match found {
                Some(f) => scan_from(s@, 0) == Some(f as int) && f + 12 < len,
                None => scan_from(s@, 0) == scan_from(s@, i as int),
            },
        decreases len - i, (if found is None { 1int } else { 0int }),
    {
        if check_match_at(s, len, i) {
            found = Some(i);
        } else {
            proof {
                assert(scan_from(s@, i as int) == scan_from(s@, i as int + 1));
            }
            i += 1;
        }
    }
    match found {
        None => {
            proof {
                assert(scan_from(s@, i as int) is None);
            }
            None
        },
        Some(f) => {
            let j0 = f + 12;
            let mut j: usize = j0;
            let mut value: u64 = 0;
            let mut over: bool = false;
            while j < len && digit_check(s.get_char(j))
                invariant
                    s@.len() == len,
                    f + 12 < len,
                    j0 == f + 12,
                    j0 <= j <= len,
                    forall|t: int| #![auto] j0 <= t < j ==> is_digit(s@[t]),
                    over ==> digits_value(s@.subrange(j0 as int, j as int)) > u64::MAX,
                    !over ==> value == digits_value(s@.subrange(j0 as int, j as int)),
                decreases len - j,
            {
                let c = s.get_char(j);
                let v: u32 = c as u32;
                let d: u64 = (v - 48) as u64;
                proof {
                    lemma_digits_value_step(s@, j0 as int, j as int);
                }
                if over {
                } else if value > (u64::MAX - d) / 10 {
                    proof {
                        vstd::arithmetic::div_mod::lemma_fundamental_div_mod(
                            (u64::MAX - d) as int,
                            10,
                        );
                    }
                    over = true;
                } else {
                    proof {
                        vstd::arithmetic::div_mod::lemma_fundamental_div_mod(
                            (u64::MAX - d) as int,
                            10,
                        );
                        assert(10 * (value as int) <= 10 * (((u64::MAX - d) / 10) as int));
                    }
                    value = value * 10 + d;
                }
                proof {
                    assert(s@.subrange(j0 as int, j as int + 1).drop_last() =~= s@.subrange(
                        j0 as int,
                        j as int,
                    ));
                }
                j += 1;
            }
            proof {
                lemma_run_end(s@, j0 as int, j as int);
            }
            if over {
                None
            } else {
                Some(value)
            }
        },
    }
}

} // verus!
