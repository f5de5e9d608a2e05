//! Scanning helpers over windows `[lo, hi)` of a byte sequence: line ends, ASCII
//! whitespace trimming, case-insensitive comparison, substring search, and
//! unsigned integers in base 10 or 16 with an optional leading `+`.

use vstd::prelude::*;

verus! {

/// ASCII whitespace: space, tab, line feed, vertical tab, form feed, carriage return.
pub open spec fn is_ws(b: u8) -> bool {
    b == 32 || (9 <= b && b <= 13)
}

/// First index `j >= i` holding a line feed, or `d.len()` when there is none.
pub open spec fn next_lf(d: Seq<u8>, i: int) -> int
    decreases d.len() - i,
{
    if i >= d.len() {
        d.len() as int
    } else if d[i] == 10 {
        i
    } else {
        next_lf(d, i + 1)
    }
}

/// First index of `[lo, hi)` that is not whitespace, or `hi`.
pub open spec fn skip_ws(d: Seq<u8>, lo: int, hi: int) -> int
    decreases hi - lo,
{
    if lo < hi && is_ws(d[lo]) {
        skip_ws(d, lo + 1, hi)
    } else {
        lo
    }
}

/// End of `[lo, hi)` once trailing whitespace is removed.
pub open spec fn trim_end(d: Seq<u8>, lo: int, hi: int) -> int
    decreases hi - lo,
{
    if lo < hi && is_ws(d[hi - 1]) {
        trim_end(d, lo, hi - 1)
    } else {
        hi
    }
}

/// First index of `[lo, hi)` that is whitespace, or `hi`.
pub open spec fn token_end(d: Seq<u8>, lo: int, hi: int) -> int
    decreases hi - lo,
{
    if lo < hi && !is_ws(d[lo]) {
        token_end(d, lo + 1, hi)
    } else {
        lo
    }
}

/// First index of `[lo, hi)` holding `b`, or `hi`.
pub open spec fn find_byte(d: Seq<u8>, lo: int, hi: int, b: u8) -> int
    decreases hi - lo,
{
    if lo < hi && d[lo] != b {
        find_byte(d, lo + 1, hi, b)
    } else {
        lo
    }
}

/// ASCII lower case.
pub open spec fn lower(b: u8) -> u8 {
    if 65 <= b && b <= 90 {
        (b + 32) as u8
    } else {
        b
    }
}

/// `[lo, hi)` equals the lower-case `word` when ASCII case is ignored.
pub open spec fn eq_ignore_case(d: Seq<u8>, lo: int, hi: int, word: Seq<u8>) -> bool {
    hi - lo == word.len() && forall|k: int| 0 <= k < word.len() ==> lower(#[trigger] d[lo + k]) == word[k]
}

/// `word` occurs in `d` at `i`.
pub open spec fn occurs_at(d: Seq<u8>, i: int, word: Seq<u8>) -> bool {
    forall|k: int| 0 <= k < word.len() ==> #[trigger] d[i + k] == word[k]
}

/// `word` occurs inside `[lo, hi)`.
pub open spec fn contains(d: Seq<u8>, lo: int, hi: int, word: Seq<u8>) -> bool {
    exists|i: int| lo <= i && i + word.len() <= hi && #[trigger] occurs_at(d, i, word)
}

/// Value of a digit in `radix` (10 or 16), if `b` is one.
pub open spec fn digit_value(b: u8, radix: nat) -> Option<nat> {
    if 48 <= b && b <= 57 {
        Some((b - 48) as nat)
    } else if radix == 16 && 97 <= b && b <= 102 {
        Some((b - 87) as nat)
    } else if radix == 16 && 65 <= b && b <= 70 {
        Some((b - 55) as nat)
    } else {
        None
    }
}

/// Every byte of `[lo, hi)` is a digit in `radix`.
pub open spec fn all_digits(d: Seq<u8>, lo: int, hi: int, radix: nat) -> bool {
    forall|i: int| lo <= i < hi ==> (#[trigger] digit_value(d[i], radix)) is Some
}

/// The number the digits of `[lo, hi)` denote in `radix`.
pub open spec fn digits_value(d: Seq<u8>, lo: int, hi: int, radix: nat) -> nat
    decreases hi - lo,
{
    if hi <= lo {
        0
    } else {
        digits_value(d, lo, hi - 1, radix) * radix + match digit_value(d[hi - 1], radix) {
            Some(v) => v,
            None => 0,
        }
    }
}

/// An unsigned integer in `radix` written in `[lo, hi)`: an optional `+`, then at
/// least one digit, denoting a value no larger than `max`.
pub open spec fn parse_uint(d: Seq<u8>, lo: int, hi: int, radix: nat, max: nat) -> Option<nat> {
    let start = if lo < hi && d[lo] == 43 { lo + 1 } else { lo };
    if start < hi && all_digits(d, start, hi, radix) && digits_value(d, start, hi, radix) <= max {
        Some(digits_value(d, start, hi, radix))
    } else {
        None
    }
}

proof fn lemma_digits_value_grows(d: Seq<u8>, lo: int, i: int, j: int, radix: nat)
    requires
        lo <= i <= j,
        radix >= 2,
        all_digits(d, lo, j, radix),
    ensures
        digits_value(d, lo, i, radix) <= digits_value(d, lo, j, radix),
    decreases j - i,
{
    if i < j {
        lemma_digits_value_grows(d, lo, i, j - 1, radix);
        let v = digits_value(d, lo, j - 1, radix);
        assert(v * radix >= v) by (nonlinear_arith)
            requires
                radix >= 2,
        ;
    }
}

/// Index of the first line feed at or after `i` in `d`, or `d.len()`.
pub fn find_lf(d: &[u8], i: usize) -> (r: usize)
    requires
        i <= d@.len(),
    ensures
        r == next_lf(d@, i as int),
{
    let mut j = i;
    while j < d.len()
        invariant
            i <= j <= d@.len(),
            next_lf(d@, j as int) == next_lf(d@, i as int),
        decreases d@.len() - j,
    {
        if d[j] == 10 {
            return j;
        }
        j = j + 1;
    }
    j
}

fn is_ws_byte(b: u8) -> (r: bool)
    ensures
        r == is_ws(b),
{
    b == 32 || (9 <= b && b <= 13)
}

/// The trimmed window of `[lo, hi)`.
pub fn trim(d: &[u8], lo: usize, hi: usize) -> (r: (usize, usize))
    requires
        lo <= hi <= d@.len(),
    ensures
        r.0 == skip_ws(d@, lo as int, hi as int),
        r.1 == trim_end(d@, r.0 as int, hi as int),
        lo <= r.0 <= r.1 <= hi,
{
    let mut a = lo;
    while a < hi && is_ws_byte(d[a])
        invariant
            lo <= a <= hi <= d@.len(),
            skip_ws(d@, a as int, hi as int) == skip_ws(d@, lo as int, hi as int),
        decreases hi - a,
    {
        a = a + 1;
    }
    let mut b = hi;
    while a < b && is_ws_byte(d[b - 1])
        invariant
            lo <= a <= b <= hi <= d@.len(),
            trim_end(d@, a as int, b as int) == trim_end(d@, a as int, hi as int),
        decreases b - a,
    {
        b = b - 1;
    }
    (a, b)
}

/// The end of the token starting at `lo`.
pub fn find_token_end(d: &[u8], lo: usize, hi: usize) -> (r: usize)
    requires
        lo <= hi <= d@.len(),
    ensures
        r == token_end(d@, lo as int, hi as int),
        lo <= r <= hi,
{
    let mut a = lo;
    while a < hi && !is_ws_byte(d[a])
        invariant
            lo <= a <= hi <= d@.len(),
            token_end(d@, a as int, hi as int) == token_end(d@, lo as int, hi as int),
        decreases hi - a,
    {
        a = a + 1;
    }
    a
}

/// The first index of `[lo, hi)` holding `b`, or `hi`.
pub fn find(d: &[u8], lo: usize, hi: usize, b: u8) -> (r: usize)
    requires
        lo <= hi <= d@.len(),
    ensures
        r == find_byte(d@, lo as int, hi as int, b),
        lo <= r <= hi,
{
    let mut a = lo;
    while a < hi && d[a] != b
        invariant
            lo <= a <= hi <= d@.len(),
            find_byte(d@, a as int, hi as int, b) == find_byte(d@, lo as int, hi as int, b),
        decreases hi - a,
    {
        a = a + 1;
    }
    a
}

fn lower_byte(b: u8) -> (r: u8)
    ensures
        r == lower(b),
{
    if 65 <= b && b <= 90 {
        b + 32
    } else {
        b
    }
}

/// Whether `[lo, hi)` equals the lower-case `word` ignoring ASCII case.
pub fn equals_ignore_case(d: &[u8], lo: usize, hi: usize, word: &[u8]) -> (r: bool)
    requires
        lo <= hi <= d@.len(),
    ensures
        r == eq_ignore_case(d@, lo as int, hi as int, word@),
{
    if hi - lo != word.len() {
        return false;
    }
    let mut k: usize = 0;
    while k < word.len()
        invariant
            hi - lo == word@.len(),
            lo <= hi <= d@.len(),
            k <= word@.len(),
            forall|m: int| 0 <= m < k ==> lower(#[trigger] d@[lo + m]) == word@[m],
        decreases word@.len() - k,
    {
        if lower_byte(d[lo + k]) != word[k] {
            return false;
        }
        k = k + 1;
    }
    true
}

/// Whether `word` occurs inside `[lo, hi)`.
pub fn contains_word(d: &[u8], lo: usize, hi: usize, word: &[u8]) -> (r: bool)
    requires
        lo <= hi <= d@.len(),
    ensures
        r == contains(d@, lo as int, hi as int, word@),
{
    if word.len() > hi - lo {
        return false;
    }
    let last = hi - word.len();
    let mut i = lo;
    while i <= last
        invariant
            lo <= i,
            last + word@.len() == hi,
            hi <= d@.len(),
            forall|j: int| lo <= j < i ==> !#[trigger] occurs_at(d@, j, word@),
        decreases last + 1 - i,
    {
        let mut k: usize = 0;
        while k < word.len() && d[i + k] == word[k]
            invariant
                i <= last,
                last + word@.len() == hi,
                hi <= d@.len(),
                k <= word@.len(),
                forall|m: int| 0 <= m < k ==> #[trigger] d@[i + m] == word@[m],
            decreases word@.len() - k,
        {
            k = k + 1;
        }
        if k == word.len() {
            assert(occurs_at(d@, i as int, word@));
            return true;
        }
        assert(!occurs_at(d@, i as int, word@)) by {
            assert(d@[i + k] != word@[k as int]);
        }
        i = i + 1;
    }
    assert forall|j: int| lo <= j && j + word@.len() <= hi implies !#[trigger] occurs_at(d@, j, word@) by {
    }
    false
}

/// Whether `[lo, hi)` holds exactly `word`.
pub fn equals_bytes(d: &[u8], lo: usize, hi: usize, word: &[u8]) -> (r: bool)
    requires
        lo <= hi <= d@.len(),
    ensures
        r == (hi - lo == word@.len() && occurs_at(d@, lo as int, word@)),
{
    if hi - lo != word.len() {
        return false;
    }
    let mut k: usize = 0;
    while k < word.len()
        invariant
            hi - lo == word@.len(),
            lo <= hi <= d@.len(),
            k <= word@.len(),
            forall|m: int| 0 <= m < k ==> #[trigger] d@[lo + m] == word@[m],
        decreases word@.len() - k,
    {
        if d[lo + k] != word[k] {
            return false;
        }
        k = k + 1;
    }
    true
}

fn digit_of(b: u8, radix: u64) -> (r: Option<u64>)
    requires
        radix == 10 || radix == 16,
    ensures
        match digit_value(b, radix as nat) {
            Some(v) => r == Some(v as u64),
            None => r is None,
        },
{
    if 48 <= b && b <= 57 {
        Some((b - 48) as u64)
    } else if radix == 16 && 97 <= b && b <= 102 {
        Some((b - 87) as u64)
    } else if radix == 16 && 65 <= b && b <= 70 {
        Some((b - 55) as u64)
    } else {
        None
    }
}

/// Parses the unsigned integer written in `[lo, hi)` in `radix`, refusing values
/// above `max`.
pub fn parse_uint_in(d: &[u8], lo: usize, hi: usize, radix: u64, max: u64) -> (r: Option<u64>)
    requires
        lo <= hi <= d@.len(),
        radix == 10 || radix == 16,
    ensures
        match parse_uint(d@, lo as int, hi as int, radix as nat, max as nat) {
            Some(v) => r == Some(v as u64),
            None => r is None,
        },
{
    let start = if lo < hi && d[lo] == 43 { lo + 1 } else { lo };
    if start >= hi {
        return None;
    }
    let mut v: u64 = 0;
    let mut i = start;
    while i < hi
        invariant
            start <= i <= hi <= d@.len(),
            start == (if lo < hi && d@[lo as int] == 43 { lo + 1 } else { lo as int }),
            radix == 10 || radix == 16,
            all_digits(d@, start as int, i as int, radix as nat),
            v == digits_value(d@, start as int, i as int, radix as nat),
            v <= max,
        decreases hi - i,
    {
        match digit_of(d[i], radix) {
            None => {
                return None;
            },
            Some(dv) => {
                proof {
                    assert(digits_value(d@, start as int, i + 1, radix as nat) == v * radix + dv);
                }
                if dv > max || v > (max - dv) / radix {
                    proof {
                        if dv <= max {
                            let q: int = (max - dv) / (radix as int);
                            assert(v * radix + dv > max) by (nonlinear_arith)
                                requires
                                    v > q,
                                    q == (max - dv) / (radix as int),
                                    radix > 0,
                                    dv <= max,
                            ;
                        }
                        if all_digits(d@, start as int, hi as int, radix as nat) {
                            lemma_digits_value_grows(d@, start as int, i + 1, hi as int, radix as nat);
                        }
                    }
                    return None;
                }
                proof {
                    let q: int = (max - dv) / (radix as int);
                    assert(v * radix + dv <= max) by (nonlinear_arith)
                        requires
                            v <= q,
                            q == (max - dv) / (radix as int),
                            radix > 0,
                            dv <= max,
                    ;
                }
                v = v * radix + dv;
                i = i + 1;
            },
        }
    }
    Some(v)
}

} // verus!
