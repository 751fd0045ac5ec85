use crate::error::Error;
use crate::unit::Unit;
use vstd::prelude::*;

verus! {

/// The largest value a `u64` holds, as a mathematical integer.
pub open spec fn u64_max() -> nat {
    0xffff_ffff_ffff_ffffnat
}

/// `x`, or the largest `u64` if `x` does not fit.
pub open spec fn saturate(x: nat) -> nat {
    if x > u64_max() {
        u64_max()
    } else {
        x
    }
}

/// An ASCII decimal digit.
pub open spec fn is_digit(c: char) -> bool {
    '0' <= c && c <= '9'
}

pub open spec fn digit_value(c: char) -> nat {
    (c as int - '0' as int) as nat
}

/// Positional decimal value of a run of digits, most significant first.
pub open spec fn decimal_value(ds: Seq<char>) -> nat
    decreases ds.len(),
{
    if ds.len() == 0 {
        0
    } else {
        10 * decimal_value(ds.drop_last()) + digit_value(ds.last())
    }
}

/// What the scanner remembers between characters.
pub struct ScanState {
    /// Digits read since the last resolved unit.
    pub digits: Seq<char>,
    /// The unit resolved most recently.
    pub last: Option<Unit>,
    /// Seconds of all resolved groups.
    pub total: nat,
}

pub open spec fn initial_state() -> ScanState {
    ScanState { digits: Seq::empty(), last: None, total: 0 }
}

/// The scanner's reaction to unit `u` in state `st`.
pub open spec fn resolve(st: ScanState, u: Unit) -> Result<ScanState, Error> {
    if st.digits.len() == 0 {
        Err(Error::InvalidData)
    } else {
        let accepted = match st.last {
            None => true,
            Some(p) => p.rank() > u.rank(),
        };
        if accepted {
            Ok(
                ScanState {
                    digits: Seq::empty(),
                    last: Some(u),
                    total: st.total + decimal_value(st.digits) * u.scale(),
                },
            )
        } else if st.last->Some_0.rank() == u.rank() {
            Err(Error::AlreadySeen)
        } else {
            Err(Error::OutOfOrder)
        }
    }
}

/// The scanner's reaction to character `c`; `at_end` tells whether `c` ends the input.
pub open spec fn step(st: ScanState, c: char, at_end: bool) -> Result<ScanState, Error> {
    match Unit::from_suffix_spec(c) {
        Some(u) => resolve(st, u),
        None => if is_digit(c) {
            if at_end || (st.digits.len() == 0 && c == '0') {
                Err(Error::InvalidData)
            } else {
                Ok(ScanState { digits: st.digits.push(c), ..st })
            }
        } else {
            Ok(st)
        },
    }
}

/// The outcome of scanning the first `n` characters of `s`, the first error being final.
pub open spec fn scan_prefix(s: Seq<char>, n: nat) -> Result<ScanState, Error>
    decreases n,
{
    if n == 0 {
        Ok(initial_state())
    } else {
        match scan_prefix(s, (n - 1) as nat) {
            Err(e) => Err(e),
            Ok(st) => step(st, s[n - 1], n == s.len()),
        }
    }
}

/// The exact number of seconds that `s` denotes, or the error it raises.
pub open spec fn parse_spec(s: Seq<char>) -> Result<nat, Error> {
    match scan_prefix(s, s.len()) {
        Ok(st) => Ok(st.total),
        Err(e) => Err(e),
    }
}

/// What `parse_secs` returns for `s`: the total, saturated at `u64::MAX`, or the error.
pub open spec fn parse_outcome(s: Seq<char>) -> Result<u64, Error> {
    match parse_spec(s) {
        Ok(total) => Ok(saturate(total) as u64),
        Err(e) => Err(e),
    }
}

proof fn lemma_error_is_final(s: Seq<char>, k: nat, m: nat)
    requires
        k <= m,
        scan_prefix(s, k) is Err,
    ensures
        scan_prefix(s, m) == scan_prefix(s, k),
    decreases m - k,
{
    if k < m {
        lemma_error_is_final(s, k, (m - 1) as nat);
    }
}

proof fn lemma_saturate_digit(p: nat, d: nat)
    ensures
        saturate(saturate(10 * saturate(p)) + d) == saturate(10 * p + d),
{
    assert(p > u64_max() ==> 10 * p > u64_max()) by (nonlinear_arith);
}

proof fn lemma_saturate_mul(v: nat, k: nat)
    requires
        k >= 1,
    ensures
        saturate(saturate(v) * k) == saturate(v * k),
{
    assert(v > u64_max() ==> v * k >= v) by (nonlinear_arith)
        requires
            k >= 1,
    ;
    assert(v > u64_max() ==> u64_max() * k >= u64_max()) by (nonlinear_arith)
        requires
            k >= 1,
    ;
}

proof fn lemma_saturate_add(a: nat, b: nat)
    ensures
        saturate(saturate(a) + saturate(b)) == saturate(a + b),
{
}

fn saturating_mul(a: u64, b: u64) -> (r: u64)
    ensures
        r as nat == saturate(a as nat * b as nat),
{
    match a.checked_mul(b) {
        Some(x) => x,
        None => u64::MAX,
    }
}

fn chars_of(input: &str) -> (r: Vec<char>)
    ensures
        r@ == input@,
{
    let mut out: Vec<char> = Vec::new();
    for c in it: input.chars()
        invariant
            it.seq() == input@,
            out@ == it.seq().take(it.index() as int),
    {
        out.push(c);
    }
    out
}

/// Parse a duration expression such as `"1h 30m"` into seconds.
///
/// Groups are digits followed by one of `d`, `h`, `m`, `s`, in strictly
/// descending units; other characters are skipped. A total beyond `u64::MAX`
/// saturates there.
pub fn parse_secs(input: &str) -> (r: Result<u64, Error>)
    ensures
        r == parse_outcome(input@),
{
    let chars = chars_of(input);
    let n = chars.len();
    let ghost s = input@;
    let mut pending: Option<u64> = None;
    let mut last: Option<Unit> = None;
    let mut acc: u64 = 0;
    let mut i: usize = 0;
    while i < n
        invariant
            i <= n,
            n == s.len(),
            chars@ == s,
            s == input@,
            scan_prefix(s, i as nat) is Ok,
            ({
                let st = scan_prefix(s, i as nat)->Ok_0;
                &&& pending is None <==> st.digits.len() == 0
                &&& pending is Some ==> pending->Some_0 as nat == saturate(
                    decimal_value(st.digits),
                )
                &&& last == st.last
                &&& acc as nat == saturate(st.total)
            }),
        decreases n - i,
    {
        let ghost st = scan_prefix(s, i as nat)->Ok_0;
        let c = chars[i];
        let at_end = i + 1 == n;
        assert(scan_prefix(s, (i + 1) as nat) == step(st, c, at_end));
        match Unit::from_suffix(c) {
            Some(u) => {
                let v = match pending {
                    None => {
                        proof {
                            lemma_error_is_final(s, (i + 1) as nat, s.len());
                        }
                        return Err(Error::InvalidData);
                    },
                    Some(v) => v,
                };
                match last {
                    Some(p) => {
                        if p.rank_of() <= u.rank_of() {
                            proof {
                                lemma_error_is_final(s, (i + 1) as nat, s.len());
                            }
                            if p.rank_of() == u.rank_of() {
                                return Err(Error::AlreadySeen);
                            } else {
                                return Err(Error::OutOfOrder);
                            }
                        }
                    },
                    None => {},
                }
                let add = saturating_mul(v, u.to_secs());
                proof {
                    lemma_saturate_mul(decimal_value(st.digits), u.scale());
                    lemma_saturate_add(st.total, decimal_value(st.digits) * u.scale());
                }
                acc = acc.saturating_add(add);
                last = Some(u);
                pending = None;
            },
            None => {
                if '0' <= c && c <= '9' {
                    if at_end || (pending.is_none() && c == '0') {
                        proof {
                            lemma_error_is_final(s, (i + 1) as nat, s.len());
                        }
                        return Err(Error::InvalidData);
                    }
                    let p: u64 = match pending {
                        None => 0,
                        Some(p) => p,
                    };
                    let d = (c as u32 - '0' as u32) as u64;
                    let ghost ds = st.digits.push(c);
                    proof {
                        assert(ds.drop_last() == st.digits);
                        lemma_saturate_digit(decimal_value(st.digits), d as nat);
                    }
                    pending = Some(saturating_mul(p, 10).saturating_add(d));
                }
            },
        }
        i += 1;
    }
    Ok(acc)
}

} // verus!
