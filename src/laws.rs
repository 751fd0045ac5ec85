//! Properties of `parse_secs` that hold of every input.

use crate::error::Error;
use crate::parse::{
    decimal_value, digit_value, is_digit, parse_outcome, parse_spec, scan_prefix,
    u64_max, ScanState,
};
use crate::unit::Unit;
use vstd::prelude::*;

verus! {

/// The character of decimal digit `d`.
pub open spec fn digit_char(d: nat) -> char {
    ((d + 48) as u8) as char
}

/// The decimal rendering of `n`, without leading zeros.
pub open spec fn decimal_digits(n: nat) -> Seq<char>
    decreases n,
{
    if n < 10 {
        seq![digit_char(n)]
    } else {
        decimal_digits(n / 10).push(digit_char(n % 10))
    }
}

proof fn lemma_decimal_digits(n: nat)
    ensures
        decimal_digits(n).len() >= 1,
        forall|i: int| 0 <= i < decimal_digits(n).len() ==> is_digit(#[trigger] decimal_digits(n)[i]),
        decimal_value(decimal_digits(n)) == n,
        n >= 1 ==> decimal_digits(n)[0] != '0',
    decreases n,
{
    let ds = decimal_digits(n);
    if n < 10 {
        assert(ds.drop_last() =~= Seq::<char>::empty());
        assert(decimal_value(Seq::<char>::empty()) == 0);
        assert(digit_value(digit_char(n)) == n);
        assert(decimal_value(ds) == 10 * decimal_value(ds.drop_last()) + digit_value(ds.last()));
    } else {
        let prev = decimal_digits(n / 10);
        lemma_decimal_digits(n / 10);
        assert(ds.drop_last() =~= prev);
        assert(digit_value(digit_char(n % 10)) == n % 10);
        assert(n == 10 * (n / 10) + n % 10);
        assert(ds.last() == digit_char(n % 10));
        assert(decimal_value(ds) == 10 * decimal_value(prev) + digit_value(ds.last()));
        assert(ds[0] == prev[0]);
    }
}

proof fn lemma_scan_digit_run(ds: Seq<char>, c: char, k: nat)
    requires
        ds.len() >= 1,
        forall|i: int| 0 <= i < ds.len() ==> is_digit(#[trigger] ds[i]),
        ds[0] != '0',
        k <= ds.len(),
    ensures
        scan_prefix(ds.push(c), k) == Ok::<ScanState, Error>(
            ScanState { digits: ds.take(k as int), last: None, total: 0 },
        ),
    decreases k,
{
    let s = ds.push(c);
    if k == 0 {
        assert(ds.take(0) =~= Seq::<char>::empty());
    } else {
        lemma_scan_digit_run(ds, c, (k - 1) as nat);
        assert(s[k - 1] == ds[k - 1]);
        assert(is_digit(ds[k - 1]));
        assert(ds.take((k - 1) as int).push(ds[k - 1]) =~= ds.take(k as int));
    }
}

/// One group of `n` followed by a unit's suffix denotes `n` of that unit, in
/// seconds, for every `n` from 1 up (`0` has a leading zero and is rejected).
pub proof fn lemma_unit_scaling(n: nat, u: Unit)
    requires
        n >= 1,
    ensures
        parse_spec(decimal_digits(n).push(u.suffix())) == Ok::<nat, Error>(n * u.scale()),
        n * u.scale() <= u64_max() ==> parse_outcome(decimal_digits(n).push(u.suffix()))
            == Ok::<u64, Error>((n * u.scale()) as u64),
{
    let ds = decimal_digits(n);
    let s = ds.push(u.suffix());
    lemma_decimal_digits(n);
    lemma_scan_digit_run(ds, u.suffix(), ds.len());
    assert(ds.take(ds.len() as int) =~= ds);
    assert(s[ds.len() as int] == u.suffix());
    assert(scan_prefix(s, s.len()) == Ok::<ScanState, Error>(
        ScanState { digits: Seq::empty(), last: Some(u), total: n * u.scale() },
    ));
}

/// Parsing is pure: the outcome depends on the characters of the input alone,
/// so two calls of `parse_secs` on the same string return the same result.
pub proof fn lemma_parse_is_pure(
    a: Seq<char>,
    b: Seq<char>,
    first: Result<u64, Error>,
    second: Result<u64, Error>,
)
    requires
        a == b,
        first == parse_outcome(a),
        second == parse_outcome(b),
    ensures
        first == second,
{
}

} // verus!
