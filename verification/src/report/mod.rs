//! Report rendering helpers.
pub mod interactive;
pub mod markdown;
pub mod terminal;

use vstd::prelude::*;

use crate::error::LockpickError;
use crate::i18n::I18n;
use crate::text::{dec, push_str, push_u64};
use crate::AnalysisResult;

verus! {

/// Writes an analysis result out in some form.
pub trait Reporter {
    fn report(&self, result: &AnalysisResult, i18n: &I18n) -> Result<(), LockpickError>;
}

/// A reporter that writes nothing, for when the report goes to a file.
pub struct NoopReporter;

impl Reporter for NoopReporter {
    fn report(&self, result: &AnalysisResult, i18n: &I18n) -> (r: Result<(), LockpickError>)
        ensures
            r is Ok,
    {
        Ok(())
    }
}

/// `num / den` rounded to the nearest whole number, a tie going to the
/// even neighbour.
pub open spec fn round_half_even(num: nat, den: nat) -> nat
    recommends
        den > 0,
{
    let q = num / den;
    let r = num % den;
    if 2 * r > den || (2 * r == den && q % 2 == 1) {
        q + 1
    } else {
        q
    }
}

/// `n / unit` written with one decimal.
pub open spec fn one_decimal(n: nat, unit: nat) -> Seq<char> {
    let tenths = round_half_even(10 * n, unit);
    dec(tenths / 10) + "."@ + dec(tenths % 10)
}

/// A byte count as text: `B` below 1 KiB, else KB or MB with one decimal.
pub open spec fn bytes_text(bytes: u64) -> Seq<char> {
    if bytes >= 1048576 {
        one_decimal(bytes as nat, 1048576) + " MB"@
    } else if bytes >= 1024 {
        one_decimal(bytes as nat, 1024) + " KB"@
    } else {
        dec(bytes as nat) + " B"@
    }
}

/// Writes `bytes / unit` with one decimal, rounding to nearest with ties
/// to even (exact for every `u64`).
fn push_one_decimal(s: &mut String, bytes: u64, unit: u64)
    requires
        unit >= 1024,
    ensures
        final(s)@ == old(s)@ + one_decimal(bytes as nat, unit as nat),
{
    let num: u128 = 10 * (bytes as u128);
    let q: u128 = num / (unit as u128);
    let r: u128 = num % (unit as u128);
    assert(q <= num) by (nonlinear_arith)
        requires
            q == num / (unit as u128),
            unit >= 1024,
    ;
    let tenths: u128 = if 2 * r > unit as u128 || (2 * r == unit as u128 && q % 2 == 1) {
        q + 1
    } else {
        q
    };
    assert(tenths == round_half_even(10 * (bytes as nat), unit as nat));
    assert(tenths / 10 <= u64::MAX) by (nonlinear_arith)
        requires
            tenths <= q + 1,
            q <= num,
            num == 10 * (bytes as u128),
            bytes <= u64::MAX,
    ;
    let whole = (tenths / 10) as u64;
    let frac = (tenths % 10) as u64;
    push_u64(s, whole);
    push_str(s, ".");
    push_u64(s, frac);
}

/// Formats a byte count for reports: `500 B`, `2.0 KB`, `1.4 MB`.
pub fn format_bytes(bytes: u64) -> (r: String)
    ensures
        r@ == bytes_text(bytes),
{
    let mut s = String::new();
    if bytes >= 1048576 {
        push_one_decimal(&mut s, bytes, 1048576);
        push_str(&mut s, " MB");
    } else if bytes >= 1024 {
        push_one_decimal(&mut s, bytes, 1024);
        push_str(&mut s, " KB");
    } else {
        push_u64(&mut s, bytes);
        push_str(&mut s, " B");
    }
    s
}

} // verus!
