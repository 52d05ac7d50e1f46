//! Exact non-negative decimal numbers, as written in duration literals.
use vstd::prelude::*;

use crate::strings::{append_string, copy_string, is_digit, push_char, string_from_range};

verus! {

/// A non-negative decimal number kept exactly as digits: `whole` holds the integer digits without
/// leading zeros (`0` for zero), `fraction` the fractional digits without trailing zeros.
#[derive(Debug, Clone, PartialEq, Eq)]
pub struct Decimal {
    pub whole: String,
    pub fraction: String,
}

/// Every character is an ASCII digit.
pub open spec fn all_digits(s: Seq<char>) -> bool {
    forall|i: int| 0 <= i < s.len() ==> is_digit(#[trigger] s[i])
}

/// Integer digits in canonical form: non-empty, and no leading zero unless it is the only digit.
pub open spec fn canonical_whole(s: Seq<char>) -> bool {
    &&& s.len() > 0
    &&& all_digits(s)
    &&& (s.len() > 1 ==> s[0] != '0')
}

/// Fractional digits in canonical form: no trailing zero.
pub open spec fn canonical_fraction(s: Seq<char>) -> bool {
    &&& all_digits(s)
    &&& (s.len() > 0 ==> s.last() != '0')
}

/// `digits` without its trailing zeros.
pub open spec fn trim_trailing_zeros(digits: Seq<char>) -> Seq<char>
    decreases digits.len(),
{
    if digits.len() > 0 && digits.last() == '0' {
        trim_trailing_zeros(digits.drop_last())
    } else {
        digits
    }
}

impl Decimal {
    pub open spec fn wf(&self) -> bool {
        canonical_whole(self.whole@) && canonical_fraction(self.fraction@)
    }

    pub open spec fn spec_is_zero(&self) -> bool {
        self.whole@ == seq!['0'] && self.fraction@.len() == 0
    }

    /// The shortest rendering: the integer digits, then `.` and the fractional digits if any.
    pub open spec fn rendering(&self) -> Seq<char> {
        if self.fraction@.len() == 0 {
            self.whole@
        } else {
            self.whole@ + seq!['.'] + self.fraction@
        }
    }

    /// Zero.
    pub fn zero() -> (r: Decimal)
        ensures
            r.spec_is_zero(),
            r.wf(),
    {
        let mut whole = String::new();
        push_char(&mut whole, '0');
        Decimal { whole, fraction: String::new() }
    }

    /// The number written with the integer digits `s[whole_from..whole_to]` and the fractional
    /// digits `s[frac_from..frac_to]`; trailing zeros of the fraction are dropped.
    pub fn from_digits(
        s: &[char],
        whole_from: usize,
        whole_to: usize,
        frac_from: usize,
        frac_to: usize,
    ) -> (r: Decimal)
        requires
            whole_from <= whole_to <= s.len(),
            frac_from <= frac_to <= s.len(),
        ensures
            r.whole@ == s@.subrange(whole_from as int, whole_to as int),
            r.fraction@ == trim_trailing_zeros(s@.subrange(frac_from as int, frac_to as int)),
    {
        let whole = string_from_range(s, whole_from, whole_to);
        let mut end = frac_to;
        while end > frac_from && s[end - 1] == '0'
            invariant
                frac_from <= end <= frac_to <= s.len(),
                trim_trailing_zeros(s@.subrange(frac_from as int, end as int))
                    == trim_trailing_zeros(s@.subrange(frac_from as int, frac_to as int)),
            decreases end,
        {
            assert(s@.subrange(frac_from as int, end as int).drop_last() =~= s@.subrange(
                frac_from as int,
                end - 1,
            ));
            end = end - 1;
        }
        let fraction = string_from_range(s, frac_from, end);
        Decimal { whole, fraction }
    }

    pub fn is_zero(&self) -> (r: bool)
        ensures
            r == self.spec_is_zero(),
    {
        let w = self.whole.as_str();
        let f = self.fraction.as_str();
        let wl = w.unicode_len();
        let fl = f.unicode_len();
        if wl == 1 && fl == 0 {
            let c = w.get_char(0);
            if c == '0' {
                assert(self.whole@ =~= seq!['0']);
                true
            } else {
                false
            }
        } else {
            false
        }
    }

    /// The shortest decimal rendering, e.g. `2.5` or `4444`.
    pub fn render(&self) -> (r: String)
        ensures
            r@ == self.rendering(),
    {
        let mut r = copy_string(&self.whole);
        if self.fraction.as_str().unicode_len() > 0 {
            push_char(&mut r, '.');
            append_string(&mut r, &self.fraction);
        }
        r
    }
}

impl Default for Decimal {
    fn default() -> (r: Decimal)
        ensures
            r.spec_is_zero(),
    {
        Decimal::zero()
    }
}

} // verus!
