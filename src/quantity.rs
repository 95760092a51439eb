//! Normalisation of resource-quantity strings (`"1500m"`, `"512Mi"`) into
//! unit-less integers.
use vstd::prelude::*;

verus! {

/// Why a quantity string could not be normalised.
#[derive(Debug, Clone, Copy, PartialEq, Eq, Structural)]
pub enum ParseError {
    /// The string does not start with a decimal digit.
    NotANumber,
    /// The text after the digits is not one of the known suffixes.
    UnknownSuffix,
    /// The digits, or the digits scaled by the suffix, exceed `u64::MAX`.
    Overflow,
}

pub open spec fn is_digit(c: char) -> bool {
    '0' <= c && c <= '9'
}

/// The index at which the run of digits starting at `i` ends.
pub open spec fn run_end(s: Seq<char>, i: nat) -> nat
    decreases s.len() - i,
{
    if i < s.len() && is_digit(s[i as int]) {
        run_end(s, i + 1)
    } else {
        i
    }
}

/// Length of the maximal leading run of decimal digits.
pub open spec fn digit_count(s: Seq<char>) -> nat {
    run_end(s, 0)
}

/// The number that a run of decimal digits denotes.
pub open spec fn digits_value(d: Seq<char>) -> nat
    decreases d.len(),
{
    if d.len() == 0 {
        0
    } else {
        digits_value(d.drop_last()) * 10 + (d.last() as nat - '0' as nat) as nat
    }
}

/// `d` scaled by the unit that `suffix` names, or `None` for an unknown suffix.
/// Without a suffix the digits are scaled by a thousand whatever the
/// quantity measures: a unit-less memory amount comes out as a thousand
/// times its byte count.
pub open spec fn scaled(d: nat, suffix: Seq<char>) -> Option<nat> {
    if suffix.len() == 0 {
        Some(d * 1000)
    } else if suffix == seq!['n'] {
        Some(d / 1_000_000)
    } else if suffix == seq!['m'] {
        Some(d)
    } else if suffix == seq!['k'] {
        Some(d * 1_000_000)
    } else if suffix == seq!['K', 'i'] {
        Some(d * 1024)
    } else if suffix == seq!['M', 'i'] {
        Some(d * 1_048_576)
    } else if suffix == seq!['G', 'i'] {
        Some(d * 1_073_741_824)
    } else {
        None
    }
}

/// The normalised value of a quantity string.
pub open spec fn quantity_value(s: Seq<char>) -> Result<u64, ParseError> {
    let k = digit_count(s);
    let d = digits_value(s.subrange(0, k as int));
    if k == 0 {
        Err(ParseError::NotANumber)
    } else if d > u64::MAX {
        Err(ParseError::Overflow)
    } else {
        match scaled(d, s.subrange(k as int, s.len() as int)) {
            None => Err(ParseError::UnknownSuffix),
            Some(v) => if v <= u64::MAX {
                Ok(v as u64)
            } else {
                Err(ParseError::Overflow)
            },
        }
    }
}

proof fn lemma_run_end_bounds(s: Seq<char>, i: nat)
    requires
        i <= s.len(),
    ensures
        i <= run_end(s, i) <= s.len(),
        forall|j: int| i <= j < run_end(s, i) ==> is_digit(s[j]),
        run_end(s, i) < s.len() ==> !is_digit(s[run_end(s, i) as int]),
    decreases s.len() - i,
{
    if i < s.len() && is_digit(s[i as int]) {
        lemma_run_end_bounds(s, i + 1);
    }
}

/// Multiplies `d` by `factor`, reporting overflow.
fn scale(d: u64, factor: u64) -> (r: Result<u64, ParseError>)
    ensures
        d * factor <= u64::MAX ==> r == Ok::<u64, ParseError>((d * factor) as u64),
        d * factor > u64::MAX ==> r == Err::<u64, ParseError>(ParseError::Overflow),
{
    match d.checked_mul(factor) {
        Some(v) => Ok(v),
        None => Err(ParseError::Overflow),
    }
}

/// Normalises a quantity: a leading run of decimal digits, then an optional
/// suffix among `n`, `m`, `k`, `Ki`, `Mi`, `Gi`. Without a suffix the
/// digits are scaled by a thousand.
pub fn quantity_to_number(input: &str) -> (r: Result<u64, ParseError>)
    ensures
        r == quantity_value(input@),
{
    let n = input.unicode_len();
    let mut i: usize = 0;
    let mut d: u64 = 0;
    let mut too_large = false;
    proof {
        lemma_run_end_bounds(input@, 0);
    }
    while i < n && is_ascii_digit(input.get_char(i))
        invariant
            n == input@.len(),
            i <= digit_count(input@),
            run_end(input@, i as nat) == digit_count(input@),
            !too_large ==> d == digits_value(input@.subrange(0, i as int)),
            too_large ==> digits_value(input@.subrange(0, i as int)) > u64::MAX,
        decreases n - i,
    {
        let c = input.get_char(i);
        let v = (c as u32 - '0' as u32) as u64;
        let ghost prev = input@.subrange(0, i as int);
        let ghost next = input@.subrange(0, i + 1);
        proof {
            lemma_run_end_bounds(input@, (i + 1) as nat);
            assert(next.drop_last() =~= prev);
            assert(next.last() == c);
        }
        if !too_large {
            if d > (u64::MAX - v) / 10 {
                too_large = true;
                assert(digits_value(next) > u64::MAX) by (nonlinear_arith)
                    requires
                        digits_value(next) == d * 10 + v,
                        d > (u64::MAX - v) / 10,
                        v <= 9,
                ;
            } else {
                assert(d * 10 + v <= u64::MAX) by (nonlinear_arith)
                    requires
                        d <= (u64::MAX - v) / 10,
                        v <= 9,
                ;
                d = d * 10 + v;
            }
        } else {
            assert(digits_value(next) >= digits_value(prev)) by (nonlinear_arith)
                requires
                    digits_value(next) == digits_value(prev) * 10 + v,
            ;
        }
        i = i + 1;
    }
    let ghost k = digit_count(input@);
    proof {
        lemma_run_end_bounds(input@, i as nat);
        assert(i == k);
    }
    if i == 0 {
        return Err(ParseError::NotANumber);
    }
    if too_large {
        return Err(ParseError::Overflow);
    }
    let ghost suffix = input@.subrange(k as int, n as int);
    let rest = n - i;
    if rest == 0 {
        assert(suffix.len() == 0);
        return scale(d, 1000);
    }
    let c0 = input.get_char(i);
    assert(suffix[0] == c0);
    if rest == 1 {
        if c0 == 'n' {
            assert(suffix =~= seq!['n']);
            return Ok(d / 1_000_000);
        } else if c0 == 'm' {
            assert(suffix =~= seq!['m']);
            return Ok(d);
        } else if c0 == 'k' {
            assert(suffix =~= seq!['k']);
            return scale(d, 1_000_000);
        }
        assert(suffix != seq!['n'] && suffix != seq!['m'] && suffix != seq!['k']) by {
            assert(seq!['n'][0] == 'n' && seq!['m'][0] == 'm' && seq!['k'][0] == 'k');
        }
        return Err(ParseError::UnknownSuffix);
    }
    assert(suffix.len() != 1);
    assert(suffix != seq!['n'] && suffix != seq!['m'] && suffix != seq!['k']);
    if rest == 2 {
        let c1 = input.get_char(i + 1);
        assert(suffix[1] == c1);
        if c1 == 'i' {
            if c0 == 'K' {
                assert(suffix =~= seq!['K', 'i']);
                return scale(d, 1024);
            } else if c0 == 'M' {
                assert(suffix =~= seq!['M', 'i']);
                return scale(d, 1_048_576);
            } else if c0 == 'G' {
                assert(suffix =~= seq!['G', 'i']);
                return scale(d, 1_073_741_824);
            }
        }
        assert(suffix != seq!['K', 'i'] && suffix != seq!['M', 'i'] && suffix != seq![
            'G',
            'i',
        ]) by {
            assert(seq!['K', 'i'][0] == 'K' && seq!['M', 'i'][0] == 'M' && seq!['G', 'i'][0]
                == 'G');
            assert(seq!['K', 'i'][1] == 'i' && seq!['M', 'i'][1] == 'i' && seq!['G', 'i'][1]
                == 'i');
        }
        return Err(ParseError::UnknownSuffix);
    }
    assert(suffix.len() != 2);
    Err(ParseError::UnknownSuffix)
}

/// Whether `c` is a decimal digit.
fn is_ascii_digit(c: char) -> (r: bool)
    ensures
        r == is_digit(c),
{
    '0' <= c && c <= '9'
}

} // verus!
