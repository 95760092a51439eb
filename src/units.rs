//! Cpu and memory amounts, with addition that saturates at the largest
//! representable amount and subtraction that saturates at zero.
use vstd::prelude::*;

verus! {

/// Addition clamped at `u64::MAX`.
pub open spec fn sat_add(a: u64, b: u64) -> u64 {
    if a + b > u64::MAX {
        u64::MAX
    } else {
        (a + b) as u64
    }
}

/// Subtraction clamped at zero.
pub open spec fn sat_sub(a: u64, b: u64) -> u64 {
    if a >= b {
        (a - b) as u64
    } else {
        0
    }
}

/// The decimal digits of `n`, most significant first, without leading zeros.
pub open spec fn decimal_digits(n: nat) -> Seq<char>
    decreases n,
{
    if n < 10 {
        seq![digit_char(n)]
    } else {
        decimal_digits(n / 10).push(digit_char(n % 10))
    }
}

/// The character of a decimal digit.
pub open spec fn digit_char(d: nat) -> char {
    if d < 10 {
        (('0' as nat) + d) as char
    } else {
        '?'
    }
}

/// The one-character text of a decimal digit.
fn digit_text(d: u64) -> (r: &'static str)
    requires
        d < 10,
    ensures
        r@ == seq![digit_char(d as nat)],
{
    proof {
        reveal_strlit("0");
        reveal_strlit("1");
        reveal_strlit("2");
        reveal_strlit("3");
        reveal_strlit("4");
        reveal_strlit("5");
        reveal_strlit("6");
        reveal_strlit("7");
        reveal_strlit("8");
        reveal_strlit("9");
    }
    let r = if d == 0 {
        "0"
    } else if d == 1 {
        "1"
    } else if d == 2 {
        "2"
    } else if d == 3 {
        "3"
    } else if d == 4 {
        "4"
    } else if d == 5 {
        "5"
    } else if d == 6 {
        "6"
    } else if d == 7 {
        "7"
    } else if d == 8 {
        "8"
    } else {
        "9"
    };
    assert(r@ =~= seq![digit_char(d as nat)]);
    r
}

/// The decimal digits of `n` as text.
fn decimal_text(n: u64) -> (r: String)
    ensures
        r@ == decimal_digits(n as nat),
    decreases n,
{
    let last = digit_text(n % 10);
    if n < 10 {
        String::from_str(last)
    } else {
        let prefix = decimal_text(n / 10);
        let r = prefix.concat(last);
        assert(r@ =~= decimal_digits(n as nat));
        r
    }
}

/// Relies on `bytesize::ByteSize::to_string_as` with binary (1024-based)
/// units: a count under one kibibyte reads as its decimal digits followed by
/// `" B"`; a larger count ends in a binary unit, `"iB"`. Which unit and how
/// many digits a larger count gets rests on floating-point logarithms and is
/// not stated.
#[verifier::external_body]
fn binary_size(bytes: u64) -> (r: String)
    ensures
        bytes < 1024 ==> r@ == decimal_digits(bytes as nat) + seq![' ', 'B'],
        bytes >= 1024 ==> r@.len() >= 2 && r@[r@.len() - 2] == 'i' && r@[r@.len() - 1] == 'B',
{
    bytesize::ByteSize(bytes).to_string_as(true)
}

/// Processor time in milli-cores.
#[derive(Debug, Clone, Copy, PartialEq, Eq, Structural)]
pub struct Cpu(pub u64);

/// Memory in bytes.
#[derive(Debug, Clone, Copy, PartialEq, Eq, Structural)]
pub struct Memory(pub u64);

impl Cpu {
    /// Difference clamped at zero.
    pub fn saturating_sub(self, rhs: Self) -> (r: Self)
        ensures
            r.0 == sat_sub(self.0, rhs.0),
            r.0 <= self.0,
            rhs.0 >= self.0 ==> r.0 == 0,
    {
        Cpu(self.0.saturating_sub(rhs.0))
    }

    /// Sum clamped at `u64::MAX`.
    pub fn add(self, rhs: Self) -> (r: Self)
        ensures
            r.0 == sat_add(self.0, rhs.0),
    {
        Cpu(self.0.saturating_add(rhs.0))
    }

    pub fn to_milliseconds(self) -> (r: u64)
        ensures
            r == self.0,
    {
        self.0
    }

    /// The amount as text: its decimal digits followed by `m`.
    pub fn to_text(self) -> (r: String)
        ensures
            r@ == decimal_digits(self.0 as nat).push('m'),
    {
        let digits = decimal_text(self.0);
        let r = digits.concat("m");
        proof {
            reveal_strlit("m");
            assert(r@ =~= decimal_digits(self.0 as nat).push('m'));
        }
        r
    }
}

impl From<u64> for Cpu {
    fn from(value: u64) -> (r: Self)
        ensures
            r.0 == value,
    {
        Cpu(value)
    }
}

impl vstd::std_specs::convert::FromSpecImpl<u64> for Cpu {
    open spec fn obeys_from_spec() -> bool {
        true
    }

    open spec fn from_spec(v: u64) -> Cpu {
        Cpu(v)
    }
}

impl Memory {
    /// Difference clamped at zero.
    pub fn saturating_sub(self, rhs: Self) -> (r: Self)
        ensures
            r.0 == sat_sub(self.0, rhs.0),
            r.0 <= self.0,
            rhs.0 >= self.0 ==> r.0 == 0,
    {
        Memory(self.0.saturating_sub(rhs.0))
    }

    /// Sum clamped at `u64::MAX`.
    pub fn add(self, rhs: Self) -> (r: Self)
        ensures
            r.0 == sat_add(self.0, rhs.0),
    {
        Memory(self.0.saturating_add(rhs.0))
    }

    pub fn to_bytes(self) -> (r: u64)
        ensures
            r == self.0,
    {
        self.0
    }

    /// The amount as binary-scaled text (`"512.0 MiB"`).
    pub fn to_text(self) -> (r: String)
        ensures
            self.0 < 1024 ==> r@ == decimal_digits(self.0 as nat) + seq![' ', 'B'],
            self.0 >= 1024 ==> r@.len() >= 2 && r@[r@.len() - 2] == 'i' && r@[r@.len() - 1] == 'B',
    {
        binary_size(self.0)
    }
}

} // verus!
