//! Numbers that are carried exactly without arithmetic on them, and instants.

use vstd::prelude::*;

use crate::outside;

verus! {

// ── Binary64 numbers ─────────────────────────────────────────

/// A binary64 number, held by its IEEE 754 bit pattern.
///
/// The library stores and compares such numbers. It never computes with them.
#[derive(Debug, Clone, Copy, PartialEq, Eq, Structural)]
pub struct Real {
    pub bits: u64,
}

impl Real {
    /// The bit pattern without its sign.
    pub open spec fn magnitude(self) -> int {
        self.bits as int % 0x8000_0000_0000_0000
    }

    /// No number at all: the exponent is all ones and the fraction is not zero.
    pub open spec fn is_nan(self) -> bool {
        self.magnitude() > 0x7FF0_0000_0000_0000
    }

    /// A position on the number line that orders the numbers as their values do.
    /// Both zeros are at 0.
    pub open spec fn rank(self) -> int {
        if self.bits < 0x8000_0000_0000_0000 {
            self.magnitude()
        } else {
            -self.magnitude()
        }
    }

    /// IEEE 754 `self >= other`: false as soon as one of them is no number.
    pub open spec fn ge(self, other: Real) -> bool {
        !self.is_nan() && !other.is_nan() && self.rank() >= other.rank()
    }

    /// IEEE 754 `self < other`: false as soon as one of them is no number.
    pub open spec fn lt(self, other: Real) -> bool {
        !self.is_nan() && !other.is_nan() && self.rank() < other.rank()
    }

    /// Whether this is at least `other`.
    pub fn at_least(&self, other: &Real) -> (b: bool)
        ensures
            b == self.ge(*other),
    {
        if nan_bits(self.bits) || nan_bits(other.bits) {
            return false;
        }
        let half: u64 = 0x8000_0000_0000_0000;
        if self.bits < half {
            other.bits >= half || self.bits >= other.bits
        } else {
            if other.bits < half {
                self.bits == half && other.bits == 0
            } else {
                self.bits <= other.bits
            }
        }
    }

    /// Whether this is less than `other`.
    pub fn less_than(&self, other: &Real) -> (b: bool)
        ensures
            b == self.lt(*other),
    {
        !nan_bits(self.bits) && !nan_bits(other.bits) && !self.at_least(other)
    }
}

fn nan_bits(bits: u64) -> (b: bool)
    ensures
        b == (Real { bits }).is_nan(),
{
    bits % 0x8000_0000_0000_0000 > 0x7FF0_0000_0000_0000
}

// ── Instants ─────────────────────────────────────────────────

/// The earliest second a calendar date can be given for.
pub const FIRST_SECOND: i64 = -8_334_601_228_800;

/// The latest second a calendar date can be given for.
pub const LAST_SECOND: i64 = 8_210_266_876_799;

/// `seconds` since the epoch and `nanos` behind it name an instant. A leap second
/// extends the last second of a minute.
pub open spec fn is_instant(seconds: i64, nanos: u32) -> bool {
    &&& FIRST_SECOND <= seconds <= LAST_SECOND
    &&& nanos < 1_000_000_000 || (nanos < 2_000_000_000 && seconds as int % 60 == 59)
}

/// An instant in UTC.
#[derive(Debug, Clone, Copy)]
pub struct Timestamp {
    seconds: i64,
    nanos: u32,
}

impl Timestamp {
    #[verifier::type_invariant]
    spec fn is_valid(self) -> bool {
        is_instant(self.seconds, self.nanos)
    }

    /// Seconds since the epoch and nanoseconds behind the second.
    pub closed spec fn parts(self) -> (i64, u32) {
        (self.seconds, self.nanos)
    }

    /// The instant `nanos` behind the second `seconds` after the epoch.
    pub fn from_parts(seconds: i64, nanos: u32) -> (r: Option<Timestamp>)
        ensures
            r is Some <==> is_instant(seconds, nanos),
            r matches Some(t) ==> t.parts() == (seconds, nanos),
    {
        if seconds < FIRST_SECOND || seconds > LAST_SECOND {
            return None;
        }
        if nanos < 1_000_000_000 || (nanos < 2_000_000_000 && last_of_minute(seconds)) {
            return Some(Timestamp { seconds, nanos });
        }
        None
    }

    /// Seconds since the epoch.
    pub fn seconds(&self) -> (r: i64)
        ensures
            r == self.parts().0,
    {
        self.seconds
    }

    /// Nanoseconds behind the second.
    pub fn nanos(&self) -> (r: u32)
        ensures
            r == self.parts().1,
    {
        self.nanos
    }

    /// The instant in RFC 3339 notation.
    pub fn to_rfc3339(&self) -> (r: String)
        ensures
            r@ == outside::rfc3339(self.parts().0, self.parts().1),
    {
        proof {
            use_type_invariant(self);
        }
        outside::instant_text(self.seconds, self.nanos)
    }

    /// The instant that `text` names in the notation `layout`, or `fallback` where
    /// it names none.
    pub fn read_or(text: &str, layout: &str, fallback: Timestamp) -> (r: Timestamp)
        ensures
            r.parts() == match outside::instant_read(text@, layout@) {
                Some(p) => p,
                None => fallback.parts(),
            },
    {
        match outside::parse_instant(text, layout) {
            Some((seconds, nanos)) => Timestamp { seconds, nanos },
            None => fallback,
        }
    }
}

/// Whether the second is the last one of a minute.
fn last_of_minute(seconds: i64) -> (b: bool)
    requires
        FIRST_SECOND <= seconds,
    ensures
        b == (seconds as int % 60 == 59),
{
    // The shift is a whole number of minutes.
    let shifted: i64 = if seconds < 0 {
        seconds + 8_334_601_228_800
    } else {
        seconds
    };
    shifted % 60 == 59
}

// ── Narrowing ────────────────────────────────────────────────

/// The low 32 bits.
pub fn low_u32(x: i64) -> (r: u32)
    ensures
        r as int == x as int % 0x1_0000_0000,
{
    assert((x as u32) as int == (x as int) % 0x1_0000_0000) by (bit_vector);
    #[verifier::truncate]
    (x as u32)
}

/// The low 32 bits of a count.
pub fn low_u32_of(n: usize) -> (r: u32)
    ensures
        r as int == n as int % 0x1_0000_0000,
{
    low_half(n as u64)
}

/// The low 32 bits.
pub fn low_half(x: u64) -> (r: u32)
    ensures
        r as int == x as int % 0x1_0000_0000,
{
    assert((x as u32) as int == (x as int) % 0x1_0000_0000) by (bit_vector);
    #[verifier::truncate]
    (x as u32)
}

/// The 64 bits read as a signed number.
pub open spec fn signed_value(x: int) -> int {
    if x < 0x8000_0000_0000_0000 {
        x
    } else {
        x - 0x1_0000_0000_0000_0000
    }
}

/// The same 64 bits with a sign.
pub fn signed(x: u64) -> (r: i64)
    ensures
        r as int == signed_value(x as int),
{
    assert((x as i64) as int == (if x < 0x8000_0000_0000_0000u64 {
        x as int
    } else {
        x as int - 0x1_0000_0000_0000_0000
    })) by (bit_vector);
    #[verifier::truncate]
    (x as i64)
}

/// The same 64 bits without a sign.
pub fn unsigned(x: i64) -> (r: u64)
    ensures
        r as int == x as int % 0x1_0000_0000_0000_0000,
{
    assert((x as u64) as int == (x as int) % 0x1_0000_0000_0000_0000) by (bit_vector);
    #[verifier::truncate]
    (x as u64)
}

}
