use vstd::prelude::*;

use crate::attribute::AttrValue;
use crate::error::Error;
use crate::text::{decimal_text, string_of, lemma_decimal_roundtrip, parse_decimal, parse_decimal_chars, push_decimal};

verus! {

/// A span of time: whole seconds and the nanoseconds of the last second.
#[derive(Debug, Clone, Copy, PartialEq, Eq, Structural, PartialOrd, Ord, Hash)]
pub struct Duration {
    secs: u64,
    nanos: u32,
}

/// One second in nanoseconds.
pub const NANOS_PER_SEC: u32 = 1_000_000_000;

/// How a span of `n` nanoseconds is shown in messages: in seconds (`8.4s`) from one
/// second on, else in milliseconds (`500ms`), microseconds (`1.5µs`) or nanoseconds
/// (`0ns`), each as a decimal number without trailing zeros.
#[verifier::opaque]
pub open spec fn duration_debug(n: nat) -> Seq<char> {
    let secs = n / 1_000_000_000;
    let sub = n % 1_000_000_000;
    if secs > 0 {
        decimal_text(secs, sub) + seq!['s']
    } else if sub >= 1_000_000 {
        decimal_text(sub / 1_000_000, (sub % 1_000_000) * 1000) + seq!['m', 's']
    } else if sub >= 1000 {
        decimal_text(sub / 1000, (sub % 1000) * 1_000_000) + seq!['µ', 's']
    } else {
        decimal_text(sub, 0) + seq!['n', 's']
    }
}

impl Duration {
    #[verifier::type_invariant]
    spec fn inv(self) -> bool {
        self.nanos < NANOS_PER_SEC
    }

    /// The whole seconds.
    pub closed spec fn secs(self) -> nat {
        self.secs as nat
    }

    /// The nanoseconds of the last, partial second.
    pub closed spec fn nanos(self) -> nat {
        self.nanos as nat
    }

    /// The whole span in nanoseconds.
    pub open spec fn total_nanos(self) -> nat {
        self.secs() * 1_000_000_000 + self.nanos()
    }

    /// The duration of `secs` seconds and `nanos` nanoseconds.
    pub closed spec fn spec_new(secs: nat, nanos: nat) -> Duration {
        Duration { secs: secs as u64, nanos: nanos as u32 }
    }

    /// The text of the duration in seconds, as a decimal number (`5`, `9.009`).
    pub open spec fn spec_to_string(self) -> Seq<char> {
        decimal_text(self.secs(), self.nanos())
    }

    /// The duration that the decimal number `s` denotes in seconds.
    pub open spec fn spec_parse(s: Seq<char>) -> Option<Duration> {
        match parse_decimal(s) {
            Some((a, b)) => Some(Duration::spec_new(a, b)),
            None => None,
        }
    }

    /// `spec_new` gives back the parts it was given.
    pub proof fn lemma_spec_new(secs: nat, nanos: nat)
        requires
            secs <= u64::MAX,
            nanos < 1_000_000_000,
        ensures
            Duration::spec_new(secs, nanos).secs() == secs,
            Duration::spec_new(secs, nanos).nanos() == nanos,
    {
    }

    /// The whole seconds of a duration fit in 64 bits.
    pub proof fn lemma_secs_bound(d: Duration)
        ensures
            d.secs() <= u64::MAX,
    {
    }

    /// Two durations with the same parts are equal.
    pub proof fn lemma_ext(a: Duration, b: Duration)
        requires
            a.secs() == b.secs(),
            a.nanos() == b.nanos(),
        ensures
            a == b,
    {
    }

    /// Makes a duration of `secs` seconds and `nanos` nanoseconds; nanoseconds beyond a
    /// second carry into the seconds.
    pub fn new(secs: u64, nanos: u32) -> (res: Duration)
        requires
            secs + nanos / 1_000_000_000 <= u64::MAX,
        ensures
            res.secs() == secs + nanos / 1_000_000_000,
            res.nanos() == nanos % 1_000_000_000,
    {
        Duration { secs: secs + (nanos / NANOS_PER_SEC) as u64, nanos: nanos % NANOS_PER_SEC }
    }

    /// A duration of `secs` seconds.
    pub fn from_secs(secs: u64) -> (res: Duration)
        ensures
            res.secs() == secs,
            res.nanos() == 0,
    {
        Duration { secs, nanos: 0 }
    }

    /// A duration of `millis` milliseconds.
    pub fn from_millis(millis: u64) -> (res: Duration)
        ensures
            res.secs() == millis / 1000,
            res.nanos() == (millis % 1000) * 1_000_000,
    {
        Duration { secs: millis / 1000, nanos: ((millis % 1000) as u32) * 1_000_000 }
    }

    /// The whole seconds.
    pub fn as_secs(&self) -> (res: u64)
        ensures
            res == self.secs(),
    {
        self.secs
    }

    /// The nanoseconds of the last, partial second.
    pub fn subsec_nanos(&self) -> (res: u32)
        ensures
            res == self.nanos(),
            res < 1_000_000_000,
    {
        proof {
            use_type_invariant(self);
        }
        self.nanos
    }

    /// The zero duration.
    pub fn zero() -> (res: Duration)
        ensures
            res.secs() == 0,
            res.nanos() == 0,
    {
        Duration { secs: 0, nanos: 0 }
    }

    /// Whether `self` is longer than `other`.
    pub fn is_longer_than(&self, other: &Duration) -> (res: bool)
        ensures
            res == (self.total_nanos() > other.total_nanos()),
    {
        proof {
            use_type_invariant(self);
            use_type_invariant(other);
        }
        self.secs > other.secs || (self.secs == other.secs && self.nanos > other.nanos)
    }

    /// The sum of two durations, if it does not overflow.
    pub fn checked_add(&self, other: &Duration) -> (res: Option<Duration>)
        ensures
            res matches Some(d) ==> d.total_nanos() == self.total_nanos() + other.total_nanos(),
            res is None <==> self.secs() + other.secs() + (self.nanos() + other.nanos())
                / 1_000_000_000 > u64::MAX,
    {
        proof {
            use_type_invariant(self);
            use_type_invariant(other);
        }
        let n = self.nanos + other.nanos;
        let carry: u64 = if n >= NANOS_PER_SEC {
            1
        } else {
            0
        };
        if self.secs > u64::MAX - other.secs || self.secs + other.secs > u64::MAX - carry {
            return None;
        }
        Some(Duration { secs: self.secs + other.secs + carry, nanos: n % NANOS_PER_SEC })
    }

    /// Appends the text of the duration as it is shown in messages (see
    /// [`duration_debug`]) to `out`.
    pub fn write_debug(&self, out: &mut Vec<char>)
        ensures
            final(out)@ == old(out)@ + duration_debug(self.total_nanos()),
    {
        proof {
            use_type_invariant(self);
        }
        let ghost n = self.total_nanos();
        let ghost o0 = out@;
        assert(n / 1_000_000_000 == self.secs() && n % 1_000_000_000 == self.nanos()) by (nonlinear_arith)
            requires
                n == self.secs() * 1_000_000_000 + self.nanos(),
                self.nanos() < 1_000_000_000,
        ;
        if self.secs > 0 {
            push_decimal(out, self.secs, self.nanos);
            out.push('s');
        } else if self.nanos >= 1_000_000 {
            push_decimal(out, (self.nanos / 1_000_000) as u64, (self.nanos % 1_000_000) * 1000);
            out.push('m');
            out.push('s');
        } else if self.nanos >= 1000 {
            push_decimal(out, (self.nanos / 1000) as u64, (self.nanos % 1000) * 1_000_000);
            out.push('µ');
            out.push('s');
        } else {
            push_decimal(out, self.nanos as u64, 0);
            out.push('n');
            out.push('s');
        }
        assert(out@ =~= o0 + duration_debug(n)) by {
            reveal(duration_debug);
        }
    }

    /// Appends the text of the duration to `out`.
    pub fn write(&self, out: &mut Vec<char>)
        ensures
            final(out)@ == old(out)@ + self.spec_to_string(),
    {
        push_decimal(out, self.secs, self.nanos);
    }

    /// Parses a duration in seconds from a decimal number.
    pub fn parse_chars(v: &Vec<char>) -> (res: Option<Duration>)
        ensures
            res == Duration::spec_parse(v@),
    {
        match parse_decimal_chars(v) {
            Some((a, b)) => {
                assert(b < NANOS_PER_SEC) by {
                    crate::text::lemma_parse_decimal_range(v@);
                }
                Some(Duration { secs: a, nanos: b })
            },
            None => None,
        }
    }
}

/// The duration parsed from the text of a duration is that duration.
pub proof fn lemma_duration_roundtrip(d: Duration)
    requires
        d.nanos() < 1_000_000_000,
        d.secs() <= u64::MAX,
    ensures
        Duration::spec_parse(d.spec_to_string()) == Some(d),
{
    lemma_decimal_roundtrip(d.secs(), d.nanos());
    Duration::lemma_ext(Duration::spec_new(d.secs(), d.nanos()), d);
}

/// The zero duration is the default one.
impl Default for Duration {
    fn default() -> (res: Duration)
        ensures
            res.secs() == 0 && res.nanos() == 0,
    {
        Duration { secs: 0, nanos: 0 }
    }
}

impl AttrValue for Duration {
    open spec fn spec_value(s: Seq<char>) -> Option<Duration> {
        Duration::spec_parse(s)
    }

    fn parse_value(v: &Vec<char>) -> (res: Result<Duration, Error>) {
        match Duration::parse_chars(v) {
            Some(d) => Ok(d),
            None => Err(Error::ParseFloatError { input: string_of(v) }),
        }
    }
}

} // verus!
