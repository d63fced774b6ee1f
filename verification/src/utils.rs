use vstd::prelude::*;
use vstd::string::StringExecFns;

verus! {

/// The character for one decimal digit.
pub open spec fn digit_char(d: int) -> char {
    if d == 0 {
        '0'
    } else if d == 1 {
        '1'
    } else if d == 2 {
        '2'
    } else if d == 3 {
        '3'
    } else if d == 4 {
        '4'
    } else if d == 5 {
        '5'
    } else if d == 6 {
        '6'
    } else if d == 7 {
        '7'
    } else if d == 8 {
        '8'
    } else {
        '9'
    }
}

/// The decimal notation of a number, most significant digit first, without
/// leading zeros (a lone zero for zero).
pub open spec fn spec_decimal(n: nat) -> Seq<char>
    decreases n,
{
    if n < 10 {
        seq![digit_char(n as int)]
    } else {
        spec_decimal(n / 10) + seq![digit_char((n % 10) as int)]
    }
}

/// A fraction of hundredths rounded to a whole number of hundredths, ties
/// to even.
pub open spec fn round_half_even(num: nat, d: nat) -> nat
    recommends
        d >= 1,
{
    let q = num / d;
    let rem = num % d;
    if 2 * rem > d {
        q + 1
    } else if 2 * rem == d && q % 2 == 1 {
        q + 1
    } else {
        q
    }
}

/// Two decimal digits, zero-padded.
pub open spec fn spec_two_digits(f: nat) -> Seq<char>
    recommends
        f < 100,
{
    seq![digit_char((f / 10) as int), digit_char((f % 10) as int)]
}

/// `value / d` in decimal with exactly two digits after the point, ties
/// rounded to even.
pub open spec fn spec_scaled(value: nat, d: nat) -> Seq<char>
    recommends
        d >= 1,
{
    let whole = value / d;
    let frac = round_half_even((value % d) * 100, d);
    if frac == 100 {
        spec_decimal(whole + 1) + seq!['.'] + spec_two_digits(0)
    } else {
        spec_decimal(whole) + seq!['.'] + spec_two_digits(frac)
    }
}

/// Which unit a byte count is shown in: the largest power of 1024 at or
/// under it, capped at terabytes.
pub open spec fn spec_unit_index(b: nat) -> nat {
    if b < 1024 {
        0
    } else if b < 1048576 {
        1
    } else if b < 1073741824 {
        2
    } else if b < 1099511627776 {
        3
    } else {
        4
    }
}

/// The unit suffix for each power of 1024.
pub open spec fn spec_unit_name(k: nat) -> Seq<char> {
    if k == 0 {
        seq!['B']
    } else if k == 1 {
        seq!['K', 'B']
    } else if k == 2 {
        seq!['M', 'B']
    } else if k == 3 {
        seq!['G', 'B']
    } else {
        seq!['T', 'B']
    }
}

/// A byte count shown for a person: scaled to the largest unit at or under
/// it, with two decimals and the unit's suffix.
pub open spec fn spec_human_bytes(b: nat) -> Seq<char> {
    let k = spec_unit_index(b);
    let d = if k == 0 {
        1nat
    } else if k == 1 {
        1024nat
    } else if k == 2 {
        1048576nat
    } else if k == 3 {
        1073741824nat
    } else {
        1099511627776nat
    };
    spec_scaled(b, d) + seq![' '] + spec_unit_name(k)
}

/// A duration in microseconds shown for a person: whole microseconds below
/// a millisecond, then two-decimal milliseconds, seconds, or minutes.
pub open spec fn spec_human_us(us: nat) -> Seq<char> {
    if us < 1000 {
        spec_decimal(us) + seq![' ', 'u', 's']
    } else if us < 1000000 {
        spec_scaled(us, 1000) + seq![' ', 'm', 's']
    } else if us < 60000000 {
        spec_scaled(us, 1000000) + seq![' ', 's']
    } else {
        spec_scaled(us, 60000000) + seq![' ', 'm', 'i', 'n']
    }
}

/// A number in decimal, zero-padded on the left to at least three digits.
pub open spec fn spec_padded3(n: nat) -> Seq<char> {
    if n < 10 {
        seq!['0', '0'] + spec_decimal(n)
    } else if n < 100 {
        seq!['0'] + spec_decimal(n)
    } else {
        spec_decimal(n)
    }
}

/// One decimal digit as a string slice.
fn digit_str(d: u128) -> (s: &'static str)
    requires
        d < 10,
    ensures
        s@ == seq![digit_char(d as int)],
{
    proof {
        reveal_strlit("0");
        reveal_strlit("1");
        reveal_strlit("2");
        reveal_strlit("3");
        reveal_strlit("4");
        reveal_strlit("5");
        reveal_strlit("6");
        reveal_strlit("7");
        reveal_strlit("8");
        reveal_strlit("9");
    }
    let s: &'static str = if d == 0 {
        "0"
    } else if d == 1 {
        "1"
    } else if d == 2 {
        "2"
    } else if d == 3 {
        "3"
    } else if d == 4 {
        "4"
    } else if d == 5 {
        "5"
    } else if d == 6 {
        "6"
    } else if d == 7 {
        "7"
    } else if d == 8 {
        "8"
    } else {
        "9"
    };
    proof {
        assert(s@ =~= seq![digit_char(d as int)]);
    }
    s
}

/// The decimal notation of a number.
pub fn decimal_string(n: u128) -> (s: String)
    ensures
        s@ == spec_decimal(n as nat),
    decreases n,
{
    if n < 10 {
        digit_str(n).to_owned()
    } else {
        proof {
            assert(n / 10 < n) by (nonlinear_arith)
                requires
                    n >= 10,
            ;
        }
        let mut s = decimal_string(n / 10);
        s.append(digit_str(n % 10));
        s
    }
}

/// A number in decimal, zero-padded on the left to at least three digits.
pub fn padded3_string(n: u64) -> (s: String)
    ensures
        s@ == spec_padded3(n as nat),
{
    proof {
        reveal_strlit("00");
        reveal_strlit("0");
    }
    let mut s = String::new();
    if n < 10 {
        s.append("00");
    } else if n < 100 {
        s.append("0");
    }
    let tail = decimal_string(n as u128);
    s.append(tail.as_str());
    proof {
        assert(s@ =~= spec_padded3(n as nat));
    }
    s
}

/// Appends `value / d` with two decimals after the point, ties to even.
fn push_scaled(out: &mut String, value: u128, d: u128)
    requires
        1 <= d <= 1099511627776,
    ensures
        final(out)@ == old(out)@ + spec_scaled(value as nat, d as nat),
{
    let whole = value / d;
    let rem = value % d;
    let num = rem * 100;
    let q = num / d;
    let r = num % d;
    let frac = if 2 * r > d {
        q + 1
    } else if 2 * r == d && q % 2 == 1 {
        q + 1
    } else {
        q
    };
    proof {
        assert(num < 100 * d) by (nonlinear_arith)
            requires
                num == rem * 100,
                rem < d,
                d >= 1,
        ;
        assert(num / d < 100) by (nonlinear_arith)
            requires
                num < 100 * d,
                d >= 1,
        ;
        assert(frac == 100 ==> r > 0 || 2 * r == d);
        assert(frac == 100 ==> num > 0 && rem > 0 && d >= 2);
        assert(d >= 2 ==> value / d <= value / 2) by (nonlinear_arith);
        assert(frac == 100 ==> whole < u128::MAX);
    }
    let shown_whole = if frac == 100 {
        whole + 1
    } else {
        whole
    };
    let shown_frac = if frac == 100 {
        0
    } else {
        frac
    };
    let mut w = decimal_string(shown_whole);
    proof {
        reveal_strlit(".");
    }
    w.append(".");
    w.append(digit_str(shown_frac / 10));
    w.append(digit_str(shown_frac % 10));
    out.append(w.as_str());
    proof {
        assert(final(out)@ =~= old(out)@ + spec_scaled(value as nat, d as nat));
    }
}

/// A byte count shown for a person, as in `1.50 KB`: scaled to the largest
/// power-of-1024 unit at or under it, with two decimals, ties to even.
pub fn bytes_to_human_readable(bytes: u64) -> (s: String)
    ensures
        s@ == spec_human_bytes(bytes as nat),
{
    let b = bytes as u128;
    let (d, unit): (u128, &'static str) = if b < 1024 {
        (1, "B")
    } else if b < 1048576 {
        (1024, "KB")
    } else if b < 1073741824 {
        (1048576, "MB")
    } else if b < 1099511627776 {
        (1073741824, "GB")
    } else {
        (1099511627776, "TB")
    };
    proof {
        reveal_strlit("B");
        reveal_strlit("KB");
        reveal_strlit("MB");
        reveal_strlit("GB");
        reveal_strlit("TB");
        reveal_strlit(" ");
    }
    let mut s = String::new();
    push_scaled(&mut s, b, d);
    s.append(" ");
    s.append(unit);
    proof {
        assert(s@ =~= spec_human_bytes(bytes as nat));
    }
    s
}

/// A duration shown for a person, as in `2.50 ms`: whole microseconds
/// below a millisecond, then two-decimal milliseconds, seconds, or
/// minutes.
pub fn us_to_human_readable(us: u128) -> (s: String)
    ensures
        s@ == spec_human_us(us as nat),
{
    proof {
        reveal_strlit(" us");
        reveal_strlit(" ms");
        reveal_strlit(" s");
        reveal_strlit(" min");
    }
    let mut s = String::new();
    if us < 1000 {
        let mut w = decimal_string(us);
        s.append(w.as_str());
        s.append(" us");
    } else if us < 1000000 {
        push_scaled(&mut s, us, 1000);
        s.append(" ms");
    } else if us < 60000000 {
        push_scaled(&mut s, us, 1000000);
        s.append(" s");
    } else {
        push_scaled(&mut s, us, 60000000);
        s.append(" min");
    }
    proof {
        assert(s@ =~= spec_human_us(us as nat));
    }
    s
}

#[verifier::external_type_specification]
#[verifier::external_body]
pub struct ExInstant(std::time::Instant);

/// Relies on the monotonic clock: a reading of the instant now.  Of the
/// reading nothing can be said.
pub assume_specification[ std::time::Instant::now ]() -> std::time::Instant;

/// Relies on `Instant::saturating_duration_since`: the time between two
/// readings, zero rather than a panic when they are out of order.
pub assume_specification[ std::time::Instant::saturating_duration_since ](
    this: &std::time::Instant,
    earlier: std::time::Instant,
) -> std::time::Duration;

/// Relies on `Duration::as_micros`: the duration in whole microseconds.
pub assume_specification[ std::time::Duration::as_micros ](this: &std::time::Duration) -> u128;

/// A stopwatch that accumulates elapsed wall time over any number of
/// start/stop spans into `duration_us`.
pub struct Timer {
    pub start: std::time::Instant,
    pub end: Option<std::time::Instant>,
    pub is_running: bool,
    /// Microseconds accumulated over all finished spans.
    pub duration_us: u128,
}

impl Timer {
    /// Whether a span is open.
    pub closed spec fn running(&self) -> bool {
        self.is_running
    }

    /// A stopped timer with nothing accumulated.
    pub fn new() -> (t: Self)
        ensures
            !t.running(),
            t.duration_us == 0,
    {
        Timer {
            start: std::time::Instant::now(),
            end: Option::None,
            is_running: false,
            duration_us: 0,
        }
    }

    /// Opens a span at the reading now; a second call while one is open
    /// does nothing — the span keeps its original opening instant.
    pub fn start(&mut self)
        ensures
            final(self).running(),
            final(self).duration_us == old(self).duration_us,
            old(self).running() ==> *final(self) == *old(self),
    {
        if !self.is_running {
            self.start = std::time::Instant::now();
            self.is_running = true;
        }
    }

    /// Closes the open span and adds its length to `duration_us`,
    /// saturating rather than wrapping; with no span open it does nothing.
    pub fn stop(&mut self)
        ensures
            !final(self).running(),
            final(self).duration_us >= old(self).duration_us,
            !old(self).running() ==> final(self).duration_us == old(self).duration_us,
    {
        if self.is_running {
            self.end = Option::Some(std::time::Instant::now());
            self.is_running = false;
            if let Option::Some(end_time) = self.end {
                let us = end_time.saturating_duration_since(self.start).as_micros();
                if us > u128::MAX - self.duration_us {
                    self.duration_us = u128::MAX;
                } else {
                    self.duration_us = self.duration_us + us;
                }
            }
        }
    }
}

} // verus!
