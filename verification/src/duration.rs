//! Exact, integer-valued time spans.
//!
//! Save documents store best times as integer ticks of 100 nanoseconds.
//! Durations are kept as nanosecond counts wide enough that a single
//! converted tick value can never overflow.

use vstd::prelude::*;

use crate::textparse::{decimal_string_u128, spec_decimal};

verus! {

/// `s` padded at the start with `fill` up to `width` characters.
pub open spec fn spec_pad_start(s: Seq<char>, width: nat, fill: char) -> Seq<char> {
    if s.len() >= width {
        s
    } else {
        Seq::new((width - s.len()) as nat, |i: int| fill) + s
    }
}

/// The timer rendering of a nanosecond count: hours and minutes only when
/// nonzero, seconds with milliseconds, right-aligned in a fixed column.
pub open spec fn spec_formatted(nanos: nat) -> Seq<char> {
    let millis_left = nanos / 1000000;
    let millis = millis_left % 1000;
    let seconds_left = millis_left / 1000;
    let seconds = seconds_left % 60;
    let minutes_left = seconds_left / 60;
    let minutes = minutes_left % 60;
    let hours = minutes_left / 60;
    let with_hours = if hours > 0 {
        spec_pad_start(spec_decimal(hours), 2, ' ') + "h"@
    } else {
        Seq::empty()
    };
    let with_minutes = with_hours + (if with_hours.len() > 0 {
        spec_pad_start(spec_decimal(minutes), 2, '0') + "m"@
    } else if minutes > 0 {
        spec_pad_start(spec_decimal(minutes), 2, ' ') + "m"@
    } else {
        Seq::empty()
    });
    let with_seconds = with_minutes + (if with_minutes.len() > 0 {
        spec_pad_start(spec_decimal(seconds), 2, '0')
    } else if seconds > 0 {
        spec_pad_start(spec_decimal(seconds), 2, ' ')
    } else {
        Seq::empty()
    });
    let with_millis = if with_seconds.len() > 0 || millis > 0 {
        with_seconds + "."@ + spec_pad_start(spec_decimal(millis), 3, '0') + "s"@
    } else {
        with_seconds + "0 "@
    };
    spec_pad_start(with_millis, 13, ' ')
}

/// Pads a rendered number at the start, with zeroes or spaces.
#[verifier::loop_isolation(false)]
fn pad_start(s: String, width: usize, zero: bool) -> (r: String)
    ensures
        r@ == spec_pad_start(
            s@,
            width as nat,
            if zero {
                '0'
            } else {
                ' '
            },
        ),
{
    let ghost fill = if zero {
        '0'
    } else {
        ' '
    };
    let n = s.as_str().unicode_len();
    if n >= width {
        return s;
    }
    let pad: usize = width - n;
    let mut out = String::new();
    let mut i: usize = 0;
    proof {
        reveal_strlit("0");
        reveal_strlit(" ");
        assert(out@ =~= Seq::new(0, |j: int| fill));
    }
    while i < pad
        invariant
            i <= pad,
            out@ == Seq::new(i as nat, |j: int| fill),
        decreases pad - i,
    {
        if zero {
            out.append("0");
        } else {
            out.append(" ");
        }
        proof {
            reveal_strlit("0");
            reveal_strlit(" ");
            assert(out@ =~= Seq::new(i as nat + 1, |j: int| fill));
        }
        i = i + 1;
    }
    out.append(s.as_str());
    out
}

/// A span of game time, exact to the nanosecond.
#[derive(Clone, Copy, Debug, PartialEq, Eq, Structural)]
pub struct Duration {
    pub nanos: u128,
}

impl Duration {
    /// Converts a raw tick count (100 ns units) into a duration by
    /// multiplying by 100 and reading the result as nanoseconds.
    pub fn from_ticks(ticks: u64) -> (r: Duration)
        ensures
            r.nanos == ticks * 100,
    {
        Duration { nanos: (ticks as u128) * 100 }
    }

    /// Builds a duration directly from a nanosecond count.
    pub fn from_nanos(nanos: u128) -> (r: Duration)
        ensures
            r.nanos == nanos,
    {
        Duration { nanos }
    }

    /// Adds two durations, refusing a sum too large to represent.
    pub fn checked_add(self, other: Duration) -> (r: Option<Duration>)
        ensures
            self.nanos + other.nanos <= u128::MAX ==> r == Some(Duration {
                nanos: (self.nanos + other.nanos) as u128,
            }),
            self.nanos + other.nanos > u128::MAX ==> r is None,
    {
        if self.nanos <= u128::MAX - other.nanos {
            Some(Duration { nanos: self.nanos + other.nanos })
        } else {
            None
        }
    }

    /// Renders this duration the way the in-game timer shows times.
    pub fn formatted(&self) -> (r: String)
        ensures
            r@ == spec_formatted(self.nanos as nat),
    {
        let millis_left = self.nanos / 1_000_000;
        let millis = millis_left % 1000;
        let seconds_left = millis_left / 1000;
        let seconds = seconds_left % 60;
        let minutes_left = seconds_left / 60;
        let minutes = minutes_left % 60;
        let hours = minutes_left / 60;
        proof {
            reveal_strlit("h");
            reveal_strlit("m");
            reveal_strlit(".");
            reveal_strlit("s");
            reveal_strlit("0 ");
        }
        let mut pieces = String::new();
        if hours > 0 {
            let h = pad_start(decimal_string_u128(hours), 2, false);
            pieces.append(h.as_str());
            pieces.append("h");
        }
        if hours > 0 {
            let m = pad_start(decimal_string_u128(minutes), 2, true);
            pieces.append(m.as_str());
            pieces.append("m");
        } else if minutes > 0 {
            let m = pad_start(decimal_string_u128(minutes), 2, false);
            pieces.append(m.as_str());
            pieces.append("m");
        }
        if hours > 0 || minutes > 0 {
            let sec = pad_start(decimal_string_u128(seconds), 2, true);
            pieces.append(sec.as_str());
        } else if seconds > 0 {
            let sec = pad_start(decimal_string_u128(seconds), 2, false);
            pieces.append(sec.as_str());
        }
        if hours > 0 || minutes > 0 || seconds > 0 || millis > 0 {
            pieces.append(".");
            let ms = pad_start(decimal_string_u128(millis), 3, true);
            pieces.append(ms.as_str());
            pieces.append("s");
        } else {
            pieces.append("0 ");
        }
        let r = pad_start(pieces, 13, false);
        proof {
            assert(r@ =~= spec_formatted(self.nanos as nat));
        }
        r
    }
}

} // verus!
