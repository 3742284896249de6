//! The speed controller: the time between two generations, and the steps
//! that make the game faster or slower.

use vstd::prelude::*;
use vstd::string::StringExecFns;

verus! {

/// The number of nanoseconds in a second.
pub const NANOS_PER_SEC: u32 = 1_000_000_000;

/// The longest time, in nanoseconds, that a `PollTime` can hold:
/// `u64::MAX` seconds and 999,999,999 nanoseconds.
pub const MAX_NANOS: u128 = 18_446_744_073_709_551_615_999_999_999;

/// The default poll time, in nanoseconds: 400 milliseconds.
pub const DEF_NANOS: u128 = 400_000_000;

/// The number by which a poll time is divided to get the step of a change
/// of speed: 2 for a big step, 5 for a normal one.
pub open spec fn divisor(big: bool) -> nat {
    if big {
        2
    } else {
        5
    }
}

/// The step of a change of speed: the poll time, in nanoseconds, divided
/// by the divisor and rounded down.
pub open spec fn step(nanos: nat, big: bool) -> nat {
    nanos / divisor(big)
}

/// The poll time, in nanoseconds, after one step faster: the poll time
/// less the step, and the default where the step is zero, as it is for a
/// poll time of zero.
pub open spec fn sped_up(nanos: nat, big: bool) -> nat {
    if step(nanos, big) == 0 {
        DEF_NANOS as nat
    } else {
        (nanos - step(nanos, big)) as nat
    }
}

/// The poll time, in nanoseconds, after one step slower: the poll time and
/// the step, and the default where the step is zero or would take the poll
/// time past the longest time.
pub open spec fn slowed_down(nanos: nat, big: bool) -> nat {
    if step(nanos, big) == 0 || nanos + step(nanos, big) > MAX_NANOS {
        DEF_NANOS as nat
    } else {
        nanos + step(nanos, big)
    }
}

/// The text that stands for a time of `secs` seconds and `nanos`
/// nanoseconds when it is rounded to a whole number of its unit, as the
/// standard library writes a `Duration` for debugging with precision 0:
/// `400ms` for 400 milliseconds.
pub uninterp spec fn rounded_duration_text(secs: u64, nanos: u32) -> Seq<char>;

/// The text that shows a poll time: `max` for the longest time, and the
/// rounded time for any other.
pub open spec fn label_text(nanos: nat) -> Seq<char> {
    if nanos == MAX_NANOS {
        "max"@
    } else {
        rounded_duration_text(
            (nanos / (NANOS_PER_SEC as nat)) as u64,
            (nanos % (NANOS_PER_SEC as nat)) as u32,
        )
    }
}

/// Writes a time of `secs` seconds and `nanos` nanoseconds, rounded to a
/// whole number of its unit.
///
/// Formats `std::time::Duration::new(secs, nanos)` with `{:.0?}`. The
/// contract only gives the text a name: it is the same for the same time.
/// With `nanos` below a second `Duration::new` has nothing to carry and
/// does not panic.
#[verifier::external_body]
fn rounded_duration(secs: u64, nanos: u32) -> (text: String)
    requires
        nanos < NANOS_PER_SEC,
    ensures
        text@ == rounded_duration_text(secs, nanos),
{
    format!("{:.0?}", std::time::Duration::new(secs, nanos))
}

/// The time to wait for an event before the next generation is shown, to
/// the nanosecond. It is at least zero and at most `MAX_NANOS`; the longest
/// time stands for a game that is paused.
#[derive(Clone, Copy, Debug, PartialEq, Eq, Structural)]
pub struct PollTime {
    nanos: u128,
}

impl View for PollTime {
    type V = nat;

    closed spec fn view(&self) -> nat {
        self.nanos as nat
    }
}

impl PollTime {
    #[verifier::type_invariant]
    spec fn in_range(self) -> bool {
        self.nanos <= MAX_NANOS
    }

    /// The poll time of `secs` seconds and `nanos` nanoseconds.
    pub fn new(secs: u64, nanos: u32) -> (t: PollTime)
        requires
            secs * NANOS_PER_SEC + nanos <= MAX_NANOS,
        ensures
            t@ == secs * NANOS_PER_SEC + nanos,
    {
        PollTime { nanos: (secs as u128) * (NANOS_PER_SEC as u128) + (nanos as u128) }
    }

    /// The poll time of `millis` milliseconds.
    pub fn from_millis(millis: u64) -> (t: PollTime)
        ensures
            t@ == millis * 1_000_000,
    {
        PollTime { nanos: (millis as u128) * 1_000_000 }
    }

    /// The longest poll time, which stands for a game that is paused.
    pub fn paused() -> (t: PollTime)
        ensures
            t@ == MAX_NANOS,
    {
        PollTime { nanos: MAX_NANOS }
    }

    /// The whole time in nanoseconds.
    pub fn as_nanos(&self) -> (nanos: u128)
        ensures
            nanos == self@,
            nanos <= MAX_NANOS,
    {
        proof {
            use_type_invariant(self);
        }
        self.nanos
    }

    /// Whether the time is zero.
    pub fn is_zero(&self) -> (zero: bool)
        ensures
            zero == (self@ == 0),
    {
        self.nanos == 0
    }

    /// The whole seconds of the time.
    pub fn as_secs(&self) -> (secs: u64)
        ensures
            secs == self@ / (NANOS_PER_SEC as nat),
    {
        proof {
            use_type_invariant(self);
        }
        (self.nanos / (NANOS_PER_SEC as u128)) as u64
    }

    /// The part of the time that is less than a second, in nanoseconds.
    pub fn subsec_nanos(&self) -> (nanos: u32)
        ensures
            nanos == self@ % (NANOS_PER_SEC as nat),
    {
        (self.nanos % (NANOS_PER_SEC as u128)) as u32
    }

    /// The text that shows the poll time: `max` if the game is paused, and
    /// the time rounded to a whole number of its unit if it is not.
    pub fn label(&self) -> (text: String)
        ensures
            text@ == label_text(self@),
    {
        proof {
            use_type_invariant(self);
        }
        if self.nanos == MAX_NANOS {
            "max".to_owned()
        } else {
            rounded_duration(self.as_secs(), self.subsec_nanos())
        }
    }

    /// The time divided by `rhs`, rounded down to the nanosecond, or `None`
    /// if `rhs` is zero.
    pub fn checked_div(self, rhs: u32) -> (res: Option<PollTime>)
        ensures
            rhs == 0 ==> res is None,
            rhs != 0 ==> res is Some && res->0@ == self@ / (rhs as nat),
    {
        proof {
            use_type_invariant(self);
        }
        if rhs == 0 {
            None
        } else {
            Some(PollTime { nanos: self.nanos / (rhs as u128) })
        }
    }

    /// The time less `rhs`, or `None` if `rhs` is the longer.
    pub fn checked_sub(self, rhs: PollTime) -> (res: Option<PollTime>)
        ensures
            self@ < rhs@ ==> res is None,
            self@ >= rhs@ ==> res is Some && res->0@ == self@ - rhs@,
    {
        proof {
            use_type_invariant(self);
        }
        if self.nanos < rhs.nanos {
            None
        } else {
            Some(PollTime { nanos: self.nanos - rhs.nanos })
        }
    }

    /// The sum of the time and `rhs`, or `None` if the sum is longer than
    /// the longest time.
    pub fn checked_add(self, rhs: PollTime) -> (res: Option<PollTime>)
        ensures
            self@ + rhs@ > MAX_NANOS ==> res is None,
            self@ + rhs@ <= MAX_NANOS ==> res is Some && res->0@ == self@ + rhs@,
    {
        proof {
            use_type_invariant(self);
            use_type_invariant(rhs);
        }
        if self.nanos + rhs.nanos > MAX_NANOS {
            None
        } else {
            Some(PollTime { nanos: self.nanos + rhs.nanos })
        }
    }
}

impl Default for PollTime {
    /// The default poll time of 400 milliseconds.
    fn default() -> (t: PollTime)
        ensures
            t@ == DEF_NANOS,
    {
        PollTime { nanos: DEF_NANOS }
    }
}

/// The line that tells the poll time, from the text that shows it.
pub fn status_line(label: &str) -> (line: String)
    ensures
        line@ == "Poll time: "@ + label@,
{
    let mut line = "Poll time: ".to_owned();
    line.append(label);
    line
}

/// Makes the game one step faster: takes a fifth off the poll time, or a
/// half for a big step. Where the step is zero, as it is for a poll time
/// of zero, the poll time goes back to the default.
pub fn faster(poll_t: &mut PollTime, big: bool)
    ensures
        final(poll_t)@ == sped_up(old(poll_t)@, big),
{
    let div: u32 = if big {
        2
    } else {
        5
    };
    let step = match poll_t.checked_div(div) {
        Some(step) => step,
        None => PollTime::default(),
    };
    *poll_t = if step.is_zero() {
        PollTime::default()
    } else {
        match poll_t.checked_sub(step) {
            Some(t) => t,
            None => PollTime::default(),
        }
    };
}

/// Makes the game one step slower: adds a fifth to the poll time, or a
/// half for a big step. Where the step is zero, as it is for a poll time
/// of zero, or would take the poll time past the longest time, the poll
/// time goes back to the default.
pub fn slower(poll_t: &mut PollTime, big: bool)
    ensures
        final(poll_t)@ == slowed_down(old(poll_t)@, big),
{
    let div: u32 = if big {
        2
    } else {
        5
    };
    let step = match poll_t.checked_div(div) {
        Some(step) => step,
        None => PollTime::default(),
    };
    *poll_t = if step.is_zero() {
        PollTime::default()
    } else {
        match poll_t.checked_add(step) {
            Some(t) => t,
            None => PollTime::default(),
        }
    };
}

/// A change of speed never gives a poll time of zero, whatever the poll
/// time was before. A poll time of zero, and any other below the divisor,
/// goes back to the default.
pub proof fn lemma_speed_is_never_zero(nanos: nat, big: bool)
    ensures
        sped_up(nanos, big) > 0,
        slowed_down(nanos, big) > 0,
        nanos < divisor(big) ==> sped_up(nanos, big) == DEF_NANOS && slowed_down(nanos, big)
            == DEF_NANOS,
        sped_up(0, big) == DEF_NANOS,
        slowed_down(0, big) == DEF_NANOS,
{
}

/// One step faster shortens a poll time that is at least the divisor, and
/// one step slower lengthens it unless that takes it past the longest
/// time.
pub proof fn lemma_faster_is_shorter(nanos: nat, big: bool)
    requires
        nanos >= divisor(big),
    ensures
        sped_up(nanos, big) < nanos,
        nanos + step(nanos, big) <= MAX_NANOS ==> slowed_down(nanos, big) > nanos,
        nanos + step(nanos, big) > MAX_NANOS ==> slowed_down(nanos, big) == DEF_NANOS,
{
}

/// One step faster and then one step slower does not always give back the
/// poll time, since each step is rounded down to the nanosecond.
///
/// Where neither step is zero, what comes back is never longer than the
/// poll time at the start, falls short of it by no more than its part by
/// the square of the divisor and one nanosecond, and is the same exactly
/// where the quotient of the poll time by the divisor is no more than the
/// remainder. Where the first step is zero, what comes back is the default
/// made one step slower; where only the second is, it is the default.
pub proof fn lemma_faster_then_slower(nanos: nat, big: bool)
    requires
        nanos <= MAX_NANOS,
    ensures
        ({
            let back = slowed_down(sped_up(nanos, big), big);
            let d = divisor(big);
            &&& step(nanos, big) > 0 && step(sped_up(nanos, big), big) > 0 ==> {
                &&& back <= nanos
                &&& nanos - back <= nanos / (d * d) + 1
                &&& back == nanos <==> nanos / d <= nanos % d
            }
            &&& step(nanos, big) == 0 ==> back == slowed_down(DEF_NANOS as nat, big)
            &&& step(nanos, big) > 0 && step(sped_up(nanos, big), big) == 0 ==> back == DEF_NANOS
            &&& step(nanos, big) > 0 && step(sped_up(nanos, big), big) == 0 <==> nanos == d
        }),
{
    if big {
        assert(divisor(big) * divisor(big) == 4);
    } else {
        assert(divisor(big) * divisor(big) == 25);
    }
}

} // verus!
