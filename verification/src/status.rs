//! What the game last did, as a value and in words.

use vstd::prelude::*;
use crate::fixed::LIMIT;

verus! {

/// What the game last did, for the status line.
#[derive(Clone, Copy, Debug, PartialEq, Eq)]
pub enum Status {
    Ready,
    ShotLaunched,
    Paused,
    Resumed,
    Reset,
    /// The level with this code was loaded.
    Loaded { code: &'static str },
    /// The player moved back to the level with this code.
    Moved { code: &'static str },
    /// The player advanced to the level with this code.
    Advanced { code: &'static str },
    /// The target was hit after `elapsed` ticks and `bounces` bounces;
    /// `next_unlocked` says whether a further level is open.
    TargetHit { elapsed: i64, bounces: u32, next_unlocked: bool },
    /// The shot came down at `x` after `bounces` bounces.
    HitGround { x: i64, bounces: u32 },
    BarrierCollision,
    TimedOut,
}

/// Trusted: `String::push` of the standard library appends the character to
/// the end of the string.
pub assume_specification[ String::push ](s: &mut String, ch: char)
    ensures
        final(s)@ == old(s)@.push(ch),
;

/// Trusted: `String::push_str` of the standard library appends the string
/// slice to the end of the string.
pub assume_specification[ String::push_str ](s: &mut String, string: &str)
    ensures
        final(s)@ == old(s)@ + string@,
;

/// The character of a decimal digit.
pub open spec fn digit(d: int) -> char {
    if d == 0 {
        '0'
    } else if d == 1 {
        '1'
    } else if d == 2 {
        '2'
    } else if d == 3 {
        '3'
    } else if d == 4 {
        '4'
    } else if d == 5 {
        '5'
    } else if d == 6 {
        '6'
    } else if d == 7 {
        '7'
    } else if d == 8 {
        '8'
    } else {
        '9'
    }
}

/// A natural number in decimal digits, without leading zeros.
pub open spec fn decimal(n: nat) -> Seq<char>
    decreases n,
{
    if n < 10 {
        seq![digit(n as int)]
    } else {
        decimal(n / 10).push(digit((n % 10) as int))
    }
}

/// A count of hundredths in decimal, with two digits behind the point.
pub open spec fn hundredths(h: nat) -> Seq<char> {
    decimal(h / 100).push('.').push(digit(((h / 10) % 10) as int)).push(digit((h % 10) as int))
}

/// The hundredths of a second nearest to `ticks` ticks, which are not
/// negative; halves go up.
pub open spec fn seconds_in_hundredths(ticks: int) -> nat {
    ((ticks + 1200) / 2400) as nat
}

/// The hundredths of a metre nearest to `length` millionths, which are not
/// negative; halves go up.
pub open spec fn metres_in_hundredths(length: int) -> nat {
    ((length + 5000) / 10000) as nat
}

/// A time or a place for display: held between zero and the largest stored
/// magnitude.
pub open spec fn shown(value: i64) -> int {
    if value < 0 {
        0
    } else if value > LIMIT {
        LIMIT as int
    } else {
        value as int
    }
}

/// The status in words.
pub open spec fn status_text(status: Status) -> Seq<char> {
    match status {
        Status::Ready => "Ready"@,
        Status::ShotLaunched => "Shot launched"@,
        Status::Paused => "Paused"@,
        Status::Resumed => "Resumed"@,
        Status::Reset => "Reset"@,
        Status::Loaded { code } => "Loaded "@ + code@,
        Status::Moved { code } => "Moved to "@ + code@,
        Status::Advanced { code } => "Advanced to "@ + code@,
        Status::TargetHit { elapsed, bounces, next_unlocked } => "Target hit in "@ + hundredths(
            seconds_in_hundredths(shown(elapsed)),
        ) + "s with "@ + decimal(bounces as nat) + " bounce(s)"@ + if next_unlocked {
            " | Next level unlocked (N)"@
        } else {
            " | Campaign complete"@
        },
        Status::HitGround { x, bounces } => "Missed target: hit ground at x="@ + hundredths(
            metres_in_hundredths(shown(x)),
        ) + " m after "@ + decimal(bounces as nat) + " bounce(s)"@,
        Status::BarrierCollision => "Missed target: barrier collision"@,
        Status::TimedOut => "Missed target: timed out"@,
    }
}

fn digit_char(d: u64) -> (c: char)
    requires
        d < 10,
    ensures
        c == digit(d as int),
{
    if d == 0 {
        '0'
    } else if d == 1 {
        '1'
    } else if d == 2 {
        '2'
    } else if d == 3 {
        '3'
    } else if d == 4 {
        '4'
    } else if d == 5 {
        '5'
    } else if d == 6 {
        '6'
    } else if d == 7 {
        '7'
    } else if d == 8 {
        '8'
    } else {
        '9'
    }
}

fn push_decimal(text: &mut String, n: u64)
    ensures
        final(text)@ == old(text)@ + decimal(n as nat),
    decreases n,
{
    if n >= 10 {
        push_decimal(text, n / 10);
    }
    text.push(digit_char(n % 10));
    assert(text@ =~= old(text)@ + decimal(n as nat));
}

fn push_hundredths(text: &mut String, h: u64)
    ensures
        final(text)@ == old(text)@ + hundredths(h as nat),
{
    push_decimal(text, h / 100);
    text.push('.');
    text.push(digit_char((h / 10) % 10));
    text.push(digit_char(h % 10));
    assert(text@ =~= old(text)@ + hundredths(h as nat));
}

fn shown_value(value: i64) -> (r: u64)
    ensures
        r == shown(value),
{
    if value < 0 {
        0
    } else if value > LIMIT {
        LIMIT as u64
    } else {
        value as u64
    }
}

fn named(prefix: &str, code: &str) -> (text: String)
    ensures
        text@ == prefix@ + code@,
{
    let mut text = String::new();
    text.push_str(prefix);
    text.push_str(code);
    assert(text@ =~= prefix@ + code@);
    text
}

impl Status {
    /// The status in words, for the status line.
    pub fn message(&self) -> (text: String)
        ensures
            text@ == status_text(*self),
    {
        match *self {
            Status::Ready => "Ready".to_owned(),
            Status::ShotLaunched => "Shot launched".to_owned(),
            Status::Paused => "Paused".to_owned(),
            Status::Resumed => "Resumed".to_owned(),
            Status::Reset => "Reset".to_owned(),
            Status::Loaded { code } => named("Loaded ", code),
            Status::Moved { code } => named("Moved to ", code),
            Status::Advanced { code } => named("Advanced to ", code),
            Status::TargetHit { elapsed, bounces, next_unlocked } => {
                let mut text = String::new();
                text.push_str("Target hit in ");
                push_hundredths(&mut text, (shown_value(elapsed) + 1200) / 2400);
                text.push_str("s with ");
                push_decimal(&mut text, bounces as u64);
                text.push_str(" bounce(s)");
                if next_unlocked {
                    text.push_str(" | Next level unlocked (N)");
                } else {
                    text.push_str(" | Campaign complete");
                }
                assert(text@ =~= status_text(*self));
                text
            },
            Status::HitGround { x, bounces } => {
                let mut text = String::new();
                text.push_str("Missed target: hit ground at x=");
                push_hundredths(&mut text, (shown_value(x) + 5000) / 10000);
                text.push_str(" m after ");
                push_decimal(&mut text, bounces as u64);
                text.push_str(" bounce(s)");
                assert(text@ =~= status_text(*self));
                text
            },
            Status::BarrierCollision => "Missed target: barrier collision".to_owned(),
            Status::TimedOut => "Missed target: timed out".to_owned(),
        }
    }
}

} // verus!
