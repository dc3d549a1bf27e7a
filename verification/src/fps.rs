//! The frame-rate label: the rate of the last frame, rounded to a whole number
//! and written out after a fixed prefix.

use vstd::prelude::*;

verus! {

/// Microseconds in a second.
pub const MICROS_PER_SECOND: u64 = 1_000_000;

/// Distance between two integers.
pub open spec fn distance(a: int, b: int) -> int {
    if a >= b {
        a - b
    } else {
        b - a
    }
}

/// Frames per second for a frame of `dt` microseconds, rounded to the nearest
/// whole number. A rate that lies exactly halfway between two whole numbers
/// goes to the even one.
pub open spec fn rounded_rate(dt: nat) -> nat
    recommends
        dt > 0,
{
    let whole = MICROS_PER_SECOND as nat / dt;
    let rest = MICROS_PER_SECOND as nat % dt;
    if 2 * rest < dt {
        whole
    } else if 2 * rest > dt {
        whole + 1
    } else if whole % 2 == 0 {
        whole
    } else {
        whole + 1
    }
}

/// The character that stands for one decimal digit.
pub open spec fn digit_char(d: nat) -> char
    recommends
        d < 10,
{
    (d + 48) as u8 as char
}

/// A number written in decimal digits, most significant first, without
/// leading zeros.
pub open spec fn decimal(n: nat) -> Seq<char>
    decreases n,
{
    if n < 10 {
        seq![digit_char(n)]
    } else {
        decimal(n / 10).push(digit_char(n % 10))
    }
}

/// The number that a decimal digit stands for.
pub open spec fn digit_value(ch: char) -> int {
    ch as int - 48
}

/// The number that a row of decimal digits spells, most significant first.
pub open spec fn decimal_value(digits: Seq<char>) -> int
    decreases digits.len(),
{
    if digits.len() == 0 {
        0
    } else {
        10 * decimal_value(digits.drop_last()) + digit_value(digits.last())
    }
}

/// The label for a frame of `dt` microseconds. A frame of no length has no
/// finite rate and reads as infinite.
pub open spec fn fps_text(dt: u64) -> Seq<char> {
    if dt == 0 {
        "FPS: inf"@
    } else {
        "FPS: "@ + decimal(rounded_rate(dt as nat))
    }
}

/// `String::push` appends the one character to the end of the string and
/// leaves what was there before as it was.
pub assume_specification[ String::push ](text: &mut String, ch: char)
    ensures
        final(text)@ == old(text)@.push(ch),
;

/// The rounded frame rate of a frame of `dt` microseconds, or `None` for a
/// frame of no length.
pub fn frame_rate(dt: u64) -> (fps: Option<u64>)
    ensures
        match fps {
            None => dt == 0,
            Some(rate) => dt > 0 && rate == rounded_rate(dt as nat),
        },
{
    if dt == 0 {
        return None;
    }
    let whole: u64 = MICROS_PER_SECOND / dt;
    let rest: u64 = MICROS_PER_SECOND % dt;
    proof {
        lemma_whole_frames_bound(dt as nat);
    }
    let gap: u64 = dt - rest;
    if rest < gap {
        Some(whole)
    } else if rest > gap {
        Some(whole + 1)
    } else if whole % 2 == 0 {
        Some(whole)
    } else {
        Some(whole + 1)
    }
}

/// Appends `n` in decimal digits to `text`.
pub fn push_decimal(text: &mut String, n: u64)
    ensures
        final(text)@ == old(text)@ + decimal(n as nat),
    decreases n,
{
    let ghost before = text@;
    if n >= 10 {
        push_decimal(text, n / 10);
    }
    let low: u8 = (n % 10) as u8;
    let ch: char = (low + 48) as char;
    text.push(ch);
    proof {
        assert(ch == digit_char((n % 10) as nat));
        if n >= 10 {
            assert(text@ =~= before + decimal((n / 10) as nat).push(ch));
        } else {
            assert(text@ =~= before + seq![ch]);
        }
    }
}

/// The label as the scene starts with it, before any frame has been timed.
pub fn initial_fps_text() -> (text: String)
    ensures
        text@ == "FPS: --"@,
{
    "FPS: --".to_owned()
}

/// The label after a frame of `dt` microseconds: the prefix and the rounded
/// frame rate.
pub fn update_fps_display(dt: u64) -> (text: String)
    ensures
        text@ == fps_text(dt),
{
    match frame_rate(dt) {
        None => "FPS: inf".to_owned(),
        Some(fps) => {
            let mut text = "FPS: ".to_owned();
            push_decimal(&mut text, fps);
            text
        },
    }
}

/// A second splits into whole frames and a rest shorter than a frame, and
/// neither the count of whole frames nor the rounded rate is over a million.
pub proof fn lemma_whole_frames_bound(dt: nat)
    requires
        dt > 0,
    ensures
        MICROS_PER_SECOND as nat / dt <= MICROS_PER_SECOND,
        MICROS_PER_SECOND as nat % dt < dt,
        MICROS_PER_SECOND as nat == (MICROS_PER_SECOND as nat / dt) * dt + MICROS_PER_SECOND as nat
            % dt,
        rounded_rate(dt) <= MICROS_PER_SECOND,
{
    let x = MICROS_PER_SECOND as int;
    let d = dt as int;
    vstd::arithmetic::div_mod::lemma_fundamental_div_mod(x, d);
    vstd::arithmetic::div_mod::lemma_mod_bound(x, d);
    let q = x / d;
    let r = x % d;
    assert(x == d * q + r);
    assert(q <= x) by (nonlinear_arith)
        requires
            x == d * q + r,
            0 <= r < d,
            d > 0,
            x >= 0,
    ;
    assert(d * q == q * d) by (nonlinear_arith);
    assert(r > 0 ==> q < x) by (nonlinear_arith)
        requires
            x == d * q + r,
            d > 0,
            q >= 0,
    ;
}

/// No whole number of frames per second comes closer to the true rate than the
/// rounded rate does: over `dt` microseconds, `rounded_rate(dt)` frames miss
/// the full second by no more than any other count `m` does, and by half a
/// frame at most. Where it is exactly half a frame, the rounded rate is even.
pub proof fn lemma_rounded_rate_is_nearest(dt: nat, m: int)
    requires
        dt > 0,
    ensures
        distance(rounded_rate(dt) as int * dt, MICROS_PER_SECOND as int) <= distance(
            m * dt,
            MICROS_PER_SECOND as int,
        ),
        2 * distance(rounded_rate(dt) as int * dt, MICROS_PER_SECOND as int) <= dt,
        2 * distance(rounded_rate(dt) as int * dt, MICROS_PER_SECOND as int) == dt
            ==> rounded_rate(dt) % 2 == 0,
{
    lemma_whole_frames_bound(dt);
    let x = MICROS_PER_SECOND as int;
    let d = dt as int;
    let q = x / d;
    let r = x % d;
    let n = rounded_rate(dt) as int;
    assert(n == q || n == q + 1);
    assert(n * d == if n == q { x - r } else { x - r + d }) by (nonlinear_arith)
        requires
            x == q * d + r,
            n == q || n == q + 1,
    ;
    assert(m <= q ==> m * d <= x - r) by (nonlinear_arith)
        requires
            x == q * d + r,
            d > 0,
    ;
    assert(m >= q + 1 ==> m * d >= x - r + d) by (nonlinear_arith)
        requires
            x == q * d + r,
            d > 0,
    ;
}

/// The decimal digits of a number spell that number: there is at least one
/// digit, each is one of `0` to `9`, a number of two or more digits does not
/// start with `0`, and reading the digits back gives the number.
pub proof fn lemma_decimal_reads_back(n: nat)
    ensures
        decimal(n).len() >= 1,
        forall|i: int|
            0 <= i < decimal(n).len() ==> 0 <= digit_value(#[trigger] decimal(n)[i]) <= 9,
        n > 0 ==> digit_value(decimal(n)[0]) != 0,
        decimal_value(decimal(n)) == n,
    decreases n,
{
    let low = digit_char(n % 10);
    assert(digit_value(low) == n % 10);
    let digits = decimal(n);
    if n < 10 {
        assert(digits.drop_last() =~= Seq::<char>::empty());
        assert(decimal_value(digits.drop_last()) == 0);
        assert(digits.last() == low);
    } else {
        lemma_decimal_reads_back(n / 10);
        assert(digits.drop_last() =~= decimal(n / 10));
        assert(digits.last() == low);
    }
    assert(decimal_value(digits) == 10 * decimal_value(digits.drop_last()) + digit_value(low));
}

} // verus!
