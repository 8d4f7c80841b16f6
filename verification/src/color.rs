//! From light to bytes: gamma, clamp, quantize, and the decimal text of a pixel.

use vstd::prelude::*;
use vstd::string::StringExecFns;
use crate::arith::lemma_quot_bracket;
use crate::arith::lemma_quot_of_multiple;
use crate::interval::Interval;
use crate::interval::lemma_clamp_contained;
use crate::scalar::Scalar;
use crate::scalar::SCALE;
use crate::scalar_laws::lemma_sqrt_nonnegative;
use crate::vec3::Vec3;

verus! {

/// Raw value of the brightest channel that is written: `0.999`, rounded down.
pub const INTENSITY_MAX_RAW: i64 = 4290672328;

/// The decimal digit `d` as a character.
pub open spec fn digit_char(d: int) -> char {
    if d == 0 {
        '0'
    } else if d == 1 {
        '1'
    } else if d == 2 {
        '2'
    } else if d == 3 {
        '3'
    } else if d == 4 {
        '4'
    } else if d == 5 {
        '5'
    } else if d == 6 {
        '6'
    } else if d == 7 {
        '7'
    } else if d == 8 {
        '8'
    } else {
        '9'
    }
}

/// `n` in decimal, without leading zeros.
pub open spec fn decimal(n: nat) -> Seq<char>
    decreases n,
{
    if n < 10 {
        seq![digit_char(n as int)]
    } else {
        decimal(n / 10).push(digit_char((n % 10) as int))
    }
}

/// The gamma-2 transfer curve: the square root of what light there is.
pub open spec fn spec_linear_to_gamma(linear_component: Scalar) -> Scalar {
    linear_component.spec_sqrt()
}

/// The range of a channel that is written.
pub open spec fn spec_intensity() -> Interval {
    Interval { min: Scalar { raw: 0 }, max: Scalar { raw: INTENSITY_MAX_RAW } }
}

/// The byte of a channel: gamma-corrected, clamped to `[0, 0.999]`, times
/// `256`, and cut to its whole part.
pub open spec fn spec_channel_byte(channel: Scalar) -> int {
    spec_intensity().spec_clamp(spec_linear_to_gamma(channel)).spec_mul(
        Scalar::spec_from_int(256),
    ).spec_trunc()
}

/// The line of a pixel: its three bytes in decimal, a space between them.
pub open spec fn spec_write_color(pixel_color: Vec3<Scalar>) -> Seq<char> {
    decimal(spec_channel_byte(pixel_color.x) as nat).push(' ') + decimal(
        spec_channel_byte(pixel_color.y) as nat,
    ).push(' ') + decimal(spec_channel_byte(pixel_color.z) as nat).push('\n')
}

/// A channel's byte is a byte: no light at all gives `0`, and full light or
/// more gives `255`.
pub proof fn lemma_channel_byte_range(channel: Scalar)
    ensures
        0 <= spec_channel_byte(channel) <= 255,
        channel.raw <= 0 ==> spec_channel_byte(channel) == 0,
        channel.raw >= SCALE ==> spec_channel_byte(channel) == 255,
{
    let gamma = spec_linear_to_gamma(channel);
    let clamped = spec_intensity().spec_clamp(gamma);
    lemma_clamp_contained(spec_intensity(), gamma);
    let wide = Scalar::spec_from_int(256);
    assert(wide.raw == 256 * SCALE);
    let p = clamped.raw * wide.raw;
    assert(p == (clamped.raw * 256) * SCALE) by (nonlinear_arith)
        requires
            p == clamped.raw * wide.raw,
            wide.raw == 256 * SCALE,
    ;
    lemma_quot_of_multiple(clamped.raw * 256, SCALE as int);
    assert(clamped.spec_mul(wide).raw == clamped.raw * 256);
    lemma_quot_bracket(clamped.raw * 256, SCALE as int);
    if channel.raw >= SCALE {
        lemma_sqrt_nonnegative(channel);
        let root = gamma.raw as int;
        assert(root >= SCALE) by (nonlinear_arith)
            requires
                0 <= root,
                channel.raw * SCALE < (root + 1) * (root + 1),
                channel.raw >= SCALE,
                SCALE == 4294967296,
        {
            if root + 1 <= SCALE {
                assert((root + 1) * (root + 1) <= SCALE * SCALE);
            }
        }
        assert(clamped.raw == INTENSITY_MAX_RAW);
    }
}

fn push_digit(text: &mut String, d: u32)
    requires
        d < 10,
    ensures
        final(text)@ == old(text)@.push(digit_char(d as int)),
{
    proof {
        reveal_strlit("0");
        reveal_strlit("1");
        reveal_strlit("2");
        reveal_strlit("3");
        reveal_strlit("4");
        reveal_strlit("5");
        reveal_strlit("6");
        reveal_strlit("7");
        reveal_strlit("8");
        reveal_strlit("9");
    }
    let digit: &str = if d == 0 {
        "0"
    } else if d == 1 {
        "1"
    } else if d == 2 {
        "2"
    } else if d == 3 {
        "3"
    } else if d == 4 {
        "4"
    } else if d == 5 {
        "5"
    } else if d == 6 {
        "6"
    } else if d == 7 {
        "7"
    } else if d == 8 {
        "8"
    } else {
        "9"
    };
    assert(digit@ =~= seq![digit_char(d as int)]);
    text.append(digit);
    assert(text@ =~= old(text)@.push(digit_char(d as int)));
}

/// Appends `n` in decimal.
pub fn push_decimal(text: &mut String, n: u32)
    ensures
        final(text)@ == old(text)@ + decimal(n as nat),
    decreases n,
{
    if n >= 10 {
        push_decimal(text, n / 10);
    }
    push_digit(text, n % 10);
    assert(text@ =~= old(text)@ + decimal(n as nat));
}

/// The gamma-2 transfer curve: the square root of what light there is.
pub fn linear_to_gamma(linear_component: Scalar) -> (r: Scalar)
    ensures
        r == spec_linear_to_gamma(linear_component),
{
    if linear_component.raw > 0 {
        return linear_component.sqrt();
    }
    Scalar::zero()
}

/// The byte of a channel.
pub fn channel_byte(channel: Scalar) -> (r: u8)
    ensures
        r as int == spec_channel_byte(channel),
{
    let intensity: Interval = Interval::new(Scalar::zero(), Scalar::from_raw(INTENSITY_MAX_RAW));
    let scaled: Scalar = intensity.clamp(linear_to_gamma(channel)) * Scalar::from_int(256);
    proof {
        lemma_channel_byte_range(channel);
    }
    scaled.trunc() as u8
}

/// The line of a pixel: its three bytes in decimal, a space between them.
pub fn write_color(pixel_color: &Vec3<Scalar>) -> (r: String)
    ensures
        r@ == spec_write_color(*pixel_color),
{
    proof {
        reveal_strlit(" ");
        reveal_strlit("\n");
    }
    let mut text: String = String::new();
    push_decimal(&mut text, channel_byte(pixel_color.x) as u32);
    text.append(" ");
    push_decimal(&mut text, channel_byte(pixel_color.y) as u32);
    text.append(" ");
    push_decimal(&mut text, channel_byte(pixel_color.z) as u32);
    text.append("\n");
    assert(text@ =~= spec_write_color(*pixel_color));
    text
}

} // verus!
