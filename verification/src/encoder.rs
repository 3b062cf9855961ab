//! The WS2812B waveform encoder: one color in, one pulse train out.
//!
//! The LED reads a 24-bit word, green first, then red, then blue, each
//! channel most significant bit first. Every bit is a high segment followed
//! by a low segment; the split between the two tells a one from a zero.

use vstd::prelude::*;
use vstd::arithmetic::power2::pow2;
use vstd::arithmetic::power2::lemma2_to64;
use vstd::arithmetic::power2::lemma_pow2_adds;
use vstd::arithmetic::div_mod::lemma_div_denominator;
use vstd::arithmetic::div_mod::lemma_fundamental_div_mod;
use vstd::arithmetic::div_mod::lemma_fundamental_div_mod_converse;
use vstd::bits::lemma_u32_shr_is_div;
use crate::pulse::Level;
use crate::pulse::PulseCode;
use crate::pulse::end_marker;

verus! {

/// High time of a zero bit, in ticks of 12.5 ns: 400 ns.
pub const WS_T0H: u16 = 32;

/// Low time of a zero bit, in ticks of 12.5 ns: 850 ns.
pub const WS_T0L: u16 = 68;

/// High time of a one bit, in ticks of 12.5 ns: 800 ns.
pub const WS_T1H: u16 = 64;

/// Low time of a one bit, in ticks of 12.5 ns: 450 ns.
pub const WS_T1L: u16 = 36;

/// The waveform of a one bit.
pub open spec fn one_pulse() -> PulseCode {
    PulseCode { level1: Level::High, length1: WS_T1H, level2: Level::Low, length2: WS_T1L }
}

/// The waveform of a zero bit.
pub open spec fn zero_pulse() -> PulseCode {
    PulseCode { level1: Level::High, length1: WS_T0H, level2: Level::Low, length2: WS_T0L }
}

/// The waveform that stands for a bit.
pub open spec fn bit_pulse(bit: bool) -> PulseCode {
    if bit {
        one_pulse()
    } else {
        zero_pulse()
    }
}

/// The word that the LED shifts in: green in bits 23 to 16, red in bits 15
/// to 8, blue in bits 7 to 0.
pub open spec fn grb_word(r: u8, g: u8, b: u8) -> nat {
    (g as nat) * 0x1_0000 + (r as nat) * 0x100 + (b as nat)
}

/// Whether bit `k` of `word` is set, bit 0 being the least significant.
pub open spec fn word_bit(word: nat, k: nat) -> bool {
    (word / pow2(k)) % 2 == 1
}

/// The bit sent in position `i` of the train: the word's bits from bit 23
/// down to bit 0.
pub open spec fn train_bit(r: u8, g: u8, b: u8, i: int) -> bool {
    word_bit(grb_word(r, g, b), (23 - i) as nat)
}

/// The pulse train of a color: 24 bit waveforms, most significant bit of
/// the word first, and the end marker.
pub open spec fn pulse_train(r: u8, g: u8, b: u8) -> Seq<PulseCode> {
    Seq::new(
        25,
        |i: int|
            if i < 24 {
                bit_pulse(train_bit(r, g, b, i))
            } else {
                end_marker()
            },
    )
}

/// The pulse code of one bit.
pub fn ws2812_bit(bit: bool) -> (code: PulseCode)
    ensures
        code == bit_pulse(bit),
{
    if bit {
        PulseCode::new(Level::High, WS_T1H, Level::Low, WS_T1L)
    } else {
        PulseCode::new(Level::High, WS_T0H, Level::Low, WS_T0L)
    }
}

/// Shifting and masking a 32-bit word reads the bit that `word_bit`
/// describes.
proof fn lemma_shift_reads_bit(word: u32, k: u32)
    requires
        k < 32,
    ensures
        ((word >> k) & 1 == 1) == word_bit(word as nat, k as nat),
{
    let shifted = word >> k;
    lemma_u32_shr_is_div(word, k);
    assert((shifted & 1 == 1) == (shifted % 2 == 1)) by (bit_vector);
}

/// Shifting and joining the channels builds the word that `grb_word`
/// describes.
proof fn lemma_packed_word(r: u8, g: u8, b: u8)
    ensures
        (((g as u32) << 16) | ((r as u32) << 8) | (b as u32)) as nat == grb_word(r, g, b),
{
    assert((((g as u32) << 16) | ((r as u32) << 8) | (b as u32)) == (g as u32) * 0x1_0000 + (r as u32)
        * 0x100 + (b as u32)) by (bit_vector);
}

/// Writes the pulse train of the color `(r, g, b)` into `pulses`: the 24
/// bits of the green-red-blue word, most significant first, each as its
/// waveform, and the end marker in the last place. What `pulses` held
/// before does not matter.
pub fn rgb_to_pulses(r: u8, g: u8, b: u8, pulses: &mut [PulseCode; 25])
    ensures
        final(pulses)@ == pulse_train(r, g, b),
{
    let grb: u32 = ((g as u32) << 16) | ((r as u32) << 8) | (b as u32);
    proof {
        lemma_packed_word(r, g, b);
    }
    let mut i: usize = 0;
    while i < 24
        invariant
            i <= 24,
            grb as nat == grb_word(r, g, b),
            forall|j: int| 0 <= j < i ==> pulses@[j] == bit_pulse(#[trigger] train_bit(r, g, b, j)),
        decreases 24 - i,
    {
        let k: u32 = (23 - i) as u32;
        proof {
            lemma_shift_reads_bit(grb, k);
        }
        pulses[i] = ws2812_bit((grb >> k) & 1 == 1);
        i += 1;
    }
    pulses[24] = PulseCode::end_marker();
    assert(pulses@ =~= pulse_train(r, g, b));
}

/// Nanoseconds that a duration in ticks lasts: a tick is 12.5 ns.
pub open spec fn ticks_to_nanos(ticks: int) -> int {
    ticks * 25 / 2
}

/// The two waveforms have the nominal WS2812B timing, share one period of
/// 1250 ns, and their high times lie further apart than twice the 150 ns
/// that the LED tolerates, so that neither can be taken for the other.
pub proof fn lemma_waveform_timing()
    ensures
        ticks_to_nanos(one_pulse().length1 as int) == 800,
        ticks_to_nanos(one_pulse().length2 as int) == 450,
        ticks_to_nanos(zero_pulse().length1 as int) == 400,
        ticks_to_nanos(zero_pulse().length2 as int) == 850,
        one_pulse().length1 + one_pulse().length2 == zero_pulse().length1 + zero_pulse().length2,
        ticks_to_nanos(one_pulse().length1 as int) - ticks_to_nanos(zero_pulse().length1 as int) > 2
            * 150,
{
}

/// Both waveforms are high first and low second, neither ends a
/// transmission, and the two differ.
pub proof fn lemma_waveforms_are_distinct()
    ensures
        one_pulse() != zero_pulse(),
        forall|bit: bool|
            #![trigger bit_pulse(bit)]
            {
                &&& bit_pulse(bit).level1 == Level::High
                &&& bit_pulse(bit).level2 == Level::Low
                &&& bit_pulse(bit).in_range()
                &&& !bit_pulse(bit).ends_transmission()
            },
        end_marker().ends_transmission(),
{
}

/// Every pulse train has 25 codes: 24 that are each one of the two bit
/// waveforms, then the end marker.
pub proof fn lemma_train_shape(r: u8, g: u8, b: u8)
    ensures
        pulse_train(r, g, b).len() == 25,
        pulse_train(r, g, b)[24] == end_marker(),
        forall|i: int|
            0 <= i < 24 ==> {
                ||| #[trigger] pulse_train(r, g, b)[i] == one_pulse()
                ||| pulse_train(r, g, b)[i] == zero_pulse()
            },
{
}

/// A bit of the low byte is not disturbed by what stands above the byte:
/// with `unit * span == 256` and `span` even, dividing `high * 256 + low` by
/// `unit` leaves in the lowest place the bit that dividing `low` leaves.
proof fn lemma_low_byte_bit(high: nat, low: nat, unit: nat, span: nat)
    requires
        low < 0x100,
        unit * span == 0x100,
        span % 2 == 0,
    ensures
        ((high * 0x100 + low) / unit) % 2 == (low / unit) % 2,
{
    let whole = high * 0x100 + low;
    let above = high * span;
    let q = low / unit;
    let rest = low % unit;
    assert(unit > 0 && span > 0) by (nonlinear_arith)
        requires
            unit * span == 0x100,
    ;
    assert(low == q * unit + rest) by {
        lemma_fundamental_div_mod(low as int, unit as int);
        assert(unit * q == q * unit) by (nonlinear_arith);
    }
    assert(whole == (above + q) * unit + rest) by (nonlinear_arith)
        requires
            whole == high * 0x100 + low,
            above == high * span,
            unit * span == 0x100,
            low == q * unit + rest,
    ;
    lemma_fundamental_div_mod_converse(whole as int, unit as int, (above + q) as int, rest as int);
    assert(whole / unit == above + q);
    let half = span / 2;
    assert(above == 2 * (high * half)) by (nonlinear_arith)
        requires
            above == high * span,
            span == 2 * half,
    ;
}

/// Dividing the word by a power of two below 256, by 256 times it or by
/// 65536 times it leaves in the lowest place the bit that the same power
/// reaches in blue, in red or in green.
proof fn lemma_word_bits(r: u8, g: u8, b: u8, unit: nat, span: nat)
    requires
        unit * span == 0x100,
        span % 2 == 0,
    ensures
        (grb_word(r, g, b) / (0x1_0000 * unit)) % 2 == (g as nat / unit) % 2,
        (grb_word(r, g, b) / (0x100 * unit)) % 2 == (r as nat / unit) % 2,
        (grb_word(r, g, b) / unit) % 2 == (b as nat / unit) % 2,
{
    let word = grb_word(r, g, b);
    let mid = (g as nat) * 0x100 + (r as nat);
    assert(unit > 0) by (nonlinear_arith)
        requires
            unit * span == 0x100,
    ;
    assert(word / 0x1_0000 == g);
    assert(word / 0x100 == mid);
    assert(word == mid * 0x100 + (b as nat));
    lemma_div_denominator(word as int, 0x1_0000, unit as int);
    lemma_div_denominator(word as int, 0x100, unit as int);
    lemma_low_byte_bit(g as nat, r as nat, unit, span);
    lemma_low_byte_bit(mid, b as nat, unit, span);
}

/// The train sends green, then red, then blue, each channel from its most
/// significant bit down: position `i` of a channel's eight carries bit
/// `7 - i` of that channel.
pub proof fn lemma_train_follows_channels(r: u8, g: u8, b: u8, i: int)
    requires
        0 <= i < 8,
    ensures
        train_bit(r, g, b, i) == word_bit(g as nat, (7 - i) as nat),
        train_bit(r, g, b, 8 + i) == word_bit(r as nat, (7 - i) as nat),
        train_bit(r, g, b, 16 + i) == word_bit(b as nat, (7 - i) as nat),
{
    let j = (7 - i) as nat;
    let unit = pow2(j);
    lemma2_to64();
    lemma_pow2_adds(8, j);
    lemma_pow2_adds(16, j);
    assert(pow2(8 + j) == 0x100 * unit);
    assert(pow2(16 + j) == 0x1_0000 * unit);
    assert((23 - i) as nat == 16 + j);
    assert((23 - (8 + i)) as nat == 8 + j);
    assert((23 - (16 + i)) as nat == j);
    lemma_pow2_adds(j, (8 - j) as nat);
    lemma_pow2_adds(1, (7 - j) as nat);
    lemma_word_bits(r, g, b, unit, pow2((8 - j) as nat));
}

/// A byte is known by its eight bits.
proof fn lemma_bits_identify_byte(x: u8, y: u8)
    requires
        forall|k: nat| k < 8 ==> word_bit(x as nat, k) == word_bit(y as nat, k),
    ensures
        x == y,
{
    lemma2_to64();
    assert(word_bit(x as nat, 0) == word_bit(y as nat, 0));
    assert(word_bit(x as nat, 1) == word_bit(y as nat, 1));
    assert(word_bit(x as nat, 2) == word_bit(y as nat, 2));
    assert(word_bit(x as nat, 3) == word_bit(y as nat, 3));
    assert(word_bit(x as nat, 4) == word_bit(y as nat, 4));
    assert(word_bit(x as nat, 5) == word_bit(y as nat, 5));
    assert(word_bit(x as nat, 6) == word_bit(y as nat, 6));
    assert(word_bit(x as nat, 7) == word_bit(y as nat, 7));
    assert(x / 128 == y / 128);
    assert(x / 64 == y / 64);
    assert(x / 32 == y / 32);
    assert(x / 16 == y / 16);
    assert(x / 8 == y / 8);
    assert(x / 4 == y / 4);
    assert(x / 2 == y / 2);
}

/// A train can be read back: two colors with the same pulse train are the
/// same color.
pub proof fn lemma_train_identifies_color(r1: u8, g1: u8, b1: u8, r2: u8, g2: u8, b2: u8)
    requires
        pulse_train(r1, g1, b1) == pulse_train(r2, g2, b2),
    ensures
        r1 == r2,
        g1 == g2,
        b1 == b2,
{
    assert forall|i: int| 0 <= i < 24 implies train_bit(r1, g1, b1, i) == train_bit(
        r2,
        g2,
        b2,
        i,
    ) by {
        assert(pulse_train(r1, g1, b1)[i] == bit_pulse(train_bit(r1, g1, b1, i)));
        assert(pulse_train(r2, g2, b2)[i] == bit_pulse(train_bit(r2, g2, b2, i)));
        assert(one_pulse().length1 != zero_pulse().length1);
    }
    assert forall|k: nat| k < 8 implies word_bit(g1 as nat, k) == word_bit(g2 as nat, k)
        && word_bit(r1 as nat, k) == word_bit(r2 as nat, k) && word_bit(b1 as nat, k) == word_bit(
        b2 as nat,
        k,
    ) by {
        let i = 7 - k;
        lemma_train_follows_channels(r1, g1, b1, i);
        lemma_train_follows_channels(r2, g2, b2, i);
        assert((7 - i) as nat == k);
    }
    lemma_bits_identify_byte(g1, g2);
    lemma_bits_identify_byte(r1, r2);
    lemma_bits_identify_byte(b1, b2);
}

/// Encoding is a function of the color alone: two trains written for the
/// same color are equal, code for code.
pub proof fn lemma_same_color_same_train(
    r: u8,
    g: u8,
    b: u8,
    first: [PulseCode; 25],
    second: [PulseCode; 25],
)
    requires
        first@ == pulse_train(r, g, b),
        second@ == pulse_train(r, g, b),
    ensures
        first == second,
{
    assert(first =~= second);
}

} // verus!
