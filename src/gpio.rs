//! The GPIO controller of the panel: pin configuration, set / clear /
//! masked writes with slowdown, row addressing, and the bitplane protocol
//! that shifts, latches and shows one double-row.
use vstd::prelude::*;
use crate::bus::{
    apply_op, apply_ops, lemma_apply_ops_append, BusOp, CLEAR_REGISTER, LEVEL_REGISTER,
    REGISTER_WORDS, SET_REGISTER,
};
use crate::frame::Frame;
use crate::panel::{COLOR_DEPTH, COLUMNS, DOUBLE_ROWS, ROWS, SUB_PANELS};
use crate::pins::{
    gpio_bit, pin_bit, Pin, BIT_A, BIT_B, BIT_B1, BIT_B2, BIT_C, BIT_CLK, BIT_D, BIT_E, BIT_G1, BIT_G2, BIT_LAT, BIT_OE,
    BIT_R1, BIT_R2, COLOR_BITS, COLOR_CLOCK_BITS, PIN_COUNT, VALID_BITS,
};
use crate::pixel::Pixel;

verus! {

/// Whether bit `plane` of a channel value is set.
pub open spec fn channel_bit(value: u16, plane: usize) -> bool {
    value & (1u16 << plane) != 0
}

/// The colour pins that are high for bitplane `plane` of the pixel pair
/// (`top` in the upper sub-panel, `bot` in the lower one): one pin per
/// channel whose bit `plane` is set.
pub open spec fn plane_bits(top: Pixel, bot: Pixel, plane: usize) -> u32 {
    (if channel_bit(top.r, plane) { BIT_R1 } else { 0 }) | (if channel_bit(bot.r, plane) {
        BIT_R2
    } else {
        0
    }) | (if channel_bit(top.g, plane) { BIT_G1 } else { 0 }) | (if channel_bit(bot.g, plane) {
        BIT_G2
    } else {
        0
    }) | (if channel_bit(top.b, plane) { BIT_B1 } else { 0 }) | (if channel_bit(bot.b, plane) {
        BIT_B2
    } else {
        0
    })
}

/// The colour pins for bitplane `plane` of the pixel pair `top` / `bot`.
pub fn get_plane_bits(top: Pixel, bot: Pixel, plane: usize) -> (r: u32)
    requires
        plane < 16,
    ensures
        r == plane_bits(top, bot, plane),
{
    let bit: u16 = 1u16 << plane;
    let r1: u32 = if top.r & bit != 0 { BIT_R1 } else { 0 };
    let r2: u32 = if bot.r & bit != 0 { BIT_R2 } else { 0 };
    let g1: u32 = if top.g & bit != 0 { BIT_G1 } else { 0 };
    let g2: u32 = if bot.g & bit != 0 { BIT_G2 } else { 0 };
    let b1: u32 = if top.b & bit != 0 { BIT_B1 } else { 0 };
    let b2: u32 = if bot.b & bit != 0 { BIT_B2 } else { 0 };
    r1 | r2 | g1 | g2 | b1 | b2
}

/// Each colour pin of a plane-bits value is high exactly when bit `plane`
/// of its own channel is set, whatever the other channels hold, and no
/// other pin is high.
pub proof fn lemma_plane_bits_channels(top: Pixel, bot: Pixel, plane: usize)
    ensures
        (plane_bits(top, bot, plane) & BIT_R1 != 0) == channel_bit(top.r, plane),
        (plane_bits(top, bot, plane) & BIT_G1 != 0) == channel_bit(top.g, plane),
        (plane_bits(top, bot, plane) & BIT_B1 != 0) == channel_bit(top.b, plane),
        (plane_bits(top, bot, plane) & BIT_R2 != 0) == channel_bit(bot.r, plane),
        (plane_bits(top, bot, plane) & BIT_G2 != 0) == channel_bit(bot.g, plane),
        (plane_bits(top, bot, plane) & BIT_B2 != 0) == channel_bit(bot.b, plane),
        plane_bits(top, bot, plane) & !COLOR_BITS == 0,
{
    let a = channel_bit(top.r, plane);
    let b = channel_bit(bot.r, plane);
    let c = channel_bit(top.g, plane);
    let d = channel_bit(bot.g, plane);
    let e = channel_bit(top.b, plane);
    let f = channel_bit(bot.b, plane);
    let x = plane_bits(top, bot, plane);
    assert(x == (if a { BIT_R1 } else { 0 }) | (if b { BIT_R2 } else { 0 }) | (if c {
        BIT_G1
    } else {
        0
    }) | (if d { BIT_G2 } else { 0 }) | (if e { BIT_B1 } else { 0 }) | (if f {
        BIT_B2
    } else {
        0
    }));
    assert({
        &&& (x & BIT_R1 != 0) == a
        &&& (x & BIT_R2 != 0) == b
        &&& (x & BIT_G1 != 0) == c
        &&& (x & BIT_G2 != 0) == d
        &&& (x & BIT_B1 != 0) == e
        &&& (x & BIT_B2 != 0) == f
        &&& x & !COLOR_BITS == 0
    }) by (bit_vector)
        requires
            x == (if a { BIT_R1 } else { 0 }) | (if b { BIT_R2 } else { 0 }) | (if c {
                BIT_G1
            } else {
                0
            }) | (if d { BIT_G2 } else { 0 }) | (if e { BIT_B1 } else { 0 }) | (if f {
                BIT_B2
            } else {
                0
            }),
    ;
}

/// The address pins A to E that bits 0 to 4 of `double_row` select.
pub open spec fn row_select(double_row: usize) -> u32 {
    (if double_row & 1 != 0 { BIT_A } else { 0 }) | (if double_row & 2 != 0 {
        BIT_B
    } else {
        0
    }) | (if double_row & 4 != 0 { BIT_C } else { 0 }) | (if double_row & 8 != 0 {
        BIT_D
    } else {
        0
    }) | (if double_row & 16 != 0 { BIT_E } else { 0 })
}

/// The address pins that must be high to select `double_row`, restricted to
/// the address pins in `row_mask`.
pub open spec fn row_address(double_row: usize, row_mask: u32) -> u32 {
    row_select(double_row) & row_mask
}

/// The address-pin mask for a panel whose sub-panels have `rows_count`
/// rows: pin A, and one more pin for each doubling beyond two rows.
pub open spec fn row_mask_spec(rows_count: usize) -> u32 {
    BIT_A | (if rows_count > 2 { BIT_B } else { 0 }) | (if rows_count > 4 {
        BIT_C
    } else {
        0
    }) | (if rows_count > 8 { BIT_D } else { 0 }) | (if rows_count > 16 { BIT_E } else { 0 })
}

/// The address-pin mask of this panel.
pub open spec fn panel_row_mask() -> u32 {
    row_mask_spec((ROWS / SUB_PANELS) as usize)
}

/// The address pins needed by sub-panels of `rows_count` rows.
pub fn row_mask_for(rows_count: usize) -> (r: u32)
    ensures
        r == row_mask_spec(rows_count),
{
    let b: u32 = if rows_count > 2 { BIT_B } else { 0 };
    let c: u32 = if rows_count > 4 { BIT_C } else { 0 };
    let d: u32 = if rows_count > 8 { BIT_D } else { 0 };
    let e: u32 = if rows_count > 16 { BIT_E } else { 0 };
    BIT_A | b | c | d | e
}

/// The address pins, within `row_mask`, that select `double_row`.
pub fn row_address_bits(double_row: usize, row_mask: u32) -> (r: u32)
    ensures
        r == row_address(double_row, row_mask),
{
    let a: u32 = if double_row & 1 != 0 { BIT_A } else { 0 };
    let b: u32 = if double_row & 2 != 0 { BIT_B } else { 0 };
    let c: u32 = if double_row & 4 != 0 { BIT_C } else { 0 };
    let d: u32 = if double_row & 8 != 0 { BIT_D } else { 0 };
    let e: u32 = if double_row & 16 != 0 { BIT_E } else { 0 };
    (a | b | c | d | e) & row_mask
}

/// The address pins of this panel that select `double_row`.
pub fn get_row_bits(double_row: usize) -> (r: u32)
    ensures
        r == row_address(double_row, panel_row_mask()),
{
    let mask = row_mask_for(ROWS / SUB_PANELS);
    row_address_bits(double_row, mask)
}

/// A row address holds address pin A to E exactly when the matching bit 0
/// to 4 of the double-row index is set and the pin is in the mask; it holds
/// no other pin.
pub proof fn lemma_row_address_bits(double_row: usize, row_mask: u32)
    ensures
        (row_address(double_row, row_mask) & BIT_A != 0) == (double_row & 1 != 0 && row_mask
            & BIT_A != 0),
        (row_address(double_row, row_mask) & BIT_B != 0) == (double_row & 2 != 0 && row_mask
            & BIT_B != 0),
        (row_address(double_row, row_mask) & BIT_C != 0) == (double_row & 4 != 0 && row_mask
            & BIT_C != 0),
        (row_address(double_row, row_mask) & BIT_D != 0) == (double_row & 8 != 0 && row_mask
            & BIT_D != 0),
        (row_address(double_row, row_mask) & BIT_E != 0) == (double_row & 16 != 0 && row_mask
            & BIT_E != 0),
        row_address(double_row, row_mask) & !(BIT_A | BIT_B | BIT_C | BIT_D | BIT_E) == 0,
{
    let a = double_row & 1 != 0;
    let b = double_row & 2 != 0;
    let c = double_row & 4 != 0;
    let d = double_row & 8 != 0;
    let e = double_row & 16 != 0;
    let x = row_address(double_row, row_mask);
    assert({
        &&& (x & BIT_A != 0) == (a && row_mask & BIT_A != 0)
        &&& (x & BIT_B != 0) == (b && row_mask & BIT_B != 0)
        &&& (x & BIT_C != 0) == (c && row_mask & BIT_C != 0)
        &&& (x & BIT_D != 0) == (d && row_mask & BIT_D != 0)
        &&& (x & BIT_E != 0) == (e && row_mask & BIT_E != 0)
        &&& x & !(BIT_A | BIT_B | BIT_C | BIT_D | BIT_E) == 0
    }) by (bit_vector)
        requires
            x == ((if a { BIT_A } else { 0 }) | (if b { BIT_B } else { 0 }) | (if c {
                BIT_C
            } else {
                0
            }) | (if d { BIT_D } else { 0 }) | (if e { BIT_E } else { 0 })) & row_mask,
    ;
}

/// This panel's sub-panels have eight rows, so it uses address pins A, B
/// and C.
pub proof fn lemma_panel_row_mask()
    ensures
        panel_row_mask() == BIT_A | BIT_B | BIT_C,
{
    assert(BIT_A | BIT_B | BIT_C | 0u32 | 0u32 == BIT_A | BIT_B | BIT_C) by (bit_vector);
}

/// Dwell time of the shortest bitplane, in nanoseconds.
pub const BASE_DWELL_NANOS: u32 = 1000;

/// Dwell time of bitplane `k`: the base time doubled `k` times.
pub open spec fn plane_dwell(k: nat) -> nat
    decreases k,
{
    if k == 0 {
        BASE_DWELL_NANOS as nat
    } else {
        2 * plane_dwell((k - 1) as nat)
    }
}

/// The dwell times of all bitplanes.
pub open spec fn timing_table() -> Seq<u32> {
    Seq::new(COLOR_DEPTH as nat, |k: int| plane_dwell(k as nat) as u32)
}

proof fn lemma_plane_dwell_bound(k: nat)
    requires
        k <= COLOR_DEPTH,
    ensures
        plane_dwell(k) <= 256000,
        k < COLOR_DEPTH ==> plane_dwell(k) <= 128000,
    decreases k,
{
    if k > 0 {
        lemma_plane_dwell_bound((k - 1) as nat);
        if k < COLOR_DEPTH {
            assert(plane_dwell((k - 1) as nat) <= 64000) by {
                lemma_plane_dwell_halves((k - 1) as nat);
            }
        }
    }
}

proof fn lemma_plane_dwell_halves(k: nat)
    requires
        k < COLOR_DEPTH - 1,
    ensures
        plane_dwell(k) <= 64000,
    decreases k,
{
    if k > 0 {
        lemma_plane_dwell_halves((k - 1) as nat);
        assert(plane_dwell((k - 1) as nat) <= 32000) by {
            reveal_with_fuel(plane_dwell, 8);
        }
    }
}

/// The bitplane dwell times start at the base time and double from each
/// bitplane to the next, so bitplane `k` is shown for a time proportional
/// to 2^k.
pub proof fn lemma_timings_double()
    ensures
        timing_table().len() == COLOR_DEPTH,
        timing_table()[0] == BASE_DWELL_NANOS,
        forall|k: int|
            0 <= k < COLOR_DEPTH - 1 ==> #[trigger] timing_table()[k + 1] == 2 * timing_table()[k],
{
    assert forall|k: int| 0 <= k < COLOR_DEPTH - 1 implies #[trigger] timing_table()[k + 1] == 2
        * timing_table()[k] by {
        lemma_plane_dwell_bound((k + 1) as nat);
    }
}

/// The dwell times of all bitplanes, in nanoseconds.
pub fn bitplane_timings() -> (t: Vec<u32>)
    ensures
        t@ == timing_table(),
{
    let mut t: Vec<u32> = Vec::new();
    let mut timing_ns: u32 = BASE_DWELL_NANOS;
    for b in 0..COLOR_DEPTH
        invariant
            t@.len() == b,
            timing_ns == plane_dwell(b as nat),
            forall|k: int| 0 <= k < b ==> #[trigger] t@[k] == plane_dwell(k as nat),
    {
        proof {
            lemma_plane_dwell_bound(b as nat);
        }
        t.push(timing_ns);
        timing_ns = timing_ns * 2;
    }
    assert(t@ =~= timing_table());
    t
}

/// `times` identical writes of `value` to `register`.
pub open spec fn repeated_write(register: usize, value: u32, times: nat) -> Seq<BusOp> {
    Seq::new(times, |i: int| BusOp::Write { register, value })
}

/// Raising the pins of `value`: one write to the set register and
/// `slowdown` repetitions of it.
pub open spec fn set_ops(value: u32, slowdown: u32) -> Seq<BusOp> {
    repeated_write(SET_REGISTER, value, (slowdown + 1) as nat)
}

/// Lowering the pins of `value`, repeated in the same way.
pub open spec fn clear_ops(value: u32, slowdown: u32) -> Seq<BusOp> {
    repeated_write(CLEAR_REGISTER, value, (slowdown + 1) as nat)
}

/// Driving the pins of `mask` to the levels in `value`: first the pins that
/// must go low, then those that must go high.
pub open spec fn masked_write_ops(value: u32, mask: u32, slowdown: u32) -> Seq<BusOp> {
    clear_ops(!value & mask, slowdown) + set_ops(value & mask, slowdown)
}

/// Setting the 3-bit function-select field of `pin` to "output" (001).
pub open spec fn configure_op(pin: u32) -> BusOp {
    BusOp::Modify {
        register: (pin / 10) as usize,
        clear: 7u32 << (((pin % 10) * 3) as u32),
        set: 1u32 << (((pin % 10) * 3) as u32),
    }
}

/// Configuring, in increasing order, each pin below `n` that `mask` holds.
pub open spec fn configure_ops(mask: u32, n: nat) -> Seq<BusOp>
    decreases n,
{
    if n == 0 {
        Seq::empty()
    } else {
        configure_ops(mask, (n - 1) as nat) + if mask & pin_bit((n - 1) as u32) != 0 {
            seq![configure_op((n - 1) as u32)]
        } else {
            Seq::empty()
        }
    }
}

/// Configuring a pin as an output leaves its 3-bit function-select field
/// holding 001 and every other bit of the register as it was.
pub proof fn lemma_configure_output_field(word: u32, pin: u32)
    requires
        pin < PIN_COUNT,
    ensures
        configure_op(pin) matches BusOp::Modify { register, clear, set } && ({
            let shift = ((pin % 10) * 3) as u32;
            let after = (word & !clear) | set;
            &&& register < 3
            &&& (after >> shift) & 7 == 1
            &&& after & !(7u32 << shift) == word & !(7u32 << shift)
        }),
{
    let shift: u32 = ((pin % 10) * 3) as u32;
    assert(shift < 30);
    assert((((word & !(7u32 << shift)) | (1u32 << shift)) >> shift) & 7 == 1) by (bit_vector)
        requires
            shift < 30,
    ;
    assert(((word & !(7u32 << shift)) | (1u32 << shift)) & !(7u32 << shift) == word & !(7u32
        << shift)) by (bit_vector)
        requires
            shift < 30,
    ;
}

/// The pins the panel drives: control, colour and the row address pins.
pub open spec fn used_bits(row_mask: u32) -> u32 {
    BIT_OE | BIT_CLK | BIT_LAT | COLOR_BITS | row_mask
}

/// Shifting column `c`'s pixel pair in: colour and clock low, the colour
/// pins of the pair written, then the clock raised.
pub open spec fn column_ops(top: Pixel, bot: Pixel, plane: usize, slowdown: u32) -> Seq<BusOp> {
    clear_ops(COLOR_CLOCK_BITS, slowdown) + masked_write_ops(
        plane_bits(top, bot, plane),
        COLOR_CLOCK_BITS,
        slowdown,
    ) + set_ops(BIT_CLK, slowdown)
}

/// Shifting in the first `n` columns of double-row `row`: the upper pixel
/// from row `row` of `grid`, the lower one from row `row + DOUBLE_ROWS`.
pub open spec fn shift_ops(
    grid: Seq<Seq<Pixel>>,
    row: int,
    plane: usize,
    slowdown: u32,
    n: nat,
) -> Seq<BusOp>
    decreases n,
{
    if n == 0 {
        Seq::empty()
    } else {
        shift_ops(grid, row, plane, slowdown, (n - 1) as nat) + column_ops(
            grid[row][n - 1],
            grid[row + DOUBLE_ROWS][n - 1],
            plane,
            slowdown,
        )
    }
}

/// After shifting: colour and clock low, the row address written within
/// `row_mask`, a latch pulse, then the panel unblanked for `dwell`
/// nanoseconds and blanked again.
pub open spec fn latch_and_show_ops(
    row: usize,
    row_mask: u32,
    dwell: u32,
    slowdown: u32,
) -> Seq<BusOp> {
    clear_ops(COLOR_CLOCK_BITS, slowdown) + masked_write_ops(
        row_address(row, row_mask),
        row_mask,
        slowdown,
    ) + set_ops(BIT_LAT, slowdown) + clear_ops(BIT_LAT, slowdown) + clear_ops(BIT_OE, slowdown)
        + seq![BusOp::Dwell { nanos: dwell }] + set_ops(BIT_OE, slowdown)
}

/// Showing bitplane `plane` of double-row `row` of `grid`.
pub open spec fn row_ops(
    grid: Seq<Seq<Pixel>>,
    row: usize,
    plane: usize,
    row_mask: u32,
    dwell: u32,
    slowdown: u32,
) -> Seq<BusOp> {
    clear_ops(COLOR_CLOCK_BITS, slowdown) + shift_ops(grid, row as int, plane, slowdown, COLUMNS as nat)
        + latch_and_show_ops(row, row_mask, dwell, slowdown)
}

/// Showing bitplanes `0..n` of double-row `row`, each for its dwell time.
pub open spec fn planes_ops(
    grid: Seq<Seq<Pixel>>,
    row: usize,
    n: nat,
    row_mask: u32,
    timings: Seq<u32>,
    slowdown: u32,
) -> Seq<BusOp>
    decreases n,
{
    if n == 0 {
        Seq::empty()
    } else {
        planes_ops(grid, row, (n - 1) as nat, row_mask, timings, slowdown) + row_ops(
            grid,
            row,
            (n - 1) as usize,
            row_mask,
            timings[n - 1],
            slowdown,
        )
    }
}

/// Showing every bitplane of double-rows `0..n`.
pub open spec fn sweep_ops(
    grid: Seq<Seq<Pixel>>,
    n: nat,
    row_mask: u32,
    timings: Seq<u32>,
    slowdown: u32,
) -> Seq<BusOp>
    decreases n,
{
    if n == 0 {
        Seq::empty()
    } else {
        sweep_ops(grid, (n - 1) as nat, row_mask, timings, slowdown) + planes_ops(
            grid,
            (n - 1) as usize,
            COLOR_DEPTH as nat,
            row_mask,
            timings,
            slowdown,
        )
    }
}

proof fn lemma_write_idempotent(words: Seq<u32>, register: usize, value: u32)
    requires
        words.len() == REGISTER_WORDS,
    ensures
        apply_op(apply_op(words, BusOp::Write { register, value }), BusOp::Write { register, value })
            == apply_op(words, BusOp::Write { register, value }),
        apply_op(words, BusOp::Write { register, value }).len() == REGISTER_WORDS,
{
    let l = words[LEVEL_REGISTER as int];
    assert((l | value) | value == l | value) by (bit_vector);
    assert((l & !value) & !value == l & !value) by (bit_vector);
    let once = apply_op(words, BusOp::Write { register, value });
    assert(apply_op(once, BusOp::Write { register, value }) =~= once);
}

proof fn lemma_repeated_write(words: Seq<u32>, register: usize, value: u32, n: nat)
    requires
        words.len() == REGISTER_WORDS,
        n >= 1,
    ensures
        apply_ops(words, repeated_write(register, value, n)) == apply_op(
            words,
            BusOp::Write { register, value },
        ),
    decreases n,
{
    let ops = repeated_write(register, value, n);
    lemma_write_idempotent(words, register, value);
    assert(ops.last() == BusOp::Write { register, value });
    if n == 1 {
        assert(ops.drop_last() =~= Seq::<BusOp>::empty());
        assert(apply_ops(words, ops.drop_last()) == words);
    } else {
        assert(ops.drop_last() =~= repeated_write(register, value, (n - 1) as nat));
        lemma_repeated_write(words, register, value, (n - 1) as nat);
    }
}

/// A masked write, read back from the level register, holds the bits of
/// `value` inside `mask` and the earlier levels outside it; no other
/// register changes. Repeating writes for slowdown does not change this.
pub proof fn lemma_write_masked_readback(words: Seq<u32>, value: u32, mask: u32, slowdown: u32)
    requires
        words.len() == REGISTER_WORDS,
    ensures
        apply_ops(words, masked_write_ops(value, mask, slowdown))[LEVEL_REGISTER as int] == (
        words[LEVEL_REGISTER as int] & !mask) | (value & mask),
        apply_ops(words, masked_write_ops(value, mask, slowdown)).len() == REGISTER_WORDS,
        forall|i: int|
            0 <= i < REGISTER_WORDS && i != LEVEL_REGISTER ==> #[trigger] apply_ops(
                words,
                masked_write_ops(value, mask, slowdown),
            )[i] == words[i],
{
    let c = !value & mask;
    let v = value & mask;
    let n = (slowdown + 1) as nat;
    lemma_apply_ops_append(words, clear_ops(c, slowdown), set_ops(v, slowdown));
    lemma_repeated_write(words, CLEAR_REGISTER, c, n);
    let mid = apply_op(words, BusOp::Write { register: CLEAR_REGISTER, value: c });
    lemma_write_idempotent(words, CLEAR_REGISTER, c);
    lemma_repeated_write(mid, SET_REGISTER, v, n);
    let l = words[LEVEL_REGISTER as int];
    assert(((l & !(!value & mask)) | (value & mask)) == (l & !mask) | (value & mask))
        by (bit_vector);
}

/// Controls the panel's GPIO pins by emitting register operations.
pub struct GPIO {
    output_bits: u32,
    input_bits: u32,
    slowdown: u32,
    row_mask: u32,
    bitplane_timings: Vec<u32>,
}

impl GPIO {
    /// Pins configured as outputs.
    pub closed spec fn outputs(&self) -> u32 {
        self.output_bits
    }

    /// Pins reserved as inputs.
    pub closed spec fn inputs(&self) -> u32 {
        self.input_bits
    }

    /// Extra repetitions of each set or clear write.
    pub closed spec fn slowdown_factor(&self) -> u32 {
        self.slowdown
    }

    /// Address pins used to select a double-row.
    pub closed spec fn address_mask(&self) -> u32 {
        self.row_mask
    }

    /// Dwell time of each bitplane.
    pub closed spec fn timings(&self) -> Seq<u32> {
        self.bitplane_timings@
    }

    /// The controller is set up for this panel.
    pub open spec fn wf(&self) -> bool {
        &&& self.address_mask() == panel_row_mask()
        &&& self.timings() == timing_table()
    }

    /// Appends the operation that configures `pin` as an output.
    pub fn configure_output_pin(&self, pin: Pin, ops: &mut Vec<BusOp>)
        ensures
            final(ops)@ == old(ops)@.push(configure_op(pin.index())),
    {
        let n = pin.number();
        let shift = (n % 10) * 3;
        ops.push(BusOp::Modify { register: (n / 10) as usize, clear: 7u32 << shift, set: 1u32 << shift });
    }

    /// Configures as outputs the pins of `outputs` that the panel is wired
    /// to and that are not configured yet, appending one configuration per
    /// pin in increasing pin order; returns the pins it configured.
    pub fn init_outputs(&mut self, outputs: u32, ops: &mut Vec<BusOp>) -> (r: u32)
        ensures
            r == outputs & VALID_BITS & !(old(self).outputs() | old(self).inputs()),
            final(self).outputs() == old(self).outputs() | r,
            final(self).inputs() == old(self).inputs(),
            final(self).slowdown_factor() == old(self).slowdown_factor(),
            final(self).address_mask() == old(self).address_mask(),
            final(self).timings() == old(self).timings(),
            final(ops)@ == old(ops)@ + configure_ops(r, PIN_COUNT as nat),
    {
        let fresh = outputs & VALID_BITS & !(self.output_bits | self.input_bits);
        let ghost start = ops@;
        for b in 0..PIN_COUNT
            invariant
                ops@ == start + configure_ops(fresh, b as nat),
        {
            let bit = gpio_bit(b);
            if bit & fresh != 0 {
                if let Some(pin) = Pin::new(b) {
                    self.configure_output_pin(pin, ops);
                }
            }
            proof {
                assert(bit & fresh == fresh & bit) by (bit_vector);
                assert(start + configure_ops(fresh, (b + 1) as nat) =~= start + configure_ops(
                    fresh,
                    b as nat,
                ) + if fresh & pin_bit(b) != 0 {
                    seq![configure_op(b)]
                } else {
                    Seq::empty()
                });
            }
        }
        self.output_bits = self.output_bits | fresh;
        fresh
    }

    /// Appends the writes that raise the pins of `value`.
    pub fn set_bits(&self, value: u32, ops: &mut Vec<BusOp>)
        ensures
            final(ops)@ == old(ops)@ + set_ops(value, self.slowdown_factor()),
    {
        self.repeat_write(SET_REGISTER, value, ops);
    }

    /// Appends the writes that lower the pins of `value`.
    pub fn clear_bits(&self, value: u32, ops: &mut Vec<BusOp>)
        ensures
            final(ops)@ == old(ops)@ + clear_ops(value, self.slowdown_factor()),
    {
        self.repeat_write(CLEAR_REGISTER, value, ops);
    }

    /// Appends the writes that drive each pin of `mask` to its level in
    /// `value`, lowering before raising; other pins are left alone.
    pub fn write_masked_bits(&self, value: u32, mask: u32, ops: &mut Vec<BusOp>)
        ensures
            final(ops)@ == old(ops)@ + masked_write_ops(value, mask, self.slowdown_factor()),
    {
        self.clear_bits(!value & mask, ops);
        self.set_bits(value & mask, ops);
        proof {
            assert(final(ops)@ =~= old(ops)@ + masked_write_ops(value, mask, self.slowdown_factor()));
        }
    }

    fn repeat_write(&self, register: usize, value: u32, ops: &mut Vec<BusOp>)
        ensures
            final(ops)@ == old(ops)@ + repeated_write(
                register,
                value,
                (self.slowdown_factor() + 1) as nat,
            ),
    {
        let ghost start = ops@;
        ops.push(BusOp::Write { register, value });
        for _i in 0..self.slowdown
            invariant
                ops@ == start + repeated_write(register, value, (_i + 1) as nat),
        {
            ops.push(BusOp::Write { register, value });
            assert(ops@ =~= start + repeated_write(register, value, (_i + 2) as nat));
        }
        assert(ops@ =~= start + repeated_write(register, value, (self.slowdown + 1) as nat));
    }

    /// A controller for this panel with the given slowdown. Appends the
    /// operations that configure every pin the panel uses as an output:
    /// control, colour and the address pins this panel needs.
    pub fn new(slowdown: u32, ops: &mut Vec<BusOp>) -> (r: GPIO)
        ensures
            r.wf(),
            r.slowdown_factor() == slowdown,
            r.outputs() == used_bits(panel_row_mask()),
            r.inputs() == 0,
            final(ops)@ == old(ops)@ + configure_ops(used_bits(panel_row_mask()), PIN_COUNT as nat),
    {
        let mut io = GPIO {
            output_bits: 0,
            input_bits: 0,
            slowdown,
            row_mask: 0,
            bitplane_timings: bitplane_timings(),
        };
        io.set_row_mask();
        let all_used_bits = BIT_OE | BIT_CLK | BIT_LAT | COLOR_BITS | io.row_mask;
        let configured = io.init_outputs(all_used_bits, ops);
        proof {
            lemma_panel_row_mask();
            assert(all_used_bits & VALID_BITS & !(0u32 | 0u32) == all_used_bits) by (bit_vector)
                requires
                    all_used_bits == BIT_OE | BIT_CLK | BIT_LAT | COLOR_BITS | (BIT_A | BIT_B
                        | BIT_C),
            ;
            assert(0u32 | all_used_bits == all_used_bits) by (bit_vector);
        }
        io
    }

    fn set_row_mask(&mut self)
        ensures
            final(self).address_mask() == panel_row_mask(),
            final(self).outputs() == old(self).outputs(),
            final(self).inputs() == old(self).inputs(),
            final(self).slowdown_factor() == old(self).slowdown_factor(),
            final(self).timings() == old(self).timings(),
    {
        self.row_mask = row_mask_for(ROWS / SUB_PANELS);
    }

    /// The address pins, within this controller's mask, of `double_row`.
    pub fn row_bits(&self, double_row: usize) -> (r: u32)
        ensures
            r == row_address(double_row, self.address_mask()),
    {
        row_address_bits(double_row, self.row_mask)
    }

    /// Appends the operations that show bitplane `plane` of double-row `row`
    /// of `frame`: shift in the 32 pixel pairs, address the row, latch, and
    /// unblank for the bitplane's dwell time.
    pub fn send_values(&self, frame: &Frame, row: usize, plane: usize, ops: &mut Vec<BusOp>)
        requires
            self.wf(),
            frame.wf(),
            row < DOUBLE_ROWS,
            plane < COLOR_DEPTH,
        ensures
            final(ops)@ == old(ops)@ + row_ops(
                frame.grid(),
                row,
                plane,
                self.address_mask(),
                self.timings()[plane as int],
                self.slowdown_factor(),
            ),
    {
        let ghost start = ops@;
        let ghost grid = frame.grid();
        let ghost s = self.slowdown;
        self.clear_bits(COLOR_CLOCK_BITS, ops);
        let ghost after_clear = ops@;
        for c in 0..COLUMNS
            invariant
                frame.wf(),
                grid == frame.grid(),
                s == self.slowdown_factor(),
                row < DOUBLE_ROWS,
                plane < COLOR_DEPTH,
                ops@ == after_clear + shift_ops(grid, row as int, plane, s, c as nat),
        {
            self.clear_bits(COLOR_CLOCK_BITS, ops);
            let top = frame.pixels[row][c];
            let bot = frame.pixels[DOUBLE_ROWS + row][c];
            let plane_bits = get_plane_bits(top, bot, plane);
            self.write_masked_bits(plane_bits, COLOR_CLOCK_BITS, ops);
            self.set_bits(BIT_CLK, ops);
            proof {
                assert(grid[row as int][c as int] == top);
                assert(grid[row + DOUBLE_ROWS][c as int] == bot);
                assert(ops@ =~= after_clear + shift_ops(grid, row as int, plane, s, (c + 1) as nat));
            }
        }
        let ghost after_shift = ops@;
        self.clear_bits(COLOR_CLOCK_BITS, ops);
        let row_bits = self.row_bits(row);
        self.write_masked_bits(row_bits, self.row_mask, ops);
        self.set_bits(BIT_LAT, ops);
        self.clear_bits(BIT_LAT, ops);
        self.clear_bits(BIT_OE, ops);
        ops.push(BusOp::Dwell { nanos: self.bitplane_timings[plane] });
        self.set_bits(BIT_OE, ops);
        proof {
            assert(ops@ =~= start + row_ops(
                grid,
                row,
                plane,
                self.address_mask(),
                self.timings()[plane as int],
                s,
            ));
        }
    }

    /// Appends the operations of one full sweep of `frame`: every bitplane
    /// of every double-row, in row-major order.
    pub fn sweep(&self, frame: &Frame, ops: &mut Vec<BusOp>)
        requires
            self.wf(),
            frame.wf(),
        ensures
            final(ops)@ == old(ops)@ + sweep_ops(
                frame.grid(),
                DOUBLE_ROWS as nat,
                self.address_mask(),
                self.timings(),
                self.slowdown_factor(),
            ),
    {
        let ghost start = ops@;
        let ghost grid = frame.grid();
        for row in 0..DOUBLE_ROWS
            invariant
                self.wf(),
                frame.wf(),
                grid == frame.grid(),
                ops@ == start + sweep_ops(
                    grid,
                    row as nat,
                    self.address_mask(),
                    self.timings(),
                    self.slowdown_factor(),
                ),
        {
            let ghost row_start = ops@;
            for plane in 0..COLOR_DEPTH
                invariant
                    self.wf(),
                    frame.wf(),
                    grid == frame.grid(),
                    row < DOUBLE_ROWS,
                    ops@ == row_start + planes_ops(
                        grid,
                        row,
                        plane as nat,
                        self.address_mask(),
                        self.timings(),
                        self.slowdown_factor(),
                    ),
            {
                self.send_values(frame, row, plane, ops);
                proof {
                    assert(ops@ =~= row_start + planes_ops(
                        grid,
                        row,
                        (plane + 1) as nat,
                        self.address_mask(),
                        self.timings(),
                        self.slowdown_factor(),
                    ));
                }
            }
            proof {
                assert(ops@ =~= start + sweep_ops(
                    grid,
                    (row + 1) as nat,
                    self.address_mask(),
                    self.timings(),
                    self.slowdown_factor(),
                ));
            }
        }
    }

    /// Appends the writes that blank the panel (output enable high).
    pub fn blank(&self, ops: &mut Vec<BusOp>)
        ensures
            final(ops)@ == old(ops)@ + set_ops(BIT_OE, self.slowdown_factor()),
    {
        self.set_bits(BIT_OE, ops);
    }
}

} // verus!
