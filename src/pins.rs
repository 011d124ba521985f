//! The pin assignment table of the panel and single-pin masks.
use vstd::prelude::*;

verus! {

/// Output enable (active low: high blanks the panel).
pub const PIN_OE: u32 = 4;
/// Shift-register clock.
pub const PIN_CLK: u32 = 17;
/// Latch.
pub const PIN_LAT: u32 = 21;
/// Row address lines A to E.
pub const PIN_A: u32 = 22;
pub const PIN_B: u32 = 26;
pub const PIN_C: u32 = 27;
pub const PIN_D: u32 = 20;
pub const PIN_E: u32 = 24;
/// Colour lines of the upper sub-panel.
pub const PIN_R1: u32 = 5;
pub const PIN_G1: u32 = 13;
pub const PIN_B1: u32 = 6;
/// Colour lines of the lower sub-panel.
pub const PIN_R2: u32 = 12;
pub const PIN_G2: u32 = 16;
pub const PIN_B2: u32 = 23;

/// Number of GPIO pins the controller can address (pins 0 to 27).
pub const PIN_COUNT: u32 = 28;

/// One-bit masks of the pins above.
pub const BIT_OE: u32 = 0x10;
pub const BIT_CLK: u32 = 0x2_0000;
pub const BIT_LAT: u32 = 0x20_0000;
pub const BIT_A: u32 = 0x40_0000;
pub const BIT_B: u32 = 0x400_0000;
pub const BIT_C: u32 = 0x800_0000;
pub const BIT_D: u32 = 0x10_0000;
pub const BIT_E: u32 = 0x100_0000;
pub const BIT_R1: u32 = 0x20;
pub const BIT_G1: u32 = 0x2000;
pub const BIT_B1: u32 = 0x40;
pub const BIT_R2: u32 = 0x1000;
pub const BIT_G2: u32 = 0x1_0000;
pub const BIT_B2: u32 = 0x80_0000;

/// The six colour lines.
pub const COLOR_BITS: u32 = BIT_R1 | BIT_G1 | BIT_B1 | BIT_R2 | BIT_G2 | BIT_B2;
/// The colour lines and the clock, which change together while shifting.
pub const COLOR_CLOCK_BITS: u32 = COLOR_BITS | BIT_CLK;
/// Every pin that the panel is wired to.
pub const VALID_BITS: u32 = BIT_OE | BIT_CLK | BIT_LAT | BIT_A | BIT_B | BIT_C | BIT_D | BIT_E
    | COLOR_BITS;

/// The mask with only bit `pin` set.
pub open spec fn pin_bit(pin: u32) -> u32 {
    1u32 << pin
}

/// Returns the mask with only bit `pin` set.
pub fn gpio_bit(pin: u32) -> (r: u32)
    requires
        pin < 32,
    ensures
        r == pin_bit(pin),
{
    1u32 << pin
}

/// Each named mask is the bit of its pin.
pub proof fn lemma_pin_table()
    ensures
        BIT_OE == pin_bit(PIN_OE),
        BIT_CLK == pin_bit(PIN_CLK),
        BIT_LAT == pin_bit(PIN_LAT),
        BIT_A == pin_bit(PIN_A),
        BIT_B == pin_bit(PIN_B),
        BIT_C == pin_bit(PIN_C),
        BIT_D == pin_bit(PIN_D),
        BIT_E == pin_bit(PIN_E),
        BIT_R1 == pin_bit(PIN_R1),
        BIT_G1 == pin_bit(PIN_G1),
        BIT_B1 == pin_bit(PIN_B1),
        BIT_R2 == pin_bit(PIN_R2),
        BIT_G2 == pin_bit(PIN_G2),
        BIT_B2 == pin_bit(PIN_B2),
{
    assert(0x10u32 == 1u32 << 4u32) by (bit_vector);
    assert(0x2_0000u32 == 1u32 << 17u32) by (bit_vector);
    assert(0x20_0000u32 == 1u32 << 21u32) by (bit_vector);
    assert(0x40_0000u32 == 1u32 << 22u32) by (bit_vector);
    assert(0x400_0000u32 == 1u32 << 26u32) by (bit_vector);
    assert(0x800_0000u32 == 1u32 << 27u32) by (bit_vector);
    assert(0x10_0000u32 == 1u32 << 20u32) by (bit_vector);
    assert(0x100_0000u32 == 1u32 << 24u32) by (bit_vector);
    assert(0x20u32 == 1u32 << 5u32) by (bit_vector);
    assert(0x2000u32 == 1u32 << 13u32) by (bit_vector);
    assert(0x40u32 == 1u32 << 6u32) by (bit_vector);
    assert(0x1000u32 == 1u32 << 12u32) by (bit_vector);
    assert(0x1_0000u32 == 1u32 << 16u32) by (bit_vector);
    assert(0x80_0000u32 == 1u32 << 23u32) by (bit_vector);
}

/// A single GPIO pin, as opposed to a mask of pins.
pub struct Pin {
    number: u32,
}

impl Pin {
    #[verifier::type_invariant]
    spec fn inv(self) -> bool {
        self.number < PIN_COUNT
    }

    /// The pin's number.
    pub closed spec fn index(self) -> u32 {
        self.number
    }

    /// The pin numbered `number`, if the controller has such a pin.
    pub fn new(number: u32) -> (r: Option<Pin>)
        ensures
            r is Some <==> number < PIN_COUNT,
            r matches Some(p) ==> p.index() == number,
    {
        if number < PIN_COUNT {
            Some(Pin { number })
        } else {
            None
        }
    }

    /// The pin's number, below `PIN_COUNT`.
    pub fn number(&self) -> (r: u32)
        ensures
            r == self.index(),
            r < PIN_COUNT,
    {
        proof {
            use_type_invariant(self);
        }
        self.number
    }
}

} // verus!
