use ledpanel::bus::{BusOp, RegisterBank, CLEAR_REGISTER, LEVEL_REGISTER, SET_REGISTER};
use ledpanel::frame::Frame;
use ledpanel::gpio::{bitplane_timings, get_plane_bits, get_row_bits, row_address_bits, row_mask_for, GPIO};
use ledpanel::pins::{
    gpio_bit, Pin, BIT_A, BIT_B, BIT_B1, BIT_B2, BIT_C, BIT_CLK, BIT_D, BIT_E, BIT_G1, BIT_G2,
    BIT_LAT, BIT_OE, BIT_R1, BIT_R2, PIN_A, PIN_B, PIN_C,
};
use ledpanel::pixel::Pixel;

#[test]
fn get_row_bits_test() {
    assert_eq!(0, get_row_bits(0), "Invalid row bits");
    assert_eq!(gpio_bit(PIN_A), get_row_bits(1), "Invalid row bits");
    assert_eq!(gpio_bit(PIN_B), get_row_bits(2), "Invalid row bits");
    assert_eq!(gpio_bit(PIN_A) | gpio_bit(PIN_B), get_row_bits(3), "Invalid row bits");
    assert_eq!(gpio_bit(PIN_C), get_row_bits(4), "Invalid row bits");
    assert_eq!(gpio_bit(PIN_C) | gpio_bit(PIN_A), get_row_bits(5), "Invalid row bits");
    assert_eq!(gpio_bit(PIN_C) | gpio_bit(PIN_B), get_row_bits(6), "Invalid row bits");
    assert_eq!(gpio_bit(PIN_C) | gpio_bit(PIN_B) | gpio_bit(PIN_A), get_row_bits(7), "Invalid row bits");
}

#[test]
fn row_address_with_full_mask_follows_index_bits() {
    let all = BIT_A | BIT_B | BIT_C | BIT_D | BIT_E;
    assert_eq!(row_address_bits(3, all), BIT_A | BIT_B);
    assert_eq!(row_address_bits(5, all), BIT_C | BIT_A);
    assert_eq!(row_address_bits(24, all), BIT_D | BIT_E);
    assert_eq!(row_address_bits(31, all), all);
    for d in 0..8usize {
        let mut expected = 0;
        if d & 1 != 0 { expected |= BIT_A; }
        if d & 2 != 0 { expected |= BIT_B; }
        if d & 4 != 0 { expected |= BIT_C; }
        assert_eq!(row_address_bits(d, all), expected);
    }
}

#[test]
fn row_seven_with_three_address_pins() {
    assert_eq!(row_address_bits(7, BIT_A | BIT_B | BIT_C), BIT_A | BIT_B | BIT_C);
    assert_eq!(row_address_bits(15, BIT_A | BIT_B | BIT_C), BIT_A | BIT_B | BIT_C);
}

#[test]
fn row_mask_grows_with_panel_height() {
    assert_eq!(row_mask_for(2), BIT_A);
    assert_eq!(row_mask_for(8), BIT_A | BIT_B | BIT_C);
    assert_eq!(row_mask_for(16), BIT_A | BIT_B | BIT_C | BIT_D);
    assert_eq!(row_mask_for(32), BIT_A | BIT_B | BIT_C | BIT_D | BIT_E);
}

#[test]
fn plane_bits_test_each_channel_alone() {
    let top = Pixel::new_colored_pixel(0b0000_0001, 0b0000_0010, 0b1000_0000);
    let bot = Pixel::new_colored_pixel(0b1111_1111, 0, 0b0000_0011);
    assert_eq!(get_plane_bits(top, bot, 0), BIT_R1 | BIT_R2 | BIT_B2);
    assert_eq!(get_plane_bits(top, bot, 1), BIT_G1 | BIT_R2 | BIT_B2);
    assert_eq!(get_plane_bits(top, bot, 7), BIT_B1 | BIT_R2);
    assert_eq!(get_plane_bits(Pixel::new(), Pixel::new(), 3), 0);
    let white = Pixel::new_colored_pixel(255, 255, 255);
    assert_eq!(get_plane_bits(white, white, 5), BIT_R1 | BIT_G1 | BIT_B1 | BIT_R2 | BIT_G2 | BIT_B2);
}

#[test]
fn timings_double_from_base() {
    let t = bitplane_timings();
    assert_eq!(t, vec![1000, 2000, 4000, 8000, 16000, 32000, 64000, 128000]);
    for k in 0..t.len() - 1 {
        assert_eq!(t[k + 1], 2 * t[k]);
    }
}

#[test]
fn masked_write_reads_back_value_inside_mask_only() {
    let mut ops = Vec::new();
    let gpio = GPIO::new(2, &mut ops);
    let mut bank = RegisterBank::new();
    bank.apply(BusOp::Write { register: SET_REGISTER, value: 0xF0F0_00FF });
    ops.clear();
    gpio.write_masked_bits(0x1234_5678, 0x0000_FF0F, &mut ops);
    assert_eq!(ops.len(), 6);
    assert_eq!(ops[0], BusOp::Write { register: CLEAR_REGISTER, value: !0x1234_5678u32 & 0x0000_FF0F });
    assert_eq!(ops[5], BusOp::Write { register: SET_REGISTER, value: 0x1234_5678 & 0x0000_FF0F });
    bank.run(&ops);
    assert_eq!(bank.level(), (0xF0F0_00FF & !0x0000_FF0F) | (0x1234_5678 & 0x0000_FF0F));
    assert_eq!(bank.read(LEVEL_REGISTER), 0xF0F0_56F8);
}

#[test]
fn setup_configures_exactly_the_panel_pins() {
    let mut ops = Vec::new();
    let _gpio = GPIO::new(0, &mut ops);
    assert_eq!(ops.len(), 12);
    assert_eq!(ops[0], BusOp::Modify { register: 0, clear: 7 << 12, set: 1 << 12 });
    let mut bank = RegisterBank::new();
    bank.apply(BusOp::Write { register: 2, value: 0xFFFF_FFFF });
    bank.run(&ops);
    // pins 22, 26 and 27 (A, B, C) live in register 2; pins 20 and 24 (D, E) are not used
    assert_eq!(bank.read(2) & (7 << 6), 1 << 6);
    assert_eq!(bank.read(2) & (7 << 12), 7 << 12);
    assert_eq!(bank.read(2) & (7 << 0), 7 << 0);
    assert_eq!(bank.read(1) & (7 << 21), 1 << 21);
}

#[test]
fn configure_output_pin_targets_its_register() {
    let mut ops = Vec::new();
    let gpio = GPIO::new(0, &mut ops);
    ops.clear();
    gpio.configure_output_pin(Pin::new(17).unwrap(), &mut ops);
    assert_eq!(ops, vec![BusOp::Modify { register: 1, clear: 7 << 21, set: 1 << 21 }]);
    assert!(Pin::new(28).is_none());
    assert_eq!(Pin::new(27).unwrap().number(), 27);
}

#[test]
fn set_and_clear_repeat_for_slowdown() {
    let mut ops = Vec::new();
    let gpio = GPIO::new(3, &mut ops);
    ops.clear();
    gpio.set_bits(BIT_LAT, &mut ops);
    gpio.clear_bits(BIT_OE, &mut ops);
    assert_eq!(ops.len(), 8);
    assert!(ops[..4].iter().all(|o| *o == BusOp::Write { register: SET_REGISTER, value: BIT_LAT }));
    assert!(ops[4..].iter().all(|o| *o == BusOp::Write { register: CLEAR_REGISTER, value: BIT_OE }));
}

#[test]
fn one_row_is_shifted_latched_and_shown() {
    let mut ops = Vec::new();
    let gpio = GPIO::new(0, &mut ops);
    let mut frame = Frame::new();
    frame.pixels[3][0] = Pixel::new_colored_pixel(0, 0, 4);
    frame.pixels[11][0] = Pixel::new_colored_pixel(4, 0, 0);
    ops.clear();
    gpio.send_values(&frame, 3, 2, &mut ops);
    assert_eq!(ops.len(), 137);
    let color_clock = BIT_R1 | BIT_G1 | BIT_B1 | BIT_R2 | BIT_G2 | BIT_B2 | BIT_CLK;
    assert_eq!(ops[0], BusOp::Write { register: CLEAR_REGISTER, value: color_clock });
    assert_eq!(ops[1], BusOp::Write { register: CLEAR_REGISTER, value: color_clock });
    assert_eq!(ops[3], BusOp::Write { register: SET_REGISTER, value: BIT_B1 | BIT_R2 });
    assert_eq!(ops[4], BusOp::Write { register: SET_REGISTER, value: BIT_CLK });
    assert_eq!(ops[7], BusOp::Write { register: SET_REGISTER, value: 0 });
    assert_eq!(ops[129], BusOp::Write { register: CLEAR_REGISTER, value: color_clock });
    assert_eq!(ops[130], BusOp::Write { register: CLEAR_REGISTER, value: BIT_C });
    assert_eq!(ops[131], BusOp::Write { register: SET_REGISTER, value: BIT_A | BIT_B });
    assert_eq!(ops[132], BusOp::Write { register: SET_REGISTER, value: BIT_LAT });
    assert_eq!(ops[133], BusOp::Write { register: CLEAR_REGISTER, value: BIT_LAT });
    assert_eq!(ops[134], BusOp::Write { register: CLEAR_REGISTER, value: BIT_OE });
    assert_eq!(ops[135], BusOp::Dwell { nanos: 4000 });
    assert_eq!(ops[136], BusOp::Write { register: SET_REGISTER, value: BIT_OE });
}

#[test]
fn sweep_covers_every_row_and_plane_and_ends_blanked() {
    let mut ops = Vec::new();
    let gpio = GPIO::new(0, &mut ops);
    let frame = Frame::new();
    ops.clear();
    gpio.sweep(&frame, &mut ops);
    let dwells: Vec<u32> = ops
        .iter()
        .filter_map(|o| match o {
            BusOp::Dwell { nanos } => Some(*nanos),
            _ => None,
        })
        .collect();
    assert_eq!(dwells.len(), 64);
    assert_eq!(&dwells[0..8], &[1000, 2000, 4000, 8000, 16000, 32000, 64000, 128000]);
    let mut bank = RegisterBank::new();
    bank.run(&ops);
    assert_eq!(bank.level() & BIT_OE, BIT_OE);
    assert_eq!(bank.level() & (BIT_A | BIT_B | BIT_C), BIT_A | BIT_B | BIT_C);
}
