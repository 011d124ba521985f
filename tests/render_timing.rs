use ledpanel::bus::{BusOp, RegisterBank};
use ledpanel::frame::Frame;
use ledpanel::gpio::GPIO;
use ledpanel::image::Image;
use ledpanel::pins::BIT_OE;
use ledpanel::render::{next_state, render_pass, scroll_due, RenderState};
use ledpanel::timer::{after_coarse_sleep, elapsed_ticks, plan_sleep, spin_finished, SleepStep};

#[test]
fn short_sleeps_busy_wait_long_ones_sleep_first() {
    assert_eq!(plan_sleep(1000), SleepStep::Spin { ticks: 1 });
    assert_eq!(plan_sleep(1500), SleepStep::Spin { ticks: 2 });
    assert_eq!(plan_sleep(64_999), SleepStep::Spin { ticks: 65 });
    assert_eq!(plan_sleep(65_000), SleepStep::Spin { ticks: 65 });
    assert_eq!(plan_sleep(128_000), SleepStep::Coarse { nanos: 68_000 });
    assert_eq!(plan_sleep(999), SleepStep::Spin { ticks: 1 });
    assert_eq!(plan_sleep(10), SleepStep::Spin { ticks: 1 });
    assert_eq!(plan_sleep(0), SleepStep::Done);
}

#[test]
fn measured_time_is_subtracted_after_coarse_sleep() {
    assert_eq!(after_coarse_sleep(128_000, 100, 200), SleepStep::Spin { ticks: 28 });
    assert_eq!(after_coarse_sleep(128_000, 100, 228), SleepStep::Done);
    assert_eq!(after_coarse_sleep(128_000, 100, 400), SleepStep::Done);
    assert_eq!(after_coarse_sleep(128_000, 100, 227), SleepStep::Spin { ticks: 1 });
    assert_eq!(after_coarse_sleep(128_500, 100, 227), SleepStep::Spin { ticks: 2 });
}

#[test]
fn counter_wraparound_is_handled() {
    assert_eq!(elapsed_ticks(0xFFFF_FFF0, 0x10), 0x1F);
    assert_eq!(elapsed_ticks(5, 5), 0);
    assert_eq!(elapsed_ticks(5, 9), 4);
    assert_eq!(after_coarse_sleep(128_000, 0xFFFF_FFC0, 0x20), SleepStep::Spin { ticks: 33 });
    assert!(spin_finished(0xFFFF_FFFE, 3, 4));
    assert!(!spin_finished(0xFFFF_FFFE, 1, 4));
}

#[test]
fn stop_is_final() {
    assert_eq!(next_state(RenderState::Running, false), RenderState::Running);
    assert_eq!(next_state(RenderState::Running, true), RenderState::Stopped);
    assert_eq!(next_state(RenderState::Stopped, false), RenderState::Stopped);
}

#[test]
fn scroll_waits_for_interval() {
    assert!(!scroll_due(true, 9));
    assert!(scroll_due(true, 10));
    assert!(!scroll_due(false, 100));
}

#[test]
fn render_pass_sweeps_then_scrolls_when_due() {
    let mut ops = Vec::new();
    let gpio = GPIO::new(0, &mut ops);
    let image = Image::new();
    let mut frame = Frame::new();
    ops.clear();
    assert!(!render_pass(&gpio, &mut frame, &image, true, 3, &mut ops));
    assert_eq!(frame.position(), 0);
    let sweep_len = ops.len();
    assert_eq!(sweep_len, 64 * 137);
    assert!(render_pass(&gpio, &mut frame, &image, true, 12, &mut ops));
    assert_eq!(frame.position(), 1);
    assert_eq!(ops.len(), 2 * sweep_len);
    ops.clear();
    gpio.blank(&mut ops);
    let mut bank = RegisterBank::new();
    bank.apply(BusOp::Write { register: ledpanel::bus::CLEAR_REGISTER, value: 0xFFFF_FFFF });
    bank.run(&ops);
    assert_eq!(bank.level(), BIT_OE);
}
