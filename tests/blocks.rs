use i3status_rs::blocks::hueshift::{HueAction, HueShifter, Hueshift, HueshiftConfig};
use i3status_rs::blocks::memory::Memtype;
use i3status_rs::blocks::uptime::{Uptime, UptimeConfig};
use i3status_rs::blocks::Block;
use i3status_rs::decimal::decimal_string;
use i3status_rs::dispatcher::MouseButton;

fn uptime_text(total: u32) -> String {
    let mut u = Uptime::new(UptimeConfig::default());
    u.set_uptime(total);
    u.view()[0].clone()
}

#[test]
fn decimal_writes_base_ten() {
    assert_eq!(decimal_string(0), "0");
    assert_eq!(decimal_string(7), "7");
    assert_eq!(decimal_string(6500), "6500");
    assert_eq!(decimal_string(u64::MAX), "18446744073709551615");
}

#[test]
fn uptime_shows_two_largest_units() {
    assert_eq!(uptime_text(0), "0m 0s");
    assert_eq!(uptime_text(125), "2m 5s");
    assert_eq!(uptime_text(3_725), "1h 2m");
    assert_eq!(uptime_text(90_000), "1d 1h");
    assert_eq!(uptime_text(604_800 + 7_200), "1w 2h");
    assert_eq!(uptime_text(2 * 604_800 + 3 * 86_400), "2w 3d");
}

#[test]
fn uptime_interval_is_in_milliseconds() {
    let u = Uptime::new(UptimeConfig { interval: 60 });
    assert_eq!(u.interval(), Some(60_000));
}

#[test]
fn hueshift_bounds_come_from_config() {
    let mut config = HueshiftConfig::default();
    config.step = 100;
    config.max_temp = 12_000;
    config.min_temp = 500;
    let h = Hueshift::new(&config, HueShifter::Redshift);
    assert_eq!(h.temperature(), 6_500);
    assert_eq!(h.hue_shifter(), HueShifter::Redshift);
    assert_eq!(h.view(), vec!["6500".to_string()]);
    assert_eq!(h.interval(), None);
}

#[test]
fn hueshift_wheel_moves_within_bounds() {
    let mut config = HueshiftConfig::default();
    config.current_temp = 9_800;
    let mut h = Hueshift::new(&config, HueShifter::Sct);
    // The step is raised to 500.
    assert_eq!(h.click(MouseButton::WheelUp), Some(HueAction::Apply(10_000)));
    assert_eq!(h.click(MouseButton::WheelUp), None);
    assert_eq!(h.click(MouseButton::WheelDown), Some(HueAction::Apply(9_500)));
    h.apply_current(Some(1_200));
    assert_eq!(h.click(MouseButton::WheelDown), Some(HueAction::Apply(1_000)));
    assert_eq!(h.click(MouseButton::WheelDown), None);
    assert_eq!(h.temperature(), 1_000);
}

#[test]
fn hueshift_left_and_right_clicks() {
    let mut config = HueshiftConfig::default();
    config.click_temp = 4_000;
    config.current_temp = 3_000;
    let mut h = Hueshift::new(&config, HueShifter::Gammastep);
    assert_eq!(h.click(MouseButton::Left), Some(HueAction::Apply(4_000)));
    assert_eq!(h.click(MouseButton::Right), Some(HueAction::Reset));
    assert_eq!(h.temperature(), 6_500);
    assert_eq!(h.click(MouseButton::Middle), None);
    h.apply_current(None);
    assert_eq!(h.temperature(), 6_500);
}

#[test]
fn memtype_icons() {
    assert_eq!(Memtype::Swap.icon(), "memory_swap");
    assert_eq!(Memtype::Memory.icon(), "memory_mem");
}
