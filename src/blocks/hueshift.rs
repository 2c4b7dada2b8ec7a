use vstd::prelude::*;

use crate::blocks::Block;
use crate::decimal::{decimal, decimal_string};
use crate::dispatcher::MouseButton;

verus! {

/// The program that applies the colour temperature.
#[derive(Clone, Copy, Debug, PartialEq, Eq, Structural)]
pub enum HueShifter {
    Redshift,
    Sct,
    Gammastep,
    Wlsunset,
    WlGammarelay,
    WlGammarelayRs,
}

/// Settings of the hue shift block; temperatures in kelvin.
pub struct HueshiftConfig {
    pub max_temp: u16,
    pub min_temp: u16,
    pub current_temp: u16,
    /// The program to use; found on the system when absent.
    pub hue_shifter: Option<HueShifter>,
    pub step: u16,
    pub click_temp: u16,
}

impl Default for HueshiftConfig {
    fn default() -> (r: HueshiftConfig)
        ensures
            r.max_temp == 10_000,
            r.min_temp == 1_000,
            r.current_temp == 6_500,
            r.hue_shifter is None,
            r.step == 100,
            r.click_temp == 6_500,
    {
        HueshiftConfig {
            max_temp: 10_000,
            min_temp: 1_000,
            current_temp: 6_500,
            hue_shifter: None,
            step: 100,
            click_temp: 6_500,
        }
    }
}

/// What the hue shift program is to do after a click.
#[derive(Clone, Copy, Debug, PartialEq, Eq, Structural)]
pub enum HueAction {
    /// Apply this temperature.
    Apply(u16),
    /// Go back to the program's neutral setting.
    Reset,
}

/// The neutral temperature that a right click restores.
pub const NEUTRAL_TEMP: u16 = 6_500;

pub open spec fn clamp(v: int, lo: int, hi: int) -> int {
    if v < lo {
        lo
    } else if v > hi {
        hi
    } else {
        v
    }
}

/// Shows and changes the screen's colour temperature.
pub struct Hueshift {
    temp: u16,
    step: u16,
    max_temp: u16,
    min_temp: u16,
    click_temp: u16,
    shifter: HueShifter,
}

impl Hueshift {
    pub closed spec fn temp(&self) -> u16 {
        self.temp
    }

    pub closed spec fn step(&self) -> u16 {
        self.step
    }

    pub closed spec fn max_temp(&self) -> u16 {
        self.max_temp
    }

    pub closed spec fn min_temp(&self) -> u16 {
        self.min_temp
    }

    pub closed spec fn click_temp(&self) -> u16 {
        self.click_temp
    }

    /// A block driving `shifter`. The step is at least 500, the maximum lies
    /// in `1_000..=10_000`, the minimum in `1_000..=config.max_temp`.
    pub fn new(config: &HueshiftConfig, shifter: HueShifter) -> (r: Hueshift)
        requires
            config.max_temp >= 1_000,
        ensures
            r.temp() == config.current_temp,
            r.step() == if config.step < 500 { 500 } else { config.step },
            r.max_temp() == clamp(config.max_temp as int, 1_000, 10_000),
            r.min_temp() == clamp(config.min_temp as int, 1_000, config.max_temp as int),
            r.click_temp() == config.click_temp,
            r.shifter() == shifter,
    {
        let step = if config.step < 500 { 500 } else { config.step };
        let max_temp = if config.max_temp > 10_000 { 10_000 } else { config.max_temp };
        let min_temp = if config.min_temp < 1_000 {
            1_000
        } else if config.min_temp > config.max_temp {
            config.max_temp
        } else {
            config.min_temp
        };
        Hueshift { temp: config.current_temp, step, max_temp, min_temp, click_temp: config.click_temp, shifter }
    }

    pub closed spec fn shifter(&self) -> HueShifter {
        self.shifter
    }

    /// The program this block drives.
    pub fn hue_shifter(&self) -> (r: HueShifter)
        ensures
            r == self.shifter(),
    {
        self.shifter
    }

    /// The temperature shown.
    pub fn temperature(&self) -> (r: u16)
        ensures
            r == self.temp(),
    {
        self.temp
    }

    /// Takes the temperature that the program reports, if it reports one.
    pub fn apply_current(&mut self, current: Option<u16>)
        ensures
            final(self).temp() == match current {
                Some(t) => t,
                None => old(self).temp(),
            },
            final(self).step() == old(self).step(),
            final(self).max_temp() == old(self).max_temp(),
            final(self).min_temp() == old(self).min_temp(),
            final(self).click_temp() == old(self).click_temp(),
            final(self).shifter() == old(self).shifter(),
    {
        if let Some(t) = current {
            self.temp = t;
        }
    }

    /// A click: left applies the click temperature, right resets, the wheel
    /// moves the temperature by one step within the bounds. Returns what the
    /// program is to do; `None` when nothing changes and no update follows.
    pub fn click(&mut self, button: MouseButton) -> (r: Option<HueAction>)
        ensures
            final(self).step() == old(self).step(),
            final(self).max_temp() == old(self).max_temp(),
            final(self).min_temp() == old(self).min_temp(),
            final(self).click_temp() == old(self).click_temp(),
            final(self).shifter() == old(self).shifter(),
            button == MouseButton::Left ==> final(self).temp() == old(self).click_temp() && r == Some(
                HueAction::Apply(old(self).click_temp()),
            ),
            button == MouseButton::Right ==> final(self).temp() == NEUTRAL_TEMP && r == Some(HueAction::Reset),
            button == MouseButton::WheelUp && old(self).temp() < old(self).max_temp() ==> {
                let t = if old(self).temp() + old(self).step() < old(self).max_temp() {
                    old(self).temp() + old(self).step()
                } else {
                    old(self).max_temp() as int
                };
                final(self).temp() == t && r == Some(HueAction::Apply(t as u16))
            },
            button == MouseButton::WheelDown && old(self).temp() > old(self).min_temp() ==> {
                let t = if old(self).temp() - old(self).step() > old(self).min_temp() {
                    old(self).temp() - old(self).step()
                } else {
                    old(self).min_temp() as int
                };
                final(self).temp() == t && r == Some(HueAction::Apply(t as u16))
            },
            !(button == MouseButton::Left || button == MouseButton::Right || (button == MouseButton::WheelUp
                && old(self).temp() < old(self).max_temp()) || (button == MouseButton::WheelDown && old(self).temp()
                > old(self).min_temp())) ==> r is None && final(self).temp() == old(self).temp(),
    {
        match button {
            MouseButton::Left => {
                self.temp = self.click_temp;
                Some(HueAction::Apply(self.temp))
            },
            MouseButton::Right => {
                self.temp = NEUTRAL_TEMP;
                Some(HueAction::Reset)
            },
            MouseButton::WheelUp => {
                if self.temp < self.max_temp {
                    let up: u32 = self.temp as u32 + self.step as u32;
                    self.temp = if up < self.max_temp as u32 { up as u16 } else { self.max_temp };
                    Some(HueAction::Apply(self.temp))
                } else {
                    None
                }
            },
            MouseButton::WheelDown => {
                if self.temp > self.min_temp {
                    let down: u16 = if self.temp > self.step { self.temp - self.step } else { 0 };
                    self.temp = if down > self.min_temp { down } else { self.min_temp };
                    Some(HueAction::Apply(self.temp))
                } else {
                    None
                }
            },
            _ => None,
        }
    }

    /// The temperature in kelvin, as the block shows it.
    pub fn text(&self) -> (r: String)
        ensures
            r@ == decimal(self.temp() as nat),
    {
        decimal_string(self.temp as u64)
    }
}

impl Block for Hueshift {
    fn interval(&self) -> Option<u64> {
        None
    }

    fn view(&self) -> Vec<String> {
        vec![self.text()]
    }
}

} // verus!
