use vstd::prelude::*;
use vstd::string::*;

use crate::blocks::Block;
use crate::decimal::{decimal, push_decimal};

verus! {

/// Settings of the uptime block.
pub struct UptimeConfig {
    /// Seconds between refreshes.
    pub interval: u64,
}

impl Default for UptimeConfig {
    fn default() -> (r: UptimeConfig)
        ensures
            r.interval == 60,
    {
        UptimeConfig { interval: 60 }
    }
}

/// The two largest units of an uptime of `total` seconds, as the block
/// shows them: minutes and seconds, hours and minutes, days and hours,
/// weeks and hours when the days are zero, else weeks and days.
pub open spec fn uptime_text(total: nat) -> Seq<char> {
    let weeks = total / 604_800;
    let rem_weeks = total % 604_800;
    let days = rem_weeks / 86_400;
    let rem_days = rem_weeks % 86_400;
    let hours = rem_days / 3600;
    let rem_hours = rem_days % 3600;
    let minutes = rem_hours / 60;
    let seconds = rem_hours % 60;
    if hours == 0 && days == 0 && weeks == 0 {
        decimal(minutes) + seq!['m', ' '] + decimal(seconds) + seq!['s']
    } else if days == 0 && weeks == 0 {
        decimal(hours) + seq!['h', ' '] + decimal(minutes) + seq!['m']
    } else if weeks == 0 {
        decimal(days) + seq!['d', ' '] + decimal(hours) + seq!['h']
    } else if days == 0 {
        decimal(weeks) + seq!['w', ' '] + decimal(hours) + seq!['h']
    } else {
        decimal(weeks) + seq!['w', ' '] + decimal(days) + seq!['d']
    }
}

/// Shows how long the system has been up.
pub struct Uptime {
    text: String,
    update_interval: u64,
}

fn push_pair(s: &mut String, a: u64, ua: &str, b: u64, ub: &str)
    ensures
        final(s)@ == old(s)@ + decimal(a as nat) + ua@ + decimal(b as nat) + ub@,
{
    push_decimal(s, a);
    s.append(ua);
    push_decimal(s, b);
    s.append(ub);
    proof {
        assert(final(s)@ =~= old(s)@ + decimal(a as nat) + ua@ + decimal(b as nat) + ub@);
    }
}

impl Uptime {
    /// A block that is refreshed every `config.interval` seconds.
    pub fn new(config: UptimeConfig) -> (r: Uptime)
        requires
            config.interval * 1000 <= u64::MAX,
        ensures
            r.interval_ms() == config.interval * 1000,
            r.text()@.len() == 0,
    {
        Uptime { text: String::new(), update_interval: config.interval * 1000 }
    }

    pub closed spec fn interval_ms(&self) -> u64 {
        self.update_interval
    }

    pub closed spec fn text(&self) -> String {
        self.text
    }

    /// Shows an uptime of `total_seconds`.
    pub fn set_uptime(&mut self, total_seconds: u32)
        ensures
            final(self).text()@ == uptime_text(total_seconds as nat),
            final(self).interval_ms() == old(self).interval_ms(),
    {
        let weeks: u32 = total_seconds / 604_800;
        let rem_weeks: u32 = total_seconds % 604_800;
        let days: u32 = rem_weeks / 86_400;
        let rem_days: u32 = rem_weeks % 86_400;
        let hours: u32 = rem_days / 3600;
        let rem_hours: u32 = rem_days % 3600;
        let minutes: u32 = rem_hours / 60;
        let seconds: u32 = rem_hours % 60;
        let mut text = String::new();
        proof {
            reveal_strlit("m ");
            reveal_strlit("s");
            reveal_strlit("h ");
            reveal_strlit("m");
            reveal_strlit("d ");
            reveal_strlit("h");
            reveal_strlit("w ");
            reveal_strlit("d");
        }
        if hours == 0 && days == 0 && weeks == 0 {
            push_pair(&mut text, minutes as u64, "m ", seconds as u64, "s");
        } else if days == 0 && weeks == 0 {
            push_pair(&mut text, hours as u64, "h ", minutes as u64, "m");
        } else if weeks == 0 {
            push_pair(&mut text, days as u64, "d ", hours as u64, "h");
        } else if days == 0 {
            push_pair(&mut text, weeks as u64, "w ", hours as u64, "h");
        } else {
            push_pair(&mut text, weeks as u64, "w ", days as u64, "d");
        }
        proof {
            assert(text@ =~= uptime_text(total_seconds as nat));
        }
        self.text = text;
    }
}

impl Block for Uptime {
    fn interval(&self) -> Option<u64> {
        Some(self.update_interval)
    }

    fn view(&self) -> Vec<String> {
        vec![self.text.clone()]
    }
}

} // verus!
