use vstd::prelude::*;
use vstd::string::*;

use crate::blocks::sound::{occurs_in, str_contains};
use crate::blocks::{Block, State};
use crate::decimal::{decimal, decimal_string};
use crate::dispatcher::MouseButton;

verus! {

#[verifier::external_type_specification]
#[verifier::external_body]
pub struct ExRegex(regex::Regex);

/// Whether `pattern` compiles to a regular expression.
pub uninterp spec fn regex_compiles(pattern: Seq<char>) -> bool;

/// Whether the regular expression `pattern` matches somewhere in `text`.
pub uninterp spec fn regex_matches(pattern: Seq<char>, text: Seq<char>) -> bool;

/// The index of the first `'\n'` of `s`, or its length when it has none.
pub open spec fn newline_at(s: Seq<char>) -> nat
    decreases s.len(),
{
    if s.len() == 0 || s[0] == '\n' {
        0
    } else {
        1 + newline_at(s.drop_first())
    }
}

/// The lines of `s`: split at `"\n"` or `"\r\n"`, without the terminators,
/// and with no line after a final terminator.
pub open spec fn lines_of(s: Seq<char>) -> Seq<Seq<char>>
    decreases s.len(),
{
    if s.len() == 0 {
        seq![]
    } else if newline_at(s) >= s.len() {
        seq![s]
    } else {
        let l = s.take(newline_at(s) as int);
        let line = if l.len() > 0 && l.last() == '\r' { l.drop_last() } else { l };
        seq![line] + lines_of(s.skip(newline_at(s) + 1int))
    }
}

/// How many of `lines` mention an upgradable package.
pub open spec fn upgradable_count(lines: Seq<Seq<char>>) -> nat
    decreases lines.len(),
{
    if lines.len() == 0 {
        0
    } else {
        upgradable_count(lines.drop_last()) + if occurs_in(lines.last(), "[upgradable"@) { 1nat } else { 0nat }
    }
}

/// Relies on `str::lines`: splits at `"\n"` and `"\r\n"`, drops the
/// terminators, and yields no line after a final terminator.
#[verifier::external_body]
fn lines(s: &str) -> (r: Vec<&str>)
    ensures
        r@.map_values(|l: &str| l@) == lines_of(s@),
{
    s.lines().collect()
}

/// Relies on `regex::Regex::new`: whether a pattern compiles depends on the
/// pattern alone.
#[verifier::external_body]
fn compile_regex(pattern: &str) -> (r: Option<regex::Regex>)
    ensures
        r is Some <==> regex_compiles(pattern@),
{
    regex::Regex::new(pattern).ok()
}

/// A regular expression with the pattern it was compiled from.
pub struct LineFilter {
    pattern: String,
    regex: regex::Regex,
}

impl LineFilter {
    /// The pattern the filter was compiled from.
    pub closed spec fn pattern(&self) -> Seq<char> {
        self.pattern@
    }

    /// Compiles `pattern`; `None` when it is no valid regular expression.
    pub fn new(pattern: &str) -> (r: Option<LineFilter>)
        ensures
            r is Some <==> regex_compiles(pattern@),
            r is Some ==> r->Some_0.pattern() == pattern@,
    {
        match compile_regex(pattern) {
            Some(regex) => Some(LineFilter { pattern: pattern.to_owned(), regex }),
            None => None,
        }
    }

    /// Relies on `regex::Regex::is_match`: whether `text` holds a match
    /// depends on the pattern the regex was compiled from and on `text`
    /// alone.
    #[verifier::external_body]
    fn is_match(&self, text: &str) -> (r: bool)
        ensures
            r == regex_matches(self.pattern(), text@),
    {
        self.regex.is_match(text)
    }
}

/// The number of lines of `updates` that mention an upgradable package.
pub fn get_update_count(updates: &str) -> (r: usize)
    ensures
        r == upgradable_count(lines_of(updates@)),
{
    let ls = lines(updates);
    let ghost v = ls@.map_values(|l: &str| l@);
    let mut count: usize = 0;
    let mut k: usize = 0;
    while k < ls.len()
        invariant
            v == ls@.map_values(|l: &str| l@),
            k <= ls@.len(),
            count == upgradable_count(v.take(k as int)),
            count <= k,
        decreases ls@.len() - k,
    {
        proof {
            assert(v.take(k + 1).drop_last() =~= v.take(k as int));
            assert(v.take(k + 1).last() == ls@[k as int]@);
        }
        if str_contains(ls[k], "[upgradable") {
            count += 1;
        }
        k += 1;
    }
    proof {
        assert(v.take(ls@.len() as int) =~= v);
    }
    count
}

/// Some line of `updates` matches `filter`.
pub fn has_matching_update(updates: &str, filter: &LineFilter) -> (r: bool)
    ensures
        r == exists|k: int|
            0 <= k < lines_of(updates@).len() && regex_matches(filter.pattern(), #[trigger] lines_of(updates@)[k]),
{
    let ls = lines(updates);
    let ghost v = ls@.map_values(|l: &str| l@);
    let mut k: usize = 0;
    while k < ls.len()
        invariant
            v == ls@.map_values(|l: &str| l@),
            v == lines_of(updates@),
            k <= ls@.len(),
            forall|q: int| 0 <= q < k ==> !regex_matches(filter.pattern(), #[trigger] v[q]),
        decreases ls@.len() - k,
    {
        if filter.is_match(ls[k]) {
            proof {
                assert(regex_matches(filter.pattern(), v[k as int]));
            }
            return true;
        }
        k += 1;
    }
    false
}

/// Settings of the apt block.
pub struct AptConfig {
    /// Seconds between refreshes.
    pub interval: u64,
    /// Updates that this regular expression matches set the warning state.
    pub warning_updates_regex: Option<String>,
    /// Updates that this regular expression matches set the critical state.
    pub critical_updates_regex: Option<String>,
}

impl Default for AptConfig {
    fn default() -> (r: AptConfig)
        ensures
            r.interval == 600,
            r.warning_updates_regex is None,
            r.critical_updates_regex is None,
    {
        AptConfig { interval: 600, warning_updates_regex: None, critical_updates_regex: None }
    }
}

/// Why an apt block could not be built.
#[derive(Clone, Copy, Debug, PartialEq, Eq, Structural)]
pub enum AptError {
    InvalidWarningRegex,
    InvalidCriticalRegex,
}

/// The state the apt block shows for `count` updates.
pub open spec fn apt_state(count: nat, warning: bool, critical: bool) -> State {
    if count == 0 {
        State::Idle
    } else if critical {
        State::Critical
    } else if warning {
        State::Warning
    } else {
        State::Info
    }
}

/// A pattern that is given compiles.
pub open spec fn compiles(pattern: Option<String>) -> bool {
    match pattern {
        Some(p) => regex_compiles(p@),
        None => true,
    }
}

/// Shows the number of pending apt updates.
pub struct Apt {
    text: String,
    state: State,
    update_interval: u64,
    warning_updates_regex: Option<LineFilter>,
    critical_updates_regex: Option<LineFilter>,
}

fn compile_opt(pattern: &Option<String>) -> (r: Option<Option<LineFilter>>)
    ensures
        r is Some <==> compiles(*pattern),
        r is Some ==> match *pattern {
            Some(p) => r->Some_0 is Some && r->Some_0->Some_0.pattern() == p@,
            None => r->Some_0 is None,
        },
{
    match pattern {
        Some(p) => match LineFilter::new(p.as_str()) {
            Some(f) => Some(Some(f)),
            None => None,
        },
        None => Some(None),
    }
}

/// The filter matches a line of `updates`; false when there is no filter.
pub open spec fn filter_hits(filter: Option<Seq<char>>, updates: Seq<char>) -> bool {
    match filter {
        Some(p) => exists|k: int| 0 <= k < lines_of(updates).len() && regex_matches(p, #[trigger] lines_of(updates)[k]),
        None => false,
    }
}

impl Apt {
    /// The text shown.
    pub closed spec fn spec_text(&self) -> Seq<char> {
        self.text@
    }

    /// The state shown.
    pub closed spec fn spec_state(&self) -> State {
        self.state
    }

    /// The refresh interval, in milliseconds.
    pub closed spec fn spec_interval(&self) -> u64 {
        self.update_interval
    }

    /// The patterns of the warning and critical filters.
    pub closed spec fn spec_patterns(&self) -> (Option<Seq<char>>, Option<Seq<char>>) {
        (
            match self.warning_updates_regex {
                Some(f) => Some(f.pattern()),
                None => None,
            },
            match self.critical_updates_regex {
                Some(f) => Some(f.pattern()),
                None => None,
            },
        )
    }

    /// A block for `config`; an error names the first pattern that does not
    /// compile.
    pub fn new(config: &AptConfig) -> (r: Result<Apt, AptError>)
        requires
            config.interval * 1000 <= u64::MAX,
        ensures
            !compiles(config.warning_updates_regex) ==> r == Err::<Apt, AptError>(AptError::InvalidWarningRegex),
            compiles(config.warning_updates_regex) && !compiles(config.critical_updates_regex) ==> r == Err::<
                Apt,
                AptError,
            >(AptError::InvalidCriticalRegex),
            compiles(config.warning_updates_regex) && compiles(config.critical_updates_regex) ==> {
                &&& r is Ok
                &&& r->Ok_0.spec_interval() == config.interval * 1000
                &&& r->Ok_0.spec_patterns() == (
                    match config.warning_updates_regex {
                        Some(p) => Some(p@),
                        None => None,
                    },
                    match config.critical_updates_regex {
                        Some(p) => Some(p@),
                        None => None,
                    },
                )
            },
    {
        let warning = match compile_opt(&config.warning_updates_regex) {
            Some(f) => f,
            None => return Err(AptError::InvalidWarningRegex),
        };
        let critical = match compile_opt(&config.critical_updates_regex) {
            Some(f) => f,
            None => return Err(AptError::InvalidCriticalRegex),
        };
        Ok(Apt {
            text: String::new(),
            state: State::Idle,
            update_interval: config.interval * 1000,
            warning_updates_regex: warning,
            critical_updates_regex: critical,
        })
    }

    /// Shows the updates that `apt list --upgradable` listed in `updates`:
    /// their number, and a state from the number and the filters.
    pub fn apply_updates(&mut self, updates: &str)
        ensures
            final(self).spec_interval() == old(self).spec_interval(),
            final(self).spec_patterns() == old(self).spec_patterns(),
            final(self).spec_text() == decimal(upgradable_count(lines_of(updates@))),
            final(self).spec_state() == apt_state(
                upgradable_count(lines_of(updates@)),
                filter_hits(old(self).spec_patterns().0, updates@),
                filter_hits(old(self).spec_patterns().1, updates@),
            ),
    {
        let count = get_update_count(updates);
        let warning = match &self.warning_updates_regex {
            Some(f) => has_matching_update(updates, f),
            None => false,
        };
        let critical = match &self.critical_updates_regex {
            Some(f) => has_matching_update(updates, f),
            None => false,
        };
        self.text = decimal_string(count as u64);
        self.state = if count == 0 {
            State::Idle
        } else if critical {
            State::Critical
        } else if warning {
            State::Warning
        } else {
            State::Info
        };
    }

    /// The state shown.
    pub fn state(&self) -> (r: State)
        ensures
            r == self.spec_state(),
    {
        self.state
    }

    /// A left click asks for an update.
    pub fn click(&self, button: MouseButton) -> (r: bool)
        ensures
            r == (button == MouseButton::Left),
    {
        button == MouseButton::Left
    }
}

impl Block for Apt {
    fn interval(&self) -> Option<u64> {
        Some(self.update_interval)
    }

    fn view(&self) -> Vec<String> {
        vec![self.text.clone()]
    }
}

} // verus!
