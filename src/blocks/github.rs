use vstd::prelude::*;

use crate::blocks::{Block, State};
use crate::decimal::{decimal, decimal_string};

verus! {

/// Settings of the GitHub notifications block.
pub struct GithubConfig {
    /// Seconds between refreshes.
    pub interval: u64,
    pub api_server: String,
    pub hide_if_total_is_zero: bool,
    /// Notification reasons that set each state, strongest first: critical,
    /// warning, info, good.
    pub good: Option<Vec<String>>,
    pub info: Option<Vec<String>>,
    pub warning: Option<Vec<String>>,
    pub critical: Option<Vec<String>>,
}

impl Default for GithubConfig {
    fn default() -> (r: GithubConfig)
        ensures
            r.interval == 30,
            r.api_server@ == "https://api.github.com"@,
            !r.hide_if_total_is_zero,
            r.good is None && r.info is None && r.warning is None && r.critical is None,
    {
        GithubConfig {
            interval: 30,
            api_server: String::from_str("https://api.github.com"),
            hide_if_total_is_zero: false,
            good: None,
            info: None,
            warning: None,
            critical: None,
        }
    }
}

/// How many of `reasons` are `r`.
pub open spec fn count_of(reasons: Seq<String>, r: Seq<char>) -> nat
    decreases reasons.len(),
{
    if reasons.len() == 0 {
        0
    } else {
        count_of(reasons.drop_last(), r) + if reasons.last()@ == r { 1nat } else { 0nat }
    }
}

proof fn lemma_count_bound(reasons: Seq<String>, r: Seq<char>)
    ensures
        count_of(reasons, r) <= reasons.len(),
    decreases reasons.len(),
{
    if reasons.len() > 0 {
        lemma_count_bound(reasons.drop_last(), r);
    }
}

/// `agg` counts `reasons`: one entry per distinct reason, with its number
/// of occurrences.
pub open spec fn counts(agg: Seq<(String, u64)>, reasons: Seq<String>) -> bool {
    &&& forall|k: int| 0 <= k < agg.len() ==> (#[trigger] agg[k]).1 == count_of(reasons, agg[k].0@)
    &&& forall|a: int, b: int| 0 <= a < b < agg.len() ==> agg[a].0@ != agg[b].0@
    &&& forall|j: int| 0 <= j < reasons.len() ==> exists|k: int| 0 <= k < agg.len() && (#[trigger] agg[k]).0@ == (#[trigger] reasons[j])@
}

/// `list` is given and names a reason that `agg` counts at least once.
pub open spec fn listed(list: Option<Vec<String>>, agg: Seq<(String, u64)>) -> bool {
    match list {
        None => false,
        Some(l) => exists|k: int, m: int|
            0 <= k < agg.len() && 0 <= m < l@.len() && (#[trigger] agg[k]).1 > 0 && (#[trigger] l@[m])@ == agg[k].0@,
    }
}

/// The strongest state whose list names a counted reason.
pub open spec fn state_for(
    critical: Option<Vec<String>>,
    warning: Option<Vec<String>>,
    info: Option<Vec<String>>,
    good: Option<Vec<String>>,
    agg: Seq<(String, u64)>,
) -> State {
    if listed(critical, agg) {
        State::Critical
    } else if listed(warning, agg) {
        State::Warning
    } else if listed(info, agg) {
        State::Info
    } else if listed(good, agg) {
        State::Good
    } else {
        State::Idle
    }
}

/// Counts each distinct notification reason.
pub fn count_reasons(reasons: &Vec<String>) -> (r: Vec<(String, u64)>)
    ensures
        counts(r@, reasons@),
{
    let mut agg: Vec<(String, u64)> = Vec::new();
    let mut i: usize = 0;
    while i < reasons.len()
        invariant
            i <= reasons@.len(),
            counts(agg@, reasons@.take(i as int)),
        decreases reasons@.len() - i,
    {
        let reason = &reasons[i];
        let ghost s = reasons@.take(i as int);
        let ghost t = reasons@.take(i + 1);
        proof {
            assert(t.drop_last() =~= s);
            assert(t.last() == *reason);
        }
        let mut k: usize = 0;
        let mut found = false;
        while !found && k < agg.len()
            invariant
                k <= agg@.len(),
                found ==> k < agg@.len() && agg@[k as int].0@ == reason@,
                !found ==> forall|q: int| 0 <= q < k ==> agg@[q].0@ != reason@,
            decreases agg@.len() - k + if found { 0int } else { 1int },
        {
            if agg[k].0 == *reason {
                found = true;
            } else {
                k += 1;
            }
        }
        let ghost before = agg@;
        if found {
            let c = agg[k].1;
            proof {
                lemma_count_bound(s, reason@);
            }
            agg[k].1 = c + 1;
            proof {
                assert forall|q: int| 0 <= q < agg@.len() implies (#[trigger] agg@[q]).1 == count_of(t, agg@[q].0@) by {
                    if q != k {
                        assert(agg@[q] == before[q]);
                    }
                }
                assert forall|j: int| 0 <= j < t.len() implies exists|q: int|
                    0 <= q < agg@.len() && (#[trigger] agg@[q]).0@ == (#[trigger] t[j])@ by {
                    if j < s.len() {
                        assert(s[j] == t[j]);
                        let q = choose|q: int| 0 <= q < before.len() && (#[trigger] before[q]).0@ == s[j]@;
                        assert(agg@[q].0@ == before[q].0@);
                    } else {
                        assert(agg@[k as int].0@ == t[j]@);
                    }
                }
            }
        } else {
            proof {
                lemma_count_bound(s, reason@);
                assert(count_of(s, reason@) == 0) by {
                    if count_of(s, reason@) > 0 {
                        lemma_count_positive(s, reason@);
                        let j = choose|j: int| 0 <= j < s.len() && s[j]@ == reason@;
                        let q = choose|q: int| 0 <= q < before.len() && (#[trigger] before[q]).0@ == (#[trigger] s[j])@;
                    }
                }
            }
            agg.push((reason.clone(), 1));
            proof {
                assert forall|q: int| 0 <= q < agg@.len() implies (#[trigger] agg@[q]).1 == count_of(t, agg@[q].0@) by {
                    if q < before.len() {
                        assert(agg@[q] == before[q]);
                    }
                }
                assert forall|j: int| 0 <= j < t.len() implies exists|q: int|
                    0 <= q < agg@.len() && (#[trigger] agg@[q]).0@ == (#[trigger] t[j])@ by {
                    if j < s.len() {
                        assert(s[j] == t[j]);
                        let q = choose|q: int| 0 <= q < before.len() && (#[trigger] before[q]).0@ == s[j]@;
                        assert(agg@[q] == before[q]);
                    } else {
                        assert(agg@[before.len() as int].0@ == t[j]@);
                    }
                }
            }
        }
        i += 1;
    }
    proof {
        assert(reasons@.take(reasons@.len() as int) =~= reasons@);
    }
    agg
}

proof fn lemma_count_positive(reasons: Seq<String>, r: Seq<char>)
    requires
        count_of(reasons, r) > 0,
    ensures
        exists|j: int| 0 <= j < reasons.len() && reasons[j]@ == r,
    decreases reasons.len(),
{
    if reasons.last()@ != r {
        lemma_count_positive(reasons.drop_last(), r);
        let j = choose|j: int| 0 <= j < reasons.drop_last().len() && reasons.drop_last()[j]@ == r;
        assert(reasons[j] == reasons.drop_last()[j]);
    } else {
        assert(reasons[reasons.len() - 1]@ == r);
    }
}

fn is_listed(list: &Option<Vec<String>>, agg: &Vec<(String, u64)>) -> (r: bool)
    ensures
        r == listed(*list, agg@),
{
    match list {
        None => false,
        Some(l) => {
            let mut k: usize = 0;
            while k < agg.len()
                invariant
                    k <= agg@.len(),
                    *list == Some(*l),
                    forall|p: int, m: int|
                        0 <= p < k && 0 <= m < l@.len() && (#[trigger] agg@[p]).1 > 0 ==> (#[trigger] l@[m])@ != agg@[p].0@,
                decreases agg@.len() - k,
            {
                if agg[k].1 > 0 {
                    let mut m: usize = 0;
                    while m < l.len()
                        invariant
                            k < agg@.len(),
                            agg@[k as int].1 > 0,
                            *list == Some(*l),
                            m <= l@.len(),
                            forall|q: int| 0 <= q < m ==> (#[trigger] l@[q])@ != agg@[k as int].0@,
                        decreases l@.len() - m,
                    {
                        if l[m] == agg[k].0 {
                            proof {
                                let ll = list->Some_0;
                                assert(ll == *l);
                                assert(agg@[k as int].1 > 0 && ll@[m as int]@ == agg@[k as int].0@);
                                assert(listed(*list, agg@));
                            }
                            return true;
                        }
                        m += 1;
                    }
                }
                k += 1;
            }
            false
        },
    }
}

/// The block's state for the reason counts `agg`.
pub fn get_state(
    critical: &Option<Vec<String>>,
    warning: &Option<Vec<String>>,
    info: &Option<Vec<String>>,
    good: &Option<Vec<String>>,
    agg: &Vec<(String, u64)>,
) -> (r: State)
    ensures
        r == state_for(*critical, *warning, *info, *good, agg@),
{
    if is_listed(critical, agg) {
        State::Critical
    } else if is_listed(warning, agg) {
        State::Warning
    } else if is_listed(info, agg) {
        State::Info
    } else if is_listed(good, agg) {
        State::Good
    } else {
        State::Idle
    }
}

/// Shows the number of unread GitHub notifications.
pub struct Github {
    text: String,
    state: State,
    hidden: bool,
    token: String,
    update_interval: u64,
    api_server: String,
    hide_if_total_is_zero: bool,
    good: Option<Vec<String>>,
    info: Option<Vec<String>>,
    warning: Option<Vec<String>>,
    critical: Option<Vec<String>>,
}

impl Github {
    pub closed spec fn spec_text(&self) -> Seq<char> {
        self.text@
    }

    pub closed spec fn spec_state(&self) -> State {
        self.state
    }

    pub closed spec fn spec_hidden(&self) -> bool {
        self.hidden
    }

    pub closed spec fn spec_interval(&self) -> u64 {
        self.update_interval
    }

    pub closed spec fn spec_hide_if_zero(&self) -> bool {
        self.hide_if_total_is_zero
    }

    pub closed spec fn spec_lists(&self) -> (
        Option<Vec<String>>,
        Option<Vec<String>>,
        Option<Vec<String>>,
        Option<Vec<String>>,
    ) {
        (self.critical, self.warning, self.info, self.good)
    }

    /// A hidden block that reads notifications from `config.api_server`
    /// with `token`.
    pub fn new(config: GithubConfig, token: String) -> (r: Github)
        requires
            config.interval * 1000 <= u64::MAX,
        ensures
            r.spec_hidden(),
            r.spec_interval() == config.interval * 1000,
            r.spec_hide_if_zero() == config.hide_if_total_is_zero,
            r.spec_lists() == (config.critical, config.warning, config.info, config.good),
            r.spec_api_server() == config.api_server,
            r.spec_token() == token,
    {
        Github {
            text: String::new(),
            state: State::Idle,
            hidden: true,
            token,
            update_interval: config.interval * 1000,
            api_server: config.api_server,
            hide_if_total_is_zero: config.hide_if_total_is_zero,
            good: config.good,
            info: config.info,
            warning: config.warning,
            critical: config.critical,
        }
    }

    pub closed spec fn spec_api_server(&self) -> String {
        self.api_server
    }

    pub closed spec fn spec_token(&self) -> String {
        self.token
    }

    /// The server to ask for notifications.
    pub fn api_server(&self) -> (r: &String)
        ensures
            *r == self.spec_api_server(),
    {
        &self.api_server
    }

    /// The token to ask with.
    pub fn token(&self) -> (r: &String)
        ensures
            *r == self.spec_token(),
    {
        &self.token
    }

    /// Shows the notifications whose reasons are `reasons`: their total and
    /// the state their reasons give, or nothing when there are none and the
    /// block hides itself then.
    pub fn apply_notifications(&mut self, reasons: &Vec<String>)
        ensures
            final(self).spec_interval() == old(self).spec_interval(),
            final(self).spec_hide_if_zero() == old(self).spec_hide_if_zero(),
            final(self).spec_lists() == old(self).spec_lists(),
            final(self).spec_api_server() == old(self).spec_api_server(),
            final(self).spec_token() == old(self).spec_token(),
            reasons@.len() == 0 && old(self).spec_hide_if_zero() ==> final(self).spec_hidden(),
            !(reasons@.len() == 0 && old(self).spec_hide_if_zero()) ==> {
                &&& !final(self).spec_hidden()
                &&& final(self).spec_text() == decimal(reasons@.len())
                &&& exists|agg: Seq<(String, u64)>| counts(agg, reasons@) && final(self).spec_state() == state_for(
                    old(self).spec_lists().0,
                    old(self).spec_lists().1,
                    old(self).spec_lists().2,
                    old(self).spec_lists().3,
                    agg,
                )
            },
    {
        let total = reasons.len();
        if total == 0 && self.hide_if_total_is_zero {
            self.hidden = true;
        } else {
            let agg = count_reasons(reasons);
            self.hidden = false;
            self.text = decimal_string(total as u64);
            self.state = get_state(&self.critical, &self.warning, &self.info, &self.good, &agg);
        }
    }

    /// The state the block is shown in.
    pub fn state(&self) -> (r: State)
        ensures
            r == self.spec_state(),
    {
        self.state
    }
}

impl Block for Github {
    fn interval(&self) -> Option<u64> {
        Some(self.update_interval)
    }

    fn view(&self) -> Vec<String> {
        if self.hidden {
            Vec::new()
        } else {
            vec![self.text.clone()]
        }
    }
}

} // verus!
