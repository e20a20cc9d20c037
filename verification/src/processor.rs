//! Rule evaluation per parameter: a smoothing window of recent samples,
//! sustained-threshold alerts, rate-of-change checks and heartbeats.
//!
//! Measured values are opaque (`V`); the comparisons of a value with a
//! threshold are made by the caller, who hands in their outcome.
use vstd::prelude::*;
use vstd::string::*;
use crate::models::{elapsed_whole_seconds, valid_instant, whole_seconds, Instant, SensorReading};
use crate::table::{lemma_entries_map_at, lemma_entries_map_update, Table};
use crate::text::str_eq;

verus! {

/// Seconds between two heartbeat checks.
pub const HEARTBEAT_CHECK_SECS: u64 = 5;

/// The monitoring rule of one parameter.
#[derive(Clone, Copy)]
pub struct ParamRule<V> {
    pub threshold_warning: V,
    pub threshold_critical: V,
    /// Length of the smoothing window in nanoseconds; without one the latest sample stands.
    pub window_nanos: Option<u128>,
    /// Whole seconds a condition must last before its alert is raised.
    pub duration_secs: Option<i64>,
    /// Largest allowed change between consecutive readings.
    pub delta_per_minute: Option<V>,
    /// A parameter is overdue once more whole seconds than this passed since its last reading.
    pub heartbeat_secs: Option<i64>,
}

/// What is kept per parameter between readings.
pub struct ParamState<V> {
    pub samples: std::collections::VecDeque<(Instant, V)>,
    pub warning_start: Option<Instant>,
    pub critical_start: Option<Instant>,
    pub last_seen: Instant,
    pub last_value: Option<(Instant, V)>,
}

/// Drops the leading samples taken before `cutoff`, up to the first one that is not.
pub open spec fn prune_before<V>(s: Seq<(Instant, V)>, cutoff: int) -> Seq<(Instant, V)>
    decreases s.len(),
{
    if s.len() > 0 && (s[0].0 as int) < cutoff {
        prune_before(s.drop_first(), cutoff)
    } else {
        s
    }
}

/// The samples after `value` arrived at `now`: with a window, the earlier
/// samples followed by the new one, less the leading ones older than the
/// window; without one, the new sample alone.
pub open spec fn window_after<V>(samples: Seq<(Instant, V)>, now: Instant, value: V, window: Option<u128>) -> Seq<(Instant, V)> {
    match window {
        Some(w) => prune_before(samples.push((now, value)), now - w),
        None => seq![(now, value)],
    }
}

/// The values of a run of samples.
pub open spec fn sample_values<V>(s: Seq<(Instant, V)>) -> Seq<V> {
    s.map_values(|p: (Instant, V)| p.1)
}

/// The previous value and the allowed change, when a rate-of-change check applies:
/// the rule has a limit, a value was seen before, and a whole second or more has passed since.
pub open spec fn delta_reference<V>(last_value: Option<(Instant, V)>, rule: ParamRule<V>, now: Instant) -> Option<(V, V)> {
    match (rule.delta_per_minute, last_value) {
        (Some(max), Some((t, prev))) => if whole_seconds(now as int, t as int) > 0 {
            Some((prev, max))
        } else {
            None
        },
        _ => None,
    }
}

/// One step of a sustained-condition timer: the new start and whether the alert fires.
/// While the condition holds the timer runs from its first instant; once it
/// has lasted `duration_secs` whole seconds the alert fires and the timer is
/// cleared. When the condition does not hold the timer is cleared.
pub open spec fn duration_step(start: Option<Instant>, now: Instant, exceeding: bool, duration_secs: i64) -> (Option<Instant>, bool) {
    if exceeding {
        match start {
            None => (Some(now), false),
            Some(t) => if whole_seconds(now as int, t as int) >= duration_secs {
                (None, true)
            } else {
                (Some(t), false)
            },
        }
    } else {
        (None, false)
    }
}

/// A parameter's current value: the samples of the window to be averaged, or the latest sample.
pub enum Aggregate<V> {
    Mean(Vec<V>),
    Latest(V),
}

proof fn lemma_prune_suffix<V>(s: Seq<(Instant, V)>, cutoff: int)
    requires
        s.len() > 0,
        (s.last().0 as int) >= cutoff,
    ensures
        prune_before(s, cutoff).len() > 0,
        prune_before(s, cutoff).last() == s.last(),
    decreases s.len(),
{
    if (s[0].0 as int) < cutoff {
        assert(s.len() > 1);
        assert(s.drop_first().last() == s.last());
        lemma_prune_suffix(s.drop_first(), cutoff);
    }
}

/// After a sample is added, the samples are not empty and end with it.
pub proof fn lemma_window_ends_with_new_sample<V>(samples: Seq<(Instant, V)>, now: Instant, value: V, window: Option<u128>)
    ensures
        window_after(samples, now, value, window).len() > 0,
        window_after(samples, now, value, window).last() == (now, value),
{
    if let Some(w) = window {
        lemma_prune_suffix(samples.push((now, value)), now - w);
    }
}

impl<V: Copy> ParamState<V> {
    /// Well-formedness: every instant kept lies within the bound.
    pub open spec fn wf(&self) -> bool {
        &&& valid_instant(self.last_seen)
        &&& forall|i: int| 0 <= i < self.samples@.len() ==> valid_instant(#[trigger] self.samples@[i].0)
        &&& (self.warning_start matches Some(t) ==> valid_instant(t))
        &&& (self.critical_start matches Some(t) ==> valid_instant(t))
        &&& (self.last_value matches Some(p) ==> valid_instant(p.0))
    }

    /// A state with no samples, last seen at `now`.
    pub fn new(now: Instant) -> (s: Self)
        requires
            valid_instant(now),
        ensures
            s.wf(),
            s.samples@ == Seq::<(Instant, V)>::empty(),
            s.warning_start is None,
            s.critical_start is None,
            s.last_seen == now,
            s.last_value is None,
    {
        ParamState {
            samples: std::collections::VecDeque::new(),
            warning_start: None,
            critical_start: None,
            last_seen: now,
            last_value: None,
        }
    }

    /// Records `value` taken at `now` and trims the window.
    pub fn add_sample(&mut self, now: Instant, value: V, window_nanos: Option<u128>)
        requires
            old(self).wf(),
            valid_instant(now),
        ensures
            final(self).wf(),
            final(self).samples@ == window_after(old(self).samples@, now, value, window_nanos),
            final(self).last_seen == now,
            final(self).last_value == Some((now, value)),
            final(self).warning_start == old(self).warning_start,
            final(self).critical_start == old(self).critical_start,
    {
        let ghost old_samples = self.samples@;
        self.last_seen = now;
        self.last_value = Some((now, value));
        self.samples.push_back((now, value));
        let ghost ws = old(self).warning_start;
        let ghost cs = old(self).critical_start;
        let ghost pushed = self.samples@;
        assert(forall|i: int| 0 <= i < pushed.len() ==> valid_instant(#[trigger] pushed[i].0)) by {
            assert forall|i: int| 0 <= i < pushed.len() implies valid_instant(#[trigger] pushed[i].0) by {
                if i < old_samples.len() {
                    assert(pushed[i] == old_samples[i]);
                }
            }
        }
        match window_nanos {
            Some(w) => {
                if w > 0x10_0000_0000_0000_0000_0000_0000 {
                    // The cutoff lies before every instant within the bound: nothing is stale.
                    assert(prune_before(pushed, now - w) == pushed) by {
                        assert(valid_instant(pushed[0].0));
                    }
                } else {
                    let cutoff: i128 = now - w as i128;
                    let ghost target = prune_before(pushed, cutoff as int);
                    loop
                        invariant
                            prune_before(self.samples@, cutoff as int) == target,
                            forall|i: int| 0 <= i < self.samples@.len() ==> valid_instant(#[trigger] self.samples@[i].0),
                            self.last_seen == now,
                            self.last_value == Some((now, value)),
                            self.warning_start == ws,
                            self.critical_start == cs,
                        ensures
                            self.samples@ == target,
                            forall|i: int| 0 <= i < self.samples@.len() ==> valid_instant(#[trigger] self.samples@[i].0),
                            self.last_seen == now,
                            self.last_value == Some((now, value)),
                            self.warning_start == ws,
                            self.critical_start == cs,
                        decreases self.samples@.len(),
                    {
                        if self.samples.len() == 0 {
                            break;
                        }
                        let t = self.samples[0].0;
                        if t < cutoff {
                            let ghost before = self.samples@;
                            self.samples.pop_front();
                            proof {
                                assert(self.samples@ =~= before.drop_first());
                                assert forall|i: int| 0 <= i < self.samples@.len() implies valid_instant(#[trigger] self.samples@[i].0) by {
                                    assert(self.samples@[i] == before[i + 1]);
                                }
                            }
                        } else {
                            break;
                        }
                    }
                }
            },
            None => {
                while self.samples.len() > 1
                    invariant
                        self.samples@.len() >= 1,
                        forall|i: int| 0 <= i < self.samples@.len() ==> valid_instant(#[trigger] self.samples@[i].0),
                        self.samples@.last() == (now, value),
                        self.last_seen == now,
                        self.last_value == Some((now, value)),
                        self.warning_start == ws,
                        self.critical_start == cs,
                    decreases self.samples@.len(),
                {
                    let ghost before = self.samples@;
                    self.samples.pop_front();
                    proof {
                        assert forall|i: int| 0 <= i < self.samples@.len() implies valid_instant(#[trigger] self.samples@[i].0) by {
                            assert(self.samples@[i] == before[i + 1]);
                        }
                    }
                }
                assert(self.samples@ =~= seq![(now, value)]);
            },
        }
    }

    /// The value to show and judge: the window's samples to average when the
    /// rule has a window, else the latest sample; nothing when there are no samples.
    pub fn aggregated_value(&self, rule: &ParamRule<V>) -> (r: Option<Aggregate<V>>)
        ensures
            self.samples@.len() == 0 ==> r is None,
            self.samples@.len() > 0 && rule.window_nanos is Some ==> (r matches Some(Aggregate::Mean(vs)) && vs@ == sample_values(self.samples@)
                && vs@.len() == self.samples@.len() && forall|i: int| 0 <= i < vs@.len() ==> #[trigger] vs@[i] == self.samples@[i].1),
            self.samples@.len() > 0 && rule.window_nanos is None ==> r == Some(Aggregate::Latest(self.samples@.last().1)),
    {
        let n = self.samples.len();
        if n == 0 {
            return None;
        }
        if rule.window_nanos.is_some() {
            let mut vs: Vec<V> = Vec::new();
            let mut i: usize = 0;
            while i < n
                invariant
                    n == self.samples@.len(),
                    i <= n,
                    vs@ == sample_values(self.samples@.take(i as int)),
                decreases n - i,
            {
                vs.push(self.samples[i].1);
                proof {
                    assert(self.samples@.take(i + 1) =~= self.samples@.take(i as int).push(self.samples@[i as int]));
                }
                i = i + 1;
            }
            proof {
                assert(self.samples@.take(n as int) =~= self.samples@);
            }
            Some(Aggregate::Mean(vs))
        } else {
            Some(Aggregate::Latest(self.samples[n - 1].1))
        }
    }

    /// The previous value and the allowed change, when a rate-of-change check applies at `now`.
    pub fn check_delta(&self, rule: &ParamRule<V>, now: Instant) -> (r: Option<(V, V)>)
        requires
            self.wf(),
            valid_instant(now),
        ensures
            r == delta_reference(self.last_value, *rule, now),
    {
        match rule.delta_per_minute {
            Some(max_delta) => match self.last_value {
                Some((prev_time, prev_value)) => {
                    let elapsed = elapsed_whole_seconds(now, prev_time);
                    if elapsed > 0 {
                        Some((prev_value, max_delta))
                    } else {
                        None
                    }
                },
                None => None,
            },
            None => None,
        }
    }

    /// Advances the `"warning"` or `"critical"` timer by one reading and
    /// reports whether its alert fires; any other severity changes nothing.
    pub fn update_duration_alert(&mut self, now: Instant, is_exceeding: bool, duration_secs: i64, severity: &str) -> (fired: bool)
        requires
            old(self).wf(),
            valid_instant(now),
        ensures
            final(self).wf(),
            final(self).samples@ == old(self).samples@,
            final(self).last_seen == old(self).last_seen,
            final(self).last_value == old(self).last_value,
            severity@ == "warning"@ ==> (final(self).warning_start, fired) == duration_step(old(self).warning_start, now, is_exceeding, duration_secs)
                && final(self).critical_start == old(self).critical_start,
            severity@ == "critical"@ ==> (final(self).critical_start, fired) == duration_step(old(self).critical_start, now, is_exceeding, duration_secs)
                && final(self).warning_start == old(self).warning_start,
            severity@ != "warning"@ && severity@ != "critical"@ ==> !fired
                && final(self).warning_start == old(self).warning_start
                && final(self).critical_start == old(self).critical_start,
    {
        proof {
            reveal_strlit("warning");
            reveal_strlit("critical");
            assert("warning"@.len() != "critical"@.len());
        }
        if str_eq(severity, "warning") {
            let (s, fired) = Self::timer_step(self.warning_start, now, is_exceeding, duration_secs);
            self.warning_start = s;
            fired
        } else if str_eq(severity, "critical") {
            let (s, fired) = Self::timer_step(self.critical_start, now, is_exceeding, duration_secs);
            self.critical_start = s;
            fired
        } else {
            false
        }
    }

    fn timer_step(start: Option<Instant>, now: Instant, is_exceeding: bool, duration_secs: i64) -> (r: (Option<Instant>, bool))
        requires
            start matches Some(t) ==> valid_instant(t),
            valid_instant(now),
        ensures
            r.0 matches Some(t) ==> valid_instant(t),
            r == duration_step(start, now, is_exceeding, duration_secs),
    {
        if is_exceeding {
            match start {
                None => (Some(now), false),
                Some(t) => {
                    if elapsed_whole_seconds(now, t) >= duration_secs {
                        (None, true)
                    } else {
                        (Some(t), false)
                    }
                },
            }
        } else {
            (None, false)
        }
    }
}


/// One configured rule as it is handed to [`Processor::new`]: parameter name,
/// warning and critical thresholds, window (ns), duration (s), allowed change,
/// heartbeat (s).
pub type RuleSpec<V> = (String, V, V, Option<u128>, Option<i64>, Option<V>, Option<i64>);

/// The rule that a configured entry describes.
pub open spec fn rule_of<V>(t: RuleSpec<V>) -> ParamRule<V> {
    ParamRule {
        threshold_warning: t.1,
        threshold_critical: t.2,
        window_nanos: t.3,
        duration_secs: t.4,
        delta_per_minute: t.5,
        heartbeat_secs: t.6,
    }
}

/// The rules that a configured list gives, a later entry for a parameter replacing an earlier one.
pub open spec fn rules_from<V>(s: Seq<RuleSpec<V>>) -> Map<Seq<char>, ParamRule<V>>
    decreases s.len(),
{
    if s.len() == 0 {
        Map::empty()
    } else {
        rules_from(s.drop_last()).insert(s.last().0@, rule_of(s.last()))
    }
}

/// The alert, if any, that one judged reading raises.
#[derive(Debug, Clone, Copy, PartialEq, Eq, Structural)]
pub enum Alert {
    /// The critical condition has lasted the rule's duration.
    CriticalSustained,
    /// The warning (and not critical) condition has lasted the rule's duration.
    WarningSustained,
    /// A duration rule applies and neither timer has run out.
    Pending,
    /// At or above the critical threshold.
    Critical,
    /// At or above the warning threshold, below the critical one.
    Warning,
    /// Below both thresholds.
    Normal,
}

/// Judging one reading: the new critical and warning timers and the alert.
/// With a duration rule the critical timer advances first; only when it does
/// not fire does the warning timer advance, on "warning and not critical".
pub open spec fn alert_step(
    critical_start: Option<Instant>,
    warning_start: Option<Instant>,
    duration: Option<i64>,
    now: Instant,
    is_critical: bool,
    is_warning: bool,
) -> (Option<Instant>, Option<Instant>, Alert) {
    match duration {
        Some(d) => {
            let (c, fired_c) = duration_step(critical_start, now, is_critical, d);
            if fired_c {
                (c, warning_start, Alert::CriticalSustained)
            } else {
                let (w, fired_w) = duration_step(warning_start, now, is_warning && !is_critical, d);
                (c, w, if fired_w { Alert::WarningSustained } else { Alert::Pending })
            }
        },
        None => (critical_start, warning_start, if is_critical {
            Alert::Critical
        } else if is_warning {
            Alert::Warning
        } else {
            Alert::Normal
        }),
    }
}

/// What recording a reading yields.
pub enum Recorded<V> {
    /// No rule covers the parameter; the reading is only counted.
    Unmonitored,
    /// No samples to aggregate.
    Empty,
    /// The parameter's rule, its current aggregate, and the inputs of a
    /// rate-of-change check when one applies.
    Aggregated { rule: ParamRule<V>, aggregate: Aggregate<V>, delta: Option<(V, V)> },
}

/// A parameter that has gone quiet for longer than its heartbeat allows.
pub struct HeartbeatFailure {
    pub parameter: String,
    pub elapsed_secs: i64,
    pub heartbeat_secs: i64,
}

/// The overdue parameters among `states`, in order, with the whole seconds
/// since each was last seen and its heartbeat.
pub open spec fn heartbeat_failures<V>(
    states: Seq<(String, ParamState<V>)>,
    rules: Map<Seq<char>, ParamRule<V>>,
    now: Instant,
) -> Seq<(Seq<char>, int, int)>
    decreases states.len(),
{
    if states.len() == 0 {
        seq![]
    } else {
        let rest = heartbeat_failures(states.drop_last(), rules, now);
        let name = states.last().0@;
        let elapsed = whole_seconds(now as int, states.last().1.last_seen as int);
        if rules.contains_key(name) && rules[name].heartbeat_secs is Some
            && elapsed > rules[name].heartbeat_secs.unwrap() {
            rest.push((name, elapsed, rules[name].heartbeat_secs.unwrap() as int))
        } else {
            rest
        }
    }
}

/// The view of a heartbeat failure.
pub open spec fn failure_view(f: HeartbeatFailure) -> (Seq<char>, int, int) {
    (f.parameter@, f.elapsed_secs as int, f.heartbeat_secs as int)
}

/// The samples kept for `p` so far (none for a parameter not seen yet).
pub open spec fn prior_samples<V>(states: Map<Seq<char>, ParamState<V>>, p: Seq<char>) -> Seq<(Instant, V)> {
    if states.contains_key(p) {
        states[p].samples@
    } else {
        Seq::empty()
    }
}

/// The rules per parameter and what has been observed of each.
pub struct Processor<V> {
    pub rules: Table<ParamRule<V>>,
    pub states: Table<ParamState<V>>,
}

impl<V: Copy> Processor<V> {
    /// Well-formedness: both tables are well formed and state is kept only for ruled parameters.
    pub open spec fn wf(&self) -> bool {
        &&& self.rules.wf()
        &&& self.states.wf()
        &&& forall|k: Seq<char>| self.states@.contains_key(k) ==> #[trigger] self.rules@.contains_key(k)
        &&& forall|k: Seq<char>| self.states@.contains_key(k) ==> (#[trigger] self.states@[k]).wf()
    }

    /// A processor for the configured rules, with nothing observed yet.
    pub fn new(rules: Vec<RuleSpec<V>>) -> (p: Self)
        ensures
            p.wf(),
            p.rules@ == rules_from(rules@),
            p.states@ == Map::<Seq<char>, ParamState<V>>::empty(),
    {
        let mut table: Table<ParamRule<V>> = Table::new();
        let n = rules.len();
        let mut i: usize = 0;
        while i < n
            invariant
                n == rules@.len(),
                i <= n,
                table.wf(),
                table@ == rules_from(rules@.take(i as int)),
            decreases n - i,
        {
            let (name, warn, crit, window, duration, delta, heartbeat) = (
                rules[i].0.clone(),
                rules[i].1,
                rules[i].2,
                rules[i].3,
                rules[i].4,
                rules[i].5,
                rules[i].6,
            );
            let rule = ParamRule {
                threshold_warning: warn,
                threshold_critical: crit,
                window_nanos: window,
                duration_secs: duration,
                delta_per_minute: delta,
                heartbeat_secs: heartbeat,
            };
            table.insert(name, rule);
            proof {
                assert(rules@.take(i + 1).drop_last() =~= rules@.take(i as int));
            }
            i = i + 1;
        }
        proof {
            assert(rules@.take(n as int) =~= rules@);
        }
        let states: Table<ParamState<V>> = Table::new();
        Processor { rules: table, states }
    }

    /// Adds a reading to its parameter's window and yields the aggregate to
    /// publish; a parameter without a rule is left untouched.
    pub fn record(&mut self, reading: &SensorReading<V>) -> (r: Recorded<V>)
        requires
            old(self).wf(),
            valid_instant(reading.timestamp),
        ensures
            final(self).wf(),
            final(self).rules@ == old(self).rules@,
            !old(self).rules@.contains_key(reading.parameter@) ==> r is Unmonitored && final(self).states@ == old(self).states@,
            old(self).rules@.contains_key(reading.parameter@) ==> {
                let p = reading.parameter@;
                let rule = old(self).rules@[p];
                let st = final(self).states@[p];
                &&& final(self).states@ == old(self).states@.insert(p, st)
                &&& st.samples@ == window_after(prior_samples(old(self).states@, p), reading.timestamp, reading.value, rule.window_nanos)
                &&& st.last_seen == reading.timestamp
                &&& st.last_value == Some((reading.timestamp, reading.value))
                &&& st.warning_start == (if old(self).states@.contains_key(p) { old(self).states@[p].warning_start } else { None })
                &&& st.critical_start == (if old(self).states@.contains_key(p) { old(self).states@[p].critical_start } else { None })
                &&& r matches Recorded::Aggregated { rule: r_rule, aggregate, delta } && {
                    &&& r_rule == rule
                    &&& delta is None
                    &&& match rule.window_nanos {
                        Some(_) => aggregate matches Aggregate::Mean(vs) && vs@ == sample_values(st.samples@)
                            && vs@.len() == st.samples@.len() && forall|i: int| 0 <= i < vs@.len() ==> #[trigger] vs@[i] == st.samples@[i].1,
                        None => aggregate == Aggregate::Latest(reading.value),
                    }
                }
            },
    {
        let param = reading.parameter.as_str();
        let now = reading.timestamp;
        let rule: ParamRule<V> = match self.rules.get(param) {
            Some(r) => *r,
            None => return Recorded::Unmonitored,
        };
        let ghost p = reading.parameter@;
        let ghost old_states = self.states@;
        let ghost old_entries = self.states.entries@;
        let pos = self.states.position(param);
        let (name, mut st) = match pos {
            Some(i) => self.states.entries.remove(i),
            None => (reading.parameter.clone(), ParamState::new(now)),
        };
        proof {
            if let Some(i) = pos {
                assert(st == old_entries[i as int].1);
            }
        }
        st.add_sample(now, reading.value, rule.window_nanos);
        proof {
            lemma_window_ends_with_new_sample(prior_samples(old_states, p), now, reading.value, rule.window_nanos);
        }
        let aggregate = st.aggregated_value(&rule);
        let delta = st.check_delta(&rule, now);
        match pos {
            Some(i) => {
                self.states.entries.insert(i, (name, st));
                proof {
                    assert(self.states.entries@ =~= old_entries.update(i as int, self.states.entries@[i as int]));
                    lemma_entries_map_update(old_entries, i as int, self.states.entries@[i as int]);
                }
            },
            None => {
                self.states.insert(name, st);
            },
        }
        proof {
            assert(self.states@.contains_key(p));
            assert forall|k: Seq<char>| self.states@.contains_key(k) implies #[trigger] self.rules@.contains_key(k) by {
                if k != p {
                    assert(old_states.contains_key(k));
                }
            }
        }
        match aggregate {
            Some(a) => Recorded::Aggregated { rule, aggregate: a, delta },
            None => Recorded::Empty,
        }
    }

    /// Judges the latest reading of `parameter` from the outcome of comparing
    /// its aggregate with the critical and warning thresholds, advancing the
    /// sustained-condition timers; `None`, with nothing changed, for a
    /// parameter that has no rule or no recorded reading.
    pub fn evaluate(&mut self, parameter: &str, now: Instant, is_critical: bool, is_warning: bool) -> (r: Option<Alert>)
        requires
            old(self).wf(),
            valid_instant(now),
        ensures
            final(self).wf(),
            final(self).rules@ == old(self).rules@,
            !(old(self).rules@.contains_key(parameter@) && old(self).states@.contains_key(parameter@)) ==> r is None && final(self).states@ == old(self).states@,
            old(self).rules@.contains_key(parameter@) && old(self).states@.contains_key(parameter@) ==> {
                let p = parameter@;
                let st0 = old(self).states@[p];
                let st = final(self).states@[p];
                let step = alert_step(st0.critical_start, st0.warning_start, old(self).rules@[p].duration_secs, now, is_critical, is_warning);
                &&& final(self).states@ == old(self).states@.insert(p, st)
                &&& st.critical_start == step.0
                &&& st.warning_start == step.1
                &&& r == Some(step.2)
                &&& st.samples@ == st0.samples@
                &&& st.last_seen == st0.last_seen
                &&& st.last_value == st0.last_value
            },
    {
        proof {
            reveal_strlit("warning");
            reveal_strlit("critical");
            assert("warning"@.len() != "critical"@.len());
        }
        let rule: ParamRule<V> = match self.rules.get(parameter) {
            Some(r) => *r,
            None => return None,
        };
        let i = match self.states.position(parameter) {
            Some(i) => i,
            None => return None,
        };
        let ghost old_entries = self.states.entries@;
        let ghost old_states = self.states@;
        let (name, mut st) = self.states.entries.remove(i);
        assert(st == old_entries[i as int].1);
        let alert = match rule.duration_secs {
            Some(duration) => {
                if st.update_duration_alert(now, is_critical, duration, "critical") {
                    Alert::CriticalSustained
                } else if st.update_duration_alert(now, is_warning && !is_critical, duration, "warning") {
                    Alert::WarningSustained
                } else {
                    Alert::Pending
                }
            },
            None => {
                if is_critical {
                    Alert::Critical
                } else if is_warning {
                    Alert::Warning
                } else {
                    Alert::Normal
                }
            },
        };
        self.states.entries.insert(i, (name, st));
        proof {
            assert(self.states.entries@ =~= old_entries.update(i as int, self.states.entries@[i as int]));
            lemma_entries_map_update(old_entries, i as int, self.states.entries@[i as int]);
            assert forall|k: Seq<char>| self.states@.contains_key(k) implies #[trigger] self.rules@.contains_key(k) by {
                assert(old_states.contains_key(k));
            }
        }
        Some(alert)
    }

    /// The parameters whose heartbeat has run out at `now`: more whole
    /// seconds than the rule's heartbeat have passed since each was last seen.
    pub fn check_heartbeats(&self, now: Instant) -> (r: Vec<HeartbeatFailure>)
        requires
            self.wf(),
            valid_instant(now),
        ensures
            r@.map_values(|f: HeartbeatFailure| failure_view(f)) == heartbeat_failures(self.states.entries_seq(), self.rules@, now),
    {
        let mut out: Vec<HeartbeatFailure> = Vec::new();
        let n = self.states.len();
        let mut i: usize = 0;
        while i < n
            invariant
                n == self.states.entries@.len(),
                i <= n,
                self.wf(),
                valid_instant(now),
                out@.map_values(|f: HeartbeatFailure| failure_view(f)) == heartbeat_failures(self.states.entries@.take(i as int), self.rules@, now),
            decreases n - i,
        {
            let entry = self.states.entry(i);
            let ghost before = out@;
            proof {
                lemma_entries_map_at(self.states.entries@, i as int);
                assert(self.states@[self.states.entries@[i as int].0@].wf());
                assert(self.states.entries@.take(i + 1).drop_last() =~= self.states.entries@.take(i as int));
                assert(self.states.entries@.take(i + 1).last() == self.states.entries@[i as int]);
            }
            match self.rules.get(entry.0.as_str()) {
                Some(rule) => match rule.heartbeat_secs {
                    Some(heartbeat) => {
                        let elapsed = elapsed_whole_seconds(now, entry.1.last_seen);
                        if elapsed > heartbeat {
                            out.push(HeartbeatFailure {
                                parameter: entry.0.clone(),
                                elapsed_secs: elapsed,
                                heartbeat_secs: heartbeat,
                            });
                            proof {
                                assert(out@.map_values(|f: HeartbeatFailure| failure_view(f)) =~= before.map_values(|f: HeartbeatFailure| failure_view(f)).push(failure_view(out@.last())));
                            }
                        }
                    },
                    None => {},
                },
                None => {},
            }
            i = i + 1;
        }
        proof {
            assert(self.states.entries@.take(n as int) =~= self.states.entries@);
        }
        out
    }
}

} // verus!
