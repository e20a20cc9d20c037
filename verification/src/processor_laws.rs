//! Properties of rule evaluation that hold across readings.
use vstd::prelude::*;
use crate::models::{whole_seconds, Instant};
use crate::processor::{
    alert_step, delta_reference, duration_step, heartbeat_failures, prune_before, rule_of,
    rules_from, sample_values, window_after, Alert, ParamRule, ParamState, RuleSpec,
};

verus! {

/// Trimming a window only drops samples from its front, and the first sample
/// it keeps (if any) was taken at or after the cutoff.
pub proof fn law_window_trims_only_stale_prefix<V>(s: Seq<(Instant, V)>, cutoff: int)
    ensures
        exists|k: int| 0 <= k <= s.len() && prune_before(s, cutoff) == s.skip(k),
        prune_before(s, cutoff).len() > 0 ==> prune_before(s, cutoff)[0].0 as int >= cutoff,
    decreases s.len(),
{
    if s.len() > 0 && (s[0].0 as int) < cutoff {
        law_window_trims_only_stale_prefix(s.drop_first(), cutoff);
        let k = choose|k: int| 0 <= k <= s.drop_first().len() && prune_before(s.drop_first(), cutoff) == s.drop_first().skip(k);
        assert(s.drop_first().skip(k) =~= s.skip(k + 1));
    } else {
        assert(s.skip(0) =~= s);
    }
}

/// The reading just added is always the newest sample of the window, so a
/// monitored parameter always has a value after a reading.
pub proof fn law_new_reading_is_newest_sample<V>(samples: Seq<(Instant, V)>, now: Instant, value: V, window: Option<u128>)
    ensures
        window_after(samples, now, value, window).len() > 0,
        window_after(samples, now, value, window).last() == (now, value),
{
    crate::processor::lemma_window_ends_with_new_sample(samples, now, value, window);
}

/// Without a window only the latest sample is kept.
pub proof fn law_no_window_keeps_latest_only<V>(samples: Seq<(Instant, V)>, now: Instant, value: V)
    ensures
        window_after(samples, now, value, None) == seq![(now, value)],
{
}

/// A rate-of-change check needs at least a whole second since the previous
/// value: against a value recorded at the same instant it never applies.
pub proof fn law_no_delta_check_within_same_second<V>(rule: ParamRule<V>, now: Instant, value: V)
    ensures
        delta_reference(Some((now, value)), rule, now) is None,
{
}

/// A timer that is not running never fires; it starts at the reading's instant.
pub proof fn law_timer_starts_without_alert(now: Instant, duration_secs: i64)
    ensures
        duration_step(None, now, true, duration_secs) == (Some(now), false),
{
}

/// A reading that does not meet the condition clears the timer and raises nothing.
pub proof fn law_timer_clears_when_condition_ends(start: Option<Instant>, now: Instant, duration_secs: i64)
    ensures
        duration_step(start, now, false, duration_secs) == (None::<Instant>, false),
{
}

/// A running timer fires exactly when the condition has lasted the duration in
/// whole seconds; firing clears it, otherwise it keeps its start.
pub proof fn law_timer_fires_after_duration(start: Instant, now: Instant, duration_secs: i64)
    ensures
        duration_step(Some(start), now, true, duration_secs).1 <==> whole_seconds(now as int, start as int) >= duration_secs,
        duration_step(Some(start), now, true, duration_secs).1 ==> duration_step(Some(start), now, true, duration_secs).0 is None,
        !duration_step(Some(start), now, true, duration_secs).1 ==> duration_step(Some(start), now, true, duration_secs).0 == Some(start),
{
}

/// Two consecutive exceeding readings, the second at least the duration after
/// the first, raise the sustained alert on the second, starting from an idle timer.
pub proof fn law_sustained_condition_alerts(t1: Instant, t2: Instant, duration_secs: i64)
    requires
        whole_seconds(t2 as int, t1 as int) >= duration_secs,
    ensures
        ({
            let (s1, f1) = duration_step(None, t1, true, duration_secs);
            let (s2, f2) = duration_step(s1, t2, true, duration_secs);
            !f1 && f2 && s2 is None
        }),
{
}

/// A sustained warning is raised only for a reading that is not critical, and
/// while the critical alert fires the warning timer is left as it was.
pub proof fn law_sustained_alerts_exclusive(
    critical_start: Option<Instant>,
    warning_start: Option<Instant>,
    d: i64,
    now: Instant,
    is_critical: bool,
    is_warning: bool,
)
    ensures
        alert_step(critical_start, warning_start, Some(d), now, is_critical, is_warning).2 == Alert::WarningSustained ==> !is_critical && is_warning,
        alert_step(critical_start, warning_start, Some(d), now, is_critical, is_warning).2 == Alert::CriticalSustained ==> is_critical
            && alert_step(critical_start, warning_start, Some(d), now, is_critical, is_warning).1 == warning_start,
        is_critical ==> alert_step(critical_start, warning_start, Some(d), now, is_critical, is_warning).2 != Alert::WarningSustained,
{
}

/// Without a duration rule every reading is classified at once (critical over
/// warning over normal) and the timers are left untouched.
pub proof fn law_immediate_classification(
    critical_start: Option<Instant>,
    warning_start: Option<Instant>,
    now: Instant,
    is_critical: bool,
    is_warning: bool,
)
    ensures
        ({
            let (c, w, a) = alert_step(critical_start, warning_start, None, now, is_critical, is_warning);
            &&& c == critical_start
            &&& w == warning_start
            &&& (is_critical <==> a == Alert::Critical)
            &&& (!is_critical && is_warning <==> a == Alert::Warning)
            &&& (!is_critical && !is_warning <==> a == Alert::Normal)
        }),
{
}

/// The rule kept for a parameter is its last entry in the configured list.
pub proof fn law_last_rule_entry_wins<V>(s: Seq<RuleSpec<V>>, i: int)
    requires
        0 <= i < s.len(),
        forall|j: int| i < j < s.len() ==> s[j].0@ != s[i].0@,
    ensures
        rules_from(s).contains_key(s[i].0@),
        rules_from(s)[s[i].0@] == rule_of(s[i]),
    decreases s.len(),
{
    if i < s.len() - 1 {
        let t = s.drop_last();
        assert forall|j: int| i < j < t.len() implies t[j].0@ != t[i].0@ by {
            assert(t[j] == s[j]);
        }
        assert(t[i] == s[i]);
        law_last_rule_entry_wins(t, i);
    }
}

/// A parameter has a rule exactly when the configured list names it.
pub proof fn law_rules_cover_configured_names<V>(s: Seq<RuleSpec<V>>, k: Seq<char>)
    ensures
        rules_from(s).contains_key(k) <==> exists|i: int| 0 <= i < s.len() && s[i].0@ == k,
    decreases s.len(),
{
    if s.len() > 0 {
        law_rules_cover_configured_names(s.drop_last(), k);
        if exists|i: int| 0 <= i < s.len() && s[i].0@ == k {
            let i = choose|i: int| 0 <= i < s.len() && s[i].0@ == k;
            if i < s.len() - 1 {
                assert(s.drop_last()[i] == s[i]);
            }
        }
        if exists|i: int| 0 <= i < s.drop_last().len() && s.drop_last()[i].0@ == k {
            let i = choose|i: int| 0 <= i < s.drop_last().len() && s.drop_last()[i].0@ == k;
            assert(s[i] == s.drop_last()[i]);
        }
    }
}

/// Every reported heartbeat failure names a ruled parameter whose silence
/// exceeds its heartbeat.
pub proof fn law_heartbeat_failures_are_overdue<V>(
    states: Seq<(String, ParamState<V>)>,
    rules: Map<Seq<char>, ParamRule<V>>,
    now: Instant,
    i: int,
)
    requires
        0 <= i < heartbeat_failures(states, rules, now).len(),
    ensures
        ({
            let f = heartbeat_failures(states, rules, now)[i];
            &&& rules.contains_key(f.0)
            &&& rules[f.0].heartbeat_secs == Some(f.2 as i64)
            &&& f.1 > f.2
        }),
    decreases states.len(),
{
    let rest = heartbeat_failures(states.drop_last(), rules, now);
    if i < rest.len() {
        law_heartbeat_failures_are_overdue(states.drop_last(), rules, now, i);
    }
}

/// The timer after a run of readings, each an instant and whether the condition held.
pub open spec fn timer_after(start: Option<Instant>, steps: Seq<(Instant, bool)>, d: i64) -> Option<Instant>
    decreases steps.len(),
{
    if steps.len() == 0 {
        start
    } else {
        duration_step(timer_after(start, steps.drop_last(), d), steps.last().0, steps.last().1, d).0
    }
}

/// Whether the sustained alert fires at the last reading of a run.
pub open spec fn fires_at_last(start: Option<Instant>, steps: Seq<(Instant, bool)>, d: i64) -> bool {
    steps.len() > 0 && duration_step(timer_after(start, steps.drop_last(), d), steps.last().0, steps.last().1, d).1
}

/// A running timer always started at a reading from which on the condition
/// held at every reading.
pub proof fn law_running_timer_tracks_unbroken_condition(steps: Seq<(Instant, bool)>, d: i64)
    ensures
        timer_after(None, steps, d) matches Some(t) ==> exists|j: int|
            0 <= j < steps.len() && steps[j].0 == t && forall|k: int| j <= k < steps.len() ==> #[trigger] steps[k].1,
    decreases steps.len(),
{
    if steps.len() > 0 {
        let prefix = steps.drop_last();
        law_running_timer_tracks_unbroken_condition(prefix, d);
        let n = steps.len() - 1;
        if let Some(t) = timer_after(None, steps, d) {
            match timer_after(None, prefix, d) {
                None => {
                    assert(steps[n].0 == t);
                    assert forall|k: int| n <= k < steps.len() implies #[trigger] steps[k].1 by {}
                },
                Some(t0) => {
                    assert(t == t0);
                    let j = choose|j: int| 0 <= j < prefix.len() && prefix[j].0 == t0
                        && forall|k: int| j <= k < prefix.len() ==> #[trigger] prefix[k].1;
                    assert(steps[j] == prefix[j]);
                    assert forall|k: int| j <= k < steps.len() implies #[trigger] steps[k].1 by {
                        if k < n {
                            assert(steps[k] == prefix[k]);
                        }
                    }
                },
            }
        }
    }
}

/// A sustained alert, starting from an idle timer, fires only when the
/// condition held at every reading since an earlier one taken at least the
/// duration before, in whole seconds.
pub proof fn law_sustained_alert_needs_unbroken_duration(steps: Seq<(Instant, bool)>, d: i64)
    ensures
        fires_at_last(None, steps, d) ==> exists|j: int|
            0 <= j < steps.len() - 1
            && whole_seconds(steps.last().0 as int, steps[j].0 as int) >= d
            && forall|k: int| j <= k < steps.len() ==> #[trigger] steps[k].1,
{
    if fires_at_last(None, steps, d) {
        let prefix = steps.drop_last();
        law_running_timer_tracks_unbroken_condition(prefix, d);
        let t = timer_after(None, prefix, d).unwrap();
        let j = choose|j: int| 0 <= j < prefix.len() && prefix[j].0 == t
            && forall|k: int| j <= k < prefix.len() ==> #[trigger] prefix[k].1;
        assert(steps[j] == prefix[j]);
        assert forall|k: int| j <= k < steps.len() implies #[trigger] steps[k].1 by {
            if k < steps.len() - 1 {
                assert(steps[k] == prefix[k]);
            }
        }
    }
}

/// Readings in non-decreasing time order.
pub open spec fn times_nondecreasing<V>(s: Seq<(Instant, V)>) -> bool {
    forall|i: int, j: int| 0 <= i <= j < s.len() ==> s[i].0 <= s[j].0
}

/// The window after each reading of a run was added in turn, starting empty.
pub open spec fn window_over_run<V>(readings: Seq<(Instant, V)>, w: u128) -> Seq<(Instant, V)>
    decreases readings.len(),
{
    if readings.len() == 0 {
        Seq::empty()
    } else {
        window_after(window_over_run(readings.drop_last(), w), readings.last().0, readings.last().1, Some(w))
    }
}

/// Trimming samples in time order drops exactly those taken before the cutoff.
proof fn lemma_prune_in_order<V>(s: Seq<(Instant, V)>, cutoff: int)
    requires
        times_nondecreasing(s),
    ensures
        exists|m: int|
            0 <= m <= s.len() && prune_before(s, cutoff) == s.skip(m)
            && (forall|i: int| 0 <= i < m ==> (#[trigger] s[i].0 as int) < cutoff)
            && (forall|i: int| m <= i < s.len() ==> (#[trigger] s[i].0 as int) >= cutoff),
    decreases s.len(),
{
    if s.len() > 0 && (s[0].0 as int) < cutoff {
        let t = s.drop_first();
        assert(times_nondecreasing(t)) by {
            assert forall|i: int, j: int| 0 <= i <= j < t.len() implies t[i].0 <= t[j].0 by {
                assert(t[i] == s[i + 1]);
                assert(t[j] == s[j + 1]);
            }
        }
        lemma_prune_in_order(t, cutoff);
        let m = choose|m: int|
            0 <= m <= t.len() && prune_before(t, cutoff) == t.skip(m)
            && (forall|i: int| 0 <= i < m ==> (#[trigger] t[i].0 as int) < cutoff)
            && (forall|i: int| m <= i < t.len() ==> (#[trigger] t[i].0 as int) >= cutoff);
        assert(t.skip(m) =~= s.skip(m + 1));
        assert forall|i: int| 0 <= i < m + 1 implies (#[trigger] s[i].0 as int) < cutoff by {
            if i > 0 {
                assert(s[i] == t[i - 1]);
            }
        }
        assert forall|i: int| m + 1 <= i < s.len() implies (#[trigger] s[i].0 as int) >= cutoff by {
            assert(s[i] == t[i - 1]);
        }
    } else {
        assert(s.skip(0) =~= s);
        assert forall|i: int| 0 <= i < s.len() implies (#[trigger] s[i].0 as int) >= cutoff by {
            assert(s[0].0 <= s[i].0);
        }
    }
}

/// Over readings taken in time order, the window holds exactly the readings
/// taken no earlier than the window's length before the newest one: a final
/// run of the readings, all earlier ones being older than that.
pub proof fn law_window_over_ordered_run<V>(readings: Seq<(Instant, V)>, w: u128)
    requires
        times_nondecreasing(readings),
        readings.len() > 0,
    ensures
        exists|k: int|
            0 <= k < readings.len() && window_over_run(readings, w) == readings.skip(k)
            && (forall|i: int| 0 <= i < k ==> (#[trigger] readings[i].0 as int) < readings.last().0 - w)
            && (forall|i: int| k <= i < readings.len() ==> (#[trigger] readings[i].0 as int) >= readings.last().0 - w),
    decreases readings.len(),
{
    let n = readings.len();
    let prefix = readings.drop_last();
    let c = readings.last().0 - w;
    assert(times_nondecreasing(prefix)) by {
        assert forall|i: int, j: int| 0 <= i <= j < prefix.len() implies prefix[i].0 <= prefix[j].0 by {
            assert(prefix[i] == readings[i]);
            assert(prefix[j] == readings[j]);
        }
    }
    // The window before the newest reading is a final run of the earlier ones,
    // whose dropped part is older than the new cutoff.
    let k0: int = if n == 1 {
        0
    } else {
        law_window_over_ordered_run(prefix, w);
        choose|k: int|
            0 <= k < prefix.len() && window_over_run(prefix, w) == prefix.skip(k)
            && (forall|i: int| 0 <= i < k ==> (#[trigger] prefix[i].0 as int) < prefix.last().0 - w)
            && (forall|i: int| k <= i < prefix.len() ==> (#[trigger] prefix[i].0 as int) >= prefix.last().0 - w)
    };
    assert(window_over_run(prefix, w) == prefix.skip(k0)) by {
        if n == 1 {
            assert(prefix.skip(0) =~= Seq::<(Instant, V)>::empty());
        }
    }
    assert forall|i: int| 0 <= i < k0 implies (#[trigger] readings[i].0 as int) < c by {
        assert(prefix[i] == readings[i]);
        assert(prefix.last() == readings[n - 2]);
        assert(readings[n - 2].0 <= readings[n - 1].0);
    }
    let pushed = prefix.skip(k0).push(readings.last());
    assert(pushed =~= readings.skip(k0));
    assert(times_nondecreasing(pushed)) by {
        assert forall|i: int, j: int| 0 <= i <= j < pushed.len() implies pushed[i].0 <= pushed[j].0 by {
            assert(pushed[i] == readings[i + k0]);
            assert(pushed[j] == readings[j + k0]);
        }
    }
    lemma_prune_in_order(pushed, c);
    let m = choose|m: int|
        0 <= m <= pushed.len() && prune_before(pushed, c) == pushed.skip(m)
        && (forall|i: int| 0 <= i < m ==> (#[trigger] pushed[i].0 as int) < c)
        && (forall|i: int| m <= i < pushed.len() ==> (#[trigger] pushed[i].0 as int) >= c);
    assert(pushed.skip(m) =~= readings.skip(k0 + m));
    // the newest reading is never dropped
    assert(pushed[pushed.len() - 1] == readings.last());
    assert(m < pushed.len());
    assert forall|i: int| 0 <= i < k0 + m implies (#[trigger] readings[i].0 as int) < c by {
        if i >= k0 {
            assert(pushed[i - k0] == readings[i]);
        }
    }
    assert forall|i: int| k0 + m <= i < n implies (#[trigger] readings[i].0 as int) >= c by {
        assert(pushed[i - k0] == readings[i]);
    }
}

/// Adding the next reading of a run to the window kept so far gives the
/// window over the longer run: successive readings compose.
pub proof fn law_window_run_step<V>(readings: Seq<(Instant, V)>, t: Instant, value: V, w: u128)
    ensures
        window_after(window_over_run(readings, w), t, value, Some(w)) == window_over_run(readings.push((t, value)), w),
{
    assert(readings.push((t, value)).drop_last() =~= readings);
}

/// A chain of timer steps from an idle timer: `starts[i]` is the timer before
/// step `i`, and each step leaves the next one. If step `k` raises the alert,
/// then `k` is not the first step, and some earlier step `j` started the timer
/// at its own instant, with the condition holding at every step from `j` to
/// `k` and at least the duration (whole seconds) between them.
pub proof fn law_timer_chain_fires_after_unbroken_run(
    starts: Seq<Option<Instant>>,
    steps: Seq<(Instant, bool)>,
    d: i64,
    k: int,
)
    requires
        0 <= k < steps.len(),
        starts.len() == steps.len(),
        starts[0] is None,
        forall|i: int| 0 <= i < k ==> starts[i + 1] == (#[trigger] duration_step(starts[i], steps[i].0, steps[i].1, d)).0,
        duration_step(starts[k], steps[k].0, steps[k].1, d).1,
    ensures
        k >= 1,
        exists|j: int|
            0 <= j < k && starts[j + 1] == Some(steps[j].0)
            && whole_seconds(steps[k].0 as int, steps[j].0 as int) >= d
            && forall|i: int| j <= i <= k ==> #[trigger] steps[i].1,
{
    let t = starts[k].unwrap();
    // The latest step that started the timer: the timer ran unchanged from then on.
    lemma_start_step(starts, steps, d, k, t);
    let j = choose|j: int| 0 <= j < k && starts[j + 1] == Some(steps[j].0) && steps[j].0 == t
        && forall|i: int| j < i <= k ==> starts[i] == Some(t);
    assert forall|i: int| j <= i <= k implies #[trigger] steps[i].1 by {
        if i < k {
            // a running timer before and after step i means the condition held at it
            assert(starts[i + 1] == Some(t));
            assert(starts[i + 1] == duration_step(starts[i], steps[i].0, steps[i].1, d).0);
        }
    }
}

/// A timer running with start `t` before step `k` was set by an earlier step
/// at instant `t` and kept unchanged since.
proof fn lemma_start_step(starts: Seq<Option<Instant>>, steps: Seq<(Instant, bool)>, d: i64, k: int, t: Instant)
    requires
        0 <= k < steps.len(),
        starts.len() == steps.len(),
        starts[0] is None,
        forall|i: int| 0 <= i < k ==> starts[i + 1] == (#[trigger] duration_step(starts[i], steps[i].0, steps[i].1, d)).0,
        starts[k] == Some(t),
    ensures
        exists|j: int| 0 <= j < k && starts[j + 1] == Some(steps[j].0) && steps[j].0 == t
            && forall|i: int| j < i <= k ==> starts[i] == Some(t),
    decreases k,
{
    assert(k > 0);
    assert(starts[k] == duration_step(starts[k - 1], steps[k - 1].0, steps[k - 1].1, d).0);
    match starts[k - 1] {
        None => {
            assert(steps[k - 1].0 == t);
            assert forall|i: int| k - 1 < i <= k implies starts[i] == Some(t) by {}
        },
        Some(t0) => {
            assert(t0 == t);
            lemma_start_step(starts, steps, d, k - 1, t);
            let j = choose|j: int| 0 <= j < k - 1 && starts[j + 1] == Some(steps[j].0) && steps[j].0 == t
                && forall|i: int| j < i <= k - 1 ==> starts[i] == Some(t);
            assert forall|i: int| j < i <= k implies starts[i] == Some(t) by {}
        },
    }
}

/// The values averaged for a window are those of all its samples, one for
/// each, in order.
pub proof fn law_mean_takes_every_kept_sample<V>(s: Seq<(Instant, V)>)
    ensures
        sample_values(s).len() == s.len(),
        forall|i: int| 0 <= i < s.len() ==> #[trigger] sample_values(s)[i] == s[i].1,
{
}

/// Under a duration rule, a critical reading that does not raise the
/// sustained critical alert leaves the warning timer idle.
pub proof fn law_critical_reading_clears_warning_timer(
    critical_start: Option<Instant>,
    warning_start: Option<Instant>,
    d: i64,
    now: Instant,
    is_warning: bool,
)
    ensures
        ({
            let (c, w, a) = alert_step(critical_start, warning_start, Some(d), now, true, is_warning);
            a == Alert::CriticalSustained || w is None
        }),
{
}

/// The critical and warning timers after a run of judged readings (instant,
/// critical, warning) under a duration rule, starting idle.
pub open spec fn timers_after(steps: Seq<(Instant, bool, bool)>, d: i64) -> (Option<Instant>, Option<Instant>)
    decreases steps.len(),
{
    if steps.len() == 0 {
        (None, None)
    } else {
        let (c, w) = timers_after(steps.drop_last(), d);
        let r = alert_step(c, w, Some(d), steps.last().0, steps.last().1, steps.last().2);
        (r.0, r.1)
    }
}

/// The alert the last reading of a run raises.
pub open spec fn alert_at_last(steps: Seq<(Instant, bool, bool)>, d: i64) -> Alert {
    let (c, w) = timers_after(steps.drop_last(), d);
    alert_step(c, w, Some(d), steps.last().0, steps.last().1, steps.last().2).2
}

/// Each reading with whether "warning and not critical" held.
pub open spec fn warning_steps(steps: Seq<(Instant, bool, bool)>) -> Seq<(Instant, bool)> {
    steps.map_values(|s: (Instant, bool, bool)| (s.0, s.2 && !s.1))
}

/// Each reading with whether it was critical.
pub open spec fn critical_steps(steps: Seq<(Instant, bool, bool)>) -> Seq<(Instant, bool)> {
    steps.map_values(|s: (Instant, bool, bool)| (s.0, s.1))
}

/// While the critical timer runs the warning timer is idle; the critical
/// timer runs on "critical" and the warning timer on "warning and not critical".
proof fn lemma_timers_after(steps: Seq<(Instant, bool, bool)>, d: i64)
    ensures
        timers_after(steps, d).0 is Some ==> timers_after(steps, d).1 is None,
        timers_after(steps, d).0 == timer_after(None, critical_steps(steps), d),
        timers_after(steps, d).1 == timer_after(None, warning_steps(steps), d),
    decreases steps.len(),
{
    if steps.len() > 0 {
        let prefix = steps.drop_last();
        lemma_timers_after(prefix, d);
        assert(critical_steps(steps).drop_last() =~= critical_steps(prefix));
        assert(warning_steps(steps).drop_last() =~= warning_steps(prefix));
        assert(critical_steps(steps).last() == (steps.last().0, steps.last().1));
        assert(warning_steps(steps).last() == (steps.last().0, steps.last().2 && !steps.last().1));
    } else {
        assert(critical_steps(steps) =~= Seq::<(Instant, bool)>::empty());
        assert(warning_steps(steps) =~= Seq::<(Instant, bool)>::empty());
    }
}

/// Over a run of judged readings from idle timers, a sustained warning is
/// raised only when "warning and not critical" held at every reading since
/// an earlier one at least the duration (in whole seconds) before.
pub proof fn law_sustained_warning_needs_unbroken_warning(steps: Seq<(Instant, bool, bool)>, d: i64)
    requires
        steps.len() > 0,
        alert_at_last(steps, d) == Alert::WarningSustained,
    ensures
        exists|j: int|
            0 <= j < steps.len() - 1
            && whole_seconds(steps.last().0 as int, steps[j].0 as int) >= d
            && forall|i: int| j <= i < steps.len() ==> #[trigger] steps[i].2 && !steps[i].1,
{
    let prefix = steps.drop_last();
    lemma_timers_after(prefix, d);
    let ws = warning_steps(steps);
    assert(ws.drop_last() =~= warning_steps(prefix));
    assert(ws.last() == (steps.last().0, steps.last().2 && !steps.last().1));
    assert(fires_at_last(None, ws, d));
    law_sustained_alert_needs_unbroken_duration(ws, d);
    let j = choose|j: int|
        0 <= j < ws.len() - 1
        && whole_seconds(ws.last().0 as int, ws[j].0 as int) >= d
        && forall|k: int| j <= k < ws.len() ==> #[trigger] ws[k].1;
    assert forall|i: int| j <= i < steps.len() implies #[trigger] steps[i].2 && !steps[i].1 by {
        assert(ws[i].1);
    }
    assert(ws[j].0 == steps[j].0);
}

/// Over a run of judged readings from idle timers, a sustained critical alert
/// is raised only when every reading since an earlier one at least the
/// duration (in whole seconds) before was critical.
pub proof fn law_sustained_critical_needs_unbroken_critical(steps: Seq<(Instant, bool, bool)>, d: i64)
    requires
        steps.len() > 0,
        alert_at_last(steps, d) == Alert::CriticalSustained,
    ensures
        exists|j: int|
            0 <= j < steps.len() - 1
            && whole_seconds(steps.last().0 as int, steps[j].0 as int) >= d
            && forall|i: int| j <= i < steps.len() ==> #[trigger] steps[i].1,
{
    let prefix = steps.drop_last();
    lemma_timers_after(prefix, d);
    let cs = critical_steps(steps);
    assert(cs.drop_last() =~= critical_steps(prefix));
    assert(cs.last() == (steps.last().0, steps.last().1));
    assert(fires_at_last(None, cs, d));
    law_sustained_alert_needs_unbroken_duration(cs, d);
    let j = choose|j: int|
        0 <= j < cs.len() - 1
        && whole_seconds(cs.last().0 as int, cs[j].0 as int) >= d
        && forall|k: int| j <= k < cs.len() ==> #[trigger] cs[k].1;
    assert forall|i: int| j <= i < steps.len() implies #[trigger] steps[i].1 by {
        assert(cs[i].1);
    }
    assert(cs[j].0 == steps[j].0);
}

/// Every parameter kept in `states` whose rule has a heartbeat, and which has
/// been silent longer than it, is reported, with its silence and heartbeat.
pub proof fn law_every_overdue_parameter_is_reported<V>(
    states: Seq<(String, ParamState<V>)>,
    rules: Map<Seq<char>, ParamRule<V>>,
    now: Instant,
    i: int,
)
    requires
        0 <= i < states.len(),
        rules.contains_key(states[i].0@),
        rules[states[i].0@].heartbeat_secs matches Some(h)
            && whole_seconds(now as int, states[i].1.last_seen as int) > h,
    ensures
        heartbeat_failures(states, rules, now).contains((
            states[i].0@,
            whole_seconds(now as int, states[i].1.last_seen as int),
            rules[states[i].0@].heartbeat_secs.unwrap() as int,
        )),
    decreases states.len(),
{
    let rest = heartbeat_failures(states.drop_last(), rules, now);
    let f = (
        states[i].0@,
        whole_seconds(now as int, states[i].1.last_seen as int),
        rules[states[i].0@].heartbeat_secs.unwrap() as int,
    );
    if i == states.len() - 1 {
        assert(heartbeat_failures(states, rules, now) == rest.push(f));
        assert(rest.push(f)[rest.len() as int] == f);
    } else {
        assert(states.drop_last()[i] == states[i]);
        law_every_overdue_parameter_is_reported(states.drop_last(), rules, now, i);
        let k = choose|k: int| 0 <= k < rest.len() && rest[k] == f;
        let all = heartbeat_failures(states, rules, now);
        assert(all == rest || all == rest.push(all.last()));
        if all != rest {
            assert(all[k] == rest[k]);
        }
    }
}

} // verus!
