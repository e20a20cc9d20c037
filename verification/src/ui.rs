//! The terminal dashboard's model: the latest raw and aggregated value of
//! each parameter, the status a raw value shows, and the footer line.
use vstd::prelude::*;
use vstd::string::*;
use crate::table::{entries_map, entry_names, lemma_entries_map_dom, Table};
use crate::text::{decimal, push_decimal};

verus! {

/// The status shown for a raw value.
#[derive(Debug, Clone, Copy, PartialEq, Eq, Structural)]
pub enum Status {
    Critical,
    Warning,
    Normal,
}

/// The status of a value from the outcome of its threshold comparisons:
/// critical when at or above the critical threshold, else warning when at or
/// above the warning threshold, else normal.
pub fn status_for(at_or_above_critical: bool, at_or_above_warning: bool) -> (s: Status)
    ensures
        at_or_above_critical ==> s == Status::Critical,
        !at_or_above_critical && at_or_above_warning ==> s == Status::Warning,
        !at_or_above_critical && !at_or_above_warning ==> s == Status::Normal,
{
    if at_or_above_critical {
        Status::Critical
    } else if at_or_above_warning {
        Status::Warning
    } else {
        Status::Normal
    }
}

impl Status {
    /// The label of the status.
    pub fn label(&self) -> (r: &'static str)
        ensures
            *self == Status::Critical ==> r@ == "CRITICAL"@,
            *self == Status::Warning ==> r@ == "WARNING"@,
            *self == Status::Normal ==> r@ == "NORMAL"@,
    {
        match self {
            Status::Critical => "CRITICAL",
            Status::Warning => "WARNING",
            Status::Normal => "NORMAL",
        }
    }
}

/// The footer: the sensor count, and the skipped-message count once any were skipped.
pub open spec fn footer_text(sensors: nat, skipped: nat) -> Seq<char> {
    if skipped > 0 {
        "Press Ctrl+C to exit | Total sensors: "@ + decimal(sensors) + " | Skipped messages: "@ + decimal(skipped)
    } else {
        "Press Ctrl+C to exit | Total sensors: "@ + decimal(sensors)
    }
}

/// The footer line for `sensors` parameters and `skipped` lost messages.
pub fn footer(sensors: usize, skipped: u64) -> (r: String)
    ensures
        r@ == footer_text(sensors as nat, skipped as nat),
{
    let mut s = String::new();
    s.append("Press Ctrl+C to exit | Total sensors: ");
    push_decimal(&mut s, sensors as u64);
    if skipped > 0 {
        s.append(" | Skipped messages: ");
        push_decimal(&mut s, skipped);
    }
    proof {
        assert(s@ =~= footer_text(sensors as nat, skipped as nat));
    }
    s
}

/// Whether a key press ends the dashboard: Ctrl+C.
pub fn is_quit_key(ch: Option<char>, control: bool) -> (r: bool)
    ensures
        r == (ch == Some('c') && control),
{
    match ch {
        Some(c) => c == 'c' && control,
        None => false,
    }
}

/// One row of the readings table: parameter, raw value, aggregated value
/// (the raw one when no aggregate arrived), unit, and the (warning, critical)
/// thresholds of the parameter's rule, or the fallback ones without a rule.
pub struct Row<V> {
    pub parameter: String,
    pub raw: V,
    pub aggregated: V,
    pub unit: String,
    pub thresholds: (V, V),
}

impl<V: Copy> Row<V> {
    /// What the row's status is judged from: the raw value, with the warning
    /// and critical thresholds.
    pub fn status_inputs(&self) -> (r: (V, V, V))
        ensures
            r == (self.raw, self.thresholds.0, self.thresholds.1),
    {
        (self.raw, self.thresholds.0, self.thresholds.1)
    }
}

/// What the dashboard shows.
pub struct Dashboard<V> {
    /// Latest raw value and unit per parameter.
    pub raw: Table<(V, String)>,
    /// Latest aggregated value and unit per parameter.
    pub aggregated: Table<(V, String)>,
    /// Messages lost because the dashboard fell behind.
    pub skipped: u64,
}

impl<V: Copy> Dashboard<V> {
    /// Well-formedness of both tables.
    pub open spec fn wf(&self) -> bool {
        self.raw.wf() && self.aggregated.wf()
    }

    /// An empty dashboard.
    pub fn new() -> (d: Self)
        ensures
            d.wf(),
            d.raw@ == Map::<Seq<char>, (V, String)>::empty(),
            d.aggregated@ == Map::<Seq<char>, (V, String)>::empty(),
            d.skipped == 0,
    {
        Dashboard { raw: Table::new(), aggregated: Table::new(), skipped: 0 }
    }

    /// Shows a raw reading; it replaces the parameter's previous one.
    pub fn show_raw(&mut self, parameter: String, value: V, unit: String)
        requires
            old(self).wf(),
        ensures
            final(self).wf(),
            final(self).raw@ == old(self).raw@.insert(parameter@, (value, unit)),
            old(self).raw@.contains_key(parameter@) ==> entry_names(final(self).raw.entries_seq()) == entry_names(old(self).raw.entries_seq()),
            !old(self).raw@.contains_key(parameter@) ==> entry_names(final(self).raw.entries_seq()) == entry_names(old(self).raw.entries_seq()).push(parameter@),
            final(self).aggregated == old(self).aggregated,
            final(self).skipped == old(self).skipped,
    {
        self.raw.insert(parameter, (value, unit));
    }

    /// Shows an aggregated reading; it replaces the parameter's previous one.
    pub fn show_aggregated(&mut self, parameter: String, value: V, unit: String)
        requires
            old(self).wf(),
        ensures
            final(self).wf(),
            final(self).aggregated@ == old(self).aggregated@.insert(parameter@, (value, unit)),
            old(self).aggregated@.contains_key(parameter@) ==> entry_names(final(self).aggregated.entries_seq()) == entry_names(old(self).aggregated.entries_seq()),
            !old(self).aggregated@.contains_key(parameter@) ==> entry_names(final(self).aggregated.entries_seq()) == entry_names(old(self).aggregated.entries_seq()).push(parameter@),
            final(self).raw == old(self).raw,
            final(self).skipped == old(self).skipped,
    {
        self.aggregated.insert(parameter, (value, unit));
    }

    /// Counts `n` more lost messages.
    pub fn note_skipped(&mut self, n: u64)
        requires
            old(self).skipped + n <= u64::MAX,
        ensures
            final(self).skipped == old(self).skipped + n,
            final(self).raw == old(self).raw,
            final(self).aggregated == old(self).aggregated,
    {
        self.skipped = self.skipped + n;
    }

    /// The number of parameters shown.
    pub fn sensor_count(&self) -> (n: usize)
        requires
            self.wf(),
        ensures
            n == self.raw@.dom().len(),
    {
        proof {
            lemma_table_size(self.raw.entries@);
        }
        self.raw.len()
    }

    /// The rows of the readings table, one per parameter with a raw value, in
    /// the order the parameters first appeared; a parameter without thresholds
    /// gets `fallback`.
    pub fn rows(&self, thresholds: &Table<(V, V)>, fallback: (V, V)) -> (r: Vec<Row<V>>)
        requires
            self.wf(),
            thresholds.wf(),
        ensures
            r@.len() == self.raw.entries_seq().len(),
            forall|i: int| 0 <= i < r@.len() ==> {
                let (name, (raw, unit)) = self.raw.entries_seq()[i];
                &&& (#[trigger] r@[i]).parameter@ == name@
                &&& r@[i].raw == raw
                &&& r@[i].unit@ == unit@
                &&& r@[i].aggregated == (if self.aggregated@.contains_key(name@) { self.aggregated@[name@].0 } else { raw })
                &&& r@[i].thresholds == (if thresholds@.contains_key(name@) { thresholds@[name@] } else { fallback })
            },
    {
        let mut rows: Vec<Row<V>> = Vec::new();
        let n = self.raw.len();
        let mut i: usize = 0;
        while i < n
            invariant
                n == self.raw.entries@.len(),
                i <= n,
                self.aggregated.wf(),
                thresholds.wf(),
                rows@.len() == i,
                forall|j: int| 0 <= j < i ==> {
                    let (name, (raw, unit)) = self.raw.entries@[j];
                    &&& (#[trigger] rows@[j]).parameter@ == name@
                    &&& rows@[j].raw == raw
                    &&& rows@[j].unit@ == unit@
                    &&& rows@[j].aggregated == (if self.aggregated@.contains_key(name@) { self.aggregated@[name@].0 } else { raw })
                    &&& rows@[j].thresholds == (if thresholds@.contains_key(name@) { thresholds@[name@] } else { fallback })
                },
            decreases n - i,
        {
            let entry = self.raw.entry(i);
            let name = entry.0.as_str();
            let raw = (entry.1).0;
            let aggregated = match self.aggregated.get(name) {
                Some(a) => a.0,
                None => raw,
            };
            let th = match thresholds.get(name) {
                Some(t) => *t,
                None => fallback,
            };
            rows.push(Row { parameter: entry.0.clone(), raw, aggregated, unit: (entry.1).1.clone(), thresholds: th });
            i = i + 1;
        }
        rows
    }
}

/// With unique names the map has as many names as there are entries.
proof fn lemma_table_size<T>(s: Seq<(String, T)>)
    requires
        crate::table::names_unique(s),
    ensures
        entries_map(s).dom().finite(),
        entries_map(s).dom().len() == s.len(),
    decreases s.len(),
{
    if s.len() > 0 {
        let t = s.drop_last();
        assert(crate::table::names_unique(t)) by {
            assert forall|a: int, b: int| 0 <= a < t.len() && 0 <= b < t.len() && a != b implies t[a].0@ != t[b].0@ by {
                assert(t[a] == s[a]);
                assert(t[b] == s[b]);
            }
        }
        lemma_table_size(t);
        lemma_entries_map_dom(t, s.last().0@);
        if entries_map(t).contains_key(s.last().0@) {
            let i = choose|i: int| 0 <= i < t.len() && t[i].0@ == s.last().0@;
            assert(t[i] == s[i]);
        }
    }
}

/// A decimal numeral holds only digits, so no letter.
proof fn lemma_decimal_has_no_letter(n: nat, c: char)
    requires
        !('0' <= c <= '9'),
    ensures
        !decimal(n).contains(c),
    decreases n,
{
    if n >= 10 {
        lemma_decimal_has_no_letter(n / 10, c);
        assert(decimal(n) == decimal(n / 10).push(crate::text::digit_char(n % 10)));
        if decimal(n).contains(c) {
            let i = choose|i: int| 0 <= i < decimal(n).len() && decimal(n)[i] == c;
            if i < decimal(n / 10).len() {
                assert(decimal(n / 10)[i] == c);
            }
        }
    }
}

/// The footer always starts with the exit hint and the sensor count; when
/// messages were skipped it ends with ` | Skipped messages: ` and their
/// count, and otherwise it mentions no skipped messages at all.
pub proof fn law_footer_reports_skipped_messages(sensors: nat, skipped: nat)
    ensures
        ({
            let t = footer_text(sensors, skipped);
            let head = "Press Ctrl+C to exit | Total sensors: "@ + decimal(sensors);
            let tail = " | Skipped messages: "@ + decimal(skipped);
            &&& t.len() >= head.len()
            &&& t.subrange(0, head.len() as int) == head
            &&& skipped > 0 ==> t.len() == head.len() + tail.len()
                && t.subrange(t.len() - tail.len(), t.len() as int) == tail
            &&& skipped == 0 ==> t == head && !t.contains('S')
        }),
{
    let t = footer_text(sensors, skipped);
    let p = "Press Ctrl+C to exit | Total sensors: "@;
    let head = p + decimal(sensors);
    let tail = " | Skipped messages: "@ + decimal(skipped);
    if skipped > 0 {
        assert(t =~= head + tail);
        assert(t.subrange(0, head.len() as int) =~= head);
        assert(t.subrange(t.len() - tail.len(), t.len() as int) =~= tail);
    } else {
        assert(t.subrange(0, head.len() as int) =~= head);
        reveal_strlit("Press Ctrl+C to exit | Total sensors: ");
        lemma_decimal_has_no_letter(sensors, 'S');
        if t.contains('S') {
            let i = choose|i: int| 0 <= i < t.len() && t[i] == 'S';
            if i >= p.len() {
                assert(decimal(sensors)[i - p.len()] == 'S');
            }
        }
    }
}

} // verus!
