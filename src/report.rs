use crate::calendar::{date_text, decimal_text, push_date, push_decimal, weekday_index, CivilDate};
use crate::counts::{lemma_prefix_sum_within, sorted_counts, sum_counts, DailyCounts, DayCount};
use vstd::prelude::*;
use vstd::string::*;

verus! {

/// One line of the per-day report.
#[derive(Debug, Clone, Copy, PartialEq, Eq, Structural)]
pub enum ReportLine {
    /// Stands alone when nothing was counted.
    NoData,
    /// The blank line between the days before the cutoff and the others.
    Separator,
    /// A day, its weekday (Monday being 0) and its count.
    Day { weekday: u32, date: CivilDate, count: u64 },
    /// The sum of all counts.
    Total(u64),
}

/// The day lines of `s`, with a separator before the first day on or after
/// `cutoff` that follows a day before it.
pub open spec fn day_lines(s: Seq<DayCount>, cutoff: CivilDate) -> Seq<ReportLine>
    decreases s.len(),
{
    if s.len() == 0 {
        Seq::empty()
    } else {
        let prev = s.drop_last();
        let last = s.last();
        let crosses = prev.len() > 0 && prev.last().date.precedes(cutoff) && !last.date.precedes(cutoff);
        day_lines(prev, cutoff) + (if crosses { seq![ReportLine::Separator] } else { Seq::empty() })
            + seq![ReportLine::Day { weekday: last.date.weekday() as u32, date: last.date, count: last.count }]
    }
}

/// The whole report on the counts `s`, split at `cutoff`.
pub open spec fn report_lines(s: Seq<DayCount>, cutoff: CivilDate) -> Seq<ReportLine> {
    if s.len() == 0 {
        seq![ReportLine::NoData]
    } else {
        day_lines(s, cutoff).push(ReportLine::Total(sum_counts(s) as u64))
    }
}

/// The report on `counts`: days in calendar order, a blank line where the
/// days reach `cutoff` after some before it, and the total; or a single
/// "no data" line when nothing was counted.
pub fn build(counts: &DailyCounts, cutoff: &CivilDate) -> (r: Vec<ReportLine>)
    requires
        counts.wf(),
    ensures
        r@ == report_lines(counts@, *cutoff),
{
    let entries = counts.entries();
    if entries.len() == 0 {
        return vec![ReportLine::NoData];
    }
    let mut lines: Vec<ReportLine> = Vec::new();
    let mut total: u64 = 0;
    let mut i: usize = 0;
    while i < entries.len()
        invariant
            i <= entries.len(),
            entries@ == counts@,
            sorted_counts(entries@),
            sum_counts(entries@) <= u64::MAX,
            lines@ == day_lines(entries@.take(i as int), *cutoff),
            total == sum_counts(entries@.take(i as int)),
        decreases entries.len() - i,
    {
        let e = entries[i];
        proof {
            assert(entries@.take(i + 1).drop_last() =~= entries@.take(i as int));
            lemma_prefix_sum_within(entries@, i + 1);
        }
        if i > 0 && entries[i - 1].date.is_before(cutoff) && !e.date.is_before(cutoff) {
            lines.push(ReportLine::Separator);
        }
        let weekday = weekday_index(&e.date);
        lines.push(ReportLine::Day { weekday, date: e.date, count: e.count });
        total = total + e.count;
        i += 1;
        proof {
            let t = entries@.take(i as int);
            let crosses = t.drop_last().len() > 0 && t.drop_last().last().date.precedes(*cutoff)
                && !t.last().date.precedes(*cutoff);
            assert(lines@ =~= day_lines(t.drop_last(), *cutoff) + (if crosses {
                seq![ReportLine::Separator]
            } else {
                Seq::empty()
            }) + seq![ReportLine::Day { weekday: t.last().date.weekday() as u32, date: t.last().date, count: t.last().count }]);
        }
    }
    assert(entries@.take(i as int) =~= entries@);
    lines.push(ReportLine::Total(total));
    lines
}

/// Building the report is a function of the counts and the cutoff: two
/// builds on the same counts and cutoff give the same lines.
pub proof fn lemma_build_repeatable(
    counts: DailyCounts,
    cutoff: CivilDate,
    first: Seq<ReportLine>,
    second: Seq<ReportLine>,
)
    requires
        counts.wf(),
        first == report_lines(counts@, cutoff),
        second == report_lines(counts@, cutoff),
    ensures
        first == second,
{
}

/// How many separator lines `lines` holds.
pub open spec fn separator_count(lines: Seq<ReportLine>) -> nat
    decreases lines.len(),
{
    if lines.len() == 0 {
        0
    } else {
        separator_count(lines.drop_last()) + if lines.last() == ReportLine::Separator { 1nat } else { 0nat }
    }
}

pub proof fn lemma_separator_count_concat(a: Seq<ReportLine>, b: Seq<ReportLine>)
    ensures
        separator_count(a + b) == separator_count(a) + separator_count(b),
    decreases b.len(),
{
    if b.len() > 0 {
        lemma_separator_count_concat(a, b.drop_last());
        assert((a + b).drop_last() =~= a + b.drop_last());
    } else {
        assert(a + b =~= a);
    }
}

proof fn lemma_day_lines_separators(s: Seq<DayCount>, cutoff: CivilDate)
    requires
        sorted_counts(s),
    ensures
        separator_count(day_lines(s, cutoff)) == if s.len() > 0 && s[0].date.precedes(cutoff)
            && !s.last().date.precedes(cutoff) {
            1nat
        } else {
            0nat
        },
    decreases s.len(),
{
    if s.len() > 0 {
        let prev = s.drop_last();
        let last = s.last();
        let crosses = prev.len() > 0 && prev.last().date.precedes(cutoff) && !last.date.precedes(cutoff);
        let sep: Seq<ReportLine> = if crosses { seq![ReportLine::Separator] } else { Seq::empty() };
        let day = seq![ReportLine::Day { weekday: last.date.weekday() as u32, date: last.date, count: last.count }];
        assert(sorted_counts(prev));
        lemma_day_lines_separators(prev, cutoff);
        lemma_separator_count_concat(day_lines(prev, cutoff), sep);
        lemma_separator_count_concat(day_lines(prev, cutoff) + sep, day);
        assert(separator_count(day) == 0) by {
            assert(day.drop_last() =~= Seq::<ReportLine>::empty());
        }
        assert(separator_count(sep) == if crosses { 1nat } else { 0nat }) by {
            if crosses {
                assert(sep.drop_last() =~= Seq::<ReportLine>::empty());
                assert(sep.last() == ReportLine::Separator);
                assert(separator_count(sep.drop_last()) == 0);
            } else {
                assert(sep.len() == 0);
            }
        }
        if prev.len() > 0 {
            assert(s[0] == prev[0]);
            assert(prev.last() == s[s.len() - 2]);
            if s.len() > 2 {
                assert(s[0].date.precedes(s[s.len() - 2].date));
            }
            assert(s[s.len() - 2].date.precedes(s[s.len() - 1].date));
        }
    }
}

/// The report holds one blank line where the days before the cutoff meet
/// those on or after it, and none when all days fall on one side.
pub proof fn lemma_one_separator_at_cutoff(counts: DailyCounts, cutoff: CivilDate)
    requires
        counts.wf(),
    ensures
        separator_count(report_lines(counts@, cutoff)) == if counts@.len() > 0 && counts@[0].date.precedes(
            cutoff,
        ) && !counts@.last().date.precedes(cutoff) {
            1nat
        } else {
            0nat
        },
{
    let s = counts@;
    let lines = report_lines(s, cutoff);
    if s.len() == 0 {
        assert(lines.drop_last() =~= Seq::<ReportLine>::empty());
        assert(lines.last() == ReportLine::NoData);
    } else {
        lemma_day_lines_separators(s, cutoff);
        assert(lines.drop_last() =~= day_lines(s, cutoff));
        assert(lines.last() == ReportLine::Total(sum_counts(s) as u64));
    }
    assert(separator_count(lines) == separator_count(lines.drop_last()));
}

pub open spec fn weekday_name(w: int) -> Seq<char> {
    if w == 0 {
        "Mon"@
    } else if w == 1 {
        "Tue"@
    } else if w == 2 {
        "Wed"@
    } else if w == 3 {
        "Thu"@
    } else if w == 4 {
        "Fri"@
    } else if w == 5 {
        "Sat"@
    } else {
        "Sun"@
    }
}

/// The text of a report line.
pub open spec fn line_text(line: ReportLine) -> Seq<char> {
    match line {
        ReportLine::NoData => "No spam messages to summarize."@,
        ReportLine::Separator => ""@,
        ReportLine::Day { weekday, date, count } => weekday_name(weekday as int) + " "@ + date_text(date)
            + " "@ + decimal_text(count as nat),
        ReportLine::Total(total) => "Total: "@ + decimal_text(total as nat),
    }
}

fn weekday_str(w: u32) -> (r: &'static str)
    ensures
        r@ == weekday_name(w as int),
{
    if w == 0 {
        "Mon"
    } else if w == 1 {
        "Tue"
    } else if w == 2 {
        "Wed"
    } else if w == 3 {
        "Thu"
    } else if w == 4 {
        "Fri"
    } else if w == 5 {
        "Sat"
    } else {
        "Sun"
    }
}

impl ReportLine {
    /// The line as printed, e.g. `Wed 2024-05-01 2` or `Total: 3`.
    pub fn render(&self) -> (r: String)
        ensures
            r@ == line_text(*self),
    {
        match self {
            ReportLine::NoData => String::from_str("No spam messages to summarize."),
            ReportLine::Separator => {
                proof {
                    reveal_strlit("");
                }
                String::new()
            },
            ReportLine::Day { weekday, date, count } => {
                let mut out = String::from_str(weekday_str(*weekday));
                out.append(" ");
                push_date(&mut out, date);
                out.append(" ");
                push_decimal(&mut out, *count);
                out
            },
            ReportLine::Total(total) => {
                let mut out = String::from_str("Total: ");
                push_decimal(&mut out, *total);
                out
            },
        }
    }
}

/// Every line of a report as printed, in order.
pub fn render_all(lines: &Vec<ReportLine>) -> (r: Vec<String>)
    ensures
        r@.len() == lines@.len(),
        forall|i: int| 0 <= i < lines@.len() ==> (#[trigger] r@[i])@ == line_text(lines@[i]),
{
    let mut out: Vec<String> = Vec::new();
    let mut i: usize = 0;
    while i < lines.len()
        invariant
            i <= lines.len(),
            out@.len() == i,
            forall|j: int| 0 <= j < i ==> (#[trigger] out@[j])@ == line_text(lines@[j]),
        decreases lines.len() - i,
    {
        out.push(lines[i].render());
        i += 1;
    }
    out
}

} // verus!
