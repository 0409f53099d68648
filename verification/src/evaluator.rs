//! Experiment events, their totals, and the comparison report between a
//! text run and a structured run.
use crate::platform::{new_id, now_micros};
use crate::protocol::{ExperimentId, MessageKind, RunMode, TaskId, Timestamp};
use crate::text::{
    chars_of, decimal, fixed2, keep_where, lemma_string_views_push, map_parts, pieces, push_decimal,
    push_signed_fixed2, push_str, signed_fixed2, split_pieces, string_of, string_views, trim,
    trim_chars, views, Separator,
};
use crate::memory::{lemma_occurs_at_end, lemma_occurs_in_longer, occurs_in};
use vstd::prelude::*;

verus! {

/// What happened.
#[derive(Debug, Clone)]
pub enum EventKind {
    AgentRegistered { agent_id: String, role: String, capability_count: usize },
    MessageMetric {
        from: String,
        to: String,
        kind: MessageKind,
        text_chars: u64,
        encoded_bytes: u64,
        state_bytes: u64,
    },
    StateTransfer { state_id: u128, format: String, byte_len: u64, producer: String, consumer: String },
    MemoryQuery { query: String, hit_count: usize, adopted_count: usize },
    MemoryWritten { memory_id: u128, topic: String, source_agent: String },
    TaskFinished { mode: RunMode, success: bool, duration_ms: u64 },
    Error { message: String },
}

/// One logged event.
#[derive(Debug, Clone)]
pub struct Event {
    pub event_id: u128,
    pub experiment_id: ExperimentId,
    pub task_id: TaskId,
    pub created_at: Timestamp,
    pub kind: EventKind,
}

impl Event {
    /// An event with a fresh id, stamped with the current time.
    pub fn new(experiment_id: ExperimentId, task_id: TaskId, kind: EventKind) -> (e: Self)
        ensures
            e.experiment_id == experiment_id,
            e.task_id == task_id,
            e.kind == kind,
    {
        Event { event_id: new_id(), experiment_id, task_id, created_at: now_micros(), kind }
    }
}

/// Totals over an event log.
#[derive(Debug, Clone, Copy, PartialEq, Eq, Structural)]
pub struct MetricsSummary {
    pub mode: Option<RunMode>,
    pub task_count: u64,
    pub success_count: u64,
    pub message_count: u64,
    pub text_chars: u64,
    pub encoded_bytes: u64,
    pub state_transfer_count: u64,
    pub state_bytes: u64,
    pub duration_ms: u64,
    pub memory_queries: u64,
    pub memory_queries_with_hits: u64,
    pub memory_hits: u64,
    pub adopted_memory_hits: u64,
}

/// The totals of a summary as unbounded numbers.
pub struct Counts {
    pub task_count: nat,
    pub success_count: nat,
    pub message_count: nat,
    pub text_chars: nat,
    pub encoded_bytes: nat,
    pub state_transfer_count: nat,
    pub state_bytes: nat,
    pub duration_ms: nat,
    pub memory_queries: nat,
    pub memory_queries_with_hits: nat,
    pub memory_hits: nat,
    pub adopted_memory_hits: nat,
}

pub open spec fn zero_counts() -> Counts {
    Counts {
        task_count: 0,
        success_count: 0,
        message_count: 0,
        text_chars: 0,
        encoded_bytes: 0,
        state_transfer_count: 0,
        state_bytes: 0,
        duration_ms: 0,
        memory_queries: 0,
        memory_queries_with_hits: 0,
        memory_hits: 0,
        adopted_memory_hits: 0,
    }
}

/// How one event changes the totals: a message metric adds a message and
/// its sizes, a state transfer is counted, a memory query adds its hits
/// and adoptions (and counts as a query with hits when it had any), a
/// finished task adds its success and duration; other events change
/// nothing.
pub open spec fn absorb(c: Counts, kind: EventKind) -> Counts {
    match kind {
        EventKind::MessageMetric { text_chars, encoded_bytes, state_bytes, .. } => Counts {
            message_count: c.message_count + 1,
            text_chars: c.text_chars + text_chars as nat,
            encoded_bytes: c.encoded_bytes + encoded_bytes as nat,
            state_bytes: c.state_bytes + state_bytes as nat,
            ..c
        },
        EventKind::StateTransfer { .. } => Counts {
            state_transfer_count: c.state_transfer_count + 1,
            ..c
        },
        EventKind::MemoryQuery { hit_count, adopted_count, .. } => Counts {
            memory_queries: c.memory_queries + 1,
            memory_queries_with_hits: c.memory_queries_with_hits + if hit_count > 0 {
                1nat
            } else {
                0nat
            },
            memory_hits: c.memory_hits + hit_count as nat,
            adopted_memory_hits: c.adopted_memory_hits + adopted_count as nat,
            ..c
        },
        EventKind::TaskFinished { success, duration_ms, .. } => Counts {
            task_count: c.task_count + 1,
            success_count: c.success_count + if success {
                1nat
            } else {
                0nat
            },
            duration_ms: c.duration_ms + duration_ms as nat,
            ..c
        },
        _ => c,
    }
}

/// The totals over a sequence of events, taken in order.
pub open spec fn tally(events: Seq<Event>) -> Counts
    decreases events.len(),
{
    if events.len() == 0 {
        zero_counts()
    } else {
        absorb(tally(events.drop_last()), events.last().kind)
    }
}

/// Every total fits in 64 bits.
pub open spec fn counts_fit(c: Counts) -> bool {
    &&& c.task_count <= u64::MAX
    &&& c.success_count <= u64::MAX
    &&& c.message_count <= u64::MAX
    &&& c.text_chars <= u64::MAX
    &&& c.encoded_bytes <= u64::MAX
    &&& c.state_transfer_count <= u64::MAX
    &&& c.state_bytes <= u64::MAX
    &&& c.duration_ms <= u64::MAX
    &&& c.memory_queries <= u64::MAX
    &&& c.memory_queries_with_hits <= u64::MAX
    &&& c.memory_hits <= u64::MAX
    &&& c.adopted_memory_hits <= u64::MAX
}

/// Each total of `a` is at most the same total of `b`.
pub open spec fn counts_le(a: Counts, b: Counts) -> bool {
    &&& a.task_count <= b.task_count
    &&& a.success_count <= b.success_count
    &&& a.message_count <= b.message_count
    &&& a.text_chars <= b.text_chars
    &&& a.encoded_bytes <= b.encoded_bytes
    &&& a.state_transfer_count <= b.state_transfer_count
    &&& a.state_bytes <= b.state_bytes
    &&& a.duration_ms <= b.duration_ms
    &&& a.memory_queries <= b.memory_queries
    &&& a.memory_queries_with_hits <= b.memory_queries_with_hits
    &&& a.memory_hits <= b.memory_hits
    &&& a.adopted_memory_hits <= b.adopted_memory_hits
}

/// The totals held in a summary.
pub open spec fn counts_of(s: MetricsSummary) -> Counts {
    Counts {
        task_count: s.task_count as nat,
        success_count: s.success_count as nat,
        message_count: s.message_count as nat,
        text_chars: s.text_chars as nat,
        encoded_bytes: s.encoded_bytes as nat,
        state_transfer_count: s.state_transfer_count as nat,
        state_bytes: s.state_bytes as nat,
        duration_ms: s.duration_ms as nat,
        memory_queries: s.memory_queries as nat,
        memory_queries_with_hits: s.memory_queries_with_hits as nat,
        memory_hits: s.memory_hits as nat,
        adopted_memory_hits: s.adopted_memory_hits as nat,
    }
}

/// Events only ever add to the totals.
pub proof fn lemma_absorb_grows(c: Counts, kind: EventKind)
    ensures
        counts_le(c, absorb(c, kind)),
{
}

/// The totals of a prefix of the log never exceed those of the whole log.
pub proof fn lemma_tally_prefix(events: Seq<Event>, k: int)
    requires
        0 <= k <= events.len(),
    ensures
        counts_le(tally(events.take(k)), tally(events)),
    decreases events.len(),
{
    if k == events.len() {
        assert(events.take(k) == events);
    } else {
        assert(events.drop_last().take(k) == events.take(k));
        lemma_tally_prefix(events.drop_last(), k);
        lemma_absorb_grows(tally(events.drop_last()), events.last().kind);
    }
}

impl Default for MetricsSummary {
    /// No mode and all totals zero.
    fn default() -> (s: Self)
        ensures
            s.mode is None,
            counts_of(s) == zero_counts(),
    {
        MetricsSummary {
            mode: None,
            task_count: 0,
            success_count: 0,
            message_count: 0,
            text_chars: 0,
            encoded_bytes: 0,
            state_transfer_count: 0,
            state_bytes: 0,
            duration_ms: 0,
            memory_queries: 0,
            memory_queries_with_hits: 0,
            memory_hits: 0,
            adopted_memory_hits: 0,
        }
    }
}

impl MetricsSummary {
    /// Adds one event to the totals.
    pub fn record(&mut self, kind: &EventKind)
        requires
            counts_fit(absorb(counts_of(*old(self)), *kind)),
        ensures
            counts_of(*final(self)) == absorb(counts_of(*old(self)), *kind),
            final(self).mode == old(self).mode,
    {
        match kind {
            EventKind::MessageMetric { text_chars, encoded_bytes, state_bytes, .. } => {
                self.message_count = self.message_count + 1;
                self.text_chars = self.text_chars + *text_chars;
                self.encoded_bytes = self.encoded_bytes + *encoded_bytes;
                self.state_bytes = self.state_bytes + *state_bytes;
            },
            EventKind::StateTransfer { .. } => {
                self.state_transfer_count = self.state_transfer_count + 1;
            },
            EventKind::MemoryQuery { hit_count, adopted_count, .. } => {
                self.memory_queries = self.memory_queries + 1;
                if *hit_count > 0 {
                    self.memory_queries_with_hits = self.memory_queries_with_hits + 1;
                }
                self.memory_hits = self.memory_hits + *hit_count as u64;
                self.adopted_memory_hits = self.adopted_memory_hits + *adopted_count as u64;
            },
            EventKind::TaskFinished { success, duration_ms, .. } => {
                self.task_count = self.task_count + 1;
                if *success {
                    self.success_count = self.success_count + 1;
                }
                self.duration_ms = self.duration_ms + *duration_ms;
            },
            _ => {},
        }
    }

    /// Whether `record` can add the event without a total passing 64 bits.
    pub fn can_record(&self, kind: &EventKind) -> (r: bool)
        ensures
            r == counts_fit(absorb(counts_of(*self), *kind)),
    {
        let max = u64::MAX;
        match kind {
            EventKind::MessageMetric { text_chars, encoded_bytes, state_bytes, .. } => {
                self.message_count < max && self.text_chars <= max - *text_chars
                    && self.encoded_bytes <= max - *encoded_bytes && self.state_bytes <= max
                    - *state_bytes
            },
            EventKind::StateTransfer { .. } => self.state_transfer_count < max,
            EventKind::MemoryQuery { hit_count, adopted_count, .. } => {
                self.memory_queries < max && (*hit_count == 0 || self.memory_queries_with_hits
                    < max) && self.memory_hits <= max - *hit_count as u64
                    && self.adopted_memory_hits <= max - *adopted_count as u64
            },
            EventKind::TaskFinished { success, duration_ms, .. } => {
                self.task_count < max && (!*success || self.success_count < max)
                    && self.duration_ms <= max - *duration_ms
            },
            _ => true,
        }
    }
}

/// Totals over an event log, labelled with the run mode; `None` when a
/// total would not fit in 64 bits.
pub fn summarize(events: &Vec<Event>, mode: Option<RunMode>) -> (r: Option<MetricsSummary>)
    ensures
        match r {
            Some(s) => s.mode == mode && counts_of(s) == tally(events@),
            None => !counts_fit(tally(events@)),
        },
{
    let mut summary = MetricsSummary::default();
    summary.mode = mode;
    let mut i: usize = 0;
    while i < events.len()
        invariant
            i <= events.len(),
            summary.mode == mode,
            counts_of(summary) == tally(events@.take(i as int)),
        decreases events.len() - i,
    {
        assert(events@.take(i + 1 as int).drop_last() == events@.take(i as int));
        if !summary.can_record(&events[i].kind) {
            proof {
                lemma_tally_prefix(events@, i + 1);
            }
            return None;
        }
        summary.record(&events[i].kind);
        i = i + 1;
    }
    assert(events@.take(events.len() as int) == events@);
    Some(summary)
}

// ---------------------------------------------------------------------------
// The event log
// ---------------------------------------------------------------------------
/// A line as `str::lines` yields it: without a carriage return at its end.
pub open spec fn without_cr(line: Seq<char>) -> Seq<char> {
    if line.len() > 0 && line.last() == '\r' {
        line.drop_last()
    } else {
        line
    }
}

/// The lines of a text as `str::lines` cuts them: at each `\n`, without a
/// `\r` right before it (a last line with no `\n` after it keeps its `\r`).
pub open spec fn text_lines(log: Seq<char>) -> Seq<Seq<char>> {
    let p = pieces(log, Separator::Newline);
    Seq::new(
        p.len(),
        |i: int|
            if i < p.len() - 1 {
                without_cr(p[i])
            } else {
                p[i]
            },
    )
}

/// The lines of an event log that hold an event: every line that is not
/// blank, in order.
pub open spec fn event_lines(log: Seq<char>) -> Seq<Seq<char>> {
    keep_where(text_lines(log), |l: Seq<char>| trim(l).len() > 0)
}

/// Splits an event log, one JSON text per line, into the lines that hold
/// an event.
pub fn event_log_lines(log: &str) -> (lines: Vec<String>)
    ensures
        string_views(lines@) == event_lines(log@),
{
    let chars = chars_of(log);
    let parts = split_pieces(&chars, Separator::Newline);
    let ghost stripped = text_lines(log@);
    let mut lines: Vec<String> = Vec::new();
    let mut i: usize = 0;
    while i < parts.len()
        invariant
            i <= parts.len(),
            stripped == text_lines(log@),
            views(parts@) == pieces(log@, Separator::Newline),
            string_views(lines@) == keep_where(stripped.take(i as int), |l: Seq<char>| trim(l).len() > 0),
        decreases parts.len() - i,
    {
        assert(stripped.take(i + 1 as int).drop_last() == stripped.take(i as int));
        assert(stripped.take(i + 1 as int).last() == stripped[i as int]);
        let part = &parts[i];
        let mut line: Vec<char> = Vec::new();
        let mut end = part.len();
        if i + 1 < parts.len() && end > 0 && part[end - 1] == '\r' {
            end = end - 1;
        }
        let mut k: usize = 0;
        while k < end
            invariant
                k <= end <= part@.len(),
                line@ == part@.take(k as int),
            decreases end - k,
        {
            line.push(part[k]);
            k = k + 1;
            assert(line@ =~= part@.take(k as int));
        }
        assert(line@ =~= stripped[i as int]);
        let trimmed = trim_chars(&line);
        if trimmed.len() > 0 {
            let ghost prev = lines@;
            let s = string_of(&line);
            lines.push(s);
            proof {
                lemma_string_views_push(prev, s);
            }
        }
        i = i + 1;
    }
    assert(stripped.take(parts.len() as int) == stripped);
    lines
}

// ---------------------------------------------------------------------------
// Percentages
// ---------------------------------------------------------------------------
/// `num / den` in hundredths of a percent, rounded exactly to the nearest, a
/// half to the even neighbour. A ratio computed in floating point and
/// printed with `{:.2}` can fall on the other side of a half and differ in
/// the last digit: 93 of 160 gives 58.12 here and 58.13 there.
pub open spec fn rounded_hundredths(num: nat, den: nat) -> nat {
    let q = (10000 * num) / den;
    let r = (10000 * num) % den;
    if 2 * r > den || (2 * r == den && q % 2 == 1) {
        q + 1
    } else {
        q
    }
}

/// The rounded percentage is the nearest hundredth: it is off from
/// `num / den` by at most half a hundredth of a percent.
pub proof fn law_rounded_hundredths_is_nearest(num: nat, den: nat)
    requires
        den > 0,
    ensures
        2 * (10000 * num - rounded_hundredths(num, den) * den) <= den,
        2 * (rounded_hundredths(num, den) * den - 10000 * num) <= den,
{
    let q = (10000 * num) / den;
    let r = (10000 * num) % den;
    assert(10000 * num == q * den + r && 0 <= r < den) by (nonlinear_arith)
        requires
            den > 0,
            q == (10000 * num) / den,
            r == (10000 * num) % den,
    ;
    assert((q + 1) * den == q * den + den) by (nonlinear_arith);
}

/// A saving is the change from the baseline to the current value as a
/// share of the baseline, negative exactly when the value grew, and within
/// half a hundredth of a percent of the exact share.
pub proof fn law_saving_is_the_share_saved(current: nat, baseline: nat)
    requires
        baseline > 0,
    ensures
        saving_percent(current, baseline).0 <==> current > baseline,
        2 * (10000 * (if current > baseline { current - baseline } else { baseline - current })
            - saving_percent(current, baseline).1 * baseline) <= baseline,
        2 * (saving_percent(current, baseline).1 * baseline - 10000 * (if current > baseline {
            current - baseline
        } else {
            baseline - current
        })) <= baseline,
        current == baseline ==> saving_percent(current, baseline).1 == 0,
{
    if current > baseline {
        law_rounded_hundredths_is_nearest((current - baseline) as nat, baseline);
    } else {
        law_rounded_hundredths_is_nearest((baseline - current) as nat, baseline);
    }
}

fn round_hundredths(num: u64, den: u64) -> (h: u128)
    requires
        den > 0,
    ensures
        h == rounded_hundredths(num as nat, den as nat),
{
    let n: u128 = 10000 * (num as u128);
    let d: u128 = den as u128;
    let q: u128 = n / d;
    let r: u128 = n % d;
    assert(q <= n) by (nonlinear_arith)
        requires
            d > 0,
            q == n / d,
    ;
    if 2 * r > d || (2 * r == d && q % 2 == 1) {
        q + 1
    } else {
        q
    }
}

/// A rate as a percentage in hundredths: zero when there is nothing to
/// divide by.
pub open spec fn rate_hundredths(num: nat, den: nat) -> nat {
    if den == 0 {
        0
    } else {
        rounded_hundredths(num, den)
    }
}

/// The saving of `current` against `baseline`, `1 - current / baseline`, as
/// a percentage in hundredths with its sign (`true` when negative); zero
/// when the baseline is zero.
pub open spec fn saving_percent(current: nat, baseline: nat) -> (bool, nat) {
    if baseline == 0 {
        (false, 0)
    } else if current > baseline {
        (true, rounded_hundredths((current - baseline) as nat, baseline))
    } else {
        (false, rounded_hundredths((baseline - current) as nat, baseline))
    }
}

fn rate_of(num: u64, den: u64) -> (h: u128)
    ensures
        h == rate_hundredths(num as nat, den as nat),
{
    if den == 0 {
        0
    } else {
        round_hundredths(num, den)
    }
}

/// The saving of `current` against `baseline` in hundredths of a percent,
/// with its sign.
pub fn saving_hundredths(current: u64, baseline: u64) -> (r: (bool, u128))
    ensures
        r.0 == saving_percent(current as nat, baseline as nat).0,
        r.1 == saving_percent(current as nat, baseline as nat).1,
{
    if baseline == 0 {
        (false, 0)
    } else if current > baseline {
        (true, round_hundredths(current - baseline, baseline))
    } else {
        (false, round_hundredths(baseline - current, baseline))
    }
}

impl MetricsSummary {
    /// The share of memory queries that had hits, as a percentage in
    /// hundredths.
    pub fn memory_hit_rate_hundredths(&self) -> (h: u128)
        ensures
            h == rate_hundredths(self.memory_queries_with_hits as nat, self.memory_queries as nat),
    {
        rate_of(self.memory_queries_with_hits, self.memory_queries)
    }

    /// The share of memory hits that were adopted, as a percentage in
    /// hundredths.
    pub fn effective_reuse_rate_hundredths(&self) -> (h: u128)
        ensures
            h == rate_hundredths(self.adopted_memory_hits as nat, self.memory_hits as nat),
    {
        rate_of(self.adopted_memory_hits, self.memory_hits)
    }
}

// ---------------------------------------------------------------------------
// The report
// ---------------------------------------------------------------------------
/// A table row with two counts and no improvement.
pub open spec fn count_row(label: Seq<char>, a: nat, b: nat) -> Seq<char> {
    "| "@ + label + " | "@ + decimal(a) + " | "@ + decimal(b) + " | - |\n"@
}

/// A table row with two counts and the saving of the second against the
/// first.
pub open spec fn saving_row(label: Seq<char>, a: nat, b: nat) -> Seq<char> {
    let p = saving_percent(b, a);
    "| "@ + label + " | "@ + decimal(a) + " | "@ + decimal(b) + " | "@ + signed_fixed2(p.0, p.1)
        + "% |\n"@
}

/// A table row with two percentages.
pub open spec fn rate_row(label: Seq<char>, a: nat, b: nat) -> Seq<char> {
    "| "@ + label + " | "@ + fixed2(a) + "% | "@ + fixed2(b) + "% | - |\n"@
}

pub open spec fn report_header() -> Seq<char> {
    "# MemLink Experiment Report\n\n| Metric | Text | Structured | Improvement |\n| --- | ---: | ---: | ---: |\n"@
}

pub open spec fn report_footer() -> Seq<char> {
    "\nStructured mode carries large intermediate artifacts as `StateRef` handles and reuses SQLite-backed memories across linked tasks.\n"@
}

/// The Markdown report that compares a text run with a structured run:
/// a table of tasks, successes, messages, text characters, encoded bytes,
/// state transfers, state bytes, duration, queries with hits, hit rate and
/// reuse rate, with the saving of the structured run for characters, bytes
/// and duration.
pub open spec fn report(t: MetricsSummary, s: MetricsSummary) -> Seq<char> {
    report_header() + count_row("Tasks"@, t.task_count as nat, s.task_count as nat) + count_row(
        "Success"@,
        t.success_count as nat,
        s.success_count as nat,
    ) + count_row("Messages"@, t.message_count as nat, s.message_count as nat) + saving_row(
        "Text chars"@,
        t.text_chars as nat,
        s.text_chars as nat,
    ) + saving_row("Encoded bytes"@, t.encoded_bytes as nat, s.encoded_bytes as nat)
        + count_row(
        "State transfers"@,
        t.state_transfer_count as nat,
        s.state_transfer_count as nat,
    ) + count_row("State bytes"@, t.state_bytes as nat, s.state_bytes as nat) + saving_row(
        "Duration ms"@,
        t.duration_ms as nat,
        s.duration_ms as nat,
    ) + count_row(
        "Memory queries with hits"@,
        t.memory_queries_with_hits as nat,
        s.memory_queries_with_hits as nat,
    ) + rate_row(
        "Memory hit rate"@,
        rate_hundredths(t.memory_queries_with_hits as nat, t.memory_queries as nat),
        rate_hundredths(s.memory_queries_with_hits as nat, s.memory_queries as nat),
    ) + rate_row(
        "Effective reuse rate"@,
        rate_hundredths(t.adopted_memory_hits as nat, t.memory_hits as nat),
        rate_hundredths(s.adopted_memory_hits as nat, s.memory_hits as nat),
    ) + report_footer()
}

/// Each row of the comparison report holds the fields it is labelled with:
/// the counts of the text run and then of the structured run, the saving
/// of the structured run against the text run for characters, bytes and
/// duration, and the hit and reuse rates of each run.
pub proof fn law_report_rows_show_their_fields(t: MetricsSummary, s: MetricsSummary)
    ensures
        occurs_in(
            "| "@ + "Tasks"@ + " | "@ + decimal(t.task_count as nat) + " | "@ + decimal(s.task_count as nat) + " | - |\n"@,
            report(t, s),
        ),
        occurs_in(
            "| "@ + "Success"@ + " | "@ + decimal(t.success_count as nat) + " | "@ + decimal(s.success_count as nat) + " | - |\n"@,
            report(t, s),
        ),
        occurs_in(
            "| "@ + "Messages"@ + " | "@ + decimal(t.message_count as nat) + " | "@ + decimal(s.message_count as nat) + " | - |\n"@,
            report(t, s),
        ),
        occurs_in(
            "| "@ + "Text chars"@ + " | "@ + decimal(t.text_chars as nat) + " | "@ + decimal(s.text_chars as nat) + " | "@ + signed_fixed2(
                saving_percent(s.text_chars as nat, t.text_chars as nat).0,
                saving_percent(s.text_chars as nat, t.text_chars as nat).1,
            ) + "% |\n"@,
            report(t, s),
        ),
        occurs_in(
            "| "@ + "Encoded bytes"@ + " | "@ + decimal(t.encoded_bytes as nat) + " | "@ + decimal(s.encoded_bytes as nat) + " | "@ + signed_fixed2(
                saving_percent(s.encoded_bytes as nat, t.encoded_bytes as nat).0,
                saving_percent(s.encoded_bytes as nat, t.encoded_bytes as nat).1,
            ) + "% |\n"@,
            report(t, s),
        ),
        occurs_in(
            "| "@ + "State transfers"@ + " | "@ + decimal(t.state_transfer_count as nat) + " | "@ + decimal(s.state_transfer_count as nat) + " | - |\n"@,
            report(t, s),
        ),
        occurs_in(
            "| "@ + "State bytes"@ + " | "@ + decimal(t.state_bytes as nat) + " | "@ + decimal(s.state_bytes as nat) + " | - |\n"@,
            report(t, s),
        ),
        occurs_in(
            "| "@ + "Duration ms"@ + " | "@ + decimal(t.duration_ms as nat) + " | "@ + decimal(s.duration_ms as nat) + " | "@ + signed_fixed2(
                saving_percent(s.duration_ms as nat, t.duration_ms as nat).0,
                saving_percent(s.duration_ms as nat, t.duration_ms as nat).1,
            ) + "% |\n"@,
            report(t, s),
        ),
        occurs_in(
            "| "@ + "Memory queries with hits"@ + " | "@ + decimal(t.memory_queries_with_hits as nat) + " | "@ + decimal(s.memory_queries_with_hits as nat) + " | - |\n"@,
            report(t, s),
        ),
        occurs_in(
            "| "@ + "Memory hit rate"@ + " | "@ + fixed2(rate_hundredths(t.memory_queries_with_hits as nat, t.memory_queries as nat)) + "% | "@
                + fixed2(rate_hundredths(s.memory_queries_with_hits as nat, s.memory_queries as nat)) + "% | - |\n"@,
            report(t, s),
        ),
        occurs_in(
            "| "@ + "Effective reuse rate"@ + " | "@ + fixed2(rate_hundredths(t.adopted_memory_hits as nat, t.memory_hits as nat)) + "% | "@
                + fixed2(rate_hundredths(s.adopted_memory_hits as nat, s.memory_hits as nat)) + "% | - |\n"@,
            report(t, s),
        ),
{
    broadcast use {lemma_occurs_at_end, lemma_occurs_in_longer};

}

fn push_count_row(out: &mut String, label: &str, a: u64, b: u64)
    ensures
        final(out)@ == old(out)@ + count_row(label@, a as nat, b as nat),
{
    push_str(out, "| ");
    push_str(out, label);
    push_str(out, " | ");
    push_decimal(out, a as u128);
    push_str(out, " | ");
    push_decimal(out, b as u128);
    push_str(out, " | - |\n");
}

fn push_saving_row(out: &mut String, label: &str, a: u64, b: u64)
    ensures
        final(out)@ == old(out)@ + saving_row(label@, a as nat, b as nat),
{
    let p = saving_hundredths(b, a);
    push_str(out, "| ");
    push_str(out, label);
    push_str(out, " | ");
    push_decimal(out, a as u128);
    push_str(out, " | ");
    push_decimal(out, b as u128);
    push_str(out, " | ");
    push_signed_fixed2(out, p.0, p.1);
    push_str(out, "% |\n");
}

fn push_rate_row(out: &mut String, label: &str, a: u128, b: u128)
    ensures
        final(out)@ == old(out)@ + rate_row(label@, a as nat, b as nat),
{
    push_str(out, "| ");
    push_str(out, label);
    push_str(out, " | ");
    push_signed_fixed2(out, false, a);
    push_str(out, "% | ");
    push_signed_fixed2(out, false, b);
    push_str(out, "% | - |\n");
}

/// Writes the Markdown report that compares a text run with a structured
/// run, with each percentage rounded exactly from the counts to two
/// decimals, a half to the even neighbour. Floating-point ratios printed
/// with `{:.2}` can differ from these in the last digit (see
/// `rounded_hundredths`); `comparison_report_with` prints such values as
/// given.
pub fn comparison_report(text: &MetricsSummary, structured: &MetricsSummary) -> (r: String)
    ensures
        r@ == report(*text, *structured),
{
    let mut out = String::from_str(
        "# MemLink Experiment Report\n\n| Metric | Text | Structured | Improvement |\n| --- | ---: | ---: | ---: |\n",
    );
    push_count_row(&mut out, "Tasks", text.task_count, structured.task_count);
    push_count_row(&mut out, "Success", text.success_count, structured.success_count);
    push_count_row(&mut out, "Messages", text.message_count, structured.message_count);
    push_saving_row(&mut out, "Text chars", text.text_chars, structured.text_chars);
    push_saving_row(&mut out, "Encoded bytes", text.encoded_bytes, structured.encoded_bytes);
    push_count_row(
        &mut out,
        "State transfers",
        text.state_transfer_count,
        structured.state_transfer_count,
    );
    push_count_row(&mut out, "State bytes", text.state_bytes, structured.state_bytes);
    push_saving_row(&mut out, "Duration ms", text.duration_ms, structured.duration_ms);
    push_count_row(
        &mut out,
        "Memory queries with hits",
        text.memory_queries_with_hits,
        structured.memory_queries_with_hits,
    );
    push_rate_row(
        &mut out,
        "Memory hit rate",
        text.memory_hit_rate_hundredths(),
        structured.memory_hit_rate_hundredths(),
    );
    push_rate_row(
        &mut out,
        "Effective reuse rate",
        text.effective_reuse_rate_hundredths(),
        structured.effective_reuse_rate_hundredths(),
    );
    push_str(
        &mut out,
        "\nStructured mode carries large intermediate artifacts as `StateRef` handles and reuses SQLite-backed memories across linked tasks.\n",
    );
    out
}

/// The seven percentages of a report as printed, two decimals each and no
/// `%` sign: the savings of the structured run in text characters, encoded
/// bytes and duration, and each run's memory hit rate and reuse rate.
#[derive(Debug, Clone)]
pub struct ReportPercents {
    pub text_chars_saving: String,
    pub encoded_bytes_saving: String,
    pub duration_saving: String,
    pub text_hit_rate: String,
    pub structured_hit_rate: String,
    pub text_reuse_rate: String,
    pub structured_reuse_rate: String,
}

/// A table row with two counts and a printed percentage.
pub open spec fn percent_row(label: Seq<char>, a: nat, b: nat, percent: Seq<char>) -> Seq<char> {
    "| "@ + label + " | "@ + decimal(a) + " | "@ + decimal(b) + " | "@ + percent + "% |\n"@
}

/// A table row with two printed percentages.
pub open spec fn printed_rate_row(label: Seq<char>, a: Seq<char>, b: Seq<char>) -> Seq<char> {
    "| "@ + label + " | "@ + a + "% | "@ + b + "% | - |\n"@
}

/// The comparison report with the percentages printed as given.
pub open spec fn report_with(t: MetricsSummary, s: MetricsSummary, p: ReportPercents) -> Seq<char> {
    report_header() + count_row("Tasks"@, t.task_count as nat, s.task_count as nat) + count_row(
        "Success"@,
        t.success_count as nat,
        s.success_count as nat,
    ) + count_row("Messages"@, t.message_count as nat, s.message_count as nat) + percent_row(
        "Text chars"@,
        t.text_chars as nat,
        s.text_chars as nat,
        p.text_chars_saving@,
    ) + percent_row(
        "Encoded bytes"@,
        t.encoded_bytes as nat,
        s.encoded_bytes as nat,
        p.encoded_bytes_saving@,
    ) + count_row("State transfers"@, t.state_transfer_count as nat, s.state_transfer_count as nat)
        + count_row("State bytes"@, t.state_bytes as nat, s.state_bytes as nat) + percent_row(
        "Duration ms"@,
        t.duration_ms as nat,
        s.duration_ms as nat,
        p.duration_saving@,
    ) + count_row(
        "Memory queries with hits"@,
        t.memory_queries_with_hits as nat,
        s.memory_queries_with_hits as nat,
    ) + printed_rate_row("Memory hit rate"@, p.text_hit_rate@, p.structured_hit_rate@)
        + printed_rate_row("Effective reuse rate"@, p.text_reuse_rate@, p.structured_reuse_rate@)
        + report_footer()
}

/// Each row of the report with printed percentages holds the fields it is
/// labelled with, and the percentages given for that row.
pub proof fn law_report_with_rows_show_their_fields(
    t: MetricsSummary,
    s: MetricsSummary,
    p: ReportPercents,
)
    ensures
        occurs_in(
            "| "@ + "Tasks"@ + " | "@ + decimal(t.task_count as nat) + " | "@ + decimal(s.task_count as nat) + " | - |\n"@,
            report_with(t, s, p),
        ),
        occurs_in(
            "| "@ + "Success"@ + " | "@ + decimal(t.success_count as nat) + " | "@ + decimal(s.success_count as nat) + " | - |\n"@,
            report_with(t, s, p),
        ),
        occurs_in(
            "| "@ + "Messages"@ + " | "@ + decimal(t.message_count as nat) + " | "@ + decimal(s.message_count as nat) + " | - |\n"@,
            report_with(t, s, p),
        ),
        occurs_in(
            "| "@ + "Text chars"@ + " | "@ + decimal(t.text_chars as nat) + " | "@ + decimal(s.text_chars as nat) + " | "@ + p.text_chars_saving@ + "% |\n"@,
            report_with(t, s, p),
        ),
        occurs_in(
            "| "@ + "Encoded bytes"@ + " | "@ + decimal(t.encoded_bytes as nat) + " | "@ + decimal(s.encoded_bytes as nat) + " | "@ + p.encoded_bytes_saving@ + "% |\n"@,
            report_with(t, s, p),
        ),
        occurs_in(
            "| "@ + "State transfers"@ + " | "@ + decimal(t.state_transfer_count as nat) + " | "@ + decimal(s.state_transfer_count as nat) + " | - |\n"@,
            report_with(t, s, p),
        ),
        occurs_in(
            "| "@ + "State bytes"@ + " | "@ + decimal(t.state_bytes as nat) + " | "@ + decimal(s.state_bytes as nat) + " | - |\n"@,
            report_with(t, s, p),
        ),
        occurs_in(
            "| "@ + "Duration ms"@ + " | "@ + decimal(t.duration_ms as nat) + " | "@ + decimal(s.duration_ms as nat) + " | "@ + p.duration_saving@ + "% |\n"@,
            report_with(t, s, p),
        ),
        occurs_in(
            "| "@ + "Memory queries with hits"@ + " | "@ + decimal(t.memory_queries_with_hits as nat) + " | "@ + decimal(s.memory_queries_with_hits as nat) + " | - |\n"@,
            report_with(t, s, p),
        ),
        occurs_in(
            "| "@ + "Memory hit rate"@ + " | "@ + p.text_hit_rate@ + "% | "@ + p.structured_hit_rate@ + "% | - |\n"@,
            report_with(t, s, p),
        ),
        occurs_in(
            "| "@ + "Effective reuse rate"@ + " | "@ + p.text_reuse_rate@ + "% | "@ + p.structured_reuse_rate@ + "% | - |\n"@,
            report_with(t, s, p),
        ),
{
    broadcast use {lemma_occurs_at_end, lemma_occurs_in_longer};

}

fn push_percent_row(out: &mut String, label: &str, a: u64, b: u64, percent: &str)
    ensures
        final(out)@ == old(out)@ + percent_row(label@, a as nat, b as nat, percent@),
{
    push_str(out, "| ");
    push_str(out, label);
    push_str(out, " | ");
    push_decimal(out, a as u128);
    push_str(out, " | ");
    push_decimal(out, b as u128);
    push_str(out, " | ");
    push_str(out, percent);
    push_str(out, "% |\n");
}

fn push_printed_rate_row(out: &mut String, label: &str, a: &str, b: &str)
    ensures
        final(out)@ == old(out)@ + printed_rate_row(label@, a@, b@),
{
    push_str(out, "| ");
    push_str(out, label);
    push_str(out, " | ");
    push_str(out, a);
    push_str(out, "% | ");
    push_str(out, b);
    push_str(out, "% | - |\n");
}

/// Writes the comparison report with percentages printed elsewhere, from
/// the floating-point ratios that the command line program computes.
pub fn comparison_report_with(
    text: &MetricsSummary,
    structured: &MetricsSummary,
    percents: &ReportPercents,
) -> (r: String)
    ensures
        r@ == report_with(*text, *structured, *percents),
{
    let mut out = String::from_str(
        "# MemLink Experiment Report\n\n| Metric | Text | Structured | Improvement |\n| --- | ---: | ---: | ---: |\n",
    );
    push_count_row(&mut out, "Tasks", text.task_count, structured.task_count);
    push_count_row(&mut out, "Success", text.success_count, structured.success_count);
    push_count_row(&mut out, "Messages", text.message_count, structured.message_count);
    push_percent_row(
        &mut out,
        "Text chars",
        text.text_chars,
        structured.text_chars,
        percents.text_chars_saving.as_str(),
    );
    push_percent_row(
        &mut out,
        "Encoded bytes",
        text.encoded_bytes,
        structured.encoded_bytes,
        percents.encoded_bytes_saving.as_str(),
    );
    push_count_row(
        &mut out,
        "State transfers",
        text.state_transfer_count,
        structured.state_transfer_count,
    );
    push_count_row(&mut out, "State bytes", text.state_bytes, structured.state_bytes);
    push_percent_row(
        &mut out,
        "Duration ms",
        text.duration_ms,
        structured.duration_ms,
        percents.duration_saving.as_str(),
    );
    push_count_row(
        &mut out,
        "Memory queries with hits",
        text.memory_queries_with_hits,
        structured.memory_queries_with_hits,
    );
    push_printed_rate_row(
        &mut out,
        "Memory hit rate",
        percents.text_hit_rate.as_str(),
        percents.structured_hit_rate.as_str(),
    );
    push_printed_rate_row(
        &mut out,
        "Effective reuse rate",
        percents.text_reuse_rate.as_str(),
        percents.structured_reuse_rate.as_str(),
    );
    push_str(
        &mut out,
        "\nStructured mode carries large intermediate artifacts as `StateRef` handles and reuses SQLite-backed memories across linked tasks.\n",
    );
    out
}

} // verus!
