//! The audit of a demo run: named checks over the two runs' summaries and
//! the files the demo left, and the verdict over all of them.
use crate::evaluator::MetricsSummary;
use crate::text::{decimal, join, join_strings, push_decimal, push_str, string_views};
use vstd::prelude::*;

verus! {

/// One named check with its verdict and what it saw.
#[derive(Debug, Clone)]
pub struct AuditCheck {
    pub name: String,
    pub passed: bool,
    pub detail: String,
}

/// All the checks, and whether every one passed.
#[derive(Debug, Clone)]
pub struct AuditReport {
    pub passed: bool,
    pub checks: Vec<AuditCheck>,
}

/// Whether every check passed.
pub open spec fn all_passed(checks: Seq<AuditCheck>) -> bool {
    forall|i: int| 0 <= i < checks.len() ==> (#[trigger] checks[i]).passed
}

/// `name: detail` for each check that failed, in order.
pub open spec fn failure_texts(checks: Seq<AuditCheck>) -> Seq<Seq<char>>
    decreases checks.len(),
{
    if checks.len() == 0 {
        Seq::empty()
    } else if checks.last().passed {
        failure_texts(checks.drop_last())
    } else {
        failure_texts(checks.drop_last()).push(
            checks.last().name@ + ": "@ + checks.last().detail@,
        )
    }
}

/// The message of a failed audit.
pub open spec fn failure_message(checks: Seq<AuditCheck>) -> Seq<char> {
    "audit failed: "@ + join(failure_texts(checks), "; "@)
}

/// A check with a name, a verdict and what it saw.
pub fn check(name: &str, passed: bool, detail: String) -> (c: AuditCheck)
    ensures
        c.name@ == name@,
        c.passed == passed,
        c.detail == detail,
{
    AuditCheck { name: String::from_str(name), passed, detail }
}

impl AuditReport {
    /// The report over `checks`: passed when every check passed.
    pub fn new(checks: Vec<AuditCheck>) -> (r: AuditReport)
        ensures
            r.passed == all_passed(checks@),
            r.checks == checks,
    {
        let mut passed = true;
        let mut i: usize = 0;
        while i < checks.len()
            invariant
                i <= checks.len(),
                passed == forall|k: int| 0 <= k < i ==> (#[trigger] checks@[k]).passed,
            decreases checks.len() - i,
        {
            passed = passed && checks[i].passed;
            i = i + 1;
        }
        AuditReport { passed, checks }
    }

    /// Nothing when the report passed; else the error that lists each
    /// failed check as `name: detail`, separated by `; `.
    pub fn ensure_passed(&self) -> (r: Result<(), String>)
        ensures
            self.passed ==> r is Ok,
            !self.passed ==> (r matches Err(m) && m@ == failure_message(self.checks@)),
    {
        if self.passed {
            return Ok(());
        }
        let mut failed: Vec<String> = Vec::new();
        let mut i: usize = 0;
        while i < self.checks.len()
            invariant
                i <= self.checks.len(),
                string_views(failed@) == failure_texts(self.checks@.take(i as int)),
            decreases self.checks.len() - i,
        {
            assert(self.checks@.take(i + 1 as int).drop_last() == self.checks@.take(i as int));
            if !self.checks[i].passed {
                let mut line = self.checks[i].name.clone();
                push_str(&mut line, ": ");
                push_str(&mut line, self.checks[i].detail.as_str());
                let ghost before = failed@;
                failed.push(line);
                assert(string_views(failed@) =~= string_views(before).push(line@));
            }
            i = i + 1;
        }
        assert(self.checks@.take(self.checks.len() as int) == self.checks@);
        let mut message = String::from_str("audit failed: ");
        let joined = join_strings(&failed, "; ");
        push_str(&mut message, joined.as_str());
        Err(message)
    }
}

/// What the audit demands.
#[derive(Debug, Clone, Copy)]
pub struct AuditLimits {
    pub min_tasks: u64,
    pub min_state_files: usize,
    pub min_memory_hits: usize,
}

/// What the audit found on disk.
#[derive(Debug, Clone)]
pub struct AuditFindings {
    pub state_file_count: usize,
    pub memory_hit_count: usize,
    pub report_exists: bool,
    pub report_path: String,
    pub observe_exists: bool,
    pub observe_path: String,
}

/// Whether a check has the given name, verdict and detail.
pub open spec fn check_is(c: AuditCheck, name: Seq<char>, passed: bool, detail: Seq<char>) -> bool {
    c.name@ == name && c.passed == passed && c.detail@ == detail
}

/// "tasks=N, success=M".
pub open spec fn tasks_detail(s: MetricsSummary) -> Seq<char> {
    "tasks="@ + decimal(s.task_count as nat) + ", success="@ + decimal(s.success_count as nat)
}

fn tasks_check(name: &str, s: &MetricsSummary, min_tasks: u64) -> (c: AuditCheck)
    ensures
        check_is(
            c,
            name@,
            s.task_count >= min_tasks && s.success_count == s.task_count,
            tasks_detail(*s),
        ),
{
    let mut detail = String::from_str("tasks=");
    push_decimal(&mut detail, s.task_count as u128);
    push_str(&mut detail, ", success=");
    push_decimal(&mut detail, s.success_count as u128);
    check(name, s.task_count >= min_tasks && s.success_count == s.task_count, detail)
}

/// "<label>=N, min=M".
pub open spec fn at_least_detail(label: Seq<char>, found: nat, min: nat) -> Seq<char> {
    label + "="@ + decimal(found) + ", min="@ + decimal(min)
}

fn at_least_check(name: &str, label: &str, found: usize, min: usize) -> (c: AuditCheck)
    ensures
        check_is(c, name@, found >= min, at_least_detail(label@, found as nat, min as nat)),
{
    let mut detail = String::from_str(label);
    push_str(&mut detail, "=");
    push_decimal(&mut detail, found as u128);
    push_str(&mut detail, ", min=");
    push_decimal(&mut detail, min as u128);
    check(name, found >= min, detail)
}

/// The checks of an audit, in order: both runs finished at least
/// `min_tasks` tasks, all successfully; the structured run handed states
/// over and the text run did not; the structured run found memories; the
/// communication saving (`saving`, judged by the caller); enough state
/// files; enough hits in the saved memory search; the report and the
/// snapshot exist. `hit_rate` is the structured run's memory hit rate as
/// printed, two decimals.
pub open spec fn audit_checks_spec(
    checks: Seq<AuditCheck>,
    text: MetricsSummary,
    structured: MetricsSummary,
    limits: AuditLimits,
    findings: AuditFindings,
    hit_rate: Seq<char>,
    saving: AuditCheck,
) -> bool {
    &&& checks.len() == 10
    &&& check_is(
        checks[0],
        "text_tasks"@,
        text.task_count >= limits.min_tasks && text.success_count == text.task_count,
        tasks_detail(text),
    )
    &&& check_is(
        checks[1],
        "structured_tasks"@,
        structured.task_count >= limits.min_tasks && structured.success_count
            == structured.task_count,
        tasks_detail(structured),
    )
    &&& check_is(
        checks[2],
        "structured_state_transfers"@,
        structured.state_transfer_count > 0 && structured.state_bytes > 0,
        "count="@ + decimal(structured.state_transfer_count as nat) + ", bytes="@ + decimal(
            structured.state_bytes as nat,
        ),
    )
    &&& check_is(
        checks[3],
        "text_has_no_state_transfer"@,
        text.state_transfer_count == 0,
        "count="@ + decimal(text.state_transfer_count as nat),
    )
    &&& check_is(
        checks[4],
        "memory_reuse"@,
        structured.memory_queries_with_hits > 0 && structured.memory_queries > 0,
        "queries_with_hits="@ + decimal(structured.memory_queries_with_hits as nat)
            + ", hit_rate="@ + hit_rate,
    )
    &&& checks[5] == saving
    &&& check_is(
        checks[6],
        "state_files"@,
        findings.state_file_count >= limits.min_state_files,
        at_least_detail(
            "files"@,
            findings.state_file_count as nat,
            limits.min_state_files as nat,
        ),
    )
    &&& check_is(
        checks[7],
        "memory_search_file"@,
        findings.memory_hit_count >= limits.min_memory_hits,
        at_least_detail(
            "hits"@,
            findings.memory_hit_count as nat,
            limits.min_memory_hits as nat,
        ),
    )
    &&& check_is(checks[8], "report_file"@, findings.report_exists, findings.report_path@)
    &&& check_is(checks[9], "observe_file"@, findings.observe_exists, findings.observe_path@)
}

/// The checks of an audit, in order.
pub fn audit_checks(
    text: &MetricsSummary,
    structured: &MetricsSummary,
    limits: AuditLimits,
    findings: AuditFindings,
    hit_rate: &str,
    saving: AuditCheck,
) -> (checks: Vec<AuditCheck>)
    ensures
        audit_checks_spec(checks@, *text, *structured, limits, findings, hit_rate@, saving),
{
    let ghost f = findings;
    let ghost sv = saving;
    let mut checks: Vec<AuditCheck> = Vec::new();
    checks.push(tasks_check("text_tasks", text, limits.min_tasks));
    checks.push(tasks_check("structured_tasks", structured, limits.min_tasks));
    let mut transfers = String::from_str("count=");
    push_decimal(&mut transfers, structured.state_transfer_count as u128);
    push_str(&mut transfers, ", bytes=");
    push_decimal(&mut transfers, structured.state_bytes as u128);
    checks.push(
        check(
            "structured_state_transfers",
            structured.state_transfer_count > 0 && structured.state_bytes > 0,
            transfers,
        ),
    );
    let mut none = String::from_str("count=");
    push_decimal(&mut none, text.state_transfer_count as u128);
    checks.push(check("text_has_no_state_transfer", text.state_transfer_count == 0, none));
    let mut reuse = String::from_str("queries_with_hits=");
    push_decimal(&mut reuse, structured.memory_queries_with_hits as u128);
    push_str(&mut reuse, ", hit_rate=");
    push_str(&mut reuse, hit_rate);
    checks.push(
        check(
            "memory_reuse",
            structured.memory_queries_with_hits > 0 && structured.memory_queries > 0,
            reuse,
        ),
    );
    checks.push(saving);
    checks.push(
        at_least_check(
            "state_files",
            "files",
            findings.state_file_count,
            limits.min_state_files,
        ),
    );
    checks.push(
        at_least_check(
            "memory_search_file",
            "hits",
            findings.memory_hit_count,
            limits.min_memory_hits,
        ),
    );
    checks.push(check("report_file", findings.report_exists, findings.report_path));
    checks.push(check("observe_file", findings.observe_exists, findings.observe_path));
    assert(checks@[5] == sv);
    checks
}

/// The audit of a demo run: its report when every check passed, else the
/// error that lists the failed checks.
pub fn audit(
    text: &MetricsSummary,
    structured: &MetricsSummary,
    limits: AuditLimits,
    findings: AuditFindings,
    hit_rate: &str,
    saving: AuditCheck,
) -> (r: Result<AuditReport, String>)
    ensures
        match r {
            Ok(report) => report.passed && all_passed(report.checks@) && audit_checks_spec(
                report.checks@,
                *text,
                *structured,
                limits,
                findings,
                hit_rate@,
                saving,
            ),
            Err(m) => exists|checks: Seq<AuditCheck>|
                audit_checks_spec(checks, *text, *structured, limits, findings, hit_rate@, saving)
                    && !all_passed(checks) && m@ == failure_message(checks),
        },
{
    let checks = audit_checks(text, structured, limits, findings, hit_rate, saving);
    let report = AuditReport::new(checks);
    match report.ensure_passed() {
        Ok(()) => Ok(report),
        Err(m) => Err(m),
    }
}

} // verus!
