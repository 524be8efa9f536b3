//! The findings of a check of a metadata file and the report lines they make.
use vstd::prelude::*;
use crate::numbers::{nat_text, u128_text};
use crate::skd_fragments::push_line;
use crate::text::{chars_of, join, join_str, push_chars, push_str, views};

verus! {

/// One result of a check: a passed check, a warning, an error, or a plain line
/// of the report.
pub enum Finding {
    Passed(Seq<char>),
    Warning(Seq<char>),
    Failure(Seq<char>),
    Line(Seq<char>),
}

/// The report lines of one finding: a passed check shows only in a detailed
/// report.
pub open spec fn finding_line(f: Finding, detailed: bool) -> Seq<Seq<char>> {
    match f {
        Finding::Passed(m) => if detailed {
            seq!["[OK]    "@ + m]
        } else {
            Seq::empty()
        },
        Finding::Warning(m) => seq!["[WARN]  "@ + m],
        Finding::Failure(m) => seq!["[ERROR] "@ + m],
        Finding::Line(m) => seq![m],
    }
}

/// The report lines of findings, in order.
pub open spec fn finding_lines(fs: Seq<Finding>, detailed: bool) -> Seq<Seq<char>>
    decreases fs.len(),
{
    if fs.len() == 0 {
        Seq::empty()
    } else {
        finding_lines(fs.drop_last(), detailed) + finding_line(fs.last(), detailed)
    }
}

/// The number of findings of one kind.
pub open spec fn count_kind(fs: Seq<Finding>, kind: int) -> nat
    decreases fs.len(),
{
    if fs.len() == 0 {
        0
    } else {
        let k: int = match fs.last() {
            Finding::Passed(_) => 0,
            Finding::Warning(_) => 1,
            Finding::Failure(_) => 2,
            Finding::Line(_) => 3,
        };
        count_kind(fs.drop_last(), kind) + if k == kind {
            1nat
        } else {
            0nat
        }
    }
}

pub open spec fn passed(fs: Seq<Finding>) -> nat {
    count_kind(fs, 0)
}

pub open spec fn warnings(fs: Seq<Finding>) -> nat {
    count_kind(fs, 1)
}

pub open spec fn failures(fs: Seq<Finding>) -> nat {
    count_kind(fs, 2)
}

pub proof fn lemma_counts_bounded(fs: Seq<Finding>)
    ensures
        passed(fs) + warnings(fs) + failures(fs) <= fs.len(),
    decreases fs.len(),
{
    if fs.len() > 0 {
        lemma_counts_bounded(fs.drop_last());
    }
}

/// A report of findings: its lines and counts follow the findings recorded.
pub struct CheckReport {
    pub lines: Vec<Vec<char>>,
    pub errors: u128,
    pub warnings: u128,
    pub ok_count: u128,
    pub detailed: bool,
    pub findings: Ghost<Seq<Finding>>,
}

impl CheckReport {
    /// The lines and counts are those of the findings, and the findings are
    /// few enough to count.
    pub open spec fn wf(&self) -> bool {
        &&& views(self.lines@) == finding_lines(self.findings@, self.detailed)
        &&& self.errors == failures(self.findings@)
        &&& self.warnings == warnings(self.findings@)
        &&& self.ok_count == passed(self.findings@)
        &&& self.findings@.len() < u128::MAX
    }

    pub fn new(detailed: bool) -> (r: Self)
        ensures
            r.wf(),
            r.findings@ == Seq::<Finding>::empty(),
            r.detailed == detailed,
    {
        let r = CheckReport {
            lines: Vec::new(),
            errors: 0,
            warnings: 0,
            ok_count: 0,
            detailed,
            findings: Ghost(Seq::empty()),
        };
        assert(views(r.lines@) =~= finding_lines(r.findings@, detailed));
        r
    }

    proof fn lemma_step(&self, f: Finding)
        requires
            self.wf(),
        ensures
            finding_lines(self.findings@.push(f), self.detailed) == finding_lines(self.findings@, self.detailed)
                + finding_line(f, self.detailed),
            passed(self.findings@.push(f)) == passed(self.findings@) + if f is Passed {
                1nat
            } else {
                0nat
            },
            warnings(self.findings@.push(f)) == warnings(self.findings@) + if f is Warning {
                1nat
            } else {
                0nat
            },
            failures(self.findings@.push(f)) == failures(self.findings@) + if f is Failure {
                1nat
            } else {
                0nat
            },
            self.ok_count + self.errors + self.warnings <= self.findings@.len(),
    {
        assert(self.findings@.push(f).drop_last() =~= self.findings@);
        lemma_counts_bounded(self.findings@);
    }

    /// Records a passed check.
    pub fn ok(&mut self, msg: &[char])
        requires
            old(self).wf(),
            old(self).findings@.len() + 1 < u128::MAX,
        ensures
            final(self).wf(),
            final(self).detailed == old(self).detailed,
            final(self).findings@ == old(self).findings@.push(Finding::Passed(msg@)),
    {
        proof {
            self.lemma_step(Finding::Passed(msg@));
        }
        self.ok_count = self.ok_count + 1;
        if self.detailed {
            let mut line = chars_of("[OK]    ");
            push_chars(&mut line, msg);
            push_line(&mut self.lines, line);
        }
        self.findings = Ghost(self.findings@.push(Finding::Passed(msg@)));
        assert(views(self.lines@) =~= finding_lines(self.findings@, self.detailed));
    }

    /// Records a warning.
    pub fn warn(&mut self, msg: &[char])
        requires
            old(self).wf(),
            old(self).findings@.len() + 1 < u128::MAX,
        ensures
            final(self).wf(),
            final(self).detailed == old(self).detailed,
            final(self).findings@ == old(self).findings@.push(Finding::Warning(msg@)),
    {
        proof {
            self.lemma_step(Finding::Warning(msg@));
        }
        self.warnings = self.warnings + 1;
        let mut line = chars_of("[WARN]  ");
        push_chars(&mut line, msg);
        push_line(&mut self.lines, line);
        self.findings = Ghost(self.findings@.push(Finding::Warning(msg@)));
        assert(views(self.lines@) =~= finding_lines(self.findings@, self.detailed));
    }

    /// Records an error.
    pub fn error(&mut self, msg: &[char])
        requires
            old(self).wf(),
            old(self).findings@.len() + 1 < u128::MAX,
        ensures
            final(self).wf(),
            final(self).detailed == old(self).detailed,
            final(self).findings@ == old(self).findings@.push(Finding::Failure(msg@)),
    {
        proof {
            self.lemma_step(Finding::Failure(msg@));
        }
        self.errors = self.errors + 1;
        let mut line = chars_of("[ERROR] ");
        push_chars(&mut line, msg);
        push_line(&mut self.lines, line);
        self.findings = Ghost(self.findings@.push(Finding::Failure(msg@)));
        assert(views(self.lines@) =~= finding_lines(self.findings@, self.detailed));
    }

    /// Records a plain line.
    pub fn out(&mut self, msg: &[char])
        requires
            old(self).wf(),
            old(self).findings@.len() + 1 < u128::MAX,
        ensures
            final(self).wf(),
            final(self).detailed == old(self).detailed,
            final(self).findings@ == old(self).findings@.push(Finding::Line(msg@)),
    {
        proof {
            self.lemma_step(Finding::Line(msg@));
        }
        push_line(&mut self.lines, crate::text::to_vec(msg));
        self.findings = Ghost(self.findings@.push(Finding::Line(msg@)));
        assert(views(self.lines@) =~= finding_lines(self.findings@, self.detailed));
    }
}

/// The totals line of a report.
pub open spec fn totals_line(fs: Seq<Finding>) -> Seq<char> {
    "=== Result: "@ + nat_text(failures(fs)) + " errors, "@ + nat_text(warnings(fs)) + " warnings ("@
        + nat_text(passed(fs) + failures(fs) + warnings(fs)) + " checks) ==="@
}

/// The totals line of a report from its counts.
pub fn totals_text(report: &CheckReport) -> (r: Vec<char>)
    requires
        report.wf(),
    ensures
        r@ == totals_line(report.findings@),
{
    proof {
        lemma_counts_bounded(report.findings@);
    }
    let checks: u128 = report.ok_count + report.errors + report.warnings;
    let mut total = chars_of("=== Result: ");
    push_chars(&mut total, &u128_text(report.errors));
    push_str(&mut total, " errors, ");
    push_chars(&mut total, &u128_text(report.warnings));
    push_str(&mut total, " warnings (");
    push_chars(&mut total, &u128_text(checks));
    push_str(&mut total, " checks) ===");
    total
}

/// Whether a report holds neither errors nor warnings.
pub open spec fn clean(fs: Seq<Finding>) -> bool {
    failures(fs) == 0 && warnings(fs) == 0
}

/// The number of checks of a report as text.
pub fn checks_text(report: &CheckReport) -> (r: Vec<char>)
    requires
        report.wf(),
    ensures
        r@ == nat_text(passed(report.findings@) + failures(report.findings@) + warnings(report.findings@)),
{
    proof {
        lemma_counts_bounded(report.findings@);
    }
    let checks: u128 = report.ok_count + report.errors + report.warnings;
    u128_text(checks)
}

pub proof fn lemma_findings_bound(fs: Seq<Finding>, detailed: bool)
    ensures
        fs.len() <= passed(fs) + finding_lines(fs, detailed).len(),
    decreases fs.len(),
{
    if fs.len() > 0 {
        lemma_findings_bound(fs.drop_last(), detailed);
    }
}

/// Room in a report whose passed checks are few: its lines bound the rest.
fn few_passed_room(report: &CheckReport)
    requires
        report.wf(),
        passed(report.findings@) <= 64,
    ensures
        report.findings@.len() + 8 < u128::MAX,
{
    let n = report.lines.len();
    proof {
        lemma_findings_bound(report.findings@, report.detailed);
    }
}

/// Records a passed check in a report with few passed checks.
pub(crate) fn pass_checked(report: &mut CheckReport, msg: &[char])
    requires
        old(report).wf(),
        passed(old(report).findings@) <= 63,
    ensures
        final(report).wf(),
        final(report).detailed == old(report).detailed,
        final(report).findings@ == old(report).findings@.push(Finding::Passed(msg@)),
        passed(final(report).findings@) == passed(old(report).findings@) + 1,
{
    few_passed_room(report);
    proof {
        report.lemma_step(Finding::Passed(msg@));
    }
    report.ok(msg);
}

/// Records a warning in a report with few passed checks.
pub(crate) fn warn_checked(report: &mut CheckReport, msg: &[char])
    requires
        old(report).wf(),
        passed(old(report).findings@) <= 64,
    ensures
        final(report).wf(),
        final(report).detailed == old(report).detailed,
        final(report).findings@ == old(report).findings@.push(Finding::Warning(msg@)),
        passed(final(report).findings@) == passed(old(report).findings@),
{
    few_passed_room(report);
    proof {
        report.lemma_step(Finding::Warning(msg@));
    }
    report.warn(msg);
}

/// Records an error in a report with few passed checks.
pub(crate) fn fail_checked(report: &mut CheckReport, msg: &[char])
    requires
        old(report).wf(),
        passed(old(report).findings@) <= 64,
    ensures
        final(report).wf(),
        final(report).detailed == old(report).detailed,
        final(report).findings@ == old(report).findings@.push(Finding::Failure(msg@)),
        passed(final(report).findings@) == passed(old(report).findings@),
{
    few_passed_room(report);
    proof {
        report.lemma_step(Finding::Failure(msg@));
    }
    report.error(msg);
}

/// Records a plain line in a report with few passed checks.
pub(crate) fn line_checked(report: &mut CheckReport, msg: &[char])
    requires
        old(report).wf(),
        passed(old(report).findings@) <= 64,
    ensures
        final(report).wf(),
        final(report).detailed == old(report).detailed,
        final(report).findings@ == old(report).findings@.push(Finding::Line(msg@)),
        passed(final(report).findings@) == passed(old(report).findings@),
{
    few_passed_room(report);
    proof {
        report.lemma_step(Finding::Line(msg@));
    }
    report.out(msg);
}

} // verus!
