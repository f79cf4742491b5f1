//! Classification of measured files against their limits, and the fold of
//! findings into a report.

use vstd::prelude::*;
use crate::config::{Config, ConfigView};
use crate::matcher::{resolve, resolved_by, resolved_limit, MatchBy, Provenance};

verus! {

/// What the file collaborator measured for one path.
#[derive(Debug)]
pub enum Measure {
    /// The file holds this many lines.
    Lines(usize),
    /// The file could not be measured, for this reason.
    Skipped(String),
}

/// One normalized path and its measurement.
#[derive(Debug)]
pub struct Entry {
    pub path: String,
    pub measure: Measure,
}

/// The verdict on one file.
#[derive(Debug)]
pub enum FindingKind {
    /// The line count exceeds the limit.
    Violation { limit: usize, matched_by: MatchBy },
    /// The line count is within the limit.
    Compliant { limit: usize, matched_by: MatchBy },
    /// The file could not be measured.
    Skipped { reason: String },
}

/// The mathematical value of a [`FindingKind`].
pub enum KindView {
    Violation(usize, Provenance),
    Compliant(usize, Provenance),
    Skipped(Seq<char>),
}

impl View for FindingKind {
    type V = KindView;

    open spec fn view(&self) -> KindView {
        match self {
            FindingKind::Violation { limit, matched_by } => KindView::Violation(*limit, matched_by@),
            FindingKind::Compliant { limit, matched_by } => KindView::Compliant(*limit, matched_by@),
            FindingKind::Skipped { reason } => KindView::Skipped(reason@),
        }
    }
}

/// The verdict on one file, with its path and observed line count
/// (zero for a skipped file).
#[derive(Debug)]
pub struct Finding {
    pub path: String,
    pub actual: usize,
    pub kind: FindingKind,
}

/// The mathematical value of a [`Finding`].
pub struct FindingView {
    pub path: Seq<char>,
    pub actual: usize,
    pub kind: KindView,
}

impl View for Finding {
    type V = FindingView;

    open spec fn view(&self) -> FindingView {
        FindingView { path: self.path@, actual: self.actual, kind: self.kind@ }
    }
}

/// Counts over the findings of a report.
#[derive(Debug, Clone, Copy, PartialEq, Eq, Structural)]
pub struct Summary {
    pub total: usize,
    pub violations: usize,
}

/// The findings of one run, in the order their paths were supplied.
#[derive(Debug)]
pub struct Report {
    pub findings: Vec<Finding>,
    pub summary: Summary,
}

pub open spec fn findings_view(fs: Seq<Finding>) -> Seq<FindingView> {
    fs.map_values(|f: Finding| f@)
}

/// The number of violations among `fs`.
pub open spec fn count_violations(fs: Seq<FindingView>) -> nat
    decreases fs.len(),
{
    if fs.len() == 0 {
        0
    } else {
        count_violations(fs.drop_last()) + if fs.last().kind is Violation {
            1nat
        } else {
            0nat
        }
    }
}

/// The verdict for `actual` lines against `limit`: a violation exactly when
/// the count exceeds the limit.
pub open spec fn classified(actual: usize, limit: usize, by: Provenance) -> KindView {
    if actual > limit {
        KindView::Violation(limit, by)
    } else {
        KindView::Compliant(limit, by)
    }
}

/// The finding that a check under `c` makes of entry `e`.
pub open spec fn expected_finding(c: ConfigView, e: Entry) -> FindingView {
    match e.measure {
        Measure::Lines(n) => FindingView {
            path: e.path@,
            actual: n,
            kind: classified(n, resolved_limit(c, e.path@), resolved_by(c, e.path@)),
        },
        Measure::Skipped(reason) => FindingView {
            path: e.path@,
            actual: 0,
            kind: KindView::Skipped(reason@),
        },
    }
}

/// Classifies a measured file against the limit resolved for it.
pub fn classify(path: String, actual: usize, limit: usize, matched_by: MatchBy) -> (r: Finding)
    ensures
        r.path == path,
        r.actual == actual,
        r.kind@ == classified(actual, limit, matched_by@),
        r.kind is Violation <==> actual > limit,
{
    if actual > limit {
        Finding { path, actual, kind: FindingKind::Violation { limit, matched_by } }
    } else {
        Finding { path, actual, kind: FindingKind::Compliant { limit, matched_by } }
    }
}

/// The finding for a file that could not be measured.
pub fn skipped(path: String, reason: String) -> (r: Finding)
    ensures
        r.path == path,
        r.actual == 0,
        r.kind@ == KindView::Skipped(reason@),
{
    Finding { path, actual: 0, kind: FindingKind::Skipped { reason } }
}

/// Folds findings into a report, keeping their order.
pub fn aggregate(findings: Vec<Finding>) -> (r: Report)
    ensures
        r.findings@ == findings@,
        r.summary.total == findings.len(),
        r.summary.violations == count_violations(findings_view(findings@)),
{
    let ghost fv = findings_view(findings@);
    let mut violations: usize = 0;
    let mut i: usize = 0;
    while i < findings.len()
        invariant
            fv == findings_view(findings@),
            i <= findings.len(),
            violations == count_violations(fv.subrange(0, i as int)),
            violations <= i,
        decreases findings.len() - i,
    {
        assert(fv.subrange(0, i + 1).drop_last() =~= fv.subrange(0, i as int));
        assert(fv[i as int] == findings[i as int]@);
        match &findings[i].kind {
            FindingKind::Violation { .. } => {
                violations += 1;
            },
            _ => {},
        }
        i += 1;
    }
    assert(fv.subrange(0, findings.len() as int) =~= fv);
    let total = findings.len();
    Report { findings, summary: Summary { total, violations } }
}

/// Checks one entry under `config`.
pub fn check_entry(config: &Config, entry: &Entry) -> (r: Finding)
    ensures
        r@ == expected_finding(config@, *entry),
{
    match &entry.measure {
        Measure::Lines(n) => {
            let res = resolve(config, &entry.path);
            classify(entry.path.clone(), *n, res.limit, res.matched_by)
        },
        Measure::Skipped(reason) => skipped(entry.path.clone(), reason.clone()),
    }
}

/// Checks every entry under `config` and reports the findings in entry order.
pub fn run_check(config: &Config, entries: &Vec<Entry>) -> (r: Report)
    ensures
        r.findings.len() == entries.len(),
        forall|i: int|
            0 <= i < entries.len() ==> #[trigger] r.findings[i].path@ == entries[i].path@,
        forall|i: int|
            0 <= i < entries.len() ==> #[trigger] r.findings[i]@ == expected_finding(
                config@,
                entries[i],
            ),
        r.summary.total == entries.len(),
        r.summary.violations == count_violations(findings_view(r.findings@)),
{
    let mut findings: Vec<Finding> = Vec::new();
    let mut i: usize = 0;
    while i < entries.len()
        invariant
            i <= entries.len(),
            findings.len() == i,
            forall|k: int| 0 <= k < i ==> #[trigger] findings[k]@ == expected_finding(config@, entries[k]),
        decreases entries.len() - i,
    {
        findings.push(check_entry(config, &entries[i]));
        i += 1;
    }
    let r = aggregate(findings);
    assert forall|i: int| 0 <= i < entries.len() implies #[trigger] r.findings[i].path@
        == entries[i].path@ by {
        assert(r.findings[i]@ == expected_finding(config@, entries[i]));
    }
    r
}

} // verus!
