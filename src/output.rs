//! The rows that a machine-readable report lists: one per violation.

use vstd::prelude::*;
use crate::matcher::{MatchBy, Provenance};
use crate::report::{findings_view, FindingKind, FindingView, KindView, Report};

verus! {

/// One violating file as a report row: its path, line count, limit, and the
/// rule that set the limit.
#[derive(Debug)]
pub struct ViolationRecord {
    pub path: String,
    pub lines: usize,
    pub max_lines: usize,
    pub rule: String,
}

impl View for ViolationRecord {
    type V = (Seq<char>, usize, usize, Seq<char>);

    open spec fn view(&self) -> (Seq<char>, usize, usize, Seq<char>) {
        (self.path@, self.lines, self.max_lines, self.rule@)
    }
}

/// How a provenance is named in a row: the pattern of a rule, `default`, or
/// `baseline` for an exemption.
pub open spec fn rule_label(p: Provenance) -> Seq<char> {
    match p {
        Provenance::Rule(pattern) => pattern,
        Provenance::Default => "default"@,
        Provenance::Exemption => "baseline"@,
    }
}

/// The rows of the violations among `fs`, in order.
pub open spec fn violation_rows(fs: Seq<FindingView>) -> Seq<(Seq<char>, usize, usize, Seq<char>)>
    decreases fs.len(),
{
    if fs.len() == 0 {
        Seq::empty()
    } else {
        let rows = violation_rows(fs.drop_last());
        match fs.last().kind {
            KindView::Violation(limit, by) => rows.push(
                (fs.last().path, fs.last().actual, limit, rule_label(by)),
            ),
            _ => rows,
        }
    }
}

fn label_of(matched_by: &MatchBy) -> (r: String)
    ensures
        r@ == rule_label(matched_by@),
{
    match matched_by {
        MatchBy::Rule { pattern } => pattern.clone(),
        MatchBy::Default => {
            proof {
                reveal_strlit("default");
            }
            "default".to_owned()
        },
        MatchBy::Exemption => {
            proof {
                reveal_strlit("baseline");
            }
            "baseline".to_owned()
        },
    }
}

/// The rows of the report's violations, in report order.
pub fn violation_records(report: &Report) -> (r: Vec<ViolationRecord>)
    ensures
        r@.map_values(|v: ViolationRecord| v@) == violation_rows(findings_view(report.findings@)),
{
    let ghost fv = findings_view(report.findings@);
    let mut rows: Vec<ViolationRecord> = Vec::new();
    let mut i: usize = 0;
    while i < report.findings.len()
        invariant
            fv == findings_view(report.findings@),
            i <= report.findings.len(),
            rows@.map_values(|v: ViolationRecord| v@) == violation_rows(fv.subrange(0, i as int)),
        decreases report.findings.len() - i,
    {
        let ghost pre = fv.subrange(0, i + 1);
        assert(pre.drop_last() =~= fv.subrange(0, i as int));
        let f = &report.findings[i];
        assert(pre.last() == f@);
        match &f.kind {
            FindingKind::Violation { limit, matched_by } => {
                let ghost before = rows@;
                rows.push(
                    ViolationRecord {
                        path: f.path.clone(),
                        lines: f.actual,
                        max_lines: *limit,
                        rule: label_of(matched_by),
                    },
                );
                assert(rows@.map_values(|v: ViolationRecord| v@) =~= before.map_values(
                    |v: ViolationRecord| v@,
                ).push(rows@.last()@));
            },
            _ => {},
        }
        i += 1;
    }
    assert(fv.subrange(0, report.findings.len() as int) =~= fv);
    rows
}

} // verus!
