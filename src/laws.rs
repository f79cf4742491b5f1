//! Laws of resolution and baseline generation, proved over the models that
//! the executable functions' contracts use.

use vstd::prelude::*;
use crate::baseline::{baseline, baseline_exemptions, upsert};
use crate::config::{has_conflict, ConfigView};
use crate::glob::glob_matches;
use crate::matcher::{find_from, first_rule_from, lookup, resolved_by, resolved_limit, Provenance};
use crate::output::violation_rows;
use crate::report::{count_violations, expected_finding, Entry, FindingView, Measure};

verus! {

/// No two entries name the same path.
pub open spec fn distinct_paths(entries: Seq<Entry>) -> bool {
    forall|i: int, j: int|
        0 <= i < entries.len() && 0 <= j < entries.len() && i != j ==> #[trigger] entries[i].path@
            != #[trigger] entries[j].path@
}

/// `find_from` yields the first index at or after `k` whose key is `key`.
pub proof fn lemma_find_from(s: Seq<(Seq<char>, usize)>, key: Seq<char>, k: int)
    requires
        0 <= k,
    ensures
        match find_from(s, key, k) {
            Some(i) => k <= i < s.len() && s[i].0 == key && forall|j: int|
                k <= j < i ==> #[trigger] s[j].0 != key,
            None => forall|j: int| k <= j < s.len() ==> #[trigger] s[j].0 != key,
        },
    decreases s.len() - k,
{
    if k < s.len() && s[k].0 != key {
        lemma_find_from(s, key, k + 1);
    }
}

/// `first_rule_from` yields the first rule at or after `k` that matches.
pub proof fn lemma_first_rule_from(rules: Seq<(Seq<char>, usize)>, path: Seq<char>, k: int)
    requires
        0 <= k,
    ensures
        match first_rule_from(rules, path, k) {
            Some(i) => k <= i < rules.len() && glob_matches(rules[i].0, path) && forall|j: int|
                k <= j < i ==> !glob_matches(#[trigger] rules[j].0, path),
            None => forall|j: int| k <= j < rules.len() ==> !glob_matches(#[trigger] rules[j].0, path),
        },
    decreases rules.len() - k,
{
    if k < rules.len() && !glob_matches(rules[k].0, path) {
        lemma_first_rule_from(rules, path, k + 1);
    }
}

/// A path with no exemption and no matching rule gets the default limit,
/// with the default as its provenance.
pub proof fn lemma_unmatched_path_gets_default(c: ConfigView, path: Seq<char>)
    requires
        forall|k: int| 0 <= k < c.exemptions.len() ==> #[trigger] c.exemptions[k].0 != path,
        forall|k: int| 0 <= k < c.rules.len() ==> !glob_matches(#[trigger] c.rules[k].0, path),
    ensures
        resolved_limit(c, path) == c.default_limit,
        resolved_by(c, path) == Provenance::Default,
{
    lemma_find_from(c.exemptions, path, 0);
    lemma_first_rule_from(c.rules, path, 0);
}

/// In a configuration without conflicting exemptions, an exempted path gets
/// its exemption's limit, whatever rule would match it.
pub proof fn lemma_exemption_dominates(c: ConfigView, path: Seq<char>, k: int)
    requires
        !has_conflict(c.exemptions),
        0 <= k < c.exemptions.len(),
        c.exemptions[k].0 == path,
    ensures
        resolved_limit(c, path) == c.exemptions[k].1,
        resolved_by(c, path) == Provenance::Exemption,
{
    lemma_find_from(c.exemptions, path, 0);
    let i = find_from(c.exemptions, path, 0)->0;
    assert(c.exemptions[i].0 == c.exemptions[k].0);
}

/// For a path without exemption, the first matching rule in declaration
/// order decides, whatever later rules would match too.
pub proof fn lemma_first_matching_rule_wins(c: ConfigView, path: Seq<char>, k: int)
    requires
        forall|q: int| 0 <= q < c.exemptions.len() ==> #[trigger] c.exemptions[q].0 != path,
        0 <= k < c.rules.len(),
        glob_matches(c.rules[k].0, path),
        forall|j: int| 0 <= j < k ==> !glob_matches(#[trigger] c.rules[j].0, path),
    ensures
        resolved_limit(c, path) == c.rules[k].1,
        resolved_by(c, path) == Provenance::Rule(c.rules[k].0),
{
    lemma_find_from(c.exemptions, path, 0);
    lemma_first_rule_from(c.rules, path, 0);
}

/// Setting the exemption of `key` changes the lookup of `key` alone.
pub proof fn lemma_upsert_lookup(s: Seq<(Seq<char>, usize)>, key: Seq<char>, v: usize, q: Seq<char>)
    ensures
        lookup(upsert(s, key, v), q) == if q == key {
            Some(v)
        } else {
            lookup(s, q)
        },
{
    let s2 = upsert(s, key, v);
    lemma_find_from(s, key, 0);
    lemma_find_from(s, q, 0);
    lemma_find_from(s2, q, 0);
    match find_from(s, key, 0) {
        Some(i) => {
            assert(forall|j: int| 0 <= j < s.len() ==> (#[trigger] s2[j]).0 == s[j].0);
            assert(s2[i] == (key, v));
            match find_from(s2, q, 0) {
                Some(a) => {
                    assert(s2[a].0 == s[a].0);
                    match find_from(s, q, 0) {
                        Some(b) => {
                            assert(s2[b].0 == s[b].0);
                            assert(a == b);
                            if q != key {
                                assert(a != i);
                            }
                        },
                        None => {},
                    }
                },
                None => {
                    assert(s2[i].0 == key);
                    if let Some(b) = find_from(s, q, 0) {
                        assert(s2[b].0 == s[b].0);
                    }
                },
            }
        },
        None => {
            assert(forall|j: int| 0 <= j < s.len() ==> #[trigger] s2[j] == s[j]);
            assert(s2[s.len() as int] == (key, v));
            match find_from(s2, q, 0) {
                Some(a) => {
                    if a < s.len() {
                        assert(s2[a] == s[a]);
                    }
                    match find_from(s, q, 0) {
                        Some(b) => {
                            assert(s2[b] == s[b]);
                            assert(a == b);
                        },
                        None => {},
                    }
                },
                None => {
                    assert(s2[s.len() as int].0 == key);
                    if let Some(b) = find_from(s, q, 0) {
                        assert(s2[b] == s[b]);
                    }
                },
            }
        },
    }
}

/// The baseline leaves the exemption lookup of a path that no entry names
/// as it was.
pub proof fn lemma_baseline_lookup_unnamed(c: ConfigView, entries: Seq<Entry>, q: Seq<char>)
    requires
        forall|i: int| 0 <= i < entries.len() ==> #[trigger] entries[i].path@ != q,
    ensures
        lookup(baseline_exemptions(c, entries), q) == lookup(c.exemptions, q),
    decreases entries.len(),
{
    if entries.len() > 0 {
        let prev = entries.drop_last();
        assert forall|i: int| 0 <= i < prev.len() implies #[trigger] prev[i].path@ != q by {
            assert(prev[i] == entries[i]);
        }
        lemma_baseline_lookup_unnamed(c, prev, q);
        let e = entries.last();
        assert(e.path@ != q);
        match e.measure {
            Measure::Lines(n) => {
                lemma_upsert_lookup(baseline_exemptions(c, prev), e.path@, n, q);
            },
            Measure::Skipped(_) => {},
        }
    }
}

/// The exemption lookup that the baseline leaves for the path of `e`, when
/// no other entry names that path.
pub open spec fn baseline_lookup_of(c: ConfigView, e: Entry) -> Option<usize> {
    match e.measure {
        Measure::Lines(n) => if n > resolved_limit(c, e.path@) {
            Some(n)
        } else {
            lookup(c.exemptions, e.path@)
        },
        Measure::Skipped(_) => lookup(c.exemptions, e.path@),
    }
}

/// Among entries with distinct paths, an oversized entry's path is exempted
/// at its line count, and any other entry's path keeps its exemption.
pub proof fn lemma_baseline_lookup_named(c: ConfigView, entries: Seq<Entry>, i: int)
    requires
        distinct_paths(entries),
        0 <= i < entries.len(),
    ensures
        lookup(baseline_exemptions(c, entries), entries[i].path@) == baseline_lookup_of(
            c,
            entries[i],
        ),
    decreases entries.len(),
{
    let prev = entries.drop_last();
    let e = entries.last();
    let p = entries[i].path@;
    let acc = baseline_exemptions(c, prev);
    if i == entries.len() - 1 {
        assert forall|j: int| 0 <= j < prev.len() implies #[trigger] prev[j].path@ != p by {
            assert(prev[j] == entries[j]);
        }
        lemma_baseline_lookup_unnamed(c, prev, p);
        match e.measure {
            Measure::Lines(n) => {
                lemma_upsert_lookup(acc, p, n, p);
            },
            Measure::Skipped(_) => {},
        }
    } else {
        assert forall|a: int, b: int|
            0 <= a < prev.len() && 0 <= b < prev.len() && a != b implies #[trigger] prev[a].path@
            != #[trigger] prev[b].path@ by {
            assert(prev[a] == entries[a] && prev[b] == entries[b]);
        }
        assert(prev[i] == entries[i]);
        lemma_baseline_lookup_named(c, prev, i);
        assert(e.path@ != p);
        match e.measure {
            Measure::Lines(n) => {
                lemma_upsert_lookup(acc, e.path@, n, p);
            },
            Measure::Skipped(_) => {},
        }
    }
}

/// Among entries with distinct paths, each measured entry fits within the
/// limit that its path resolves to under the baseline.
pub proof fn lemma_baseline_covers_entry(c: ConfigView, entries: Seq<Entry>, i: int)
    requires
        distinct_paths(entries),
        0 <= i < entries.len(),
    ensures
        entries[i].measure matches Measure::Lines(n) ==> n <= resolved_limit(
            baseline(c, entries),
            entries[i].path@,
        ),
{
    lemma_baseline_lookup_named(c, entries, i);
}

/// Baseline generation is idempotent: regenerating the baseline from its own
/// output over the same entries (with distinct paths) changes nothing.
pub proof fn lemma_baseline_idempotent(c: ConfigView, entries: Seq<Entry>)
    requires
        distinct_paths(entries),
    ensures
        baseline(baseline(c, entries), entries) == baseline(c, entries),
{
    lemma_baseline_fixed_prefix(c, entries, entries.len() as int);
    assert(entries.subrange(0, entries.len() as int) =~= entries);
}

proof fn lemma_baseline_fixed_prefix(c: ConfigView, entries: Seq<Entry>, k: int)
    requires
        distinct_paths(entries),
        0 <= k <= entries.len(),
    ensures
        baseline_exemptions(baseline(c, entries), entries.subrange(0, k)) == baseline(
            c,
            entries,
        ).exemptions,
    decreases k,
{
    if k > 0 {
        let pre = entries.subrange(0, k);
        assert(pre.drop_last() =~= entries.subrange(0, k - 1));
        lemma_baseline_fixed_prefix(c, entries, k - 1);
        lemma_baseline_covers_entry(c, entries, k - 1);
        assert(pre.last() == entries[k - 1]);
    }
}

/// Checking entries with distinct paths against their own baseline finds
/// no violation: every finding that a check can make is compliant or skipped,
/// and the violation count of the check's findings is zero.
pub proof fn lemma_baseline_has_no_violations(
    c: ConfigView,
    entries: Seq<Entry>,
    findings: Seq<FindingView>,
)
    requires
        distinct_paths(entries),
        findings.len() == entries.len(),
        forall|i: int|
            0 <= i < entries.len() ==> #[trigger] findings[i] == expected_finding(
                baseline(c, entries),
                entries[i],
            ),
    ensures
        count_violations(findings) == 0,
    decreases findings.len(),
{
    if findings.len() > 0 {
        let k = findings.len() - 1;
        let pe = entries.drop_last();
        assert forall|a: int, b: int|
            0 <= a < pe.len() && 0 <= b < pe.len() && a != b implies #[trigger] pe[a].path@
            != #[trigger] pe[b].path@ by {
            assert(pe[a] == entries[a] && pe[b] == entries[b]);
        }
        lemma_baseline_covers_entry(c, entries, k);
        assert(findings[k] == expected_finding(baseline(c, entries), entries[k]));
        lemma_no_violations_prefix(c, entries, findings, k);
    }
}

proof fn lemma_no_violations_prefix(
    c: ConfigView,
    entries: Seq<Entry>,
    findings: Seq<FindingView>,
    k: int,
)
    requires
        distinct_paths(entries),
        findings.len() == entries.len(),
        0 <= k <= findings.len(),
        forall|i: int|
            0 <= i < entries.len() ==> #[trigger] findings[i] == expected_finding(
                baseline(c, entries),
                entries[i],
            ),
    ensures
        count_violations(findings.subrange(0, k)) == 0,
    decreases k,
{
    if k > 0 {
        let pre = findings.subrange(0, k);
        assert(pre.drop_last() =~= findings.subrange(0, k - 1));
        lemma_no_violations_prefix(c, entries, findings, k - 1);
        lemma_baseline_covers_entry(c, entries, k - 1);
        assert(pre.last() == findings[k - 1]);
    }
}

/// A report lists exactly as many violation rows as its summary counts
/// violations; in particular a report without violations lists no rows.
pub proof fn lemma_rows_match_violation_count(fs: Seq<FindingView>)
    ensures
        violation_rows(fs).len() == count_violations(fs),
    decreases fs.len(),
{
    if fs.len() > 0 {
        lemma_rows_match_violation_count(fs.drop_last());
    }
}

} // verus!
