//! Baseline generation: a configuration whose exemptions make every file
//! that is oversized today exactly compliant.

use vstd::prelude::*;
use crate::config::{
    exemptions_view, has_conflict, has_unnormalized_path, rules_view, valid_config, Config, ConfigView, Exemption, Rule,
};
use crate::matcher::{resolve, resolved_limit};
use crate::normalize::normalized;
use crate::report::{Entry, Measure};

verus! {

/// Whether some entry of `s` has key `key`.
pub open spec fn has_key(s: Seq<(Seq<char>, usize)>, key: Seq<char>) -> bool {
    exists|i: int| 0 <= i < s.len() && #[trigger] s[i].0 == key
}

/// Entry `e`, with its value set to `v` when its key is `key`.
pub open spec fn set_if_key(e: (Seq<char>, usize), key: Seq<char>, v: usize) -> (Seq<char>, usize) {
    if e.0 == key {
        (key, v)
    } else {
        e
    }
}

/// `s` with every entry of `key` set to `v`, or `(key, v)` appended when
/// `key` has no entry.
pub open spec fn upsert(s: Seq<(Seq<char>, usize)>, key: Seq<char>, v: usize) -> Seq<
    (Seq<char>, usize),
> {
    if has_key(s, key) {
        s.map_values(|e: (Seq<char>, usize)| set_if_key(e, key, v))
    } else {
        s.push((key, v))
    }
}

/// Every entry's path is in normal form.
pub open spec fn paths_normalized(entries: Seq<Entry>) -> bool {
    forall|i: int| 0 <= i < entries.len() ==> normalized(#[trigger] entries[i].path@) == entries[i].path@
}

/// Setting a key in normal form to a positive value keeps exemptions free of
/// zero limits, of conflicting entries and of paths out of normal form.
pub proof fn lemma_upsert_keeps_valid(s: Seq<(Seq<char>, usize)>, key: Seq<char>, v: usize)
    requires
        v > 0,
        normalized(key) == key,
        !has_conflict(s),
        !has_unnormalized_path(s),
        forall|k: int| 0 <= k < s.len() ==> #[trigger] s[k].1 != 0,
    ensures
        !has_conflict(upsert(s, key, v)),
        !has_unnormalized_path(upsert(s, key, v)),
        forall|k: int| 0 <= k < upsert(s, key, v).len() ==> #[trigger] upsert(s, key, v)[k].1 != 0,
{
    let u = upsert(s, key, v);
    if has_key(s, key) {
        assert forall|a: int, b: int|
            0 <= a < u.len() && 0 <= b < u.len() && #[trigger] u[a].0 == #[trigger] u[b].0
                implies u[a].1 == u[b].1 by {
            assert(u[a] == set_if_key(s[a], key, v));
            assert(u[b] == set_if_key(s[b], key, v));
        }
        assert forall|k: int| 0 <= k < u.len() implies normalized(#[trigger] u[k].0) == u[k].0 by {
            assert(u[k] == set_if_key(s[k], key, v));
        }
    } else {
        assert forall|a: int, b: int|
            0 <= a < u.len() && 0 <= b < u.len() && #[trigger] u[a].0 == #[trigger] u[b].0
                implies u[a].1 == u[b].1 by {
            if a < s.len() {
                assert(u[a] == s[a]);
            }
            if b < s.len() {
                assert(u[b] == s[b]);
            }
        }
        assert forall|k: int| 0 <= k < u.len() implies #[trigger] u[k].1 != 0 by {
            if k < s.len() {
                assert(u[k] == s[k]);
            }
        }
        assert forall|k: int| 0 <= k < u.len() implies normalized(#[trigger] u[k].0) == u[k].0 by {
            if k < s.len() {
                assert(u[k] == s[k]);
            }
        }
    }
}

/// The exemptions after considering entry `e`, whose limit is resolved
/// against the starting configuration `c`.
pub open spec fn baseline_step(c: ConfigView, acc: Seq<(Seq<char>, usize)>, e: Entry) -> Seq<
    (Seq<char>, usize),
> {
    match e.measure {
        Measure::Lines(n) => if n > resolved_limit(c, e.path@) {
            upsert(acc, e.path@, n)
        } else {
            acc
        },
        Measure::Skipped(_) => acc,
    }
}

/// The exemptions of the baseline of `c` over `entries`, taken in order.
pub open spec fn baseline_exemptions(c: ConfigView, entries: Seq<Entry>) -> Seq<
    (Seq<char>, usize),
>
    decreases entries.len(),
{
    if entries.len() == 0 {
        c.exemptions
    } else {
        baseline_step(c, baseline_exemptions(c, entries.drop_last()), entries.last())
    }
}

/// The baseline of `c` over `entries`: the default and the rules unchanged,
/// and an exemption at its current size for every oversized file.
pub open spec fn baseline(c: ConfigView, entries: Seq<Entry>) -> ConfigView {
    ConfigView {
        default_limit: c.default_limit,
        rules: c.rules,
        exemptions: baseline_exemptions(c, entries),
    }
}

fn copy_rules(rules: &Vec<Rule>) -> (r: Vec<Rule>)
    ensures
        rules_view(r@) == rules_view(rules@),
{
    let mut r: Vec<Rule> = Vec::new();
    let mut i: usize = 0;
    while i < rules.len()
        invariant
            i <= rules.len(),
            r.len() == i,
            forall|k: int| 0 <= k < i ==> #[trigger] r[k]@ == rules[k]@,
        decreases rules.len() - i,
    {
        r.push(Rule { pattern: rules[i].pattern.clone(), limit: rules[i].limit });
        i += 1;
    }
    assert(rules_view(r@) =~= rules_view(rules@));
    r
}

fn copy_exemptions(exemptions: &Vec<Exemption>) -> (r: Vec<Exemption>)
    ensures
        exemptions_view(r@) == exemptions_view(exemptions@),
{
    let mut r: Vec<Exemption> = Vec::new();
    let mut i: usize = 0;
    while i < exemptions.len()
        invariant
            i <= exemptions.len(),
            r.len() == i,
            forall|k: int| 0 <= k < i ==> #[trigger] r[k]@ == exemptions[k]@,
        decreases exemptions.len() - i,
    {
        r.push(Exemption { path: exemptions[i].path.clone(), limit: exemptions[i].limit });
        i += 1;
    }
    assert(exemptions_view(r@) =~= exemptions_view(exemptions@));
    r
}

/// Sets every exemption of `path` to `limit`, appending one if there is none.
pub fn upsert_exemption(exemptions: &mut Vec<Exemption>, path: &String, limit: usize)
    ensures
        exemptions_view(final(exemptions)@) == upsert(exemptions_view(old(exemptions)@), path@, limit),
{
    let ghost s = exemptions_view(exemptions@);
    let mut found = false;
    let mut k: usize = 0;
    while k < exemptions.len()
        invariant
            s == exemptions_view(old(exemptions)@),
            exemptions.len() == s.len(),
            k <= s.len(),
            forall|j: int| 0 <= j < k ==> #[trigger] exemptions[j]@ == set_if_key(s[j], path@, limit),
            forall|j: int| k <= j < s.len() ==> #[trigger] exemptions[j]@ == s[j],
            found <==> exists|j: int| 0 <= j < k && #[trigger] s[j].0 == path@,
        decreases exemptions.len() - k,
    {
        assert(exemptions[k as int]@ == s[k as int]);
        if exemptions[k].path == *path {
            assert(s[k as int].0 == path@);
            exemptions.set(k, Exemption { path: path.clone(), limit });
            found = true;
        } else {
            assert(s[k as int].0 != path@);
        }
        k += 1;
    }
    if found {
        assert(exemptions_view(exemptions@) =~= s.map_values(
            |e: (Seq<char>, usize)| set_if_key(e, path@, limit),
        ));
    } else {
        assert(forall|j: int| 0 <= j < s.len() ==> #[trigger] exemptions[j]@ == s[j]);
        exemptions.push(Exemption { path: path.clone(), limit });
        assert(exemptions_view(exemptions@) =~= s.push((path@, limit)));
    }
}

/// Generates the baseline of `existing` over `entries`: every entry whose
/// line count exceeds the limit resolved under `existing` gets an exemption
/// equal to its line count; nothing else changes. From a valid configuration
/// and entries whose paths are in normal form, the result is valid too.
pub fn generate_baseline(existing: &Config, entries: &Vec<Entry>) -> (r: Config)
    ensures
        r@ == baseline(existing@, entries@),
        existing.wf() && paths_normalized(entries@) ==> r.wf(),
{
    let ghost c = existing@;
    let mut exemptions = copy_exemptions(&existing.exemptions);
    let mut i: usize = 0;
    while i < entries.len()
        invariant
            c == existing@,
            i <= entries.len(),
            exemptions_view(exemptions@) == baseline_exemptions(c, entries@.subrange(0, i as int)),
            valid_config(c) && paths_normalized(entries@) ==> !has_conflict(
                exemptions_view(exemptions@),
            ) && !has_unnormalized_path(exemptions_view(exemptions@)) && forall|k: int|
                0 <= k < exemptions.len() ==> #[trigger] exemptions_view(exemptions@)[k].1 != 0,
        decreases entries.len() - i,
    {
        let ghost prefix = entries@.subrange(0, i + 1);
        assert(prefix.drop_last() =~= entries@.subrange(0, i as int));
        let e = &entries[i];
        match &e.measure {
            Measure::Lines(n) => {
                let res = resolve(existing, &e.path);
                if *n > res.limit {
                    proof {
                        if valid_config(c) && paths_normalized(entries@) {
                            assert(normalized(entries@[i as int].path@) == e.path@);
                            lemma_upsert_keeps_valid(exemptions_view(exemptions@), e.path@, *n);
                        }
                    }
                    upsert_exemption(&mut exemptions, &e.path, *n);
                }
            },
            Measure::Skipped(_) => {},
        }
        i += 1;
    }
    assert(entries@.subrange(0, entries.len() as int) =~= entries@);
    let r = Config {
        default_limit: existing.default_limit,
        rules: copy_rules(&existing.rules),
        exemptions,
    };
    assert(valid_config(c) && paths_normalized(entries@) ==> forall|k: int|
        0 <= k < r@.exemptions.len() ==> #[trigger] r@.exemptions[k].1 != 0);
    r
}

/// The baseline entry point: the configuration to persist after a baseline run.
pub fn run_baseline(config: &Config, entries: &Vec<Entry>) -> (r: Config)
    ensures
        r@ == baseline(config@, entries@),
        config.wf() && paths_normalized(entries@) ==> r.wf(),
{
    generate_baseline(config, entries)
}

} // verus!
