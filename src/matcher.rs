//! Resolution of the single limit that governs a path: an exemption first,
//! then the first matching rule in declaration order, then the default.

use vstd::prelude::*;
use crate::config::{Config, ConfigView};
use crate::glob::{glob_match, glob_matches};

verus! {

/// Which element of the configuration decided a path's limit.
#[derive(Debug)]
pub enum MatchBy {
    Exemption,
    Rule { pattern: String },
    Default,
}

/// The mathematical value of a [`MatchBy`].
pub enum Provenance {
    Exemption,
    Rule(Seq<char>),
    Default,
}

impl View for MatchBy {
    type V = Provenance;

    open spec fn view(&self) -> Provenance {
        match self {
            MatchBy::Exemption => Provenance::Exemption,
            MatchBy::Rule { pattern } => Provenance::Rule(pattern@),
            MatchBy::Default => Provenance::Default,
        }
    }
}

/// A resolved limit and where it came from.
#[derive(Debug)]
pub struct Resolution {
    pub limit: usize,
    pub matched_by: MatchBy,
}

/// The first index at or after `k` whose entry has key `key`.
pub open spec fn find_from(s: Seq<(Seq<char>, usize)>, key: Seq<char>, k: int) -> Option<int>
    decreases s.len() - k,
{
    if k < 0 || k >= s.len() {
        None
    } else if s[k].0 == key {
        Some(k)
    } else {
        find_from(s, key, k + 1)
    }
}

/// The value of the first entry with key `key`, if any.
pub open spec fn lookup(s: Seq<(Seq<char>, usize)>, key: Seq<char>) -> Option<usize> {
    match find_from(s, key, 0) {
        Some(i) => Some(s[i].1),
        None => None,
    }
}

/// The first rule at or after `k` whose pattern matches `path`.
pub open spec fn first_rule_from(rules: Seq<(Seq<char>, usize)>, path: Seq<char>, k: int) -> Option<
    int,
>
    decreases rules.len() - k,
{
    if k < 0 || k >= rules.len() {
        None
    } else if glob_matches(rules[k].0, path) {
        Some(k)
    } else {
        first_rule_from(rules, path, k + 1)
    }
}

/// The first rule whose pattern matches `path`.
pub open spec fn first_rule(rules: Seq<(Seq<char>, usize)>, path: Seq<char>) -> Option<int> {
    first_rule_from(rules, path, 0)
}

/// The limit that governs `path` under `c`.
pub open spec fn resolved_limit(c: ConfigView, path: Seq<char>) -> usize {
    match lookup(c.exemptions, path) {
        Some(v) => v,
        None => match first_rule(c.rules, path) {
            Some(k) => c.rules[k].1,
            None => c.default_limit,
        },
    }
}

/// Where the limit that governs `path` under `c` comes from.
pub open spec fn resolved_by(c: ConfigView, path: Seq<char>) -> Provenance {
    match lookup(c.exemptions, path) {
        Some(v) => Provenance::Exemption,
        None => match first_rule(c.rules, path) {
            Some(k) => Provenance::Rule(c.rules[k].0),
            None => Provenance::Default,
        },
    }
}

/// Resolves the limit that governs `path`.
pub fn resolve(config: &Config, path: &String) -> (r: Resolution)
    ensures
        r.limit == resolved_limit(config@, path@),
        r.matched_by@ == resolved_by(config@, path@),
{
    let ghost c = config@;
    let mut k: usize = 0;
    while k < config.exemptions.len()
        invariant
            c == config@,
            find_from(c.exemptions, path@, 0) == find_from(c.exemptions, path@, k as int),
        decreases config.exemptions.len() - k,
    {
        let e = &config.exemptions[k];
        assert(c.exemptions[k as int] == e@);
        if e.path == *path {
            return Resolution { limit: e.limit, matched_by: MatchBy::Exemption };
        }
        k += 1;
    }
    let mut k: usize = 0;
    while k < config.rules.len()
        invariant
            c == config@,
            lookup(c.exemptions, path@) is None,
            first_rule(c.rules, path@) == first_rule_from(c.rules, path@, k as int),
        decreases config.rules.len() - k,
    {
        let rule = &config.rules[k];
        assert(c.rules[k as int] == rule@);
        if glob_match(rule.pattern.as_str(), path.as_str()) {
            return Resolution {
                limit: rule.limit,
                matched_by: MatchBy::Rule { pattern: rule.pattern.clone() },
            };
        }
        k += 1;
    }
    Resolution { limit: config.default_limit, matched_by: MatchBy::Default }
}

} // verus!
