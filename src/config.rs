//! The configuration model: a default limit, ordered pattern rules and
//! explicit per-path exemptions (the baseline).

use vstd::prelude::*;
use crate::glob::{is_well_formed_pattern, pattern_well_formed};
use crate::normalize::{normalize_path, normalized};

verus! {

/// A glob pattern and the line limit it imposes on the paths it matches.
#[derive(Debug)]
pub struct Rule {
    pub pattern: String,
    pub limit: usize,
}

impl View for Rule {
    type V = (Seq<char>, usize);

    open spec fn view(&self) -> (Seq<char>, usize) {
        (self.pattern@, self.limit)
    }
}

/// An explicit limit for one normalized path.
#[derive(Debug)]
pub struct Exemption {
    pub path: String,
    pub limit: usize,
}

impl View for Exemption {
    type V = (Seq<char>, usize);

    open spec fn view(&self) -> (Seq<char>, usize) {
        (self.path@, self.limit)
    }
}

/// The limit policy of one run. Rules are tried in declaration order;
/// exemptions take precedence over every rule.
#[derive(Debug)]
pub struct Config {
    pub default_limit: usize,
    pub rules: Vec<Rule>,
    pub exemptions: Vec<Exemption>,
}

/// The mathematical value of a [`Config`].
pub struct ConfigView {
    pub default_limit: usize,
    pub rules: Seq<(Seq<char>, usize)>,
    pub exemptions: Seq<(Seq<char>, usize)>,
}

pub open spec fn rules_view(rules: Seq<Rule>) -> Seq<(Seq<char>, usize)> {
    rules.map_values(|r: Rule| r@)
}

pub open spec fn exemptions_view(exemptions: Seq<Exemption>) -> Seq<(Seq<char>, usize)> {
    exemptions.map_values(|e: Exemption| e@)
}

impl View for Config {
    type V = ConfigView;

    open spec fn view(&self) -> ConfigView {
        ConfigView {
            default_limit: self.default_limit,
            rules: rules_view(self.rules@),
            exemptions: exemptions_view(self.exemptions@),
        }
    }
}

/// Why a configuration was refused.
#[derive(Debug, Clone, Copy, PartialEq, Eq, Structural)]
pub enum ConfigError {
    /// The default limit, a rule's limit or an exemption's limit is zero.
    ZeroLimit,
    /// A rule's pattern is empty or holds a run of three or more `*`.
    MalformedPattern,
    /// Two exemptions name the same path with different limits.
    ConflictingExemption,
    /// An exemption's path is not in normal form (see `normalize_path`).
    UnnormalizedPath,
}

/// Some limit of the configuration is zero.
pub open spec fn has_zero_limit(
    default_limit: usize,
    rules: Seq<(Seq<char>, usize)>,
    exemptions: Seq<(Seq<char>, usize)>,
) -> bool {
    default_limit == 0 || (exists|k: int| 0 <= k < rules.len() && #[trigger] rules[k].1 == 0) || (
    exists|k: int| 0 <= k < exemptions.len() && #[trigger] exemptions[k].1 == 0)
}

/// Some rule's pattern is malformed.
pub open spec fn has_malformed_pattern(rules: Seq<(Seq<char>, usize)>) -> bool {
    exists|k: int| 0 <= k < rules.len() && !pattern_well_formed(#[trigger] rules[k].0)
}

/// Two exemptions name the same path with different limits.
pub open spec fn has_conflict(exemptions: Seq<(Seq<char>, usize)>) -> bool {
    exists|a: int, b: int|
        0 <= a < exemptions.len() && 0 <= b < exemptions.len() && #[trigger] exemptions[a].0
            == #[trigger] exemptions[b].0 && exemptions[a].1 != exemptions[b].1
}

/// Some exemption's path is not in normal form.
pub open spec fn has_unnormalized_path(exemptions: Seq<(Seq<char>, usize)>) -> bool {
    exists|k: int| 0 <= k < exemptions.len() && normalized(#[trigger] exemptions[k].0) != exemptions[k].0
}

/// A configuration that passed validation: every limit is positive, every
/// pattern well-formed, no path has two different exemptions, and every
/// exemption's path is in normal form.
pub open spec fn valid_config(c: ConfigView) -> bool {
    !has_zero_limit(c.default_limit, c.rules, c.exemptions) && !has_malformed_pattern(c.rules)
        && !has_conflict(c.exemptions) && !has_unnormalized_path(c.exemptions)
}

impl Config {
    pub open spec fn wf(&self) -> bool {
        valid_config(self@)
    }

    /// Validates and builds a configuration. Zero limits are reported first,
    /// then malformed patterns, then conflicting exemptions, then exemption
    /// paths out of normal form.
    pub fn new(default_limit: usize, rules: Vec<Rule>, exemptions: Vec<Exemption>) -> (r: Result<
        Config,
        ConfigError,
    >)
        ensures
            has_zero_limit(default_limit, rules_view(rules@), exemptions_view(exemptions@))
                <==> r == Err::<Config, ConfigError>(ConfigError::ZeroLimit),
            !has_zero_limit(default_limit, rules_view(rules@), exemptions_view(exemptions@))
                && has_malformed_pattern(rules_view(rules@)) <==> r == Err::<Config, ConfigError>(
                ConfigError::MalformedPattern,
            ),
            !has_zero_limit(default_limit, rules_view(rules@), exemptions_view(exemptions@))
                && !has_malformed_pattern(rules_view(rules@)) && has_conflict(
                exemptions_view(exemptions@),
            ) <==> r == Err::<Config, ConfigError>(ConfigError::ConflictingExemption),
            !has_zero_limit(default_limit, rules_view(rules@), exemptions_view(exemptions@))
                && !has_malformed_pattern(rules_view(rules@)) && !has_conflict(
                exemptions_view(exemptions@),
            ) && has_unnormalized_path(exemptions_view(exemptions@)) <==> r == Err::<
                Config,
                ConfigError,
            >(ConfigError::UnnormalizedPath),
            r is Ok <==> valid_config(
                ConfigView {
                    default_limit,
                    rules: rules_view(rules@),
                    exemptions: exemptions_view(exemptions@),
                },
            ),
            r matches Ok(c) ==> c.wf() && c.default_limit == default_limit && c.rules@ == rules@
                && c.exemptions@ == exemptions@,
    {
        let ghost rv = rules_view(rules@);
        let ghost ev = exemptions_view(exemptions@);
        if default_limit == 0 {
            return Err(ConfigError::ZeroLimit);
        }
        let mut k: usize = 0;
        while k < rules.len()
            invariant
                rv == rules_view(rules@),
                forall|q: int| 0 <= q < k ==> #[trigger] rv[q].1 != 0,
            decreases rules.len() - k,
        {
            if rules[k].limit == 0 {
                assert(rv[k as int].1 == 0);
                return Err(ConfigError::ZeroLimit);
            }
            k += 1;
        }
        let mut k: usize = 0;
        while k < exemptions.len()
            invariant
                ev == exemptions_view(exemptions@),
                default_limit != 0,
                forall|q: int| 0 <= q < rv.len() ==> #[trigger] rv[q].1 != 0,
                forall|q: int| 0 <= q < k ==> #[trigger] ev[q].1 != 0,
            decreases exemptions.len() - k,
        {
            if exemptions[k].limit == 0 {
                assert(ev[k as int].1 == 0);
                return Err(ConfigError::ZeroLimit);
            }
            k += 1;
        }
        assert(!has_zero_limit(default_limit, rv, ev));
        let mut k: usize = 0;
        while k < rules.len()
            invariant
                rv == rules_view(rules@),
                ev == exemptions_view(exemptions@),
                !has_zero_limit(default_limit, rv, ev),
                forall|q: int| 0 <= q < k ==> pattern_well_formed(#[trigger] rv[q].0),
            decreases rules.len() - k,
        {
            if !is_well_formed_pattern(rules[k].pattern.as_str()) {
                assert(!pattern_well_formed(rv[k as int].0));
                return Err(ConfigError::MalformedPattern);
            }
            k += 1;
        }
        assert(!has_malformed_pattern(rv));
        let mut a: usize = 0;
        while a < exemptions.len()
            invariant
                ev == exemptions_view(exemptions@),
                rv == rules_view(rules@),
                !has_zero_limit(default_limit, rv, ev),
                !has_malformed_pattern(rv),
                forall|x: int, y: int|
                    0 <= x < a && 0 <= y < ev.len() && #[trigger] ev[x].0 == #[trigger] ev[y].0
                        ==> ev[x].1 == ev[y].1,
            decreases exemptions.len() - a,
        {
            let mut b: usize = 0;
            while b < exemptions.len()
                invariant
                    ev == exemptions_view(exemptions@),
                    rv == rules_view(rules@),
                    !has_zero_limit(default_limit, rv, ev),
                    !has_malformed_pattern(rv),
                    a < ev.len(),
                    forall|x: int, y: int|
                        0 <= x < a && 0 <= y < ev.len() && #[trigger] ev[x].0 == #[trigger] ev[y].0
                            ==> ev[x].1 == ev[y].1,
                    forall|y: int|
                        0 <= y < b && ev[a as int].0 == #[trigger] ev[y].0 ==> ev[a as int].1
                            == ev[y].1,
                decreases exemptions.len() - b,
            {
                if exemptions[a].path == exemptions[b].path && exemptions[a].limit
                    != exemptions[b].limit {
                    assert(ev[a as int].0 == ev[b as int].0 && ev[a as int].1 != ev[b as int].1);
                    return Err(ConfigError::ConflictingExemption);
                }
                b += 1;
            }
            a += 1;
        }
        assert(!has_conflict(ev));
        let mut k: usize = 0;
        while k < exemptions.len()
            invariant
                ev == exemptions_view(exemptions@),
                rv == rules_view(rules@),
                !has_zero_limit(default_limit, rv, ev),
                !has_malformed_pattern(rv),
                !has_conflict(ev),
                forall|q: int| 0 <= q < k ==> normalized(#[trigger] ev[q].0) == ev[q].0,
            decreases exemptions.len() - k,
        {
            assert(ev[k as int] == exemptions[k as int]@);
            let n = normalize_path(exemptions[k].path.as_str());
            if !(n == exemptions[k].path) {
                assert(normalized(ev[k as int].0) != ev[k as int].0);
                return Err(ConfigError::UnnormalizedPath);
            }
            k += 1;
        }
        Ok(Config { default_limit, rules, exemptions })
    }
}

} // verus!
