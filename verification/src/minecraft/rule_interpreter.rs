//! Whether a library or an argument applies on this system, by its rules.

use vstd::prelude::*;
use crate::error::LauncherError;
use crate::minecraft::version::{OsRule, Rule, RuleAction};
use crate::utils::os::OperatingSystem;
use crate::utils::text::{contains_string, str_eq, views};

verus! {

/// The system the game runs on, as rules see it.
pub struct Platform {
    pub os: OperatingSystem,
    /// The architecture, as version profiles name it.
    pub arch: String,
    /// The system's version, which rules match with regular expressions.
    pub os_version: String,
}

/// Whether the regular expression `pattern` matches somewhere in `haystack`; `None` when
/// `pattern` is not a valid regular expression.
pub uninterp spec fn regex_finds(pattern: Seq<char>, haystack: Seq<char>) -> Option<bool>;

/// Trusted: `regex::Regex::new` followed by `Regex::is_match`. The result is named, not
/// stated: `None` exactly when the pattern does not compile, otherwise whether it matches.
#[verifier::external_body]
fn regex_search(pattern: &str, haystack: &str) -> (r: Option<bool>)
    ensures
        r == regex_finds(pattern@, haystack@),
{
    match regex::Regex::new(pattern) {
        Ok(re) => Some(re.is_match(haystack)),
        Err(_) => None,
    }
}

pub open spec fn os_rule_holds(os_rule: OsRule, platform: Platform) -> bool {
    &&& (os_rule.name matches Some(name) ==> name@ == platform.os.simple_name_spec())
    &&& (os_rule.arch matches Some(arch) ==> arch@ == platform.arch@)
    &&& (os_rule.version matches Some(version) ==> regex_finds(version@, platform.os_version@)
        == Some(true))
}

pub open spec fn features_hold(required: Seq<(String, bool)>, features: Seq<String>) -> bool {
    forall|i: int|
        0 <= i < required.len() ==> views(features).contains(#[trigger] required[i].0@)
            == required[i].1
}

/// Whether a rule's conditions hold, so that its action is taken.
pub open spec fn rule_applies(rule: Rule, features: Seq<String>, platform: Platform) -> bool {
    &&& (rule.os matches Some(os_rule) ==> os_rule_holds(os_rule, platform))
    &&& (rule.features matches Some(required) ==> features_hold(required@, features))
}

/// The version pattern of a rule that does not compile.
pub open spec fn rule_fails(rule: Rule, platform: Platform) -> bool {
    rule.os matches Some(os_rule) && os_rule.version matches Some(version) && regex_finds(
        version@,
        platform.os_version@,
    ) is None
}

/// The action of the last rule that applies allows; nothing is allowed when none applies.
pub open spec fn allowed_spec(rules: Seq<Rule>, features: Seq<String>, platform: Platform) -> bool
    decreases rules.len(),
{
    if rules.len() == 0 {
        false
    } else if rule_applies(rules.last(), features, platform) {
        rules.last().action == RuleAction::Allow
    } else {
        allowed_spec(rules.drop_last(), features, platform)
    }
}

/// A rule whose conditions do not hold changes nothing; one whose conditions hold decides by
/// its action, whatever the rules before it say.
pub proof fn law_the_last_rule_that_applies_decides(
    rules: Seq<Rule>,
    rule: Rule,
    features: Seq<String>,
    platform: Platform,
)
    ensures
        !rule_applies(rule, features, platform) ==> allowed_spec(rules.push(rule), features, platform)
            == allowed_spec(rules, features, platform),
        rule_applies(rule, features, platform) ==> allowed_spec(rules.push(rule), features, platform)
            == (rule.action == RuleAction::Allow),
{
    assert(rules.push(rule).drop_last() =~= rules);
    assert(rules.push(rule).last() == rule);
}

/// A rule that requires a feature flag set does not apply when the flag is missing, and one that
/// requires it unset does not apply when it is there: a rule applies only where every flag it
/// names is as it requires.
pub proof fn law_a_rule_needs_its_flags_as_required(
    rule: Rule,
    features: Seq<String>,
    platform: Platform,
    i: int,
)
    requires
        rule.features matches Some(required) && 0 <= i < required@.len(),
    ensures
        ({
            let (flag, wanted) = rule.features->0@[i];
            views(features).contains(flag@) != wanted ==> !rule_applies(rule, features, platform)
        }),
{
    let required = rule.features->0@;
    if views(features).contains(required[i].0@) != required[i].1 {
        assert(!features_hold(required, features));
    }
}

/// The demo rule of modern profiles, which allows an argument only for a demo user: with no
/// feature flags given, nothing is allowed.
pub proof fn law_a_flag_rule_admits_nothing_without_the_flag(
    rule: Rule,
    features: Seq<String>,
    platform: Platform,
    flag: String,
)
    requires
        rule.action == RuleAction::Allow,
        rule.os is None,
        rule.features matches Some(required) && required@ == seq![(flag, true)],
        !views(features).contains(flag@),
        platform.os != OperatingSystem::UNKNOWN,
    ensures
        check_condition_spec(seq![rule], features, platform) == Ok::<bool, LauncherError>(false),
{
    law_a_rule_needs_its_flags_as_required(rule, features, platform, 0);
    let rules = seq![rule];
    assert(rules.drop_last() =~= Seq::<Rule>::empty());
    assert(first_failure(rules.drop_last(), platform) is None);
    assert(!rule_fails(rule, platform));
    assert(first_failure(rules, platform) is None);
    assert(rules[0] == rule && rules.last() == rule);
    assert(rule.features->0@[0] == (flag, true));
    assert(!rule_applies(rule, features, platform));
    assert(allowed_spec(rules, features, platform) == allowed_spec(rules.drop_last(), features, platform));
    assert(!allowed_spec(rules, features, platform));
}

/// Whether no rule in `rules` has a pattern that does not compile.
pub open spec fn rules_compile(rules: Seq<Rule>, platform: Platform) -> bool {
    forall|i: int| 0 <= i < rules.len() ==> !rule_fails(#[trigger] rules[i], platform)
}

/// The first rule whose pattern does not compile.
pub open spec fn first_failure(rules: Seq<Rule>, platform: Platform) -> Option<int>
    decreases rules.len(),
{
    if rules.len() == 0 {
        None
    } else {
        match first_failure(rules.drop_last(), platform) {
            Some(i) => Some(i),
            None => if rule_fails(rules.last(), platform) {
                Some(rules.len() - 1)
            } else {
                None
            },
        }
    }
}

/// What `check_condition` answers: no rules admit everything; otherwise an unknown system, or
/// the first pattern that does not compile, is an error, and else the last rule that applies
/// decides.
pub open spec fn check_condition_spec(
    rules: Seq<Rule>,
    features: Seq<String>,
    platform: Platform,
) -> Result<bool, LauncherError> {
    if rules.len() == 0 {
        Ok(true)
    } else if platform.os == OperatingSystem::UNKNOWN {
        Err(LauncherError::UnknownOperatingSystem)
    } else {
        match first_failure(rules, platform) {
            Some(i) => Err(LauncherError::InvalidRegex(rules[i].os->0.version->0)),
            None => Ok(allowed_spec(rules, features, platform)),
        }
    }
}

pub proof fn lemma_first_failure(rules: Seq<Rule>, platform: Platform)
    ensures
        match first_failure(rules, platform) {
            Some(i) => 0 <= i < rules.len() && rule_fails(rules[i], platform) && rules_compile(
                rules.take(i),
                platform,
            ),
            None => rules_compile(rules, platform),
        },
    decreases rules.len(),
{
    if rules.len() > 0 {
        let front = rules.drop_last();
        lemma_first_failure(front, platform);
        assert forall|j: int| 0 <= j < front.len() implies #[trigger] rules[j] == front[j] by {}
        match first_failure(front, platform) {
            Some(i) => {
                assert(rules.take(i) =~= front.take(i));
            },
            None => {
                assert(rules.take(rules.len() - 1) =~= front);
            },
        }
    }
}

/// The first failure of a sequence whose prefix compiles and whose next rule fails is that rule.
proof fn lemma_first_failure_prefix(rules: Seq<Rule>, i: int, platform: Platform)
    requires
        0 <= i < rules.len(),
        rules_compile(rules.take(i), platform),
        rule_fails(rules[i], platform),
    ensures
        first_failure(rules, platform) == Some(i),
    decreases rules.len(),
{
    let front = rules.drop_last();
    if i < rules.len() - 1 {
        assert(front.take(i) =~= rules.take(i));
        assert(front[i] == rules[i]);
        lemma_first_failure_prefix(front, i, platform);
    } else {
        lemma_first_failure(front, platform);
        assert(front =~= rules.take(i));
        if first_failure(front, platform) is Some {
            let k = first_failure(front, platform)->0;
            assert(front[k] == rules.take(i)[k]);
        }
    }
}

fn features_match(required: &Vec<(String, bool)>, features: &Vec<String>) -> (r: bool)
    ensures
        r == features_hold(required@, features@),
        r ==> forall|i: int|
            0 <= i < required@.len() ==> views(features@).contains(#[trigger] required@[i].0@) == required@[i].1,
        !r ==> exists|i: int|
            0 <= i < required@.len() && views(features@).contains(#[trigger] required@[i].0@) != required@[i].1,
{
    let mut ok = true;
    let mut i: usize = 0;
    while i < required.len()
        invariant
            i <= required.len(),
            ok == features_hold(required@.take(i as int), features@),
        decreases required.len() - i,
    {
        let on = contains_string(features, &required[i].0);
        if on != required[i].1 {
            ok = false;
        }
        i = i + 1;
        assert(ok == features_hold(required@.take(i as int), features@)) by {
            let t = required@.take(i as int);
            if ok {
                assert forall|k: int| 0 <= k < t.len() implies views(features@).contains(
                    #[trigger] t[k].0@,
                ) == t[k].1 by {
                    if k < i - 1 {
                        assert(t[k] == required@.take(i - 1)[k]);
                    }
                }
            } else {
                if on != required@[i - 1].1 {
                    assert(t[i - 1] == required@[i - 1]);
                } else {
                    let p = required@.take(i - 1);
                    let k = choose|k: int| 0 <= k < p.len() && !(views(features@).contains(
                        #[trigger] p[k].0@,
                    ) == p[k].1);
                    assert(t[k] == p[k]);
                }
            }
        }
    }
    assert(required@.take(required@.len() as int) =~= required@);
    ok
}

/// Whether `rules` admit what they guard on `platform` with the feature flags `features`.
/// With no rules everything is admitted; otherwise the last rule that applies decides.
pub fn check_condition(rules: &Vec<Rule>, features: &Vec<String>, platform: &Platform) -> (r:
    Result<bool, LauncherError>)
    ensures
        r == check_condition_spec(rules@, features@, *platform),
{
    if rules.len() == 0 {
        return Ok(true);
    }
    if platform.os == OperatingSystem::UNKNOWN {
        return Err(LauncherError::UnknownOperatingSystem);
    }
    let os_name = platform.os.get_simple_name();
    let mut allow = false;
    let mut i: usize = 0;
    while i < rules.len()
        invariant
            i <= rules.len(),
            platform.os != OperatingSystem::UNKNOWN,
            os_name@ == platform.os.simple_name_spec(),
            allow == allowed_spec(rules@.take(i as int), features@, *platform),
            rules_compile(rules@.take(i as int), *platform),
        decreases rules.len() - i,
    {
        let rule = &rules[i];
        let mut applies = true;
        if let Some(os_rule) = &rule.os {
            if let Some(name) = &os_rule.name {
                if !str_eq(name.as_str(), os_name) {
                    applies = false;
                }
            }
            if let Some(arch) = &os_rule.arch {
                if *arch != platform.arch {
                    applies = false;
                }
            }
            if let Some(version) = &os_rule.version {
                match regex_search(version.as_str(), platform.os_version.as_str()) {
                    Some(found) => {
                        if !found {
                            applies = false;
                        }
                    },
                    None => {
                        let pattern = version.clone();
                        proof {
                            assert(rule_fails(rules@[i as int], *platform));
                            lemma_first_failure(rules@, *platform);
                            lemma_first_failure(rules@.take(i + 1), *platform);
                            assert(rules@.take(i + 1).drop_last() =~= rules@.take(i as int));
                            lemma_first_failure(rules@.take(i as int), *platform);
                            lemma_first_failure_prefix(rules@, i as int, *platform);
                        }
                        return Err(LauncherError::InvalidRegex(pattern));
                    },
                }
            }
        }
        if let Some(required) = &rule.features {
            if !features_match(required, features) {
                applies = false;
            }
        }
        proof {
            assert(applies == rule_applies(rules@[i as int], features@, *platform));
            assert(!rule_fails(rules@[i as int], *platform));
        }
        if applies {
            allow = match rule.action {
                RuleAction::Allow => true,
                RuleAction::Disallow => false,
            };
        }
        i = i + 1;
        proof {
            let t = rules@.take(i as int);
            assert(t.drop_last() =~= rules@.take(i - 1));
            assert(t.last() == rules@[i - 1]);
            assert forall|k: int| 0 <= k < t.len() implies !rule_fails(#[trigger] t[k], *platform) by {
                if k < i - 1 {
                    assert(t[k] == rules@.take(i - 1)[k]);
                }
            }
        }
    }
    assert(rules@.take(rules@.len() as int) =~= rules@);
    proof {
        lemma_first_failure(rules@, *platform);
        if first_failure(rules@, *platform) is Some {
            let k = first_failure(rules@, *platform)->0;
            assert(!rule_fails(rules@[k], *platform));
        }
    }
    Ok(allow)
}

} // verus!
