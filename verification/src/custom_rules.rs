//! S007: user-defined rules, each a regular expression matched line by line.
use vstd::prelude::*;
use crate::finding_codes::RuleSeverity;
use crate::patterns::{regex_error, regex_is_match, regex_matches, regex_new_error};
use crate::text::{concat, lines, lines_of, strings_view, trim, trim_str};
use crate::Analyzer;

verus! {

broadcast use vstd::std_specs::vec::group_vec_axioms, vstd::seq::group_seq_axioms;

/// A named regular expression whose matches are reported with a severity.
#[derive(Debug, Clone)]
pub struct CustomRule {
    pub name: String,
    pub pattern: String,
    pub severity: RuleSeverity,
}

/// A line of source matched by a custom rule.
#[derive(Debug, Clone)]
pub struct CustomRuleMatch {
    pub rule_name: String,
    /// 1-based line number.
    pub line: usize,
    /// The matched line without leading and trailing white space.
    pub snippet: String,
    pub severity: RuleSeverity,
}

/// A problem with a custom rule's definition.
#[derive(Debug, Clone)]
pub struct CustomRuleValidationError {
    pub rule_name: String,
    pub message: String,
}

impl CustomRuleValidationError {
    /// The error as one line of text, naming the rule.
    pub fn to_display_string(&self) -> (r: String)
        ensures
            r@ == "custom rule '"@ + self.rule_name@ + "': "@ + self.message@,
    {
        let a = concat("custom rule '", self.rule_name.as_str());
        let b = concat(a.as_str(), "': ");
        concat(b.as_str(), self.message.as_str())
    }
}

/// The problems with one rule's definition: an empty name, an empty pattern,
/// a pattern that does not compile.
pub open spec fn rule_problems(name: Seq<char>, pattern: Seq<char>) -> Seq<Seq<char>> {
    (if name.len() == 0 {
        seq!["rule name must not be empty"@]
    } else {
        Seq::<Seq<char>>::empty()
    }) + if pattern.len() == 0 {
        seq!["pattern must not be empty"@]
    } else {
        match regex_new_error(pattern) {
            Some(e) => seq!["invalid regex pattern '"@ + pattern + "': "@ + e],
            None => Seq::<Seq<char>>::empty(),
        }
    }
}

/// The validation errors (rule name, message) of a sequence of rules, in order.
pub open spec fn validation_errors(rules: Seq<CustomRule>) -> Seq<(Seq<char>, Seq<char>)>
    decreases rules.len(),
{
    if rules.len() == 0 {
        seq![]
    } else {
        let r = rules.last();
        validation_errors(rules.drop_last()) + rule_problems(r.name@, r.pattern@).map_values(
            |m: Seq<char>| (r.name@, m),
        )
    }
}

/// The plain values of a validation error.
pub open spec fn error_view(e: CustomRuleValidationError) -> (Seq<char>, Seq<char>) {
    (e.rule_name@, e.message@)
}

/// The matches of one compiled rule on the first `n` lines.
pub open spec fn rule_line_matches(
    rule: CustomRule,
    ls: Seq<Seq<char>>,
    n: nat,
) -> Seq<(Seq<char>, nat, Seq<char>, RuleSeverity)>
    decreases n,
{
    if n == 0 {
        seq![]
    } else {
        let i = (n - 1) as int;
        rule_line_matches(rule, ls, (n - 1) as nat) + if regex_is_match(rule.pattern@, ls[i]) {
            seq![(rule.name@, n, trim(ls[i]), rule.severity)]
        } else {
            Seq::<(Seq<char>, nat, Seq<char>, RuleSeverity)>::empty()
        }
    }
}

/// The matches of a sequence of rules on the lines `ls`: rule by rule, line
/// by line; rules whose pattern does not compile match nothing.
pub open spec fn rules_matches(
    rules: Seq<CustomRule>,
    ls: Seq<Seq<char>>,
) -> Seq<(Seq<char>, nat, Seq<char>, RuleSeverity)>
    decreases rules.len(),
{
    if rules.len() == 0 {
        seq![]
    } else {
        let r = rules.last();
        rules_matches(rules.drop_last(), ls) + if regex_new_error(r.pattern@) is None {
            rule_line_matches(r, ls, ls.len())
        } else {
            Seq::<(Seq<char>, nat, Seq<char>, RuleSeverity)>::empty()
        }
    }
}

/// The plain values of a match.
pub open spec fn match_view(m: CustomRuleMatch) -> (Seq<char>, nat, Seq<char>, RuleSeverity) {
    (m.rule_name@, m.line as nat, m.snippet@, m.severity)
}

fn push_problem(out: &mut Vec<CustomRuleValidationError>, name: &String, message: String)
    ensures
        final(out)@.map_values(|e: CustomRuleValidationError| error_view(e)) == old(out)@.map_values(
            |e: CustomRuleValidationError| error_view(e),
        ).push((name@, message@)),
{
    out.push(CustomRuleValidationError { rule_name: name.clone(), message });
    assert(out@.map_values(|e: CustomRuleValidationError| error_view(e)) =~= old(out)@.map_values(
        |e: CustomRuleValidationError| error_view(e),
    ).push((name@, message@)));
}

impl Analyzer {
    /// The problems with the rules' definitions, in rule order.
    pub fn validate_custom_rules(&self, rules: &[CustomRule]) -> (r: Vec<CustomRuleValidationError>)
        ensures
            r@.map_values(|e: CustomRuleValidationError| error_view(e)) == validation_errors(rules@),
    {
        let mut out: Vec<CustomRuleValidationError> = Vec::new();
        let mut i: usize = 0;
        while i < rules.len()
            invariant
                i <= rules@.len(),
                out@.map_values(|e: CustomRuleValidationError| error_view(e)) == validation_errors(
                    rules@.take(i as int),
                ),
            decreases rules.len() - i,
        {
            assert(rules@.take(i + 1).drop_last() =~= rules@.take(i as int));
            assert(rules@.take(i + 1).last() == rules@[i as int]);
            let rule = &rules[i];
            let ghost before = out@.map_values(|e: CustomRuleValidationError| error_view(e));
            if rule.name.as_str().is_empty() {
                push_problem(&mut out, &rule.name, "rule name must not be empty".to_owned());
            }
            if rule.pattern.as_str().is_empty() {
                push_problem(&mut out, &rule.name, "pattern must not be empty".to_owned());
            } else {
                match regex_error(rule.pattern.as_str()) {
                    Some(e) => {
                        let a = concat("invalid regex pattern '", rule.pattern.as_str());
                        let b = concat(a.as_str(), "': ");
                        let m = concat(b.as_str(), e.as_str());
                        push_problem(&mut out, &rule.name, m);
                    },
                    None => {},
                }
            }
            assert(out@.map_values(|e: CustomRuleValidationError| error_view(e)) =~= before
                + rule_problems(rule.name@, rule.pattern@).map_values(|m: Seq<char>| (rule.name@, m)));
            i = i + 1;
        }
        assert(rules@.take(rules@.len() as int) =~= rules@);
        out
    }

    /// Every line of `source` matched by every rule whose pattern compiles:
    /// rule by rule, and line by line within a rule.
    pub fn analyze_custom_rules(&self, source: &str, rules: &[CustomRule]) -> (r: Vec<CustomRuleMatch>)
        ensures
            r@.map_values(|m: CustomRuleMatch| match_view(m)) == rules_matches(rules@, lines_of(source@)),
    {
        let ls = lines(source);
        let ghost lv = lines_of(source@);
        let mut out: Vec<CustomRuleMatch> = Vec::new();
        let mut i: usize = 0;
        while i < rules.len()
            invariant
                i <= rules@.len(),
                strings_view(ls@) == lv,
                out@.map_values(|m: CustomRuleMatch| match_view(m)) == rules_matches(rules@.take(i as int), lv),
            decreases rules.len() - i,
        {
            assert(rules@.take(i + 1).drop_last() =~= rules@.take(i as int));
            assert(rules@.take(i + 1).last() == rules@[i as int]);
            let rule = &rules[i];
            let ghost start = out@.map_values(|m: CustomRuleMatch| match_view(m));
            match regex_error(rule.pattern.as_str()) {
                Some(_) => {},
                None => {
                    let mut k: usize = 0;
                    while k < ls.len()
                        invariant
                            k <= ls@.len(),
                            strings_view(ls@) == lv,
                            regex_new_error(rule.pattern@) is None,
                            out@.map_values(|m: CustomRuleMatch| match_view(m)) == start + rule_line_matches(
                                *rule,
                                lv,
                                k as nat,
                            ),
                        decreases ls.len() - k,
                    {
                        assert(lv[k as int] == ls@[k as int]@);
                        if regex_matches(rule.pattern.as_str(), ls[k].as_str()) {
                            let ghost before = out@.map_values(|m: CustomRuleMatch| match_view(m));
                            out.push(CustomRuleMatch {
                                rule_name: rule.name.clone(),
                                line: k + 1,
                                snippet: trim_str(ls[k].as_str()),
                                severity: rule.severity,
                            });
                            assert(out@.map_values(|m: CustomRuleMatch| match_view(m)) =~= before.push(
                                (rule.name@, (k + 1) as nat, trim(lv[k as int]), rule.severity),
                            ));
                        }
                        k = k + 1;
                    }
                    assert(lv.len() == ls@.len());
                },
            }
            i = i + 1;
        }
        assert(rules@.take(rules@.len() as int) =~= rules@);
        out
    }
}

} // verus!
