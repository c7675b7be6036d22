//! S003: unchecked arithmetic that can overflow, underflow or divide by zero.
//!
//! Flags, inside functions, the binary operators `+ - * / %` and their
//! compound assignments, the methods `mul_div`, `div_ceil`,
//! `fixed_point_mul`, `fixed_point_div`, and calls of the functions
//! `mul_div`, `fixed_point_mul`, `fixed_point_div`.  Skips `#[test]`
//! functions and everything in `#[cfg(test)]` modules, binary operators in an
//! index subscript (`buf[i + 1]`) and operators with a string-literal operand.
//! At most one finding is reported per (function, operation) pair: the first
//! one met in source order.
use vstd::prelude::*;
use crate::bridge::{parse_file, spec_parse_file};
use crate::events::{file_events, file_events_exec, Event};
use crate::rules::{opt_chars, violations_view, Rule, RuleViolation, Severity, ViolationView};
use crate::syntax::{AstBinOp, AstFile};
use crate::seqs::lemma_map_values_eq;
use crate::text::{concat, decimal, text_eq, usize_to_string};
use crate::ArithmeticIssue;

verus! {

/// S003 rule object.
pub struct ArithmeticOverflowRule;

/// An operation the rule would flag, before duplicates are dropped.
pub struct ArithCandidate {
    pub function: Seq<char>,
    pub operation: Seq<char>,
    pub suggestion: Seq<char>,
    pub line: usize,
}

/// What the walk over a file's events keeps track of.
pub struct ArithState {
    /// The enclosing function, if any.
    pub current: Option<Seq<char>>,
    /// The functions to return to when leaving the current one.
    pub stack: Seq<Option<Seq<char>>>,
    /// Nesting depth inside a skipped (test) function; 0 when not skipping.
    pub skip: nat,
    /// Nesting depth of index subscripts.
    pub index_depth: nat,
    /// Nesting depth of `#[cfg(test)]` modules.
    pub test_mod_depth: nat,
    /// The operations flagged so far, in order.
    pub cands: Seq<ArithCandidate>,
}

/// The operator text and suggestion for a binary operator the rule flags.
pub open spec fn op_info(op: AstBinOp) -> Option<(Seq<char>, Seq<char>)> {
    match op {
        AstBinOp::Add => Some(("+"@, "Use .checked_add(rhs) or .saturating_add(rhs) to handle overflow"@)),
        AstBinOp::Sub => Some(("-"@, "Use .checked_sub(rhs) or .saturating_sub(rhs) to handle underflow"@)),
        AstBinOp::Mul => Some(("*"@, "Use .checked_mul(rhs) or .saturating_mul(rhs) to handle overflow"@)),
        AstBinOp::Div => Some(("/"@, "Use .checked_div(rhs) to avoid division-by-zero panic"@)),
        AstBinOp::Rem => Some(("%"@, "Use .checked_rem(rhs) to avoid modulo-by-zero panic"@)),
        AstBinOp::AddAssign => Some(("+="@, "Replace a += b with a = a.checked_add(b).expect(\"overflow\")"@)),
        AstBinOp::SubAssign => Some(("-="@, "Replace a -= b with a = a.checked_sub(b).expect(\"underflow\")"@)),
        AstBinOp::MulAssign => Some(("*="@, "Replace a *= b with a = a.checked_mul(b).expect(\"overflow\")"@)),
        AstBinOp::DivAssign => Some(("/="@, "Replace a /= b with a = a.checked_div(b).expect(\"division by zero\")"@)),
        AstBinOp::RemAssign => Some(("%="@, "Replace a %= b with a = a.checked_rem(b).expect(\"modulo by zero\")"@)),
        _ => None,
    }
}

/// The suggestion for a custom math method the rule flags.
pub open spec fn math_method_suggestion(m: Seq<char>) -> Option<Seq<char>> {
    if m == "mul_div"@ {
        Some("Use '.checked_mul_div()' to handle potential overflow"@)
    } else if m == "div_ceil"@ {
        Some("Consider '.checked_div()' if boundary verification is required"@)
    } else if m == "fixed_point_mul"@ {
        Some("Use '.checked_fixed_point_mul()' for safety"@)
    } else if m == "fixed_point_div"@ {
        Some("Use '.checked_fixed_point_div()' for safety"@)
    } else {
        None
    }
}

/// The suggestion for a custom math function the rule flags.
pub open spec fn math_call_suggestion(f: Seq<char>) -> Option<Seq<char>> {
    if f == "mul_div"@ {
        Some("Use 'checked_mul_div' to handle potential overflow"@)
    } else if f == "fixed_point_mul"@ {
        Some("Use 'checked_fixed_point_mul' for safety"@)
    } else if f == "fixed_point_div"@ {
        Some("Use 'checked_fixed_point_div' for safety"@)
    } else {
        None
    }
}

/// `n - 1`, stopping at 0.
pub open spec fn dec(n: nat) -> nat {
    if n == 0 { 0 } else { (n - 1) as nat }
}

/// One step of the walk.
pub open spec fn arith_step(st: ArithState, ev: Event) -> ArithState {
    if st.skip > 0 {
        match ev {
            Event::EnterFn { .. } => ArithState { skip: st.skip + 1, ..st },
            Event::ExitFn => ArithState { skip: dec(st.skip), ..st },
            _ => st,
        }
    } else {
        match ev {
            Event::EnterFn { name, is_test } => if st.test_mod_depth > 0 || is_test {
                ArithState { skip: 1, ..st }
            } else {
                ArithState { current: Some(name@), stack: st.stack.push(st.current), ..st }
            },
            Event::ExitFn => if st.stack.len() > 0 {
                ArithState { current: st.stack.last(), stack: st.stack.drop_last(), ..st }
            } else {
                ArithState { current: None, ..st }
            },
            Event::EnterMod { is_cfg_test } => if is_cfg_test {
                ArithState { test_mod_depth: st.test_mod_depth + 1, ..st }
            } else {
                st
            },
            Event::ExitMod { is_cfg_test } => if is_cfg_test {
                ArithState { test_mod_depth: dec(st.test_mod_depth), ..st }
            } else {
                st
            },
            Event::EnterIndex => ArithState { index_depth: st.index_depth + 1, ..st },
            Event::ExitIndex => ArithState { index_depth: dec(st.index_depth), ..st },
            Event::Binary { op, left_is_str, right_is_str, line } => match (st.current, op_info(op)) {
                (Some(f), Some(info)) => if st.index_depth == 0 && !left_is_str && !right_is_str {
                    ArithState {
                        cands: st.cands.push(
                            ArithCandidate { function: f, operation: info.0, suggestion: info.1, line },
                        ),
                        ..st
                    }
                } else {
                    st
                },
                _ => st,
            },
            Event::MethodCall { method, line, .. } => match (
                st.current,
                math_method_suggestion(method@),
            ) {
                (Some(f), Some(s)) => ArithState {
                    cands: st.cands.push(
                        ArithCandidate { function: f, operation: method@, suggestion: s, line },
                    ),
                    ..st
                },
                _ => st,
            },
            Event::Call { func: Some(name), line } => match (
                st.current,
                math_call_suggestion(name@),
            ) {
                (Some(f), Some(s)) => ArithState {
                    cands: st.cands.push(
                        ArithCandidate { function: f, operation: name@, suggestion: s, line },
                    ),
                    ..st
                },
                _ => st,
            },
            _ => st,
        }
    }
}

/// The state before any event.
pub open spec fn arith_start() -> ArithState {
    ArithState {
        current: None,
        stack: seq![],
        skip: 0,
        index_depth: 0,
        test_mod_depth: 0,
        cands: seq![],
    }
}

/// The state after walking `evs`.
pub open spec fn arith_walk(evs: Seq<Event>) -> ArithState
    decreases evs.len(),
{
    if evs.len() == 0 {
        arith_start()
    } else {
        arith_step(arith_walk(evs.drop_last()), evs.last())
    }
}

/// The (function, operation) pair by which findings are deduplicated.
pub open spec fn cand_key(c: ArithCandidate) -> (Seq<char>, Seq<char>) {
    (c.function, c.operation)
}

/// Whether some candidate in `cs` has key `k`.
pub open spec fn has_key(cs: Seq<ArithCandidate>, k: (Seq<char>, Seq<char>)) -> bool {
    exists|j: int| 0 <= j < cs.len() && cand_key(#[trigger] cs[j]) == k
}

/// The candidates with every repeated (function, operation) pair dropped
/// after its first occurrence.
pub open spec fn dedup(cs: Seq<ArithCandidate>) -> Seq<ArithCandidate>
    decreases cs.len(),
{
    if cs.len() == 0 {
        seq![]
    } else {
        let d = dedup(cs.drop_last());
        if has_key(d, cand_key(cs.last())) {
            d
        } else {
            d.push(cs.last())
        }
    }
}

/// An issue's location: the function name, a colon and the line.
pub open spec fn cand_location(c: ArithCandidate) -> Seq<char> {
    c.function + ":"@ + decimal(c.line as nat)
}

/// The plain values of an issue: function, operation, suggestion, location.
pub open spec fn issue_view(i: ArithmeticIssue) -> (Seq<char>, Seq<char>, Seq<char>, Seq<char>) {
    (i.function_name@, i.operation@, i.suggestion@, i.location@)
}

/// The issue a candidate becomes.
pub open spec fn cand_issue(c: ArithCandidate) -> (Seq<char>, Seq<char>, Seq<char>, Seq<char>) {
    (c.function, c.operation, c.suggestion, cand_location(c))
}

/// The issues the rule finds in a file.
pub open spec fn file_arith_issues(f: AstFile) -> Seq<(Seq<char>, Seq<char>, Seq<char>, Seq<char>)> {
    dedup(arith_walk(file_events(f)).cands).map_values(|c: ArithCandidate| cand_issue(c))
}

/// The violation an issue becomes.
pub open spec fn arith_violation(i: (Seq<char>, Seq<char>, Seq<char>, Seq<char>)) -> ViolationView {
    (
        "arithmetic_overflow"@,
        Severity::Warning,
        "Unchecked '"@ + i.1 + "' operation could overflow"@,
        i.3,
        Some(i.2),
    )
}

/// The violations the rule reports on a file.
pub open spec fn file_arith_violations(f: AstFile) -> Seq<ViolationView> {
    file_arith_issues(f).map_values(|i: (Seq<char>, Seq<char>, Seq<char>, Seq<char>)| arith_violation(i))
}

// ── Laws ────────────────────────────────────────────────────────────────────

/// Deduplication keeps at most one finding per (function, operation) pair.
pub proof fn lemma_dedup_unique(cs: Seq<ArithCandidate>)
    ensures
        forall|i: int, j: int|
            0 <= i < j < dedup(cs).len() ==> cand_key(#[trigger] dedup(cs)[i]) != cand_key(
                #[trigger] dedup(cs)[j],
            ),
    decreases cs.len(),
{
    if cs.len() > 0 {
        let p = cs.drop_last();
        lemma_dedup_unique(p);
        let d = dedup(p);
        if !has_key(d, cand_key(cs.last())) {
            let e = d.push(cs.last());
            assert forall|i: int, j: int| 0 <= i < j < e.len() implies cand_key(#[trigger] e[i])
                != cand_key(#[trigger] e[j]) by {
                if j == d.len() {
                    assert(e[i] == d[i]);
                } else {
                    assert(e[i] == d[i] && e[j] == d[j]);
                }
            }
        }
    }
}

/// Every deduplicated finding is one of the candidates, and every candidate's
/// (function, operation) pair is represented.
pub proof fn lemma_dedup_covers(cs: Seq<ArithCandidate>)
    ensures
        forall|i: int| 0 <= i < dedup(cs).len() ==> cs.contains(#[trigger] dedup(cs)[i]),
        forall|i: int| 0 <= i < cs.len() ==> has_key(dedup(cs), cand_key(#[trigger] cs[i])),
    decreases cs.len(),
{
    if cs.len() > 0 {
        let p = cs.drop_last();
        lemma_dedup_covers(p);
        assert forall|i: int| 0 <= i < dedup(cs).len() implies cs.contains(#[trigger] dedup(cs)[i]) by {
            if i < dedup(p).len() {
                let k = choose|k: int| 0 <= k < p.len() && p[k] == dedup(p)[i];
                assert(cs[k] == p[k]);
            } else {
                assert(cs[cs.len() - 1] == cs.last());
            }
        }
        assert forall|i: int| 0 <= i < cs.len() implies has_key(dedup(cs), cand_key(#[trigger] cs[i])) by {
            if i < p.len() {
                assert(p[i] == cs[i]);
                let j = choose|j: int| 0 <= j < dedup(p).len() && cand_key(#[trigger] dedup(p)[j]) == cand_key(p[i]);
                assert(dedup(cs)[j] == dedup(p)[j]);
            } else if !has_key(dedup(p), cand_key(cs.last())) {
                assert(dedup(cs)[dedup(p).len() as int] == cs.last());
            }
        }
    }
}

/// The rule reports at most one finding per (function, operation) pair.
pub proof fn law_one_finding_per_function_and_operation(f: AstFile)
    ensures
        forall|i: int, j: int|
            0 <= i < j < file_arith_issues(f).len() ==> (#[trigger] file_arith_issues(f)[i]).0 != (
            #[trigger] file_arith_issues(f)[j]).0 || file_arith_issues(f)[i].1
                != file_arith_issues(f)[j].1,
{
    let cs = arith_walk(file_events(f)).cands;
    lemma_dedup_unique(cs);
    assert forall|i: int, j: int|
        0 <= i < j < file_arith_issues(f).len() implies (#[trigger] file_arith_issues(f)[i]).0 != (
        #[trigger] file_arith_issues(f)[j]).0 || file_arith_issues(f)[i].1
            != file_arith_issues(f)[j].1 by {
        assert(cand_key(dedup(cs)[i]) != cand_key(dedup(cs)[j]));
    }
}

// ── Implementation ──────────────────────────────────────────────────────────

fn classify_op(op: AstBinOp) -> (r: Option<(&'static str, &'static str)>)
    ensures
        r is None <==> op_info(op) is None,
        r matches Some(p) ==> op_info(op) == Some((p.0@, p.1@)),
{
    match op {
        AstBinOp::Add => Some(("+", "Use .checked_add(rhs) or .saturating_add(rhs) to handle overflow")),
        AstBinOp::Sub => Some(("-", "Use .checked_sub(rhs) or .saturating_sub(rhs) to handle underflow")),
        AstBinOp::Mul => Some(("*", "Use .checked_mul(rhs) or .saturating_mul(rhs) to handle overflow")),
        AstBinOp::Div => Some(("/", "Use .checked_div(rhs) to avoid division-by-zero panic")),
        AstBinOp::Rem => Some(("%", "Use .checked_rem(rhs) to avoid modulo-by-zero panic")),
        AstBinOp::AddAssign => Some(("+=", "Replace a += b with a = a.checked_add(b).expect(\"overflow\")")),
        AstBinOp::SubAssign => Some(("-=", "Replace a -= b with a = a.checked_sub(b).expect(\"underflow\")")),
        AstBinOp::MulAssign => Some(("*=", "Replace a *= b with a = a.checked_mul(b).expect(\"overflow\")")),
        AstBinOp::DivAssign => Some(("/=", "Replace a /= b with a = a.checked_div(b).expect(\"division by zero\")")),
        AstBinOp::RemAssign => Some(("%=", "Replace a %= b with a = a.checked_rem(b).expect(\"modulo by zero\")")),
        _ => None,
    }
}

/// The suggestion for a custom math method the rule flags (`mul_div`,
/// `div_ceil`, `fixed_point_mul`, `fixed_point_div`), else `None`.
pub fn classify_math_method(method: &str) -> (r: Option<String>)
    ensures
        opt_chars(r) == math_method_suggestion(method@),
{
    if text_eq(method, "mul_div") {
        Some("Use '.checked_mul_div()' to handle potential overflow".to_owned())
    } else if text_eq(method, "div_ceil") {
        Some("Consider '.checked_div()' if boundary verification is required".to_owned())
    } else if text_eq(method, "fixed_point_mul") {
        Some("Use '.checked_fixed_point_mul()' for safety".to_owned())
    } else if text_eq(method, "fixed_point_div") {
        Some("Use '.checked_fixed_point_div()' for safety".to_owned())
    } else {
        None
    }
}

/// The suggestion for a custom math function the rule flags (`mul_div`,
/// `fixed_point_mul`, `fixed_point_div`), else `None`.
pub fn classify_math_call(func: &str) -> (r: Option<String>)
    ensures
        opt_chars(r) == math_call_suggestion(func@),
{
    if text_eq(func, "mul_div") {
        Some("Use 'checked_mul_div' to handle potential overflow".to_owned())
    } else if text_eq(func, "fixed_point_mul") {
        Some("Use 'checked_fixed_point_mul' for safety".to_owned())
    } else if text_eq(func, "fixed_point_div") {
        Some("Use 'checked_fixed_point_div' for safety".to_owned())
    } else {
        None
    }
}

/// The characters of an optional string.
pub open spec fn opt_view(o: Option<String>) -> Option<Seq<char>> {
    opt_chars(o)
}

/// Adds the finding for `(function, operation)` unless that pair was already reported.
fn record(
    issues: &mut Vec<ArithmeticIssue>,
    function: &String,
    operation: String,
    suggestion: String,
    line: usize,
    Ghost(cands): Ghost<Seq<ArithCandidate>>,
)
    requires
        old(issues)@.map_values(|i: ArithmeticIssue| issue_view(i)) == dedup(cands).map_values(
            |c: ArithCandidate| cand_issue(c),
        ),
    ensures
        final(issues)@.map_values(|i: ArithmeticIssue| issue_view(i)) == dedup(
            cands.push(
                ArithCandidate {
                    function: function@,
                    operation: operation@,
                    suggestion: suggestion@,
                    line,
                },
            ),
        ).map_values(|c: ArithCandidate| cand_issue(c)),
{
    let ghost c = ArithCandidate {
        function: function@,
        operation: operation@,
        suggestion: suggestion@,
        line,
    };
    let ghost d = dedup(cands);
    assert(cands.push(c).drop_last() =~= cands);
    proof {
        lemma_map_values_eq(issues@, d, |i: ArithmeticIssue| issue_view(i), |c: ArithCandidate| cand_issue(c));
    }
    let mut k: usize = 0;
    while k < issues.len()
        invariant
            k <= issues@.len(),
            issues@ == old(issues)@,
            c.function == function@,
            c.operation == operation@,
            c == (ArithCandidate { function: function@, operation: operation@, suggestion: suggestion@, line }),
            d == dedup(cands),
            cands.push(c).drop_last() == cands,
            cands.push(c).last() == c,
            issues@.map_values(|i: ArithmeticIssue| issue_view(i)) == d.map_values(
                |c: ArithCandidate| cand_issue(c),
            ),
            issues@.len() == d.len(),
            forall|j: int| 0 <= j < d.len() ==> issue_view(#[trigger] issues@[j]) == cand_issue(d[j]),
            forall|j: int| 0 <= j < k ==> cand_key(#[trigger] d[j]) != cand_key(c),
        decreases issues.len() - k,
    {
        assert(issue_view(issues@[k as int]) == cand_issue(d[k as int]));
        if text_eq(issues[k].function_name.as_str(), function.as_str()) && text_eq(
            issues[k].operation.as_str(),
            operation.as_str(),
        ) {
            assert(cand_key(d[k as int]) == cand_key(c));
            assert(has_key(d, cand_key(c)));
            return;
        }
        k = k + 1;
    }
    assert(issues@.len() == d.len());
    assert(!has_key(d, cand_key(c)));
    let with_colon = concat(function.as_str(), ":");
    let location = concat(with_colon.as_str(), usize_to_string(line).as_str());
    let issue = ArithmeticIssue {
        function_name: function.clone(),
        operation,
        suggestion,
        location,
    };
    issues.push(issue);
    proof {
        lemma_map_values_eq(issues@, d.push(c), |i: ArithmeticIssue| issue_view(i), |c: ArithCandidate| cand_issue(c));
        assert(cands.push(c).last() == c);
    }
}

/// The characters of the optional strings on the stack.
pub open spec fn stack_view(s: Seq<Option<String>>) -> Seq<Option<Seq<char>>> {
    s.map_values(|o: Option<String>| opt_chars(o))
}

/// The issues the rule finds in `file`, in source order.
pub fn arith_issues(file: &AstFile) -> (r: Vec<ArithmeticIssue>)
    ensures
        r@.map_values(|i: ArithmeticIssue| issue_view(i)) == file_arith_issues(*file),
{
    let events = file_events_exec(file);
    let ghost evs = file_events(*file);
    let mut current: Option<String> = None;
    let mut stack: Vec<Option<String>> = Vec::new();
    let mut skip: usize = 0;
    let mut index_depth: usize = 0;
    let mut test_mod_depth: usize = 0;
    let mut issues: Vec<ArithmeticIssue> = Vec::new();
    let mut i: usize = 0;
    assert(issues@.map_values(|i: ArithmeticIssue| issue_view(i)) =~= dedup(
        arith_walk(evs.take(0)).cands,
    ).map_values(|c: ArithCandidate| cand_issue(c)));
    while i < events.len()
        invariant
            events@ == evs,
            i <= events@.len(),
            skip <= i,
            index_depth <= i,
            test_mod_depth <= i,
            ({
                let st = arith_walk(evs.take(i as int));
                &&& opt_chars(current) == st.current
                &&& stack_view(stack@) == st.stack
                &&& skip == st.skip
                &&& index_depth == st.index_depth
                &&& test_mod_depth == st.test_mod_depth
                &&& issues@.map_values(|i: ArithmeticIssue| issue_view(i)) == dedup(st.cands).map_values(
                    |c: ArithCandidate| cand_issue(c),
                )
            }),
        decreases events.len() - i,
    {
        let ghost st = arith_walk(evs.take(i as int));
        assert(evs.take(i + 1).drop_last() =~= evs.take(i as int));
        assert(evs.take(i + 1).last() == evs[i as int]);
        let ev = &events[i];
        if skip > 0 {
            match ev {
                Event::EnterFn { .. } => {
                    skip = skip + 1;
                },
                Event::ExitFn => {
                    skip = skip - 1;
                },
                _ => {},
            }
        } else {
            match ev {
                Event::EnterFn { name, is_test } => {
                    if test_mod_depth > 0 || *is_test {
                        skip = 1;
                    } else {
                        let prev = current;
                        stack.push(prev);
                        current = Some(name.clone());
                        assert(stack_view(stack@) =~= st.stack.push(st.current));
                    }
                },
                Event::ExitFn => {
                    match stack.pop() {
                        Some(prev) => {
                            current = prev;
                            assert(stack_view(stack@) =~= st.stack.drop_last());
                        },
                        None => {
                            current = None;
                        },
                    }
                },
                Event::EnterMod { is_cfg_test } => {
                    if *is_cfg_test {
                        test_mod_depth = test_mod_depth + 1;
                    }
                },
                Event::ExitMod { is_cfg_test } => {
                    if *is_cfg_test && test_mod_depth > 0 {
                        test_mod_depth = test_mod_depth - 1;
                    }
                },
                Event::EnterIndex => {
                    index_depth = index_depth + 1;
                },
                Event::ExitIndex => {
                    if index_depth > 0 {
                        index_depth = index_depth - 1;
                    }
                },
                Event::Binary { op, left_is_str, right_is_str, line } => {
                    match &current {
                        Some(f) => {
                            if let Some((op_str, suggestion)) = classify_op(*op) {
                                if index_depth == 0 && !*left_is_str && !*right_is_str {
                                    record(
                                        &mut issues,
                                        f,
                                        op_str.to_owned(),
                                        suggestion.to_owned(),
                                        *line,
                                        Ghost(st.cands),
                                    );
                                }
                            }
                        },
                        None => {},
                    }
                },
                Event::MethodCall { method, line, .. } => {
                    match &current {
                        Some(f) => {
                            if let Some(suggestion) = classify_math_method(method.as_str()) {
                                record(&mut issues, f, method.clone(), suggestion, *line, Ghost(st.cands));
                            }
                        },
                        None => {},
                    }
                },
                Event::Call { func, line } => {
                    match (&current, func) {
                        (Some(f), Some(name)) => {
                            if let Some(suggestion) = classify_math_call(name.as_str()) {
                                record(&mut issues, f, name.clone(), suggestion, *line, Ghost(st.cands));
                            }
                        },
                        _ => {},
                    }
                },
                _ => {},
            }
        }
        i = i + 1;
    }
    assert(evs.take(evs.len() as int) =~= evs);
    issues
}

impl ArithmeticOverflowRule {
    /// A new instance of the rule.
    pub fn new() -> (r: Self)
        ensures
            r == ArithmeticOverflowRule,
    {
        ArithmeticOverflowRule
    }

    /// The violations the rule reports on a parsed file.
    pub fn check_file(&self, file: &AstFile) -> (r: Vec<RuleViolation>)
        ensures
            violations_view(r@) == file_arith_violations(*file),
    {
        let issues = arith_issues(file);
        let ghost iv = issues@.map_values(|i: ArithmeticIssue| issue_view(i));
        let mut out: Vec<RuleViolation> = Vec::new();
        let mut k: usize = 0;
        while k < issues.len()
            invariant
                k <= issues@.len(),
                iv == issues@.map_values(|i: ArithmeticIssue| issue_view(i)),
                iv == file_arith_issues(*file),
                out@.len() == k,
                forall|j: int| 0 <= j < k ==> (#[trigger] out@[j]).view_of() == arith_violation(iv[j]),
            decreases issues.len() - k,
        {
            let issue = &issues[k];
            let m1 = concat("Unchecked '", issue.operation.as_str());
            let message = concat(m1.as_str(), "' operation could overflow");
            let v = RuleViolation::new("arithmetic_overflow", Severity::Warning, message, issue.location.clone())
                .with_suggestion(issue.suggestion.clone());
            out.push(v);
            assert(iv[k as int] == issue_view(issues@[k as int]));
            k = k + 1;
        }
        proof {
            lemma_map_values_eq(
                out@,
                iv,
                |x: RuleViolation| x.view_of(),
                |i: (Seq<char>, Seq<char>, Seq<char>, Seq<char>)| arith_violation(i),
            );
        }
        out
    }
}

impl Default for ArithmeticOverflowRule {
    fn default() -> (r: Self)
        ensures
            r == ArithmeticOverflowRule,
    {
        ArithmeticOverflowRule::new()
    }
}

impl Rule for ArithmeticOverflowRule {
    fn name(&self) -> (r: &str)
        ensures
            r@ == "arithmetic_overflow"@,
    {
        "arithmetic_overflow"
    }

    fn description(&self) -> (r: &str)
        ensures
            r@ == "Detects unchecked arithmetic operations that could overflow or underflow"@,
    {
        "Detects unchecked arithmetic operations that could overflow or underflow"
    }

    /// The violations the rule reports on `source`; none when `syn` rejects it.
    fn check(&self, source: &str) -> (r: Vec<RuleViolation>)
        ensures
            match spec_parse_file(source@) {
                Some(f) => violations_view(r@) == file_arith_violations(f),
                None => r@.len() == 0,
            },
    {
        match parse_file(source) {
            Ok(file) => self.check_file(&file),
            Err(_) => Vec::new(),
        }
    }
}

} // verus!
