//! S012: SEP-41 token-interface compliance.
//!
//! SEP-41 (the Stellar token standard) fixes ten functions: the core
//! `allowance`, `approve`, `balance`, `transfer`, `transfer_from`, `burn`,
//! `burn_from`, and the metadata `decimals`, `name`, `symbol`.  A contract
//! is a *candidate* when its public methods include at least two core
//! functions, or one core and two metadata functions.  For a candidate, each
//! of the ten functions is checked in turn: present, then with the exact
//! parameter and return types (`transfer` takes a `MuxedAddress` recipient),
//! then, where the function moves or approves funds, authorizing the right
//! parameter with `require_auth`/`require_auth_for_args`.  Each function
//! yields at most one issue, the first check it fails.
use vstd::prelude::*;
use crate::bridge::{parse_file, spec_parse_file};
use crate::events::{block_events, block_events_exec, Event};
use crate::finding_codes::FindingSeverity;
use crate::syntax::{AstBlock, AstFile, AstFnArg, AstImplItem, AstItem, AstPat, AstSignature, AstType};
use crate::text::{
    concat, lemma_sort_strings, simplify_tokens, simplify_tokens_exec, sort_string_vec, sort_strings,
    strings_ascending, strings_view, text_eq,
};

verus! {

broadcast use vstd::std_specs::vec::group_vec_axioms, vstd::seq::group_seq_axioms;

/// What kind of SEP-41 violation an issue reports.
#[derive(Debug, Clone, Copy, PartialEq, Eq, Structural)]
#[non_exhaustive]
pub enum Sep41IssueKind {
    MissingFunction,
    SignatureMismatch,
    AuthorizationMismatch,
}

/// A SEP-41 violation.
#[derive(Debug, Clone)]
pub struct Sep41Issue {
    pub function_name: String,
    pub kind: Sep41IssueKind,
    pub location: String,
    pub message: String,
    pub expected_signature: String,
    pub actual_signature: Option<String>,
}

impl Sep41Issue {
    /// Every SEP-41 issue is critical.
    pub fn severity(&self) -> (r: FindingSeverity)
        ensures
            r == FindingSeverity::Critical,
    {
        FindingSeverity::Critical
    }
}

/// The outcome of a SEP-41 check.
#[derive(Debug, Clone)]
pub struct Sep41VerificationReport {
    pub candidate: bool,
    pub compliant: bool,
    /// The functions that passed every check, in ascending order.
    pub verified_functions: Vec<String>,
    pub issues: Vec<Sep41Issue>,
}

impl Default for Sep41VerificationReport {
    /// Not a candidate, not compliant, nothing verified, no issues.
    fn default() -> (r: Self)
        ensures
            !r.candidate,
            !r.compliant,
            r.verified_functions@.len() == 0,
            r.issues@.len() == 0,
    {
        Sep41VerificationReport {
            candidate: false,
            compliant: false,
            verified_functions: Vec::new(),
            issues: Vec::new(),
        }
    }
}

/// One function of the SEP-41 interface.
pub struct ExpectedSep41Function {
    pub name: &'static str,
    /// Parameter names and types, in order.
    pub args: Vec<(&'static str, &'static str)>,
    pub return_type: &'static str,
    /// The parameter that must be authorized, if any.
    pub auth_param_index: Option<usize>,
}

// ── The interface ───────────────────────────────────────────────────────────

/// The number of SEP-41 functions.
pub open spec fn sep41_count() -> int {
    10
}

/// The name of SEP-41 function `i`.
pub open spec fn sep41_name(i: int) -> Seq<char> {
    if i == 0 { "allowance"@ }
    else if i == 1 { "approve"@ }
    else if i == 2 { "balance"@ }
    else if i == 3 { "transfer"@ }
    else if i == 4 { "transfer_from"@ }
    else if i == 5 { "burn"@ }
    else if i == 6 { "burn_from"@ }
    else if i == 7 { "decimals"@ }
    else if i == 8 { "name"@ }
    else { "symbol"@ }
}

/// The parameters (name, type) of SEP-41 function `i`.
pub open spec fn sep41_args(i: int) -> Seq<(Seq<char>, Seq<char>)> {
    if i == 0 {
        seq![("env"@, "Env"@), ("from"@, "Address"@), ("spender"@, "Address"@)]
    } else if i == 1 {
        seq![
            ("env"@, "Env"@),
            ("from"@, "Address"@),
            ("spender"@, "Address"@),
            ("amount"@, "i128"@),
            ("expiration_ledger"@, "u32"@),
        ]
    } else if i == 2 {
        seq![("env"@, "Env"@), ("id"@, "Address"@)]
    } else if i == 3 {
        seq![("env"@, "Env"@), ("from"@, "Address"@), ("to"@, "MuxedAddress"@), ("amount"@, "i128"@)]
    } else if i == 4 {
        seq![
            ("env"@, "Env"@),
            ("spender"@, "Address"@),
            ("from"@, "Address"@),
            ("to"@, "Address"@),
            ("amount"@, "i128"@),
        ]
    } else if i == 5 {
        seq![("env"@, "Env"@), ("from"@, "Address"@), ("amount"@, "i128"@)]
    } else if i == 6 {
        seq![("env"@, "Env"@), ("spender"@, "Address"@), ("from"@, "Address"@), ("amount"@, "i128"@)]
    } else {
        seq![("env"@, "Env"@)]
    }
}

/// The return type of SEP-41 function `i`.
pub open spec fn sep41_return(i: int) -> Seq<char> {
    if i == 0 || i == 2 { "i128"@ }
    else if i == 7 { "u32"@ }
    else if i == 8 || i == 9 { "String"@ }
    else { "()"@ }
}

/// The parameter SEP-41 function `i` must authorize, if any.
pub open spec fn sep41_auth(i: int) -> Option<usize> {
    if i == 1 || i == 3 || i == 4 || i == 5 || i == 6 { Some(1) } else { None }
}

/// The plain values of an interface entry.
pub open spec fn expected_view(e: ExpectedSep41Function) -> (
    Seq<char>,
    Seq<(Seq<char>, Seq<char>)>,
    Seq<char>,
    Option<usize>,
) {
    (
        e.name@,
        e.args@.map_values(|p: (&'static str, &'static str)| (p.0@, p.1@)),
        e.return_type@,
        e.auth_param_index,
    )
}

/// SEP-41 function `i` as plain values.
pub open spec fn sep41_expected(i: int) -> (Seq<char>, Seq<(Seq<char>, Seq<char>)>, Seq<char>, Option<usize>) {
    (sep41_name(i), sep41_args(i), sep41_return(i), sep41_auth(i))
}

/// SEP-41 function `i`.
pub fn expected_function(i: usize) -> (e: ExpectedSep41Function)
    requires
        i < 10,
    ensures
        expected_view(e) == sep41_expected(i as int),
{
    let e = if i == 0 {
        ExpectedSep41Function {
            name: "allowance",
            args: vec![("env", "Env"), ("from", "Address"), ("spender", "Address")],
            return_type: "i128",
            auth_param_index: None,
        }
    } else if i == 1 {
        ExpectedSep41Function {
            name: "approve",
            args: vec![
                ("env", "Env"),
                ("from", "Address"),
                ("spender", "Address"),
                ("amount", "i128"),
                ("expiration_ledger", "u32"),
            ],
            return_type: "()",
            auth_param_index: Some(1),
        }
    } else if i == 2 {
        ExpectedSep41Function {
            name: "balance",
            args: vec![("env", "Env"), ("id", "Address")],
            return_type: "i128",
            auth_param_index: None,
        }
    } else if i == 3 {
        ExpectedSep41Function {
            name: "transfer",
            args: vec![("env", "Env"), ("from", "Address"), ("to", "MuxedAddress"), ("amount", "i128")],
            return_type: "()",
            auth_param_index: Some(1),
        }
    } else if i == 4 {
        ExpectedSep41Function {
            name: "transfer_from",
            args: vec![
                ("env", "Env"),
                ("spender", "Address"),
                ("from", "Address"),
                ("to", "Address"),
                ("amount", "i128"),
            ],
            return_type: "()",
            auth_param_index: Some(1),
        }
    } else if i == 5 {
        ExpectedSep41Function {
            name: "burn",
            args: vec![("env", "Env"), ("from", "Address"), ("amount", "i128")],
            return_type: "()",
            auth_param_index: Some(1),
        }
    } else if i == 6 {
        ExpectedSep41Function {
            name: "burn_from",
            args: vec![("env", "Env"), ("spender", "Address"), ("from", "Address"), ("amount", "i128")],
            return_type: "()",
            auth_param_index: Some(1),
        }
    } else if i == 7 {
        ExpectedSep41Function {
            name: "decimals",
            args: vec![("env", "Env")],
            return_type: "u32",
            auth_param_index: None,
        }
    } else if i == 8 {
        ExpectedSep41Function {
            name: "name",
            args: vec![("env", "Env")],
            return_type: "String",
            auth_param_index: None,
        }
    } else {
        ExpectedSep41Function {
            name: "symbol",
            args: vec![("env", "Env")],
            return_type: "String",
            auth_param_index: None,
        }
    };
    assert(expected_view(e) =~~= sep41_expected(i as int));
    e
}

// ── Rendering signatures ────────────────────────────────────────────────────

/// `name: type` for each parameter, joined with `", "`.
pub open spec fn join_expected_args(args: Seq<(Seq<char>, Seq<char>)>) -> Seq<char>
    decreases args.len(),
{
    if args.len() == 0 {
        seq![]
    } else if args.len() == 1 {
        args[0].0 + ": "@ + args[0].1
    } else {
        join_expected_args(args.drop_last()) + ", "@ + args.last().0 + ": "@ + args.last().1
    }
}

/// The text of an expected signature: `name(a: T, ...) -> R`.
pub open spec fn expected_signature_text(e: (Seq<char>, Seq<(Seq<char>, Seq<char>)>, Seq<char>, Option<usize>)) -> Seq<char> {
    e.0 + "("@ + join_expected_args(e.1) + ") -> "@ + e.2
}

/// The text of an expected signature: `name(a: T, ...) -> R`.
pub fn render_expected_signature(expected: &ExpectedSep41Function) -> (r: String)
    ensures
        r@ == expected_signature_text(expected_view(*expected)),
{
    let ghost args = expected_view(*expected).1;
    let mut joined = String::new();
    let mut i: usize = 0;
    while i < expected.args.len()
        invariant
            i <= expected.args@.len(),
            args == expected.args@.map_values(|p: (&'static str, &'static str)| (p.0@, p.1@)),
            joined@ == join_expected_args(args.take(i as int)),
        decreases expected.args.len() - i,
    {
        assert(args.take(i + 1).drop_last() =~= args.take(i as int));
        let (n, t) = expected.args[i];
        let part = concat(concat(n, ": ").as_str(), t);
        if i == 0 {
            joined = part;
        } else {
            joined = concat(concat(joined.as_str(), ", ").as_str(), part.as_str());
        }
        assert(joined@ =~= join_expected_args(args.take(i + 1)));
        i = i + 1;
    }
    assert(args.take(args.len() as int) =~= args);
    let a = concat(expected.name, "(");
    let b = concat(a.as_str(), joined.as_str());
    let c = concat(b.as_str(), ") -> ");
    concat(c.as_str(), expected.return_type)
}

/// One rendered parameter: `name: type`, or the type alone for a pattern without a name.
pub open spec fn actual_arg_text(name: Option<Seq<char>>, ty: Seq<char>) -> Seq<char> {
    match name {
        Some(n) => n + ": "@ + ty,
        None => ty,
    }
}

/// The first `n` parameters rendered and joined with `", "`.
pub open spec fn join_actual_args(names: Seq<Option<Seq<char>>>, types: Seq<Seq<char>>, n: nat) -> Seq<char>
    decreases n,
{
    if n == 0 {
        seq![]
    } else if n == 1 {
        actual_arg_text(names[0], types[0])
    } else {
        join_actual_args(names, types, (n - 1) as nat) + ", "@ + actual_arg_text(
            names[n - 1],
            types[n - 1],
        )
    }
}

/// The text of a method's signature: `name(a: T, ...) -> R`, pairing names
/// and types as far as both go.
pub open spec fn actual_signature_text(
    name: Seq<char>,
    names: Seq<Option<Seq<char>>>,
    types: Seq<Seq<char>>,
    ret: Seq<char>,
) -> Seq<char> {
    let n = if names.len() <= types.len() { names.len() } else { types.len() };
    name + "("@ + join_actual_args(names, types, n) + ") -> "@ + ret
}

/// The characters of each optional string.
pub open spec fn opt_strings_view(v: Seq<Option<String>>) -> Seq<Option<Seq<char>>> {
    v.map_values(|o: Option<String>| match o {
        Some(s) => Some(s@),
        None => None,
    })
}

/// The text of a method's signature: `name(a: T, ...) -> R`.
pub fn render_actual_signature(
    name: &str,
    arg_names: &[Option<String>],
    arg_types: &[String],
    return_type: &str,
) -> (r: String)
    ensures
        r@ == actual_signature_text(
            name@,
            opt_strings_view(arg_names@),
            strings_view(arg_types@),
            return_type@,
        ),
{
    let ghost names = opt_strings_view(arg_names@);
    let ghost types = strings_view(arg_types@);
    let n = if arg_names.len() <= arg_types.len() { arg_names.len() } else { arg_types.len() };
    let mut joined = String::new();
    let mut i: usize = 0;
    while i < n
        invariant
            i <= n,
            n <= arg_names@.len(),
            n <= arg_types@.len(),
            names == opt_strings_view(arg_names@),
            types == strings_view(arg_types@),
            joined@ == join_actual_args(names, types, i as nat),
        decreases n - i,
    {
        let part = match &arg_names[i] {
            Some(nm) => concat(concat(nm.as_str(), ": ").as_str(), arg_types[i].as_str()),
            None => arg_types[i].clone(),
        };
        assert(part@ == actual_arg_text(names[i as int], types[i as int]));
        if i == 0 {
            joined = part;
        } else {
            joined = concat(concat(joined.as_str(), ", ").as_str(), part.as_str());
        }
        i = i + 1;
    }
    let a = concat(name, "(");
    let b = concat(a.as_str(), joined.as_str());
    let c = concat(b.as_str(), ") -> ");
    concat(c.as_str(), return_type)
}

// ── Reading a method ────────────────────────────────────────────────────────

/// The canonical text of a type: the last path segment, `&` before a
/// referenced type, `()` for the empty tuple, else the token text with
/// white space collapsed.
pub open spec fn canonical_type(t: AstType) -> Seq<char>
    decreases t,
{
    match t {
        AstType::Group(e) => canonical_type(*e),
        AstType::Paren(e) => canonical_type(*e),
        AstType::Reference(e) => "&"@ + canonical_type(*e),
        AstType::Path { last, text } => match last {
            Some(l) => l@,
            None => simplify_tokens(text@),
        },
        AstType::Tuple { len, text } => if len == 0 {
            "()"@
        } else {
            simplify_tokens(text@)
        },
        AstType::Other { text } => simplify_tokens(text@),
    }
}

/// The canonical text of a type.
pub fn canonical_type_exec(t: &AstType) -> (r: String)
    ensures
        r@ == canonical_type(*t),
    decreases t,
{
    match t {
        AstType::Group(e) => canonical_type_exec(e),
        AstType::Paren(e) => canonical_type_exec(e),
        AstType::Reference(e) => concat("&", canonical_type_exec(e).as_str()),
        AstType::Path { last, text } => match last {
            Some(l) => l.clone(),
            None => simplify_tokens_exec(text.as_str()),
        },
        AstType::Tuple { len, text } => if *len == 0 {
            "()".to_owned()
        } else {
            simplify_tokens_exec(text.as_str())
        },
        AstType::Other { text } => simplify_tokens_exec(text.as_str()),
    }
}

/// The canonical text of a return type; `()` when none is written.
pub open spec fn canonical_return_type(o: Option<AstType>) -> Seq<char> {
    match o {
        Some(t) => canonical_type(t),
        None => "()"@,
    }
}

/// The name a parameter pattern binds, seen through `&`, type ascriptions
/// and parentheses.
pub open spec fn pattern_name(p: AstPat) -> Option<Seq<char>>
    decreases p,
{
    match p {
        AstPat::Ident(n) => Some(n@),
        AstPat::Reference(q) => pattern_name(*q),
        AstPat::Type(q) => pattern_name(*q),
        AstPat::Paren(q) => pattern_name(*q),
        _ => None,
    }
}

/// The name a parameter pattern binds.
pub fn pattern_name_exec(p: &AstPat) -> (r: Option<String>)
    ensures
        match r {
            Some(s) => pattern_name(*p) == Some(s@),
            None => pattern_name(*p) is None,
        },
    decreases p,
{
    match p {
        AstPat::Ident(n) => Some(n.clone()),
        AstPat::Reference(q) => pattern_name_exec(q),
        AstPat::Type(q) => pattern_name_exec(q),
        AstPat::Paren(q) => pattern_name_exec(q),
        _ => None,
    }
}

/// The canonical types of the typed parameters (the receiver left out).
pub open spec fn arg_types(inputs: Seq<AstFnArg>) -> Seq<Seq<char>>
    decreases inputs.len(),
{
    if inputs.len() == 0 {
        seq![]
    } else {
        arg_types(inputs.drop_last()) + match inputs.last() {
            AstFnArg::Typed { ty, .. } => seq![canonical_type(ty)],
            AstFnArg::Receiver => Seq::<Seq<char>>::empty(),
        }
    }
}

/// The names of the typed parameters (the receiver left out).
pub open spec fn arg_names(inputs: Seq<AstFnArg>) -> Seq<Option<Seq<char>>>
    decreases inputs.len(),
{
    if inputs.len() == 0 {
        seq![]
    } else {
        arg_names(inputs.drop_last()) + match inputs.last() {
            AstFnArg::Typed { pat, .. } => seq![pattern_name(pat)],
            AstFnArg::Receiver => Seq::<Option<Seq<char>>>::empty(),
        }
    }
}

/// Whether a name is `require_auth` or `require_auth_for_args`.
pub open spec fn is_auth_call(s: Seq<char>) -> bool {
    s == "require_auth"@ || s == "require_auth_for_args"@
}

/// One step of collecting authorized names: after a call of
/// `require_auth`/`require_auth_for_args`, the names its operands (a method
/// call's receiver and arguments, a function call's arguments) refer to.
pub open spec fn auth_step(st: (bool, Seq<Seq<char>>), ev: Event) -> (bool, Seq<Seq<char>>) {
    match ev {
        Event::Arg { ident } => if st.0 {
            match ident {
                Some(n) => (true, st.1.push(n@)),
                None => st,
            }
        } else {
            st
        },
        Event::MethodCall { method, .. } => (is_auth_call(method@), st.1),
        Event::Call { func, .. } => (
            match func {
                Some(f) => is_auth_call(f@),
                None => false,
            },
            st.1,
        ),
        _ => (false, st.1),
    }
}

/// The collection after walking `evs`.
pub open spec fn auth_walk(evs: Seq<Event>) -> (bool, Seq<Seq<char>>)
    decreases evs.len(),
{
    if evs.len() == 0 {
        (false, seq![])
    } else {
        auth_step(auth_walk(evs.drop_last()), evs.last())
    }
}

/// The names a block authorizes.
pub open spec fn authorized_names(b: AstBlock) -> Seq<Seq<char>> {
    auth_walk(block_events(b)).1
}

/// Whether a name is `require_auth` or `require_auth_for_args`.
fn is_auth_call_exec(s: &str) -> (r: bool)
    ensures
        r == is_auth_call(s@),
{
    text_eq(s, "require_auth") || text_eq(s, "require_auth_for_args")
}

/// The names a block authorizes.
fn authorized_names_exec(b: &AstBlock) -> (r: Vec<String>)
    ensures
        strings_view(r@) == authorized_names(*b),
{
    let evs = block_events_exec(b);
    let mut in_auth = false;
    let mut names: Vec<String> = Vec::new();
    let mut i: usize = 0;
    while i < evs.len()
        invariant
            i <= evs@.len(),
            evs@ == block_events(*b),
            (in_auth, strings_view(names@)) == auth_walk(evs@.take(i as int)),
        decreases evs.len() - i,
    {
        assert(evs@.take(i + 1).drop_last() =~= evs@.take(i as int));
        let ghost before = strings_view(names@);
        match &evs[i] {
            Event::Arg { ident } => {
                if in_auth {
                    match ident {
                        Some(n) => {
                            names.push(n.clone());
                            assert(strings_view(names@) =~= before.push(n@));
                        },
                        None => {},
                    }
                }
            },
            Event::MethodCall { method, .. } => {
                in_auth = is_auth_call_exec(method.as_str());
            },
            Event::Call { func, .. } => {
                in_auth = match func {
                    Some(f) => is_auth_call_exec(f.as_str()),
                    None => false,
                };
            },
            _ => {
                in_auth = false;
            },
        }
        i = i + 1;
    }
    assert(evs@.take(evs@.len() as int) =~= evs@);
    names
}

/// What the check reads of a public method.
pub struct MethodInfo {
    pub name: Seq<char>,
    pub arg_names: Seq<Option<Seq<char>>>,
    pub arg_types: Seq<Seq<char>>,
    pub return_type: Seq<char>,
    pub signature: Seq<char>,
    /// For each parameter, whether it is named and the body authorizes that name.
    pub authorized: Seq<bool>,
}

/// Whether parameter name `n` is authorized by the names `auth`.
pub open spec fn is_authorized(n: Option<Seq<char>>, auth: Seq<Seq<char>>) -> bool {
    match n {
        Some(x) => auth.contains(x),
        None => false,
    }
}

/// What the check reads of a method with signature `sig` and body `block`.
pub open spec fn method_info(sig: AstSignature, block: AstBlock) -> MethodInfo {
    let names = arg_names(sig.inputs@);
    let types = arg_types(sig.inputs@);
    let ret = canonical_return_type(sig.output);
    let auth = authorized_names(block);
    MethodInfo {
        name: sig.ident@,
        arg_names: names,
        arg_types: types,
        return_type: ret,
        signature: actual_signature_text(sig.ident@, names, types, ret),
        authorized: names.map_values(|n: Option<Seq<char>>| is_authorized(n, auth)),
    }
}

/// The public methods of an `impl` block's items.
pub open spec fn impl_public_methods(its: Seq<AstImplItem>) -> Seq<MethodInfo>
    decreases its.len(),
{
    if its.len() == 0 {
        seq![]
    } else {
        impl_public_methods(its.drop_last()) + match its.last() {
            AstImplItem::Fn { is_public, sig, block, .. } => if is_public {
                seq![method_info(sig, block)]
            } else {
                Seq::<MethodInfo>::empty()
            },
            _ => Seq::<MethodInfo>::empty(),
        }
    }
}

/// The public methods of the top-level `impl` blocks, in source order.
pub open spec fn public_methods(items: Seq<AstItem>) -> Seq<MethodInfo>
    decreases items.len(),
{
    if items.len() == 0 {
        seq![]
    } else {
        public_methods(items.drop_last()) + match items.last() {
            AstItem::Impl { items: its, .. } => impl_public_methods(its@),
            _ => Seq::<MethodInfo>::empty(),
        }
    }
}

/// A public method as the check reads it.
pub struct ParsedMethod {
    pub name: String,
    pub arg_names: Vec<Option<String>>,
    pub arg_types: Vec<String>,
    pub return_type: String,
    pub signature: String,
    pub authorized: Vec<bool>,
}

/// The plain values of a parsed method.
pub open spec fn parsed_view(m: ParsedMethod) -> MethodInfo {
    MethodInfo {
        name: m.name@,
        arg_names: opt_strings_view(m.arg_names@),
        arg_types: strings_view(m.arg_types@),
        return_type: m.return_type@,
        signature: m.signature@,
        authorized: m.authorized@,
    }
}

/// The views of a sequence of parsed methods.
pub open spec fn parsed_views(v: Seq<ParsedMethod>) -> Seq<MethodInfo> {
    v.map_values(|m: ParsedMethod| parsed_view(m))
}

/// Whether `x` is one of `names`.
fn contains_name(names: &Vec<String>, x: &String) -> (r: bool)
    ensures
        r == strings_view(names@).contains(x@),
{
    let mut i: usize = 0;
    while i < names.len()
        invariant
            i <= names@.len(),
            forall|j: int| 0 <= j < i ==> names@[j]@ != x@,
        decreases names.len() - i,
    {
        if text_eq(names[i].as_str(), x.as_str()) {
            assert(strings_view(names@)[i as int] == x@);
            return true;
        }
        i = i + 1;
    }
    assert forall|j: int| 0 <= j < strings_view(names@).len() implies strings_view(names@)[j] != x@ by {
        assert(strings_view(names@)[j] == names@[j]@);
    }
    false
}

/// Reads a public method.
fn parse_method(sig: &AstSignature, block: &AstBlock) -> (r: ParsedMethod)
    ensures
        parsed_view(r) == method_info(*sig, *block),
{
    let ghost info = method_info(*sig, *block);
    let mut names: Vec<Option<String>> = Vec::new();
    let mut types: Vec<String> = Vec::new();
    let mut i: usize = 0;
    while i < sig.inputs.len()
        invariant
            i <= sig.inputs@.len(),
            opt_strings_view(names@) == arg_names(sig.inputs@.take(i as int)),
            strings_view(types@) == arg_types(sig.inputs@.take(i as int)),
        decreases sig.inputs.len() - i,
    {
        assert(sig.inputs@.take(i + 1).drop_last() =~= sig.inputs@.take(i as int));
        assert(sig.inputs@.take(i + 1).last() == sig.inputs@[i as int]);
        let ghost n0 = opt_strings_view(names@);
        let ghost t0 = strings_view(types@);
        match &sig.inputs[i] {
            AstFnArg::Typed { pat, ty, .. } => {
                let n = pattern_name_exec(pat);
                let ghost nv = pattern_name(*pat);
                names.push(n);
                types.push(canonical_type_exec(ty));
                assert(opt_strings_view(names@) =~= n0.push(nv));
                assert(strings_view(types@) =~= t0.push(canonical_type(*ty)));
            },
            AstFnArg::Receiver => {},
        }
        i = i + 1;
    }
    assert(sig.inputs@.take(sig.inputs@.len() as int) =~= sig.inputs@);
    let return_type = match &sig.output {
        Some(t) => canonical_type_exec(t),
        None => "()".to_owned(),
    };
    let auth = authorized_names_exec(block);
    let mut authorized: Vec<bool> = Vec::new();
    let mut k: usize = 0;
    while k < names.len()
        invariant
            k <= names@.len(),
            strings_view(auth@) == authorized_names(*block),
            authorized@ == opt_strings_view(names@).take(k as int).map_values(
                |n: Option<Seq<char>>| is_authorized(n, authorized_names(*block)),
            ),
        decreases names.len() - k,
    {
        let b = match &names[k] {
            Some(x) => contains_name(&auth, x),
            None => false,
        };
        authorized.push(b);
        assert(authorized@ =~= opt_strings_view(names@).take(k + 1).map_values(
            |n: Option<Seq<char>>| is_authorized(n, authorized_names(*block)),
        ));
        k = k + 1;
    }
    assert(opt_strings_view(names@).take(names@.len() as int) =~= opt_strings_view(names@));
    let signature = render_actual_signature(sig.ident.as_str(), names.as_slice(), types.as_slice(), return_type.as_str());
    ParsedMethod { name: sig.ident.clone(), arg_names: names, arg_types: types, return_type, signature, authorized }
}

/// The public methods of the file's top-level `impl` blocks, in source order.
pub fn collect_public_methods(file: &AstFile) -> (r: Vec<ParsedMethod>)
    ensures
        parsed_views(r@) == public_methods(file.items@),
{
    let mut out: Vec<ParsedMethod> = Vec::new();
    let mut i: usize = 0;
    while i < file.items.len()
        invariant
            i <= file.items@.len(),
            parsed_views(out@) == public_methods(file.items@.take(i as int)),
        decreases file.items.len() - i,
    {
        assert(file.items@.take(i + 1).drop_last() =~= file.items@.take(i as int));
        assert(file.items@.take(i + 1).last() == file.items@[i as int]);
        match &file.items[i] {
            AstItem::Impl { items: its, .. } => {
                let ghost start = parsed_views(out@);
                let mut k: usize = 0;
                while k < its.len()
                    invariant
                        k <= its@.len(),
                        parsed_views(out@) == start + impl_public_methods(its@.take(k as int)),
                    decreases its.len() - k,
                {
                    assert(its@.take(k + 1).drop_last() =~= its@.take(k as int));
                    assert(its@.take(k + 1).last() == its@[k as int]);
                    let ghost before = parsed_views(out@);
                    match &its[k] {
                        AstImplItem::Fn { is_public, sig, block, .. } => {
                            if *is_public {
                                let m = parse_method(sig, block);
                                out.push(m);
                                assert(parsed_views(out@) =~= before.push(method_info(*sig, *block)));
                            }
                        },
                        _ => {},
                    }
                    k = k + 1;
                }
                assert(its@.take(its@.len() as int) =~= its@);
            },
            _ => {},
        }
        assert(parsed_views(out@) =~= public_methods(file.items@.take(i + 1)));
        i = i + 1;
    }
    assert(file.items@.take(file.items@.len() as int) =~= file.items@);
    out
}

// ── The check ───────────────────────────────────────────────────────────────

/// The first method named `name`.
pub open spec fn find_method(ms: Seq<MethodInfo>, name: Seq<char>) -> Option<MethodInfo>
    decreases ms.len(),
{
    if ms.len() == 0 {
        None
    } else if ms[0].name == name {
        Some(ms[0])
    } else {
        find_method(ms.drop_first(), name)
    }
}

/// The index of the first method named `name`.
fn find_method_exec(ms: &Vec<ParsedMethod>, name: &str) -> (r: Option<usize>)
    ensures
        match r {
            Some(k) => k < ms@.len() && find_method(parsed_views(ms@), name@) == Some(
                parsed_view(ms@[k as int]),
            ),
            None => find_method(parsed_views(ms@), name@) is None,
        },
{
    let ghost v = parsed_views(ms@);
    let mut i: usize = 0;
    assert(v.skip(0) =~= v);
    while i < ms.len()
        invariant
            i <= ms@.len(),
            v == parsed_views(ms@),
            find_method(v, name@) == find_method(v.skip(i as int), name@),
        decreases ms.len() - i,
    {
        assert(v.skip(i as int)[0] == parsed_view(ms@[i as int]));
        if text_eq(ms[i].name.as_str(), name) {
            return Some(i);
        }
        assert(v.skip(i as int).drop_first() =~= v.skip(i + 1));
        i = i + 1;
    }
    None
}

/// How many of `names` some method bears.
pub open spec fn count_present(ms: Seq<MethodInfo>, names: Seq<Seq<char>>) -> nat
    decreases names.len(),
{
    if names.len() == 0 {
        0
    } else {
        count_present(ms, names.drop_last()) + if find_method(ms, names.last()) is Some {
            1nat
        } else {
            0nat
        }
    }
}

/// The core SEP-41 functions.
pub open spec fn core_names() -> Seq<Seq<char>> {
    seq!["allowance"@, "approve"@, "balance"@, "transfer"@, "transfer_from"@, "burn"@, "burn_from"@]
}

/// The metadata SEP-41 functions.
pub open spec fn metadata_names() -> Seq<Seq<char>> {
    seq!["decimals"@, "name"@, "symbol"@]
}

/// Whether the methods look like a token: two core functions, or one core
/// function and two metadata functions.
pub open spec fn is_candidate(ms: Seq<MethodInfo>) -> bool {
    let core = count_present(ms, core_names());
    let meta = count_present(ms, metadata_names());
    core >= 2 || (core >= 1 && meta >= 2)
}

/// Whether the methods look like a token.
pub fn looks_like_sep41_candidate(methods: &Vec<ParsedMethod>) -> (r: bool)
    ensures
        r == is_candidate(parsed_views(methods@)),
{
    let ghost ms = parsed_views(methods@);
    let core = vec!["allowance", "approve", "balance", "transfer", "transfer_from", "burn", "burn_from"];
    let meta = vec!["decimals", "name", "symbol"];
    let ghost cv = core@.map_values(|s: &str| s@);
    let ghost mv = meta@.map_values(|s: &str| s@);
    assert(cv =~= core_names());
    assert(mv =~= metadata_names());
    let mut core_count: usize = 0;
    let mut i: usize = 0;
    while i < core.len()
        invariant
            i <= core@.len(),
            core@.len() == 7,
            cv == core@.map_values(|s: &str| s@),
            ms == parsed_views(methods@),
            core_count == count_present(ms, cv.take(i as int)),
            core_count <= i,
        decreases core.len() - i,
    {
        assert(cv.take(i + 1).drop_last() =~= cv.take(i as int));
        if find_method_exec(methods, core[i]).is_some() {
            core_count = core_count + 1;
        }
        i = i + 1;
    }
    let mut meta_count: usize = 0;
    let mut j: usize = 0;
    while j < meta.len()
        invariant
            j <= meta@.len(),
            meta@.len() == 3,
            mv == meta@.map_values(|s: &str| s@),
            ms == parsed_views(methods@),
            meta_count == count_present(ms, mv.take(j as int)),
            meta_count <= j,
        decreases meta.len() - j,
    {
        assert(mv.take(j + 1).drop_last() =~= mv.take(j as int));
        if find_method_exec(methods, meta[j]).is_some() {
            meta_count = meta_count + 1;
        }
        j = j + 1;
    }
    assert(cv.take(7) =~= cv);
    assert(mv.take(3) =~= mv);
    core_count >= 2 || (core_count >= 1 && meta_count >= 2)
}

/// An issue as plain values: function, kind, location, message, expected
/// signature, actual signature.
pub type IssueView = (Seq<char>, Sep41IssueKind, Seq<char>, Seq<char>, Seq<char>, Option<Seq<char>>);

/// The plain values of an issue.
pub open spec fn issue_view(i: Sep41Issue) -> IssueView {
    (
        i.function_name@,
        i.kind,
        i.location@,
        i.message@,
        i.expected_signature@,
        match i.actual_signature {
            Some(s) => Some(s@),
            None => None,
        },
    )
}

/// The name of the parameter function `i` must authorize (`"authorizer"`
/// if the index is out of range).
pub open spec fn authorizer_name(i: int, k: usize) -> Seq<char> {
    if k < sep41_args(i).len() {
        sep41_args(i)[k as int].0
    } else {
        "authorizer"@
    }
}

/// The expected parameter types of SEP-41 function `i`.
pub open spec fn expected_types(i: int) -> Seq<Seq<char>> {
    sep41_args(i).map_values(|p: (Seq<char>, Seq<char>)| p.1)
}

/// The issue SEP-41 function `i` raises against the methods, if any.
pub open spec fn expected_issue(ms: Seq<MethodInfo>, i: int) -> Option<IssueView> {
    let name = sep41_name(i);
    let sig = expected_signature_text(sep41_expected(i));
    match find_method(ms, name) {
        None => Some(
            (
                name,
                Sep41IssueKind::MissingFunction,
                name,
                "Missing SEP-41 function '"@ + name + "'."@,
                sig,
                None,
            ),
        ),
        Some(m) => if m.arg_types != expected_types(i) || m.return_type != sep41_return(i) {
            Some(
                (
                    name,
                    Sep41IssueKind::SignatureMismatch,
                    m.name,
                    "Function '"@ + name + "' does not match the exact SEP-41 signature."@,
                    sig,
                    Some(m.signature),
                ),
            )
        } else {
            match sep41_auth(i) {
                Some(k) => if k < m.authorized.len() && m.authorized[k as int] {
                    None
                } else {
                    Some(
                        (
                            name,
                            Sep41IssueKind::AuthorizationMismatch,
                            m.name,
                            "Function '"@ + name + "' should authorize '"@ + authorizer_name(i, k)
                                + "' to match the SEP-41 interface."@,
                            sig,
                            Some(m.signature),
                        ),
                    )
                },
                None => None,
            }
        },
    }
}

/// The issues of the first `n` SEP-41 functions, in interface order.
pub open spec fn issues_upto(ms: Seq<MethodInfo>, n: int) -> Seq<IssueView>
    decreases n,
{
    if n <= 0 {
        seq![]
    } else {
        issues_upto(ms, n - 1) + match expected_issue(ms, n - 1) {
            Some(x) => seq![x],
            None => Seq::<IssueView>::empty(),
        }
    }
}

/// The first `n` SEP-41 functions that pass every check, in interface order.
pub open spec fn passed_upto(ms: Seq<MethodInfo>, n: int) -> Seq<Seq<char>>
    decreases n,
{
    if n <= 0 {
        seq![]
    } else {
        passed_upto(ms, n - 1) + if expected_issue(ms, n - 1) is None {
            seq![sep41_name(n - 1)]
        } else {
            Seq::<Seq<char>>::empty()
        }
    }
}

/// The plain values of a report: candidate, compliant, verified functions, issues.
pub open spec fn report_view(r: Sep41VerificationReport) -> (bool, bool, Seq<Seq<char>>, Seq<IssueView>) {
    (
        r.candidate,
        r.compliant,
        strings_view(r.verified_functions@),
        r.issues@.map_values(|i: Sep41Issue| issue_view(i)),
    )
}

/// The report on a contract's public methods.
pub open spec fn sep41_report(ms: Seq<MethodInfo>) -> (bool, bool, Seq<Seq<char>>, Seq<IssueView>) {
    if !is_candidate(ms) {
        (false, false, seq![], seq![])
    } else {
        let issues = issues_upto(ms, sep41_count());
        (true, issues.len() == 0, sort_strings(passed_upto(ms, sep41_count())), issues)
    }
}

/// Whether two string vectors hold the same strings in the same order.
fn vec_text_eq(a: &Vec<String>, b: &Vec<String>) -> (r: bool)
    ensures
        r == (strings_view(a@) == strings_view(b@)),
{
    if a.len() != b.len() {
        assert(strings_view(a@).len() != strings_view(b@).len());
        return false;
    }
    let mut i: usize = 0;
    while i < a.len()
        invariant
            i <= a@.len(),
            a@.len() == b@.len(),
            forall|j: int| 0 <= j < i ==> a@[j]@ == b@[j]@,
        decreases a.len() - i,
    {
        if !text_eq(a[i].as_str(), b[i].as_str()) {
            assert(strings_view(a@)[i as int] != strings_view(b@)[i as int]);
            return false;
        }
        i = i + 1;
    }
    assert(strings_view(a@) =~= strings_view(b@));
    true
}

/// The issue of one SEP-41 function against the methods, if any.
fn check_expected(methods: &Vec<ParsedMethod>, i: usize) -> (r: Option<Sep41Issue>)
    requires
        i < 10,
    ensures
        match r {
            Some(x) => expected_issue(parsed_views(methods@), i as int) == Some(issue_view(x)),
            None => expected_issue(parsed_views(methods@), i as int) is None,
        },
{
    let expected = expected_function(i);
    let ghost ev = expected_view(expected);
    let expected_sig = render_expected_signature(&expected);
    match find_method_exec(methods, expected.name) {
        None => {
            let a = concat("Missing SEP-41 function '", expected.name);
            Some(Sep41Issue {
                function_name: expected.name.to_owned(),
                kind: Sep41IssueKind::MissingFunction,
                location: expected.name.to_owned(),
                message: concat(a.as_str(), "'."),
                expected_signature: expected_sig,
                actual_signature: None,
            })
        },
        Some(k) => {
            let actual = &methods[k];
            let mut expected_types_vec: Vec<String> = Vec::new();
            let mut j: usize = 0;
            while j < expected.args.len()
                invariant
                    j <= expected.args@.len(),
                    ev == expected_view(expected),
                    ev.1 == sep41_args(i as int),
                    strings_view(expected_types_vec@) == expected_types(i as int).take(j as int),
                decreases expected.args.len() - j,
            {
                let ghost before = strings_view(expected_types_vec@);
                let t = expected.args[j].1;
                assert(ev.1[j as int] == (expected.args@[j as int].0@, expected.args@[j as int].1@));
                assert(expected_types(i as int)[j as int] == ev.1[j as int].1);
                expected_types_vec.push(t.to_owned());
                assert(strings_view(expected_types_vec@) =~= before.push(t@));
                assert(strings_view(expected_types_vec@) =~= expected_types(i as int).take(j + 1));
                j = j + 1;
            }
            assert(expected_types(i as int).take(expected.args@.len() as int) =~= expected_types(i as int));
            if !vec_text_eq(&actual.arg_types, &expected_types_vec) || !text_eq(
                actual.return_type.as_str(),
                expected.return_type,
            ) {
                let a = concat("Function '", expected.name);
                return Some(Sep41Issue {
                    function_name: expected.name.to_owned(),
                    kind: Sep41IssueKind::SignatureMismatch,
                    location: actual.name.clone(),
                    message: concat(a.as_str(), "' does not match the exact SEP-41 signature."),
                    expected_signature: expected_sig,
                    actual_signature: Some(actual.signature.clone()),
                });
            }
            match expected.auth_param_index {
                Some(auth_index) => {
                    let ok = auth_index < actual.authorized.len() && actual.authorized[auth_index];
                    if ok {
                        None
                    } else {
                        let who = if auth_index < expected.args.len() {
                            expected.args[auth_index].0
                        } else {
                            "authorizer"
                        };
                        let a = concat("Function '", expected.name);
                        let b = concat(a.as_str(), "' should authorize '");
                        let c = concat(b.as_str(), who);
                        Some(Sep41Issue {
                            function_name: expected.name.to_owned(),
                            kind: Sep41IssueKind::AuthorizationMismatch,
                            location: actual.name.clone(),
                            message: concat(c.as_str(), "' to match the SEP-41 interface."),
                            expected_signature: expected_sig,
                            actual_signature: Some(actual.signature.clone()),
                        })
                    }
                },
                None => None,
            }
        },
    }
}

/// The SEP-41 report on parsed methods.
pub fn verify_methods(methods: &Vec<ParsedMethod>) -> (r: Sep41VerificationReport)
    ensures
        report_view(r) == sep41_report(parsed_views(methods@)),
{
    let ghost ms = parsed_views(methods@);
    if !looks_like_sep41_candidate(methods) {
        let r = Sep41VerificationReport::default();
        assert(report_view(r) =~~= sep41_report(ms));
        return r;
    }
    let mut issues: Vec<Sep41Issue> = Vec::new();
    let mut passed: Vec<String> = Vec::new();
    let mut i: usize = 0;
    while i < 10
        invariant
            i <= 10,
            ms == parsed_views(methods@),
            issues@.map_values(|x: Sep41Issue| issue_view(x)) == issues_upto(ms, i as int),
            strings_view(passed@) == passed_upto(ms, i as int),
        decreases 10 - i,
    {
        let ghost iv = issues@.map_values(|x: Sep41Issue| issue_view(x));
        let ghost pv = strings_view(passed@);
        match check_expected(methods, i) {
            Some(issue) => {
                issues.push(issue);
                assert(issues@.map_values(|x: Sep41Issue| issue_view(x)) =~= iv.push(issue_view(issue)));
            },
            None => {
                let expected = expected_function(i);
                passed.push(expected.name.to_owned());
                assert(strings_view(passed@) =~= pv.push(sep41_name(i as int)));
            },
        }
        i = i + 1;
    }
    let compliant = issues.len() == 0;
    let verified_functions = sort_string_vec(passed);
    Sep41VerificationReport { candidate: true, compliant, verified_functions, issues }
}

/// The SEP-41 report on `source`; the default (empty, non-candidate) report
/// when `syn` rejects it.
pub fn verify(source: &str) -> (r: Sep41VerificationReport)
    ensures
        match spec_parse_file(source@) {
            Some(f) => report_view(r) == sep41_report(public_methods(f.items@)),
            None => report_view(r) == (false, false, Seq::<Seq<char>>::empty(), Seq::<IssueView>::empty()),
        },
{
    match parse_file(source) {
        Ok(file) => {
            let methods = collect_public_methods(&file);
            verify_methods(&methods)
        },
        Err(_) => {
            let r = Sep41VerificationReport::default();
            assert(report_view(r) =~~= (false, false, Seq::<Seq<char>>::empty(), Seq::<IssueView>::empty()));
            r
        },
    }
}

// ── Laws ────────────────────────────────────────────────────────────────────

proof fn lemma_upto_partition(ms: Seq<MethodInfo>, n: int)
    requires
        0 <= n,
    ensures
        issues_upto(ms, n).len() + passed_upto(ms, n).len() == n,
    decreases n,
{
    if n > 0 {
        lemma_upto_partition(ms, n - 1);
    }
}

/// For a candidate, each of the ten SEP-41 functions is either verified or
/// reported by exactly one issue; the report is compliant exactly when there
/// are no issues; the verified functions are in ascending order.  A
/// non-candidate report is empty.
pub proof fn law_sep41_report_accounts_for_every_function(ms: Seq<MethodInfo>)
    ensures
        ({
            let (candidate, compliant, verified, issues) = sep41_report(ms);
            &&& candidate == is_candidate(ms)
            &&& candidate ==> verified.len() + issues.len() == sep41_count()
            &&& compliant <==> (candidate && issues.len() == 0)
            &&& strings_ascending(verified)
            &&& !candidate ==> verified.len() == 0 && issues.len() == 0
        }),
{
    lemma_upto_partition(ms, sep41_count());
    lemma_sort_strings(passed_upto(ms, sep41_count()));
    let p = passed_upto(ms, sep41_count());
    assert(sort_strings(p).to_multiset().len() == p.to_multiset().len());
    broadcast use vstd::seq_lib::group_to_multiset_ensures;
}

} // verus!
