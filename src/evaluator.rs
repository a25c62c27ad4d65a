//! How an expression is routed: to a mod call, with its arguments split out
//! and counted, or to direct evaluation; and the errors of evaluation.
//!
//! An expression whose text before its first `(` (white space trimmed) is the
//! identifier of a loaded mod is a call of that mod. This takes precedence
//! over any built-in function of the same shape.

use crate::mods::ModManager;
use crate::record::{texts, ModView};
use crate::text::{find_char, find_first, find_last, rfind_char, split_char, split_spec, trim, trim_spec, views};
use crate::textmap::lookup;
use vstd::prelude::*;
use vstd::string::{StrSliceExecFns, StringExecFns};

verus! {

/// Why an expression could not be evaluated.
#[derive(PartialEq, Eq, Debug)]
pub enum EvalError {
    /// The text is not a well-formed expression.
    Parse(String),
    /// The expression failed while it was evaluated.
    Evaluation(String),
    /// No mod has this identifier.
    ModNotFound(String),
    /// A mod was called with another number of arguments than it has
    /// parameters.
    ModArityMismatch { name: String, expected: usize, actual: usize },
    /// A mod call without a closing parenthesis or without arguments.
    ModCallMalformed(String),
    /// An argument of a mod call is neither a number nor an expression.
    ModArgumentParse { argument: String, reason: String },
    /// An argument of a mod call failed while it was evaluated.
    ModArgument { argument: String, reason: String },
    /// A mod's formula is not a well-formed expression.
    ModFormulaParse(String),
    /// A mod's formula failed while it was evaluated.
    ModCalculation(String),
    /// The mod has no formula.
    ModHasNoBody(String),
    /// The mods directory could not be read.
    RegistryIo(String),
}

/// The decimal digits of `n`.
pub open spec fn decimal(n: nat) -> Seq<char>
    decreases n,
{
    if n < 10 {
        seq![digit_char(n)]
    } else {
        decimal(n / 10).push(digit_char(n % 10))
    }
}

pub open spec fn digit_char(d: nat) -> char {
    if d == 0 { '0' } else if d == 1 { '1' } else if d == 2 { '2' } else if d == 3 { '3' }
    else if d == 4 { '4' } else if d == 5 { '5' } else if d == 6 { '6' } else if d == 7 { '7' }
    else if d == 8 { '8' } else { '9' }
}

fn digit_text(d: usize) -> (r: &'static str)
    requires
        d < 10,
    ensures
        r@ == seq![digit_char(d as nat)],
{
    proof {
        reveal_strlit("0");
        reveal_strlit("1");
        reveal_strlit("2");
        reveal_strlit("3");
        reveal_strlit("4");
        reveal_strlit("5");
        reveal_strlit("6");
        reveal_strlit("7");
        reveal_strlit("8");
        reveal_strlit("9");
    }
    if d == 0 { "0" } else if d == 1 { "1" } else if d == 2 { "2" } else if d == 3 { "3" }
    else if d == 4 { "4" } else if d == 5 { "5" } else if d == 6 { "6" } else if d == 7 { "7" }
    else if d == 8 { "8" } else { "9" }
}

/// Appends the decimal digits of `n` to `s`.
fn append_decimal(s: &mut String, n: usize)
    ensures
        final(s)@ == old(s)@ + decimal(n as nat),
    decreases n,
{
    if n >= 10 {
        append_decimal(s, n / 10);
    }
    s.append(digit_text(n % 10));
    assert(final(s)@ =~= old(s)@ + decimal(n as nat));
}

/// The message for a call of `name` with `actual` arguments where the mod
/// has `expected` parameters.
pub open spec fn arity_message(name: Seq<char>, expected: nat, actual: nat) -> Seq<char> {
    "Mod '"@ + name + "' expects "@ + decimal(expected) + " arguments, got "@ + decimal(actual)
}

impl EvalError {
    /// The message of the error.
    pub fn message(&self) -> (r: String)
        ensures
            self matches EvalError::ModArityMismatch { name, expected, actual } ==> r@
                == arity_message(name@, expected as nat, actual as nat),
            self matches EvalError::ModHasNoBody(n) ==> r@ == "Mod '"@ + n@
                + "' has no calculation defined"@,
            self matches EvalError::ModCallMalformed(n) ==> r@ == "Invalid mod call: "@ + n@,
            self matches EvalError::ModNotFound(n) ==> r@ == "Mod '"@ + n@ + "' not found"@,
            self matches EvalError::Parse(m) ==> r@ == "Parse error: "@ + m@,
            self matches EvalError::Evaluation(m) ==> r@ == "Evaluation error: "@ + m@,
            self matches EvalError::ModArgumentParse { argument, reason } ==> r@
                == "Failed to parse argument '"@ + argument@ + "': "@ + reason@,
            self matches EvalError::ModFormulaParse(m) ==> r@ == "Mod expression parse error: "@
                + m@,
            self matches EvalError::ModCalculation(m) ==> r@ == "Mod calculation error: "@ + m@,
            self matches EvalError::ModArgument { argument, reason } ==> r@
                == "Failed to evaluate argument '"@ + argument@ + "': "@ + reason@,
            self matches EvalError::RegistryIo(m) ==> r@ == m@,
    {
        match self {
            EvalError::Parse(m) => {
                let mut r = "Parse error: ".to_owned();
                r.append(m.as_str());
                r
            },
            EvalError::Evaluation(m) => {
                let mut r = "Evaluation error: ".to_owned();
                r.append(m.as_str());
                r
            },
            EvalError::ModNotFound(n) => {
                let mut r = "Mod '".to_owned();
                r.append(n.as_str());
                r.append("' not found");
                r
            },
            EvalError::ModArityMismatch { name, expected, actual } => {
                let mut r = "Mod '".to_owned();
                r.append(name.as_str());
                r.append("' expects ");
                append_decimal(&mut r, *expected);
                r.append(" arguments, got ");
                append_decimal(&mut r, *actual);
                r
            },
            EvalError::ModCallMalformed(n) => {
                let mut r = "Invalid mod call: ".to_owned();
                r.append(n.as_str());
                r
            },
            EvalError::ModArgumentParse { argument, reason } => {
                let mut r = "Failed to parse argument '".to_owned();
                r.append(argument.as_str());
                r.append("': ");
                r.append(reason.as_str());
                r
            },
            EvalError::ModFormulaParse(m) => {
                let mut r = "Mod expression parse error: ".to_owned();
                r.append(m.as_str());
                r
            },
            EvalError::ModCalculation(m) => {
                let mut r = "Mod calculation error: ".to_owned();
                r.append(m.as_str());
                r
            },
            EvalError::ModArgument { argument, reason } => {
                let mut r = "Failed to evaluate argument '".to_owned();
                r.append(argument.as_str());
                r.append("': ");
                r.append(reason.as_str());
                r
            },
            EvalError::ModHasNoBody(n) => {
                let mut r = "Mod '".to_owned();
                r.append(n.as_str());
                r.append("' has no calculation defined");
                r
            },
            EvalError::RegistryIo(m) => m.clone(),
        }
    }
}

/// A call of a mod: its identifier, its arguments as written (trimmed), its
/// parameters and its formula.
pub struct ModCall {
    pub name: String,
    pub args: Vec<String>,
    pub vars: Vec<String>,
    pub formula: Option<String>,
}

/// Where an expression goes.
pub enum Route {
    /// Evaluate the text itself.
    Direct,
    /// Call a mod.
    Call(ModCall),
}

/// What routing an expression comes to.
pub enum RouteOutcome {
    Direct,
    Malformed(Seq<char>),
    Arity(Seq<char>, nat, nat),
    Call(Seq<char>, Seq<Seq<char>>, Seq<Seq<char>>, Option<Seq<char>>),
    Other,
}

/// The identifier that `e` calls, if it has a `(`: the text before the
/// first `(`, trimmed.
pub open spec fn call_prefix(e: Seq<char>) -> Option<Seq<char>> {
    match find_first(e, '(') {
        Some(p) => Some(trim_spec(e.subrange(0, p))),
        None => None,
    }
}

/// The arguments of a call whose parentheses are at `p` and `q`: the text
/// between them split at each comma, each piece trimmed.
pub open spec fn call_args(e: Seq<char>, p: int, q: int) -> Seq<Seq<char>> {
    split_spec(e.subrange(p + 1, q), ',').map_values(|a: Seq<char>| trim_spec(a))
}

/// How `e` is routed against the mods `mods`. A call runs from the first
/// `(` to the last `)`; without a `)` after the `(`, or with nothing but
/// white space between them, it is malformed; its number of arguments must
/// be the mod's number of parameters.
pub open spec fn route_outcome(mods: Seq<(Seq<char>, ModView)>, e: Seq<char>) -> RouteOutcome {
    match call_prefix(e) {
        None => RouteOutcome::Direct,
        Some(id) => match lookup(mods, id) {
            None => RouteOutcome::Direct,
            Some(m) => {
                let p = find_first(e, '(')->Some_0;
                match find_last(e, ')') {
                    None => RouteOutcome::Malformed(id),
                    Some(q) => if q <= p || trim_spec(e.subrange(p + 1, q)).len() == 0 {
                        RouteOutcome::Malformed(id)
                    } else {
                        let args = call_args(e, p, q);
                        if args.len() != m.needs.len() {
                            RouteOutcome::Arity(id, m.needs.len(), args.len())
                        } else {
                            RouteOutcome::Call(id, args, m.needs, m.method)
                        }
                    },
                }
            },
        },
    }
}

pub open spec fn outcome_of(r: Result<Route, EvalError>) -> RouteOutcome {
    match r {
        Ok(Route::Direct) => RouteOutcome::Direct,
        Ok(Route::Call(c)) => RouteOutcome::Call(
            c.name@,
            texts(c.args@),
            texts(c.vars@),
            crate::record::opt_text(c.formula),
        ),
        Err(EvalError::ModCallMalformed(n)) => RouteOutcome::Malformed(n@),
        Err(EvalError::ModArityMismatch { name, expected, actual }) => RouteOutcome::Arity(
            name@,
            expected as nat,
            actual as nat,
        ),
        _ => RouteOutcome::Other,
    }
}

/// The pieces of `inner` between commas, each trimmed.
fn split_args(inner: &str) -> (r: Vec<String>)
    ensures
        texts(r@) == split_spec(inner@, ',').map_values(|a: Seq<char>| trim_spec(a)),
{
    let pieces = split_char(inner, ',');
    let ghost pv = views(pieces@);
    let mut out: Vec<String> = Vec::new();
    let mut i: usize = 0;
    while i < pieces.len()
        invariant
            pv == views(pieces@),
            pv == split_spec(inner@, ','),
            i <= pieces@.len(),
            texts(out@) == pv.subrange(0, i as int).map_values(|a: Seq<char>| trim_spec(a)),
        decreases pieces@.len() - i,
    {
        let ghost before = out@;
        let a = trim(pieces[i]).to_owned();
        out.push(a);
        proof {
            assert(pv[i as int] == pieces@[i as int]@);
            assert(texts(out@) =~= texts(before).push(a@));
            assert(pv.subrange(0, i + 1).map_values(|a: Seq<char>| trim_spec(a))
                =~= pv.subrange(0, i as int).map_values(|a: Seq<char>| trim_spec(a)).push(
                trim_spec(pv[i as int])));
        }
        i = i + 1;
    }
    assert(pv.subrange(0, pieces@.len() as int) =~= pv);
    out
}

/// Routes `expression` against the mods of `mods`.
pub fn route(mods: &ModManager, expression: &str) -> (r: Result<Route, EvalError>)
    ensures
        outcome_of(r) == route_outcome(mods.state().mods, expression@),
{
    let p = match find_char(expression, '(') {
        Some(p) => p,
        None => return Ok(Route::Direct),
    };
    proof {
        crate::text::lemma_find_from_bounds(expression@, '(', 0);
    }
    let id = trim(expression.substring_char(0, p));
    let m = match mods.get_mod(id) {
        Some(m) => m,
        None => return Ok(Route::Direct),
    };
    let name = id.to_owned();
    let q = match rfind_char(expression, ')') {
        Some(q) => q,
        None => return Err(EvalError::ModCallMalformed(name)),
    };
    proof {
        crate::text::lemma_find_last_bounds(expression@, ')', expression@.len() as int);
    }
    if q <= p {
        return Err(EvalError::ModCallMalformed(name));
    }
    let inner = expression.substring_char(p + 1, q);
    if trim(inner).unicode_len() == 0 {
        return Err(EvalError::ModCallMalformed(name));
    }
    let args = split_args(inner);
    let expected = m.var.needvars.len();
    if args.len() != expected {
        return Err(EvalError::ModArityMismatch { name, expected, actual: args.len() });
    }
    let formula = match &m.calc.howto {
        Some(f) => Some(f.clone()),
        None => None,
    };
    Ok(Route::Call(ModCall { name, args, vars: m.var.needvars.clone(), formula }))
}

impl ModCall {
    /// The formula to evaluate, or the error of a mod without one.
    pub fn formula_text(&self) -> (r: Result<&str, EvalError>)
        ensures
            self.formula matches Some(f) ==> (r matches Ok(t) && t@ == f@),
            self.formula is None ==> (r matches Err(EvalError::ModHasNoBody(n)) && n@
                == self.name@),
    {
        match &self.formula {
            Some(f) => Ok(f.as_str()),
            None => Err(EvalError::ModHasNoBody(self.name.clone())),
        }
    }
}

} // verus!
