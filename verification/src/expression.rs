//! Symbols, environments and calls, and the decisions around evaluating R
//! code: what a parse status means and what an R error reads as.
use crate::sexp::{no_nul_text, Sexp, SEXPTYPE};
use crate::text::{push_str, string_of};
use vstd::prelude::*;

verus! {

/// An interned R symbol.
pub struct RSymbol {
    sexp: Sexp,
}

impl RSymbol {
    /// The symbol object.
    pub closed spec fn sexp_view(&self) -> Sexp {
        self.sexp
    }

    /// The symbol named `name` (`Rf_install`).
    pub fn new(name: &str) -> (r: RSymbol)
        requires
            no_nul_text(name@),
        ensures
            r.sexp_view().stype() == SEXPTYPE::SYMSXP,
            r.sexp_view().sym() == name@,
            r.sexp_view().bare(),
    {
        RSymbol { sexp: Sexp::symbol(string_of(name)) }
    }

    /// The symbol object.
    pub fn as_sexp(&self) -> (r: &Sexp)
        ensures
            *r == self.sexp_view(),
    {
        &self.sexp
    }
}

/// Identity of the global environment.
pub const GLOBAL_ENV_ID: u64 = 0;

/// Identity of the base environment.
pub const BASE_ENV_ID: u64 = 1;

/// Identity of the empty environment.
pub const EMPTY_ENV_ID: u64 = 2;

/// Identity of the base namespace.
pub const BASE_NAMESPACE_ID: u64 = 3;

/// Which environment an [`REnv`] stands for.
#[derive(Debug, Clone, Copy, PartialEq, Eq, Structural)]
pub enum EnvKind {
    /// The global environment.
    Global,
    /// The base environment.
    Base,
    /// The empty environment.
    Empty,
    /// The base namespace.
    BaseNamespace,
    /// Any other environment.
    Other,
}

/// An R environment.
pub struct REnv {
    sexp: Sexp,
    kind: EnvKind,
}

impl REnv {
    /// The environment object.
    pub closed spec fn sexp_view(&self) -> Sexp {
        self.sexp
    }

    /// Which environment this is.
    pub closed spec fn kind_view(&self) -> EnvKind {
        self.kind
    }

    fn fixed(kind: EnvKind, id: u64) -> (r: REnv)
        ensures
            r.kind_view() == kind,
            r.sexp_view().stype() == SEXPTYPE::ENVSXP,
            r.sexp_view().env_id() == Some(id),
            r.sexp_view().bare(),
    {
        REnv { sexp: Sexp::environment(id), kind }
    }

    /// The global environment.
    pub fn global() -> (r: REnv)
        ensures
            r.kind_view() == EnvKind::Global,
            r.sexp_view().stype() == SEXPTYPE::ENVSXP,
            r.sexp_view().env_id() == Some(GLOBAL_ENV_ID),
            r.sexp_view().bare(),
    {
        REnv::fixed(EnvKind::Global, GLOBAL_ENV_ID)
    }

    /// The base environment.
    pub fn base() -> (r: REnv)
        ensures
            r.kind_view() == EnvKind::Base,
            r.sexp_view().stype() == SEXPTYPE::ENVSXP,
            r.sexp_view().env_id() == Some(BASE_ENV_ID),
            r.sexp_view().bare(),
    {
        REnv::fixed(EnvKind::Base, BASE_ENV_ID)
    }

    /// The empty environment.
    pub fn empty() -> (r: REnv)
        ensures
            r.kind_view() == EnvKind::Empty,
            r.sexp_view().stype() == SEXPTYPE::ENVSXP,
            r.sexp_view().env_id() == Some(EMPTY_ENV_ID),
            r.sexp_view().bare(),
    {
        REnv::fixed(EnvKind::Empty, EMPTY_ENV_ID)
    }

    /// The base namespace.
    pub fn base_namespace() -> (r: REnv)
        ensures
            r.kind_view() == EnvKind::BaseNamespace,
            r.sexp_view().stype() == SEXPTYPE::ENVSXP,
            r.sexp_view().env_id() == Some(BASE_NAMESPACE_ID),
            r.sexp_view().bare(),
    {
        REnv::fixed(EnvKind::BaseNamespace, BASE_NAMESPACE_ID)
    }

    /// Wrap an environment object.
    pub fn from_sexp(sexp: Sexp) -> (r: REnv)
        ensures
            r.sexp_view() == sexp,
            r.kind_view() == EnvKind::Other,
    {
        REnv { sexp, kind: EnvKind::Other }
    }

    /// The environment object.
    pub fn as_sexp(&self) -> (r: &Sexp)
        ensures
            *r == self.sexp_view(),
    {
        &self.sexp
    }
}

/// A function call under construction: the function and its arguments, in
/// order, each optionally named.
pub struct RCall {
    fun: Sexp,
    args: Vec<(Option<String>, Sexp)>,
}

impl RCall {
    /// The function.
    pub closed spec fn fun_view(&self) -> Sexp {
        self.fun
    }

    /// The arguments' names, in order.
    pub closed spec fn arg_names(&self) -> Seq<Option<Seq<char>>> {
        self.args@.map_values(|a: (Option<String>, Sexp)| crate::sexp::opt_str_view(a.0))
    }

    /// The arguments' values, in order.
    pub closed spec fn arg_values(&self) -> Seq<Sexp> {
        self.args@.map_values(|a: (Option<String>, Sexp)| a.1)
    }

    /// A call of the function named `fun_name`.
    pub fn new(fun_name: &str) -> (r: RCall)
        requires
            no_nul_text(fun_name@),
        ensures
            r.fun_view().stype() == SEXPTYPE::SYMSXP,
            r.fun_view().sym() == fun_name@,
            r.arg_names().len() == 0,
            r.arg_values().len() == 0,
    {
        let r = RCall { fun: Sexp::symbol(string_of(fun_name)), args: Vec::new() };
        proof {
            assert(r.arg_names() =~= Seq::<Option<Seq<char>>>::empty());
            assert(r.arg_values() =~= Seq::<Sexp>::empty());
        }
        r
    }

    /// A call of the given function object.
    pub fn from_sexp(fun: Sexp) -> (r: RCall)
        ensures
            r.fun_view() == fun,
            r.arg_names().len() == 0,
            r.arg_values().len() == 0,
    {
        let r = RCall { fun, args: Vec::new() };
        proof {
            assert(r.arg_names() =~= Seq::<Option<Seq<char>>>::empty());
            assert(r.arg_values() =~= Seq::<Sexp>::empty());
        }
        r
    }

    /// Append an unnamed argument.
    pub fn arg(self, value: Sexp) -> (r: RCall)
        ensures
            r.fun_view() == self.fun_view(),
            r.arg_names() == self.arg_names().push(None),
            r.arg_values() == self.arg_values().push(value),
    {
        let RCall { fun, mut args } = self;
        let ghost before = args@;
        args.push((None, value));
        let r = RCall { fun, args };
        proof {
            assert(r.arg_names() =~= self.arg_names().push(None));
            assert(r.arg_values() =~= self.arg_values().push(value));
        }
        r
    }

    /// Append a named argument.
    pub fn named_arg(self, name: &str, value: Sexp) -> (r: RCall)
        requires
            no_nul_text(name@),
        ensures
            r.fun_view() == self.fun_view(),
            r.arg_names() == self.arg_names().push(Some(name@)),
            r.arg_values() == self.arg_values().push(value),
    {
        let RCall { fun, mut args } = self;
        args.push((Some(string_of(name)), value));
        let r = RCall { fun, args };
        proof {
            assert(r.arg_names() =~= self.arg_names().push(Some(name@)));
            assert(r.arg_values() =~= self.arg_values().push(value));
        }
        r
    }

    /// The function.
    pub fn fun(&self) -> (r: &Sexp)
        ensures
            *r == self.fun_view(),
    {
        &self.fun
    }

    /// The arguments, in order.
    pub fn args(&self) -> (r: &[(Option<String>, Sexp)])
        ensures
            r@.map_values(|a: (Option<String>, Sexp)| crate::sexp::opt_str_view(a.0)) == self.arg_names(),
            r@.map_values(|a: (Option<String>, Sexp)| a.1) == self.arg_values(),
    {
        self.args.as_slice()
    }
}

/// The outcome of parsing R code (`R_ParseVector`'s status).
#[derive(Debug, Clone, Copy, PartialEq, Eq, Structural)]
pub enum ParseStatus {
    PARSE_NULL,
    PARSE_OK,
    PARSE_INCOMPLETE,
    PARSE_ERROR,
    PARSE_EOF,
}

/// What a failed parse of `code` reports.
pub open spec fn parse_failure_text(status: ParseStatus, code: Seq<char>) -> Option<Seq<char>> {
    match status {
        ParseStatus::PARSE_OK => None,
        ParseStatus::PARSE_INCOMPLETE => Some(
            "incomplete R expression (unbalanced delimiter?): "@ + code,
        ),
        ParseStatus::PARSE_ERROR => Some("R syntax error while parsing: "@ + code),
        ParseStatus::PARSE_EOF => Some("unexpected end of input while parsing: "@ + code),
        ParseStatus::PARSE_NULL => Some("R_ParseVector returned PARSE_NULL for: "@ + code),
    }
}

/// The error for parsing `code` with `status`; `None` when it parsed.
pub fn parse_failure(status: ParseStatus, code: &str) -> (r: Option<String>)
    ensures
        match r {
            Some(m) => parse_failure_text(status, code@) == Some(m@),
            None => parse_failure_text(status, code@) is None,
        },
{
    let prefix = match status {
        ParseStatus::PARSE_OK => {
            return None;
        },
        ParseStatus::PARSE_INCOMPLETE => "incomplete R expression (unbalanced delimiter?): ",
        ParseStatus::PARSE_ERROR => "R syntax error while parsing: ",
        ParseStatus::PARSE_EOF => "unexpected end of input while parsing: ",
        ParseStatus::PARSE_NULL => "R_ParseVector returned PARSE_NULL for: ",
    };
    let mut m = string_of(prefix);
    push_str(&mut m, code);
    Some(m)
}

/// Whether a character is whitespace in Unicode's sense (the `White_Space`
/// property, which `char::is_whitespace` tests and `str::trim_end` removes).
pub open spec fn is_unicode_whitespace(c: char) -> bool {
    let n = c as u32;
    ||| 0x09 <= n <= 0x0D
    ||| n == 0x20
    ||| n == 0x85
    ||| n == 0xA0
    ||| n == 0x1680
    ||| 0x2000 <= n <= 0x200A
    ||| n == 0x2028
    ||| n == 0x2029
    ||| n == 0x202F
    ||| n == 0x205F
    ||| n == 0x3000
}

/// Executable form of [`is_unicode_whitespace`].
pub fn char_is_whitespace(c: char) -> (r: bool)
    ensures
        r == is_unicode_whitespace(c),
{
    let n = c as u32;
    (0x09 <= n && n <= 0x0D) || n == 0x20 || n == 0x85 || n == 0xA0 || n == 0x1680 || (0x2000
        <= n && n <= 0x200A) || n == 0x2028 || n == 0x2029 || n == 0x202F || n == 0x205F || n
        == 0x3000
}

/// `s` without trailing whitespace.
pub open spec fn trimmed_end(s: Seq<char>) -> Seq<char>
    decreases s.len(),
{
    if s.len() > 0 && is_unicode_whitespace(s.last()) {
        trimmed_end(s.drop_last())
    } else {
        s
    }
}

/// Trimming keeps a prefix that does not end in whitespace, so trimming
/// again changes nothing.
pub proof fn lemma_trim_end_idempotent(s: Seq<char>)
    ensures
        trimmed_end(trimmed_end(s)) == trimmed_end(s),
        trimmed_end(s).len() <= s.len(),
        trimmed_end(s) == s.subrange(0, trimmed_end(s).len() as int),
        trimmed_end(s).len() > 0 ==> !is_unicode_whitespace(trimmed_end(s).last()),
    decreases s.len(),
{
    if s.len() > 0 && is_unicode_whitespace(s.last()) {
        lemma_trim_end_idempotent(s.drop_last());
        let t = trimmed_end(s.drop_last());
        assert(t == s.drop_last().subrange(0, t.len() as int));
        assert(s.drop_last().subrange(0, t.len() as int) =~= s.subrange(0, t.len() as int));
    } else {
        assert(s.subrange(0, s.len() as int) =~= s);
    }
}

/// `s` without trailing whitespace.
pub fn trim_end(s: &str) -> (r: String)
    ensures
        r@ == trimmed_end(s@),
{
    let mut end = s.unicode_len();
    proof {
        assert(s@.subrange(0, end as int) =~= s@);
    }
    loop
        invariant
            end <= s@.len(),
            trimmed_end(s@) == trimmed_end(s@.subrange(0, end as int)),
        ensures
            end <= s@.len(),
            trimmed_end(s@) == s@.subrange(0, end as int),
        decreases end,
    {
        if end == 0 {
            break;
        }
        let c = s.get_char(end - 1);
        if !char_is_whitespace(c) {
            break;
        }
        proof {
            assert(s@.subrange(0, end as int).drop_last() =~= s@.subrange(0, end - 1));
        }
        end = end - 1;
    }
    string_of(s.substring_char(0, end))
}

/// What an R error reads as, from the result of evaluating
/// `geterrmessage()` (`None` when that evaluation failed): the first string
/// without trailing whitespace, or a fallback.
pub open spec fn r_error_text(msg: Option<Sexp>) -> Seq<char> {
    match msg {
        None => "R error occurred (could not retrieve message)"@,
        Some(m) => if m.stype() == SEXPTYPE::STRSXP && m.strs().len() > 0 && m.strs()[0] is Some {
            trimmed_end(m.strs()[0]->0)
        } else {
            "R error occurred"@
        },
    }
}

/// The error message of the last R error, from the result of evaluating
/// `geterrmessage()`.
pub fn r_error_message(msg: Option<&Sexp>) -> (r: String)
    ensures
        r@ == r_error_text(
            match msg {
                Some(m) => Some(*m),
                None => None,
            },
        ),
{
    match msg {
        None => string_of("R error occurred (could not retrieve message)"),
        Some(m) => {
            if m.type_of() == SEXPTYPE::STRSXP {
                let v = m.str_slice();
                proof {
                    m.lemma_type_consistent();
                }
                if v.len() > 0 {
                    proof {
                        assert(m.strs()[0] == crate::sexp::opt_str_view(v@[0]));
                    }
                    match &v[0] {
                        Some(t) => {
                            return trim_end(t.as_str());
                        },
                        None => {},
                    }
                }
            }
            string_of("R error occurred")
        },
    }
}

/// What evaluating parsed code does next.
#[derive(Debug, Clone, Copy, PartialEq, Eq, Structural)]
pub enum EvalAction {
    /// Evaluate the expression at this position (counting from 0).
    Evaluate(usize),
    /// Stop with the value of the last expression evaluated, `NULL` when
    /// there were none.
    Finish,
    /// Stop: the expression just evaluated raised an R error, whose message
    /// is the result.
    Fail,
}

/// How many expressions stand evaluated after one more outcome: one more
/// when it succeeded and some were left.
pub open spec fn evaluated_after(evaluated: nat, count: nat, ok: bool) -> nat {
    if ok && evaluated < count {
        evaluated + 1
    } else {
        evaluated
    }
}

/// What follows an outcome when `evaluated` of `count` expressions had
/// succeeded before it: an error fails, the last success finishes, and any
/// other success asks for the next expression.
pub open spec fn action_after(evaluated: nat, count: nat, ok: bool) -> EvalAction {
    if !ok {
        EvalAction::Fail
    } else if evaluated + 1 >= count {
        EvalAction::Finish
    } else {
        EvalAction::Evaluate((evaluated + 1) as usize)
    }
}

/// Progress through the expressions of a parse: each is evaluated in order,
/// the value of the last is the result, and the first error ends it.
pub struct EvalProgress {
    count: usize,
    evaluated: usize,
}

impl EvalProgress {
    #[verifier::type_invariant]
    closed spec fn inv(self) -> bool {
        self.evaluated <= self.count
    }

    /// How many expressions were parsed.
    pub closed spec fn count_view(&self) -> nat {
        self.count as nat
    }

    /// How many have been evaluated without error.
    pub closed spec fn evaluated_view(&self) -> nat {
        self.evaluated as nat
    }

    /// Start on `count` parsed expressions: evaluate the first, or finish
    /// at once (with `NULL`) when there are none.
    pub fn start(count: usize) -> (r: (EvalProgress, EvalAction))
        ensures
            r.0.count_view() == count,
            r.0.evaluated_view() == 0,
            r.1 == (if count == 0 {
                EvalAction::Finish
            } else {
                EvalAction::Evaluate(0)
            }),
    {
        let p = EvalProgress { count, evaluated: 0 };
        if count == 0 {
            (p, EvalAction::Finish)
        } else {
            (p, EvalAction::Evaluate(0))
        }
    }

    /// Take the outcome of the evaluation just asked for (`ok`: no R error)
    /// and say what comes next.
    pub fn step(&mut self, ok: bool) -> (r: EvalAction)
        ensures
            final(self).count_view() == old(self).count_view(),
            final(self).evaluated_view() == evaluated_after(
                old(self).evaluated_view(),
                old(self).count_view(),
                ok,
            ),
            r == action_after(old(self).evaluated_view(), old(self).count_view(), ok),
    {
        proof {
            use_type_invariant(&*self);
        }
        if !ok {
            return EvalAction::Fail;
        }
        if self.evaluated == self.count {
            return EvalAction::Finish;
        }
        self.evaluated = self.evaluated + 1;
        if self.evaluated == self.count {
            EvalAction::Finish
        } else {
            EvalAction::Evaluate(self.evaluated)
        }
    }
}

} // verus!
