//! The value model: a single tagged union represents both code and data, and
//! an environment is a chain of binding frames.
use vstd::prelude::*;

verus! {

/// Identifies one native procedure of the builtin library.
#[derive(Clone, Copy, PartialEq, Eq, Structural, Debug)]
pub enum Builtin {
    Add,
    Sub,
    Mul,
    Div,
    Gt,
    Lt,
    Ge,
    Le,
    NumEq,
    NumNe,
    Abs,
    Min,
    List,
    IsList,
    Car,
    Cdr,
    Cons,
    IsEq,
    Len,
    Not,
    IsNull,
    IsNumber,
    IsSymbol,
}

/// The shape a value was required to have when a type fault was raised.
#[derive(Clone, Copy, PartialEq, Eq, Structural, Debug)]
pub enum TypeErrorKind {
    ExpectedBoolean,
    NotCallable,
    NotNumber,
    NotList,
    NotSymbol,
}

/// Every fault that aborts a tokenization, a parse or an evaluation.
#[derive(Clone, Copy, PartialEq, Eq, Structural, Debug)]
pub enum LispError {
    /// Tokenizing empty or whitespace-only input yields no forms.
    LexEmpty,
    /// The token stream was exhausted mid-form.
    ParseUnexpectedEof,
    /// A `)` was met with no corresponding open paren.
    ParseUnmatchedCloseParen,
    /// A value stood in a position requiring a different shape.
    TypeError(TypeErrorKind),
    /// Fewer arguments than parameters, or a special form of the wrong length.
    ArityMismatch,
    /// An empty list was evaluated as an application.
    EmptyApplication,
    /// The evaluator's recursion bound was exhausted (a resource fault: the
    /// dialect has no tail-call elimination, so nesting depth is a hard limit).
    RecursionLimit,
}

/// A runtime datum or an unevaluated program form; the duality is deliberate:
/// the parser only ever produces `Sym` and `SExpr` nodes.
#[derive(Debug, PartialEq)]
pub enum LVal {
    /// A double-precision number, carried as its IEEE-754 bit pattern.
    Num(u64),
    /// An identifier; also the parser's untyped atom.
    Sym(String),
    /// A textual value (produced when a native procedure returns a symbol).
    Str(String),
    Bool(bool),
    /// A user-defined procedure: parameters, body forms, and a snapshot of
    /// the environment in effect at its creation.
    Proc { env: Env, params: Vec<LVal>, body: Vec<LVal> },
    /// A native procedure of the builtin library.
    F(Builtin),
    /// An ordered sequence of values: code as well as data.
    SExpr(Vec<LVal>),
    /// The result of a purely side-effecting form (`define`, `set!`).
    Succ,
}

/// A chain of binding frames: the innermost frame plus an optional parent.
#[derive(Debug, PartialEq)]
pub struct Env {
    /// The innermost frame's bindings, looked up front to back.
    pub current: Vec<(String, LVal)>,
    /// The enclosing frame, absent for the root environment.
    pub outer: Option<Box<Env>>,
}

/// The mathematical model of a value.
#[verifier::ext_equal]
pub enum ValS {
    Num(u64),
    Sym(Seq<char>),
    Str(Seq<char>),
    Bool(bool),
    Proc { env: EnvS, params: Seq<ValS>, body: Seq<ValS> },
    F(Builtin),
    SExpr(Seq<ValS>),
    Succ,
}

/// The mathematical model of an environment chain.
#[verifier::ext_equal]
pub struct EnvS {
    pub current: Seq<(Seq<char>, ValS)>,
    pub outer: Option<Box<EnvS>>,
}


impl LVal {
    /// The mathematical value this datum stands for.
    pub open spec fn model(&self) -> ValS
        decreases self via Self::model_decreases
    {
        match self {
            LVal::Num(n) => ValS::Num(*n),
            LVal::Sym(s) => ValS::Sym(s@),
            LVal::Str(s) => ValS::Str(s@),
            LVal::Bool(b) => ValS::Bool(*b),
            LVal::Proc { env, params, body } => ValS::Proc {
                env: env.model(),
                params: model_seq(params@),
                body: model_seq(body@),
            },
            LVal::F(b) => ValS::F(*b),
            LVal::SExpr(items) => ValS::SExpr(model_seq(items@)),
            LVal::Succ => ValS::Succ,
        }
    }

    #[via_fn]
    proof fn model_decreases(&self) {
        match self {
            LVal::Proc { env, params, body } => {
                assert(decreases_to!(*self => *params));
                assert(decreases_to!(*params => params@));
                assert(decreases_to!(*self => *body));
                assert(decreases_to!(*body => body@));
            },
            LVal::SExpr(items) => {
                assert(decreases_to!(*self => *items));
                assert(decreases_to!(*items => items@));
            },
            _ => {},
        }
    }
}

/// The models of a sequence of values, in order.
pub open spec fn model_seq(s: Seq<LVal>) -> Seq<ValS>
    decreases s,
{
    if s.len() == 0 {
        Seq::empty()
    } else {
        seq![s[0].model()] + model_seq(s.subrange(1, s.len() as int))
    }
}

impl Env {
    /// The mathematical environment chain this value stands for.
    pub open spec fn model(&self) -> EnvS
        decreases self via Self::model_decreases
    {
        EnvS {
            current: frame_model_seq(self.current@),
            outer: match &self.outer {
                Some(b) => Some(Box::new((**b).model())),
                None => None,
            },
        }
    }

    #[via_fn]
    proof fn model_decreases(&self) {
        assert(decreases_to!(*self => self.current));
        assert(decreases_to!(self.current => self.current@));
    }
}

/// The models of a sequence of bindings, in order.
pub open spec fn frame_model_seq(s: Seq<(String, LVal)>) -> Seq<(Seq<char>, ValS)>
    decreases s,
{
    if s.len() == 0 {
        Seq::empty()
    } else {
        seq![binding_model(s[0])] + frame_model_seq(s.subrange(1, s.len() as int))
    }
}

/// The model of one binding.
pub open spec fn binding_model(b: (String, LVal)) -> (Seq<char>, ValS)
    decreases b,
{
    (b.0@, b.1.model())
}

/// The pointwise reading of `model_seq`.
pub broadcast proof fn lemma_model_seq(s: Seq<LVal>)
    ensures
        (#[trigger] model_seq(s)).len() == s.len(),
        forall|i: int| 0 <= i < s.len() ==> model_seq(s)[i] == s[i].model(),
    decreases s.len(),
{
    if s.len() > 0 {
        lemma_model_seq(s.subrange(1, s.len() as int));
    }
}

/// Appending a value appends its model.
pub proof fn lemma_model_seq_push(s: Seq<LVal>, x: LVal)
    ensures
        model_seq(s.push(x)) == model_seq(s).push(x.model()),
{
    lemma_model_seq(s.push(x));
    lemma_model_seq(s);
    assert(model_seq(s.push(x)) =~= model_seq(s).push(x.model()));
}

/// The pointwise reading of `frame_model_seq`.
pub broadcast proof fn lemma_frame_model_seq(s: Seq<(String, LVal)>)
    ensures
        (#[trigger] frame_model_seq(s)).len() == s.len(),
        forall|i: int| 0 <= i < s.len() ==> frame_model_seq(s)[i] == binding_model(s[i]),
    decreases s.len(),
{
    if s.len() > 0 {
        lemma_frame_model_seq(s.subrange(1, s.len() as int));
    }
}

/// A copy of a value, equal to the original in the model.
pub fn clone_val(v: &LVal) -> (res: LVal)
    ensures
        res@ == v@,
    decreases v,
{
    match v {
        LVal::Num(n) => LVal::Num(*n),
        LVal::Sym(s) => LVal::Sym(s.clone()),
        LVal::Str(s) => LVal::Str(s.clone()),
        LVal::Bool(b) => LVal::Bool(*b),
        LVal::Proc { env, params, body } => {
            let e2 = clone_env(env);
            let p2 = clone_val_vec(params);
            let b2 = clone_val_vec(body);
            let res = LVal::Proc { env: e2, params: p2, body: b2 };
            proof {
                lemma_model_seq(p2@);
                lemma_model_seq(params@);
                lemma_model_seq(b2@);
                lemma_model_seq(body@);
                assert(model_seq(p2@) =~= model_seq(params@));
                assert(model_seq(b2@) =~= model_seq(body@));
            }
            res
        },
        LVal::F(b) => LVal::F(*b),
        LVal::SExpr(items) => {
            let items2 = clone_val_vec(items);
            let res = LVal::SExpr(items2);
            proof {
                lemma_model_seq(items2@);
                lemma_model_seq(items@);
                assert(model_seq(items2@) =~= model_seq(items@));
            }
            res
        },
        LVal::Succ => LVal::Succ,
    }
}

/// An elementwise copy of a vector of values.
pub fn clone_val_vec(v: &Vec<LVal>) -> (res: Vec<LVal>)
    ensures
        res@.len() == v@.len(),
        forall|k: int| 0 <= k < v@.len() ==> res@[k].model() == v@[k].model(),
    decreases v,
{
    let mut out: Vec<LVal> = Vec::new();
    let n = v.len();
    let mut i: usize = 0;
    while i < n
        invariant
            i <= n,
            n == v@.len(),
            out@.len() == i,
            forall|k: int| 0 <= k < i ==> out@[k].model() == v@[k].model(),
        decreases n - i,
    {
        proof {
            assert(decreases_to!(*v => v@));
            assert(decreases_to!(v@ => v@[i as int]));
            assert(decreases_to!(*v => v@[i as int]));
        }
        let c = clone_val(&v[i]);
        out.push(c);
        i += 1;
    }
    out
}

/// An elementwise copy of part of a vector of values.
pub fn clone_val_range(v: &Vec<LVal>, a: usize, b: usize) -> (res: Vec<LVal>)
    requires
        a <= b <= v@.len(),
    ensures
        res@.len() == b - a,
        forall|k: int| 0 <= k < b - a ==> res@[k].model() == v@[a + k].model(),
{
    let mut out: Vec<LVal> = Vec::new();
    let mut i: usize = a;
    while i < b
        invariant
            a <= i <= b <= v@.len(),
            out@.len() == i - a,
            forall|k: int| 0 <= k < i - a ==> out@[k].model() == v@[a + k].model(),
        decreases b - i,
    {
        let c = clone_val(&v[i]);
        out.push(c);
        i += 1;
    }
    out
}

/// A copy of an environment chain, equal to the original in the model.
pub fn clone_env(e: &Env) -> (res: Env)
    ensures
        res@ == e@,
    decreases e,
{
    let fr = clone_frame_vec(&e.current);
    let out = match &e.outer {
        Some(b) => Some(Box::new(clone_env(&**b))),
        None => None,
    };
    let res = Env { current: fr, outer: out };
    proof {
        reveal_with_fuel(Env::model, 2);
        lemma_frame_model_seq(fr@);
        lemma_frame_model_seq(e.current@);
        assert(frame_model_seq(fr@) =~= frame_model_seq(e.current@));
        assert(res@ =~~= e@);
    }
    res
}

/// An elementwise copy of a frame's bindings.
pub fn clone_frame_vec(v: &Vec<(String, LVal)>) -> (res: Vec<(String, LVal)>)
    ensures
        res@.len() == v@.len(),
        forall|k: int| 0 <= k < v@.len() ==> binding_model(#[trigger] res@[k]) == binding_model(
            v@[k],
        ),
    decreases v,
{
    let mut out: Vec<(String, LVal)> = Vec::new();
    let n = v.len();
    let mut i: usize = 0;
    while i < n
        invariant
            i <= n,
            n == v@.len(),
            out@.len() == i,
            forall|k: int| 0 <= k < i ==> binding_model(#[trigger] out@[k]) == binding_model(
                v@[k],
            ),
        decreases n - i,
    {
        proof {
            assert(decreases_to!(*v => v@));
            assert(decreases_to!(v@ => v@[i as int]));
            assert(decreases_to!(*v => v@[i as int]));
            assert(decreases_to!(*v => v@[i as int].1));
        }
        let name = v[i].0.clone();
        let value = clone_val(&v[i].1);
        out.push((name, value));
        i += 1;
    }
    out
}

impl Clone for LVal {
    /// A copy whose model equals the original's.
    fn clone(&self) -> (res: Self)
        ensures
            res@ == self@,
    {
        clone_val(self)
    }
}

impl Clone for Env {
    /// A copy whose model equals the original's.
    fn clone(&self) -> (res: Self)
        ensures
            res@ == self@,
    {
        clone_env(self)
    }
}

/// The model of a result that carries text.
pub open spec fn str_res_model(r: Result<String, LispError>) -> Result<Seq<char>, LispError> {
    match r {
        Ok(s) => Ok(s@),
        Err(e) => Err(e),
    }
}

/// The model of a result that carries a value.
pub open spec fn val_res_model(r: Result<LVal, LispError>) -> Result<ValS, LispError> {
    match r {
        Ok(v) => Ok(v@),
        Err(e) => Err(e),
    }
}

/// The model of a result that carries a vector of values.
pub open spec fn vec_res_model(r: Result<Vec<LVal>, LispError>) -> Result<Seq<ValS>, LispError> {
    match r {
        Ok(v) => Ok(model_seq(v@)),
        Err(e) => Err(e),
    }
}

/// The text a symbol carries; any other shape is a type fault.
pub open spec fn spec_into_value(v: ValS) -> Result<Seq<char>, LispError> {
    match v {
        ValS::Sym(t) => Ok(t),
        _ => Err(LispError::TypeError(TypeErrorKind::NotSymbol)),
    }
}

/// The elements a list carries; any other shape is a type fault.
pub open spec fn spec_into_vec(v: ValS) -> Result<Seq<ValS>, LispError> {
    match v {
        ValS::SExpr(items) => Ok(items),
        _ => Err(LispError::TypeError(TypeErrorKind::NotList)),
    }
}

/// The double a value denotes: a number's own bits, or the parsed text of a
/// symbol or string; anything else, or unparsable text, is a type fault.
pub open spec fn spec_to_float(v: ValS) -> Result<u64, LispError> {
    match v {
        ValS::Num(n) => Ok(n),
        ValS::Sym(t) => match crate::numeric::parse_num(t) {
            Some(b) => Ok(b),
            None => Err(LispError::TypeError(TypeErrorKind::NotNumber)),
        },
        ValS::Str(t) => match crate::numeric::parse_num(t) {
            Some(b) => Ok(b),
            None => Err(LispError::TypeError(TypeErrorKind::NotNumber)),
        },
        _ => Err(LispError::TypeError(TypeErrorKind::NotNumber)),
    }
}

impl LVal {
    /// The text of a symbol.
    pub fn into_value(&self) -> (r: Result<String, LispError>)
        ensures
            str_res_model(r) == spec_into_value(self@),
    {
        if let LVal::Sym(v) = self {
            Ok(v.clone())
        } else {
            Err(LispError::TypeError(TypeErrorKind::NotSymbol))
        }
    }

    /// The elements of a list.
    pub fn into_vec(&self) -> (r: Result<Vec<LVal>, LispError>)
        ensures
            vec_res_model(r) == spec_into_vec(self@),
    {
        if let LVal::SExpr(v) = self {
            let out = clone_val_vec(v);
            proof {
                lemma_model_seq(out@);
                lemma_model_seq(v@);
                assert(model_seq(out@) =~= model_seq(v@));
            }
            Ok(out)
        } else {
            Err(LispError::TypeError(TypeErrorKind::NotList))
        }
    }

    /// The double a value denotes, as its bit pattern.
    pub fn to_float(&self) -> (r: Result<u64, LispError>)
        ensures
            r == spec_to_float(self@),
    {
        match self {
            LVal::Sym(v) => match crate::numeric::parse_number(v.as_str()) {
                Some(b) => Ok(b),
                None => Err(LispError::TypeError(TypeErrorKind::NotNumber)),
            },
            LVal::Str(v) => match crate::numeric::parse_number(v.as_str()) {
                Some(b) => Ok(b),
                None => Err(LispError::TypeError(TypeErrorKind::NotNumber)),
            },
            LVal::Num(v) => Ok(*v),
            _ => Err(LispError::TypeError(TypeErrorKind::NotNumber)),
        }
    }
}

impl View for LVal {
    type V = ValS;

    open spec fn view(&self) -> ValS {
        self.model()
    }
}

impl View for Env {
    type V = EnvS;

    open spec fn view(&self) -> EnvS {
        self.model()
    }
}

} // verus!
