//! The builtin library: the native procedures, their dispatch, and the
//! structural equality they use.
use vstd::prelude::*;

use crate::numeric::{
    abs, abs_bits, add_bits, bits_of_u64, div_bits, eq_bits, float_add, float_div, float_eq,
    float_ge, float_gt, float_le, float_lt, float_mul, float_of_u64, float_sub, ge_bits, gt_bits,
    le_bits, lt_bits, min, min_bits, mul_bits, parse_num, parse_number, sub_bits,
};
use crate::value::{
    clone_val_range, clone_val_vec, lemma_model_seq, model_seq, spec_into_value,
    spec_to_float, val_res_model, Builtin, Env, EnvS, LVal, LispError, TypeErrorKind, ValS,
};
use vstd::string::StringExecFns;

verus! {

/// Structural equality of two values; numbers compare by IEEE-754 equality.
pub open spec fn spec_val_eq(a: ValS, b: ValS) -> bool
    decreases a,
{
    match (a, b) {
        (ValS::Num(x), ValS::Num(y)) => eq_bits(x, y),
        (ValS::Sym(s), ValS::Sym(t)) => s == t,
        (ValS::Str(s), ValS::Str(t)) => s == t,
        (ValS::Bool(x), ValS::Bool(y)) => x == y,
        (ValS::F(f), ValS::F(g)) => f == g,
        (ValS::Succ, ValS::Succ) => true,
        (ValS::SExpr(xs), ValS::SExpr(ys)) => spec_val_eq_seq(xs, ys),
        (
            ValS::Proc { env: e1, params: p1, body: b1 },
            ValS::Proc { env: e2, params: p2, body: b2 },
        ) => spec_env_eq(e1, e2) && spec_val_eq_seq(p1, p2) && spec_val_eq_seq(b1, b2),
        _ => false,
    }
}

/// Elementwise structural equality of two sequences of values.
pub open spec fn spec_val_eq_seq(xs: Seq<ValS>, ys: Seq<ValS>) -> bool
    decreases xs,
{
    if xs.len() == 0 {
        ys.len() == 0
    } else {
        ys.len() > 0 && spec_val_eq(xs[0], ys[0]) && spec_val_eq_seq(
            xs.subrange(1, xs.len() as int),
            ys.subrange(1, ys.len() as int),
        )
    }
}

/// Structural equality of two environment chains.
pub open spec fn spec_env_eq(a: EnvS, b: EnvS) -> bool
    decreases a,
{
    spec_frame_eq(a.current, b.current) && match (a.outer, b.outer) {
        (None, None) => true,
        (Some(x), Some(y)) => spec_env_eq(*x, *y),
        _ => false,
    }
}

/// Elementwise equality of two frames.
pub open spec fn spec_frame_eq(xs: Seq<(Seq<char>, ValS)>, ys: Seq<(Seq<char>, ValS)>) -> bool
    decreases xs via spec_frame_eq_decreases
{
    if xs.len() == 0 {
        ys.len() == 0
    } else {
        ys.len() > 0 && xs[0].0 == ys[0].0 && spec_val_eq(xs[0].1, ys[0].1) && spec_frame_eq(
            xs.subrange(1, xs.len() as int),
            ys.subrange(1, ys.len() as int),
        )
    }
}

#[via_fn]
proof fn spec_frame_eq_decreases(xs: Seq<(Seq<char>, ValS)>, ys: Seq<(Seq<char>, ValS)>) {
    if xs.len() > 0 {
        assert(decreases_to!(xs => xs[0]));
        assert(decreases_to!(xs[0] => xs[0].1));
    }
}

/// Sequence equality read pointwise.
pub proof fn lemma_val_eq_seq(xs: Seq<ValS>, ys: Seq<ValS>)
    ensures
        spec_val_eq_seq(xs, ys) == (xs.len() == ys.len() && forall|k: int|
            0 <= k < xs.len() ==> spec_val_eq(#[trigger] xs[k], ys[k])),
    decreases xs.len(),
{
    if xs.len() > 0 {
        lemma_val_eq_seq(xs.subrange(1, xs.len() as int), ys.subrange(1, ys.len() as int));
        if ys.len() == xs.len() {
            assert forall|k: int|
                1 <= k < xs.len() implies (xs.subrange(1, xs.len() as int)[k - 1] == xs[k]
                && ys.subrange(1, ys.len() as int)[k - 1] == ys[k]) by {}
        }
    }
}

/// Frame equality read pointwise.
pub proof fn lemma_frame_eq_seq(xs: Seq<(Seq<char>, ValS)>, ys: Seq<(Seq<char>, ValS)>)
    ensures
        spec_frame_eq(xs, ys) == (xs.len() == ys.len() && forall|k: int|
            0 <= k < xs.len() ==> ((#[trigger] xs[k]).0 == ys[k].0 && spec_val_eq(
                xs[k].1,
                ys[k].1,
            ))),
    decreases xs.len(),
{
    if xs.len() > 0 {
        lemma_frame_eq_seq(xs.subrange(1, xs.len() as int), ys.subrange(1, ys.len() as int));
        if ys.len() == xs.len() {
            assert forall|k: int|
                1 <= k < xs.len() implies (xs.subrange(1, xs.len() as int)[k - 1] == xs[k]
                && ys.subrange(1, ys.len() as int)[k - 1] == ys[k]) by {}
        }
    }
}

/// Structural equality of two values, as `eq?` compares them.
pub fn val_eq(a: &LVal, b: &LVal) -> (r: bool)
    ensures
        r == spec_val_eq(a@, b@),
    decreases a,
{
    match (a, b) {
        (LVal::Num(x), LVal::Num(y)) => float_eq(*x, *y),
        (LVal::Sym(s), LVal::Sym(t)) => *s == *t,
        (LVal::Str(s), LVal::Str(t)) => *s == *t,
        (LVal::Bool(x), LVal::Bool(y)) => *x == *y,
        (LVal::F(f), LVal::F(g)) => *f == *g,
        (LVal::Succ, LVal::Succ) => true,
        (LVal::SExpr(xs), LVal::SExpr(ys)) => val_eq_vec(xs, ys),
        (
            LVal::Proc { env: e1, params: p1, body: b1 },
            LVal::Proc { env: e2, params: p2, body: b2 },
        ) => {
            let r1 = env_eq(e1, e2);
            let r2 = val_eq_vec(p1, p2);
            let r3 = val_eq_vec(b1, b2);
            r1 && r2 && r3
        },
        _ => false,
    }
}

/// Elementwise structural equality of two vectors of values.
pub fn val_eq_vec(xs: &Vec<LVal>, ys: &Vec<LVal>) -> (r: bool)
    ensures
        r == spec_val_eq_seq(model_seq(xs@), model_seq(ys@)),
    decreases xs,
{
    let ghost xm = model_seq(xs@);
    let ghost ym = model_seq(ys@);
    proof {
        lemma_model_seq(xs@);
        lemma_model_seq(ys@);
        lemma_val_eq_seq(xm, ym);
    }
    if xs.len() != ys.len() {
        return false;
    }
    let n = xs.len();
    let mut k: usize = 0;
    while k < n
        invariant
            k <= n,
            n == xs@.len(),
            n == ys@.len(),
            xm == model_seq(xs@),
            ym == model_seq(ys@),
            xm.len() == n,
            ym.len() == n,
            forall|j: int| 0 <= j < n ==> xm[j] == xs@[j].model() && ym[j] == ys@[j].model(),
            spec_val_eq_seq(xm, ym) == (forall|j: int|
                0 <= j < xm.len() ==> spec_val_eq(#[trigger] xm[j], ym[j])),
            forall|j: int| 0 <= j < k ==> spec_val_eq(#[trigger] xm[j], ym[j]),
        decreases n - k,
    {
        proof {
            assert(decreases_to!(*xs => xs@));
            assert(decreases_to!(xs@ => xs@[k as int]));
        }
        if !val_eq(&xs[k], &ys[k]) {
            proof {
                assert(!spec_val_eq(xm[k as int], ym[k as int]));
                assert(!spec_val_eq_seq(xm, ym));
            }
            return false;
        }
        k += 1;
    }
    true
}

/// Structural equality of two environment chains.
pub fn env_eq(a: &Env, b: &Env) -> (r: bool)
    ensures
        r == spec_env_eq(a@, b@),
    decreases a,
{
    let fr = frame_eq_vec(&a.current, &b.current);
    if !fr {
        return false;
    }
    match (&a.outer, &b.outer) {
        (None, None) => true,
        (Some(x), Some(y)) => env_eq(&**x, &**y),
        _ => false,
    }
}

/// Elementwise equality of two frames held as vectors.
pub fn frame_eq_vec(xs: &Vec<(String, LVal)>, ys: &Vec<(String, LVal)>) -> (r: bool)
    ensures
        r == spec_frame_eq(
            crate::value::frame_model_seq(xs@),
            crate::value::frame_model_seq(ys@),
        ),
    decreases xs,
{
    let ghost xm = crate::value::frame_model_seq(xs@);
    let ghost ym = crate::value::frame_model_seq(ys@);
    proof {
        crate::value::lemma_frame_model_seq(xs@);
        crate::value::lemma_frame_model_seq(ys@);
        lemma_frame_eq_seq(xm, ym);
    }
    if xs.len() != ys.len() {
        return false;
    }
    let n = xs.len();
    let mut k: usize = 0;
    while k < n
        invariant
            k <= n,
            n == xs@.len(),
            n == ys@.len(),
            xm == crate::value::frame_model_seq(xs@),
            ym == crate::value::frame_model_seq(ys@),
            xm.len() == n,
            ym.len() == n,
            forall|j: int|
                0 <= j < n ==> xm[j] == crate::value::binding_model(xs@[j]) && ym[j]
                    == crate::value::binding_model(ys@[j]),
            spec_frame_eq(xm, ym) == (forall|j: int|
                0 <= j < xm.len() ==> ((#[trigger] xm[j]).0 == ym[j].0 && spec_val_eq(
                    xm[j].1,
                    ym[j].1,
                ))),
            forall|j: int|
                0 <= j < k ==> ((#[trigger] xm[j]).0 == ym[j].0 && spec_val_eq(
                    xm[j].1,
                    ym[j].1,
                )),
        decreases n - k,
    {
        proof {
            assert(decreases_to!(*xs => xs@));
            assert(decreases_to!(xs@ => xs@[k as int]));
            assert(decreases_to!(*xs => xs@[k as int].1));
        }
        if !(xs[k].0 == ys[k].0) {
            proof {
                assert(!((xm[k as int]).0 == ym[k as int].0));
                assert(!spec_frame_eq(xm, ym));
            }
            return false;
        }
        if !val_eq(&xs[k].1, &ys[k].1) {
            proof {
                assert(!spec_val_eq(xm[k as int].1, ym[k as int].1));
                assert(!spec_frame_eq(xm, ym));
            }
            return false;
        }
        k += 1;
    }
    true
}

/// The first two operands of a binary builtin, as doubles.
pub open spec fn spec_two_floats(args: Seq<ValS>) -> Result<(u64, u64), LispError> {
    if args.len() < 2 {
        Err(LispError::ArityMismatch)
    } else {
        match spec_to_float(args[0]) {
            Err(e) => Err(e),
            Ok(x) => match spec_to_float(args[1]) {
                Err(e) => Err(e),
                Ok(y) => Ok((x, y)),
            },
        }
    }
}

/// What one native procedure returns for an argument list.
pub open spec fn spec_apply_builtin(b: Builtin, args: Seq<ValS>) -> Result<ValS, LispError> {
    match b {
        Builtin::Add => match spec_two_floats(args) {
            Ok(p) => Ok(ValS::Num(add_bits(p.0, p.1))),
            Err(e) => Err(e),
        },
        Builtin::Sub => match spec_two_floats(args) {
            Ok(p) => Ok(ValS::Num(sub_bits(p.0, p.1))),
            Err(e) => Err(e),
        },
        Builtin::Mul => match spec_two_floats(args) {
            Ok(p) => Ok(ValS::Num(mul_bits(p.0, p.1))),
            Err(e) => Err(e),
        },
        Builtin::Div => match spec_two_floats(args) {
            Ok(p) => Ok(ValS::Num(div_bits(p.0, p.1))),
            Err(e) => Err(e),
        },
        Builtin::Gt => match spec_two_floats(args) {
            Ok(p) => Ok(ValS::Bool(gt_bits(p.0, p.1))),
            Err(e) => Err(e),
        },
        Builtin::Lt => match spec_two_floats(args) {
            Ok(p) => Ok(ValS::Bool(lt_bits(p.0, p.1))),
            Err(e) => Err(e),
        },
        Builtin::Ge => match spec_two_floats(args) {
            Ok(p) => Ok(ValS::Bool(ge_bits(p.0, p.1))),
            Err(e) => Err(e),
        },
        Builtin::Le => match spec_two_floats(args) {
            Ok(p) => Ok(ValS::Bool(le_bits(p.0, p.1))),
            Err(e) => Err(e),
        },
        Builtin::NumEq => match spec_two_floats(args) {
            Ok(p) => Ok(ValS::Bool(eq_bits(p.0, p.1))),
            Err(e) => Err(e),
        },
        Builtin::NumNe => match spec_two_floats(args) {
            Ok(p) => Ok(ValS::Bool(!eq_bits(p.0, p.1))),
            Err(e) => Err(e),
        },
        Builtin::Abs => match spec_two_floats(args) {
            Ok(p) => Ok(ValS::Num(abs_bits(p.0))),
            Err(e) => Err(e),
        },
        Builtin::Min => match spec_two_floats(args) {
            Ok(p) => Ok(ValS::Num(min_bits(p.0, p.1))),
            Err(e) => Err(e),
        },
        Builtin::List => Ok(ValS::SExpr(args)),
        Builtin::IsList => Ok(ValS::Bool(true)),
        Builtin::Car => {
            if args.len() == 0 {
                Err(LispError::ArityMismatch)
            } else {
                match args[0] {
                    ValS::SExpr(inner) => {
                        if inner.len() == 0 {
                            Err(LispError::ArityMismatch)
                        } else {
                            match spec_into_value(inner[0]) {
                                Ok(t) => Ok(ValS::Sym(t)),
                                Err(e) => Err(e),
                            }
                        }
                    },
                    _ => Err(LispError::TypeError(TypeErrorKind::NotList)),
                }
            }
        },
        Builtin::Cdr => {
            if args.len() == 0 {
                Err(LispError::ArityMismatch)
            } else {
                match args[0] {
                    ValS::SExpr(inner) => {
                        if inner.len() == 0 {
                            Err(LispError::ArityMismatch)
                        } else {
                            Ok(ValS::SExpr(inner.drop_first()))
                        }
                    },
                    _ => Err(LispError::TypeError(TypeErrorKind::NotList)),
                }
            }
        },
        Builtin::Cons => Ok(ValS::SExpr(args)),
        Builtin::IsEq => {
            if args.len() < 2 {
                Err(LispError::ArityMismatch)
            } else {
                Ok(ValS::Bool(spec_val_eq(args[0], args[1])))
            }
        },
        Builtin::Len => Ok(ValS::Num(bits_of_u64(args.len() as u64))),
        Builtin::Not => {
            if args.len() == 0 {
                Err(LispError::ArityMismatch)
            } else {
                match spec_into_value(args[0]) {
                    Ok(t) => Ok(ValS::Bool(t == "false"@)),
                    Err(e) => Err(e),
                }
            }
        },
        Builtin::IsNull => Ok(ValS::Bool(args.len() == 0)),
        Builtin::IsNumber => {
            if args.len() == 0 {
                Err(LispError::ArityMismatch)
            } else {
                match spec_into_value(args[0]) {
                    Ok(t) => Ok(ValS::Bool(parse_num(t) is Some)),
                    Err(e) => Err(e),
                }
            }
        },
        Builtin::IsSymbol => {
            if args.len() == 0 {
                Err(LispError::ArityMismatch)
            } else {
                match spec_into_value(args[0]) {
                    Ok(t) => Ok(ValS::Bool(parse_num(t) is None)),
                    Err(e) => Err(e),
                }
            }
        },
    }
}

/// The first two operands of a binary builtin, converted to doubles.
pub fn two_floats(args: &Vec<LVal>) -> (r: Result<(u64, u64), LispError>)
    ensures
        r == spec_two_floats(model_seq(args@)),
{
    proof {
        lemma_model_seq(args@);
    }
    if args.len() < 2 {
        return Err(LispError::ArityMismatch);
    }
    let x = match args[0].to_float() {
        Ok(v) => v,
        Err(e) => {
            return Err(e);
        },
    };
    let y = match args[1].to_float() {
        Ok(v) => v,
        Err(e) => {
            return Err(e);
        },
    };
    Ok((x, y))
}

/// Runs one native procedure on an already evaluated argument list.
pub fn apply_builtin(b: Builtin, args: &Vec<LVal>) -> (r: Result<LVal, LispError>)
    ensures
        val_res_model(r) == spec_apply_builtin(b, model_seq(args@)),
{
    let ghost am = model_seq(args@);
    proof {
        lemma_model_seq(args@);
    }
    match b {
        Builtin::Add => match two_floats(args) {
            Ok(p) => Ok(LVal::Num(float_add(p.0, p.1))),
            Err(e) => Err(e),
        },
        Builtin::Sub => match two_floats(args) {
            Ok(p) => Ok(LVal::Num(float_sub(p.0, p.1))),
            Err(e) => Err(e),
        },
        Builtin::Mul => match two_floats(args) {
            Ok(p) => Ok(LVal::Num(float_mul(p.0, p.1))),
            Err(e) => Err(e),
        },
        Builtin::Div => match two_floats(args) {
            Ok(p) => Ok(LVal::Num(float_div(p.0, p.1))),
            Err(e) => Err(e),
        },
        Builtin::Gt => match two_floats(args) {
            Ok(p) => Ok(LVal::Bool(float_gt(p.0, p.1))),
            Err(e) => Err(e),
        },
        Builtin::Lt => match two_floats(args) {
            Ok(p) => Ok(LVal::Bool(float_lt(p.0, p.1))),
            Err(e) => Err(e),
        },
        Builtin::Ge => match two_floats(args) {
            Ok(p) => Ok(LVal::Bool(float_ge(p.0, p.1))),
            Err(e) => Err(e),
        },
        Builtin::Le => match two_floats(args) {
            Ok(p) => Ok(LVal::Bool(float_le(p.0, p.1))),
            Err(e) => Err(e),
        },
        Builtin::NumEq => match two_floats(args) {
            Ok(p) => Ok(LVal::Bool(float_eq(p.0, p.1))),
            Err(e) => Err(e),
        },
        Builtin::NumNe => match two_floats(args) {
            Ok(p) => Ok(LVal::Bool(!float_eq(p.0, p.1))),
            Err(e) => Err(e),
        },
        Builtin::Abs => match two_floats(args) {
            Ok(p) => Ok(LVal::Num(abs(p.0, p.1))),
            Err(e) => Err(e),
        },
        Builtin::Min => match two_floats(args) {
            Ok(p) => Ok(LVal::Num(min(p.0, p.1))),
            Err(e) => Err(e),
        },
        Builtin::List => {
            let out = clone_val_vec(args);
            proof {
                lemma_model_seq(out@);
                assert(model_seq(out@) =~= am);
            }
            Ok(LVal::SExpr(out))
        },
        Builtin::IsList => Ok(LVal::Bool(true)),
        Builtin::Car => {
            if args.len() == 0 {
                return Err(LispError::ArityMismatch);
            }
            match &args[0] {
                LVal::SExpr(inner) => {
                    proof {
                        lemma_model_seq(inner@);
                    }
                    if inner.len() == 0 {
                        return Err(LispError::ArityMismatch);
                    }
                    match &inner[0] {
                        LVal::Sym(s) => Ok(LVal::Sym(s.clone())),
                        _ => Err(LispError::TypeError(TypeErrorKind::NotSymbol)),
                    }
                },
                _ => Err(LispError::TypeError(TypeErrorKind::NotList)),
            }
        },
        Builtin::Cdr => {
            if args.len() == 0 {
                return Err(LispError::ArityMismatch);
            }
            match &args[0] {
                LVal::SExpr(inner) => {
                    proof {
                        lemma_model_seq(inner@);
                    }
                    if inner.len() == 0 {
                        return Err(LispError::ArityMismatch);
                    }
                    let rest = clone_val_range(inner, 1, inner.len());
                    proof {
                        lemma_model_seq(rest@);
                        assert(model_seq(rest@) =~= model_seq(inner@).drop_first());
                    }
                    Ok(LVal::SExpr(rest))
                },
                _ => Err(LispError::TypeError(TypeErrorKind::NotList)),
            }
        },
        Builtin::Cons => {
            let out = clone_val_vec(args);
            proof {
                lemma_model_seq(out@);
                assert(model_seq(out@) =~= am);
            }
            Ok(LVal::SExpr(out))
        },
        Builtin::IsEq => {
            if args.len() < 2 {
                return Err(LispError::ArityMismatch);
            }
            Ok(LVal::Bool(val_eq(&args[0], &args[1])))
        },
        Builtin::Len => Ok(LVal::Num(float_of_u64(args.len() as u64))),
        Builtin::Not => {
            if args.len() == 0 {
                return Err(LispError::ArityMismatch);
            }
            match &args[0] {
                LVal::Sym(s) => {
                    let f = String::from_str("false");
                    Ok(LVal::Bool(*s == f))
                },
                _ => Err(LispError::TypeError(TypeErrorKind::NotSymbol)),
            }
        },
        Builtin::IsNull => Ok(LVal::Bool(args.len() == 0)),
        Builtin::IsNumber => {
            if args.len() == 0 {
                return Err(LispError::ArityMismatch);
            }
            match &args[0] {
                LVal::Sym(s) => Ok(LVal::Bool(parse_number(s.as_str()).is_some())),
                _ => Err(LispError::TypeError(TypeErrorKind::NotSymbol)),
            }
        },
        Builtin::IsSymbol => {
            if args.len() == 0 {
                return Err(LispError::ArityMismatch);
            }
            match &args[0] {
                LVal::Sym(s) => Ok(LVal::Bool(parse_number(s.as_str()).is_none())),
                _ => Err(LispError::TypeError(TypeErrorKind::NotSymbol)),
            }
        },
    }
}

/// A native callable: a value that can be run on an argument list.
pub trait StdFn {
    /// What running this value on the given argument list yields.
    spec fn run_spec(&self, params: &LVal) -> Result<ValS, LispError>;

    /// Runs the value as a native procedure.
    fn run(&self, params: &LVal) -> (r: Result<LVal, LispError>)
        ensures
            val_res_model(r) == self.run_spec(params),
    ;
}

impl StdFn for LVal {
    /// A native procedure applied to a list of arguments; anything else is a
    /// fault.
    open spec fn run_spec(&self, params: &LVal) -> Result<ValS, LispError> {
        match self@ {
            ValS::F(b) => match params@ {
                ValS::SExpr(args) => spec_apply_builtin(b, args),
                _ => Err(LispError::TypeError(TypeErrorKind::NotList)),
            },
            _ => Err(LispError::TypeError(TypeErrorKind::NotCallable)),
        }
    }

    fn run(&self, params: &LVal) -> (r: Result<LVal, LispError>) {
        match self {
            LVal::F(b) => match params {
                LVal::SExpr(args) => apply_builtin(*b, args),
                _ => Err(LispError::TypeError(TypeErrorKind::NotList)),
            },
            _ => Err(LispError::TypeError(TypeErrorKind::NotCallable)),
        }
    }
}

/// The builtin table: each name beside its native procedure.
pub open spec fn std_table() -> Seq<(Seq<char>, ValS)> {
    seq![
        ("+"@, ValS::F(Builtin::Add)),
        ("*"@, ValS::F(Builtin::Mul)),
        ("/"@, ValS::F(Builtin::Div)),
        (">"@, ValS::F(Builtin::Gt)),
        ("<"@, ValS::F(Builtin::Lt)),
        (">="@, ValS::F(Builtin::Ge)),
        ("<="@, ValS::F(Builtin::Le)),
        ("=="@, ValS::F(Builtin::NumEq)),
        ("!="@, ValS::F(Builtin::NumNe)),
        ("abs"@, ValS::F(Builtin::Abs)),
        ("min"@, ValS::F(Builtin::Min)),
        ("list"@, ValS::F(Builtin::List)),
        ("list?"@, ValS::F(Builtin::IsList)),
        ("car"@, ValS::F(Builtin::Car)),
        ("cdr"@, ValS::F(Builtin::Cdr)),
        ("cons"@, ValS::F(Builtin::Cons)),
        ("eq?"@, ValS::F(Builtin::IsEq)),
        ("len"@, ValS::F(Builtin::Len)),
        ("not"@, ValS::F(Builtin::Not)),
        ("null?"@, ValS::F(Builtin::IsNull)),
        ("number?"@, ValS::F(Builtin::IsNumber)),
        ("symbol?"@, ValS::F(Builtin::IsSymbol)),
    ]
}

/// The root environment: one frame holding subtraction and the whole
/// builtin table, with no parent.
pub open spec fn spec_standard_env() -> EnvS {
    EnvS {
        current: crate::env::spec_update(
            crate::env::spec_bind(seq![ValS::Sym("-"@)], seq![ValS::F(Builtin::Sub)]),
            std_table(),
        ),
        outer: None,
    }
}

/// A fresh root environment populated with the builtin library.
pub fn standard_env() -> (r: Env)
    ensures
        r@ == spec_standard_env(),
{
    let mut params: Vec<LVal> = Vec::new();
    params.push(LVal::Sym(String::from_str("-")));
    let mut args: Vec<LVal> = Vec::new();
    args.push(LVal::F(Builtin::Sub));
    proof {
        lemma_model_seq(params@);
        lemma_model_seq(args@);
        assert(model_seq(params@) =~= seq![ValS::Sym("-"@)]);
        assert(model_seq(args@) =~= seq![ValS::F(Builtin::Sub)]);
    }
    let mut env = match Env::new(params, args, None) {
        Ok(e) => e,
        Err(_) => vstd::pervasive::unreached(),
    };
    let mut m: Vec<(String, LVal)> = Vec::new();
    m.push((String::from_str("+"), LVal::F(Builtin::Add)));
    m.push((String::from_str("*"), LVal::F(Builtin::Mul)));
    m.push((String::from_str("/"), LVal::F(Builtin::Div)));
    m.push((String::from_str(">"), LVal::F(Builtin::Gt)));
    m.push((String::from_str("<"), LVal::F(Builtin::Lt)));
    m.push((String::from_str(">="), LVal::F(Builtin::Ge)));
    m.push((String::from_str("<="), LVal::F(Builtin::Le)));
    m.push((String::from_str("=="), LVal::F(Builtin::NumEq)));
    m.push((String::from_str("!="), LVal::F(Builtin::NumNe)));
    m.push((String::from_str("abs"), LVal::F(Builtin::Abs)));
    m.push((String::from_str("min"), LVal::F(Builtin::Min)));
    m.push((String::from_str("list"), LVal::F(Builtin::List)));
    m.push((String::from_str("list?"), LVal::F(Builtin::IsList)));
    m.push((String::from_str("car"), LVal::F(Builtin::Car)));
    m.push((String::from_str("cdr"), LVal::F(Builtin::Cdr)));
    m.push((String::from_str("cons"), LVal::F(Builtin::Cons)));
    m.push((String::from_str("eq?"), LVal::F(Builtin::IsEq)));
    m.push((String::from_str("len"), LVal::F(Builtin::Len)));
    m.push((String::from_str("not"), LVal::F(Builtin::Not)));
    m.push((String::from_str("null?"), LVal::F(Builtin::IsNull)));
    m.push((String::from_str("number?"), LVal::F(Builtin::IsNumber)));
    m.push((String::from_str("symbol?"), LVal::F(Builtin::IsSymbol)));
    proof {
        crate::value::lemma_frame_model_seq(m@);
        assert(crate::value::frame_model_seq(m@) =~= std_table());
    }
    env.update(m);
    proof {
        assert(env@ =~~= spec_standard_env());
    }
    env
}

} // verus!
