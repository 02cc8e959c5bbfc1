//! The evaluator: interprets a value as code against an environment chain,
//! dispatching on special forms and procedure application.
//!
//! Evaluation carries an explicit recursion bound: the dialect has no
//! tail-call elimination, so nesting depth is a hard resource limit, and
//! exhausting it is a fault of its own.
use vstd::prelude::*;

use crate::builtins::{apply_builtin, spec_apply_builtin};
use crate::env::{spec_env_new, spec_find, spec_frame_get, spec_frame_set};
use crate::value::{
    clone_env, clone_val, clone_val_range, clone_val_vec, lemma_model_seq, model_seq,
    val_res_model, Builtin, Env, EnvS, LVal, LispError, TypeErrorKind, ValS,
};
use vstd::string::StringExecFns;

verus! {

/// The evaluator's recursion bound.
pub const EVAL_DEPTH: u64 = 4096;

/// A native result crossing the application boundary: a symbol is handed
/// back as text, everything else is unchanged.
pub open spec fn spec_rewrap(v: ValS) -> ValS {
    match v {
        ValS::Sym(t) => ValS::Str(t),
        _ => v,
    }
}

/// What evaluating one form yields: the environment after the evaluation and
/// its result. Symbols look themselves up and fall back to themselves;
/// special forms dispatch by head text; anything else applies.
pub open spec fn spec_eval(x: ValS, env: EnvS, fuel: nat) -> (EnvS, Result<ValS, LispError>)
    decreases fuel, 0nat,
{
    if fuel == 0 {
        (env, Err(LispError::RecursionLimit))
    } else {
        let f2 = (fuel - 1) as nat;
        match x {
            ValS::Sym(s) => {
                match spec_frame_get(spec_find(env, s).current, s) {
                    Some(v) => (env, Ok(v)),
                    None => (env, Ok(ValS::Sym(s))),
                }
            },
            ValS::Proc { env: ce, params, body } => (env, Ok(x)),
            ValS::SExpr(items) => {
                if items.len() == 0 {
                    (env, Err(LispError::EmptyApplication))
                } else {
                    match items[0] {
                        ValS::Sym(h) => {
                            if h == "quote"@ {
                                (env, Ok(ValS::SExpr(items.drop_first())))
                            } else if h == "if"@ {
                                if items.len() != 4 {
                                    (env, Err(LispError::ArityMismatch))
                                } else {
                                    let (env1, rt) = spec_eval(items[1], env, f2);
                                    match rt {
                                        Ok(ValS::Bool(p)) => if p {
                                            spec_eval(items[2], env1, f2)
                                        } else {
                                            spec_eval(items[3], env1, f2)
                                        },
                                        Ok(_) => (
                                            env1,
                                            Err(
                                                LispError::TypeError(
                                                    TypeErrorKind::ExpectedBoolean,
                                                ),
                                            ),
                                        ),
                                        Err(e) => (env1, Err(e)),
                                    }
                                }
                            } else if h == "define"@ {
                                if items.len() != 3 {
                                    (env, Err(LispError::ArityMismatch))
                                } else {
                                    match items[1] {
                                        ValS::Sym(nm) => {
                                            let (env1, re) = spec_eval(items[2], env, f2);
                                            match re {
                                                Ok(v) => (
                                                    EnvS {
                                                        current: spec_frame_set(
                                                            env1.current,
                                                            nm,
                                                            v,
                                                        ),
                                                        outer: env1.outer,
                                                    },
                                                    Ok(ValS::Succ),
                                                ),
                                                Err(e) => (env1, Err(e)),
                                            }
                                        },
                                        _ => (
                                            env,
                                            Err(LispError::TypeError(TypeErrorKind::NotSymbol)),
                                        ),
                                    }
                                }
                            } else if h == "set!"@ {
                                if items.len() != 3 {
                                    (env, Err(LispError::ArityMismatch))
                                } else {
                                    match items[1] {
                                        ValS::Sym(nm) => (env, Ok(ValS::Succ)),
                                        _ => (
                                            env,
                                            Err(LispError::TypeError(TypeErrorKind::NotSymbol)),
                                        ),
                                    }
                                }
                            } else if h == "lambda"@ {
                                if items.len() != 3 {
                                    (env, Err(LispError::ArityMismatch))
                                } else {
                                    match (items[1], items[2]) {
                                        (ValS::SExpr(ps), ValS::SExpr(bs)) => (
                                            env,
                                            Ok(ValS::Proc { env: env, params: ps, body: bs }),
                                        ),
                                        _ => (
                                            env,
                                            Err(LispError::TypeError(TypeErrorKind::NotList)),
                                        ),
                                    }
                                }
                            } else {
                                let (env1, rh) = spec_eval(items[0], env, f2);
                                match rh {
                                    Ok(ValS::F(b)) => spec_apply_f(b, items.drop_first(), env1, f2),
                                    Ok(_) => (
                                        env1,
                                        Err(LispError::TypeError(TypeErrorKind::NotCallable)),
                                    ),
                                    Err(e) => (env1, Err(e)),
                                }
                            }
                        },
                        ValS::F(b) => spec_apply_f(b, items.drop_first(), env, f2),
                        ValS::Proc { env: cenv, params, body } => {
                            match spec_env_new(
                                params,
                                items.drop_first(),
                                Some(Box::new(cenv)),
                            ) {
                                Ok(e2) => {
                                    let pr = spec_eval(ValS::SExpr(body), e2, f2);
                                    (env, pr.1)
                                },
                                Err(e) => (env, Err(e)),
                            }
                        },
                        ValS::SExpr(inner) => {
                            let (env1, rh) = spec_eval(items[0], env, f2);
                            match rh {
                                Ok(hv) => spec_eval(
                                    ValS::SExpr(seq![hv] + items.drop_first()),
                                    env1,
                                    f2,
                                ),
                                Err(e) => (env1, Err(e)),
                            }
                        },
                        _ => (env, Err(LispError::TypeError(TypeErrorKind::NotCallable))),
                    }
                }
            },
            _ => (env, Ok(x)),
        }
    }
}

/// Applying a native procedure: the operands after the head are evaluated
/// left to right, the procedure runs on them, and a symbol result is handed
/// back as text.
pub open spec fn spec_apply_f(b: Builtin, rest: Seq<ValS>, env: EnvS, fuel: nat) -> (
    EnvS,
    Result<ValS, LispError>,
)
    decreases fuel, rest.len() + 1,
{
    let (env1, ra) = spec_eval_args(rest, env, fuel);
    match ra {
        Ok(argvs) => match spec_apply_builtin(b, argvs) {
            Ok(v) => (env1, Ok(spec_rewrap(v))),
            Err(e) => (env1, Err(e)),
        },
        Err(e) => (env1, Err(e)),
    }
}

/// Evaluating a sequence of forms left to right, threading the environment.
pub open spec fn spec_eval_args(items: Seq<ValS>, env: EnvS, fuel: nat) -> (
    EnvS,
    Result<Seq<ValS>, LispError>,
)
    decreases fuel, items.len(),
{
    if items.len() == 0 {
        (env, Ok(Seq::empty()))
    } else {
        let (env1, r) = spec_eval(items[0], env, fuel);
        match r {
            Ok(v) => {
                let (env2, rr) = spec_eval_args(items.drop_first(), env1, fuel);
                match rr {
                    Ok(vs) => (env2, Ok(seq![v] + vs)),
                    Err(e) => (env2, Err(e)),
                }
            },
            Err(e) => (env1, Err(e)),
        }
    }
}

/// The model of a result that carries a vector of evaluated values.
pub open spec fn args_res_model(r: Result<Vec<LVal>, LispError>) -> Result<Seq<ValS>, LispError> {
    match r {
        Ok(v) => Ok(model_seq(v@)),
        Err(e) => Err(e),
    }
}

/// A native result crossing the application boundary.
pub fn rewrap(v: LVal) -> (r: LVal)
    ensures
        r@ == spec_rewrap(v@),
{
    match v {
        LVal::Sym(s) => LVal::Str(s),
        other => other,
    }
}

/// Evaluates the forms after `start`, left to right, threading the
/// environment.
pub fn eval_args(items: &Vec<LVal>, start: usize, env: &mut Env, fuel: u64) -> (r: Result<
    Vec<LVal>,
    LispError,
>)
    requires
        start <= items@.len(),
    ensures
        ({
            let (e2, r2) = spec_eval_args(
                model_seq(items@).subrange(start as int, items@.len() as int),
                old(env)@,
                fuel as nat,
            );
            final(env)@ == e2 && args_res_model(r) == r2
        }),
    decreases fuel, items@.len() - start,
{
    let ghost im = model_seq(items@);
    let ghost rem = im.subrange(start as int, items@.len() as int);
    proof {
        lemma_model_seq(items@);
    }
    if start >= items.len() {
        proof {
            assert(rem =~= Seq::<ValS>::empty());
        }
        return Ok(Vec::new());
    }
    proof {
        assert(rem[0] == im[start as int]);
        assert(rem.drop_first() =~= im.subrange(start as int + 1, items@.len() as int));
    }
    let v = match eval_with_fuel(items[start].clone(), env, fuel) {
        Ok(v) => v,
        Err(e) => {
            return Err(e);
        },
    };
    let rest = match eval_args(items, start + 1, env, fuel) {
        Ok(vs) => vs,
        Err(e) => {
            return Err(e);
        },
    };
    let ghost rm = model_seq(rest@);
    let ghost oldrest = rest@;
    let ghost vm = v@;
    proof {
        lemma_model_seq(rest@);
    }
    let mut out = rest;
    out.insert(0, v);
    proof {
        lemma_model_seq(out@);
        assert(out@ =~= seq![out@[0]] + oldrest);
        assert(model_seq(out@) =~= seq![vm] + rm);
    }
    Ok(out)
}

/// Evaluates one form with an explicit recursion bound.
#[verifier::rlimit(100)]
pub fn eval_with_fuel(x: LVal, env: &mut Env, fuel: u64) -> (r: Result<LVal, LispError>)
    ensures
        ({
            let (e2, r2) = spec_eval(x@, old(env)@, fuel as nat);
            final(env)@ == e2 && val_res_model(r) == r2
        }),
    decreases fuel, 0nat,
{
    if fuel == 0 {
        return Err(LispError::RecursionLimit);
    }
    match x {
        LVal::Sym(s) => {
            let looked = {
                let fr = env.find(&s);
                match fr.get(&s) {
                    Some(v) => Some(clone_val(v)),
                    None => None,
                }
            };
            match looked {
                Some(v) => Ok(v),
                None => Ok(LVal::Sym(s)),
            }
        },
        LVal::Proc { env: ce, params, body } => Ok(LVal::Proc { env: ce, params, body }),
        LVal::SExpr(items) => {
            let ghost im = model_seq(items@);
            proof {
                lemma_model_seq(items@);
            }
            if items.len() == 0 {
                return Err(LispError::EmptyApplication);
            }
            match &items[0] {
                LVal::Sym(h) => {
                    let kw_quote = String::from_str("quote");
                    let kw_if = String::from_str("if");
                    let kw_define = String::from_str("define");
                    let kw_set = String::from_str("set!");
                    let kw_lambda = String::from_str("lambda");
                    if *h == kw_quote {
                        let rest = clone_val_range(&items, 1, items.len());
                        proof {
                            lemma_model_seq(rest@);
                            assert(model_seq(rest@) =~= im.drop_first());
                        }
                        Ok(LVal::SExpr(rest))
                    } else if *h == kw_if {
                        if items.len() != 4 {
                            return Err(LispError::ArityMismatch);
                        }
                        let t = match eval_with_fuel(items[1].clone(), env, fuel - 1) {
                            Ok(v) => v,
                            Err(e) => {
                                return Err(e);
                            },
                        };
                        match t {
                            LVal::Bool(p) => {
                                if p {
                                    eval_with_fuel(items[2].clone(), env, fuel - 1)
                                } else {
                                    eval_with_fuel(items[3].clone(), env, fuel - 1)
                                }
                            },
                            _ => Err(LispError::TypeError(TypeErrorKind::ExpectedBoolean)),
                        }
                    } else if *h == kw_define {
                        if items.len() != 3 {
                            return Err(LispError::ArityMismatch);
                        }
                        let nm = match &items[1] {
                            LVal::Sym(nm) => nm.clone(),
                            _ => {
                                return Err(LispError::TypeError(TypeErrorKind::NotSymbol));
                            },
                        };
                        let v = match eval_with_fuel(items[2].clone(), env, fuel - 1) {
                            Ok(v) => v,
                            Err(e) => {
                                return Err(e);
                            },
                        };
                        env.assoc(nm, v);
                        proof {
                            assert(env@ =~~= (spec_eval(x@, old(env)@, fuel as nat)).0);
                        }
                        Ok(LVal::Succ)
                    } else if *h == kw_set {
                        if items.len() != 3 {
                            return Err(LispError::ArityMismatch);
                        }
                        match &items[1] {
                            LVal::Sym(_) => Ok(LVal::Succ),
                            _ => Err(LispError::TypeError(TypeErrorKind::NotSymbol)),
                        }
                    } else if *h == kw_lambda {
                        if items.len() != 3 {
                            return Err(LispError::ArityMismatch);
                        }
                        let ps = match &items[1] {
                            LVal::SExpr(ps) => ps,
                            _ => {
                                return Err(LispError::TypeError(TypeErrorKind::NotList));
                            },
                        };
                        let bs = match &items[2] {
                            LVal::SExpr(bs) => bs,
                            _ => {
                                return Err(LispError::TypeError(TypeErrorKind::NotList));
                            },
                        };
                        let p2 = clone_val_vec(ps);
                        let b2 = clone_val_vec(bs);
                        let ce = clone_env(env);
                        proof {
                            lemma_model_seq(p2@);
                            lemma_model_seq(ps@);
                            lemma_model_seq(b2@);
                            lemma_model_seq(bs@);
                            assert(model_seq(p2@) =~= model_seq(ps@));
                            assert(model_seq(b2@) =~= model_seq(bs@));
                        }
                        Ok(LVal::Proc { env: ce, params: p2, body: b2 })
                    } else {
                        let hv = match eval_with_fuel(items[0].clone(), env, fuel - 1) {
                            Ok(v) => v,
                            Err(e) => {
                                return Err(e);
                            },
                        };
                        match hv {
                            LVal::F(b) => apply_f(b, &items, env, fuel - 1),
                            _ => Err(LispError::TypeError(TypeErrorKind::NotCallable)),
                        }
                    }
                },
                LVal::F(b) => {
                    let bb = *b;
                    apply_f(bb, &items, env, fuel - 1)
                },
                LVal::Proc { env: cenv, params, body } => {
                    let args_vec = clone_val_range(&items, 1, items.len());
                    let params_c = clone_val_vec(params);
                    let body_c = clone_val_vec(body);
                    let cenv_c = clone_env(cenv);
                    proof {
                        lemma_model_seq(args_vec@);
                        lemma_model_seq(params_c@);
                        lemma_model_seq(params@);
                        lemma_model_seq(body_c@);
                        lemma_model_seq(body@);
                        assert(model_seq(args_vec@) =~= im.drop_first());
                        assert(model_seq(params_c@) =~= model_seq(params@));
                        assert(model_seq(body_c@) =~= model_seq(body@));
                    }
                    match Env::new(params_c, args_vec, Some(Box::new(cenv_c))) {
                        Ok(mut e2) => {
                            let body_expr = LVal::SExpr(body_c);
                            let rr = eval_with_fuel(body_expr, &mut e2, fuel - 1);
                            rr
                        },
                        Err(e) => Err(e),
                    }
                },
                LVal::SExpr(_) => {
                    let hv = match eval_with_fuel(items[0].clone(), env, fuel - 1) {
                        Ok(v) => v,
                        Err(e) => {
                            return Err(e);
                        },
                    };
                    let mut nv: Vec<LVal> = Vec::new();
                    nv.push(hv);
                    let mut tail = clone_val_range(&items, 1, items.len());
                    nv.append(&mut tail);
                    proof {
                        lemma_model_seq(nv@);
                        assert(model_seq(nv@) =~= seq![nv@[0].model()] + im.drop_first());
                    }
                    eval_with_fuel(LVal::SExpr(nv), env, fuel - 1)
                },
                _ => Err(LispError::TypeError(TypeErrorKind::NotCallable)),
            }
        },
        other => Ok(other),
    }
}

/// Applies a native procedure at the head of a form: evaluates the operands,
/// runs the procedure, and hands a symbol result back as text.
pub fn apply_f(b: Builtin, items: &Vec<LVal>, env: &mut Env, fuel: u64) -> (r: Result<
    LVal,
    LispError,
>)
    requires
        items@.len() >= 1,
    ensures
        ({
            let (e2, r2) = spec_apply_f(
                b,
                model_seq(items@).subrange(1, items@.len() as int),
                old(env)@,
                fuel as nat,
            );
            final(env)@ == e2 && val_res_model(r) == r2
        }),
    decreases fuel, items@.len(),
{
    let ghost im = model_seq(items@);
    proof {
        lemma_model_seq(items@);
        assert(im.drop_first() =~= im.subrange(1, items@.len() as int));
    }
    let args = match eval_args(items, 1, env, fuel) {
        Ok(vs) => vs,
        Err(e) => {
            return Err(e);
        },
    };
    match apply_builtin(b, &args) {
        Ok(v) => Ok(rewrap(v)),
        Err(e) => Err(e),
    }
}

/// Evaluates one form against an environment, with the standard recursion
/// bound.
pub fn eval(x: LVal, env: &mut Env) -> (r: Result<LVal, LispError>)
    ensures
        ({
            let (e2, r2) = spec_eval(x@, old(env)@, EVAL_DEPTH as nat);
            final(env)@ == e2 && val_res_model(r) == r2
        }),
{
    eval_with_fuel(x, env, EVAL_DEPTH)
}

} // verus!
