//! The parser: a token sequence becomes a single nested list-structured
//! value, with the tokens that follow the first complete form left over.
use vstd::prelude::*;

use crate::lexer::{spec_tokens, tokenize};
use crate::value::{
    clone_val_range, lemma_model_seq, model_seq, val_res_model, LVal, LispError, ValS,
};
use vstd::string::StringExecFns;

verus! {

/// Whether a value is a flat list of symbols, the shape the lexer produces.
pub open spec fn is_token_list(v: ValS) -> bool {
    &&& v is SExpr
    &&& forall|i: int| 0 <= i < v->SExpr_0.len() ==> (#[trigger] v->SExpr_0[i]) is Sym
}

/// The texts of a flat list of symbol tokens.
pub open spec fn texts_of(v: ValS) -> Seq<Seq<char>> {
    match v {
        ValS::SExpr(es) => Seq::new(es.len(), |i: int| es[i]->Sym_0),
        _ => Seq::empty(),
    }
}

/// One step per token: an open paren starts a new list, a close paren
/// finishes the innermost open list, and any other token is an atom; the
/// first complete form is the result, with the tokens after it.
pub open spec fn spec_read_iter(toks: Seq<Seq<char>>, stack: Seq<Seq<ValS>>) -> Result<
    (ValS, Seq<Seq<char>>),
    LispError,
>
    decreases toks.len(),
{
    if toks.len() == 0 {
        Err(LispError::ParseUnexpectedEof)
    } else {
        let t = toks[0];
        let rest = toks.drop_first();
        if t == seq!['('] {
            spec_read_iter(rest, stack.push(Seq::empty()))
        } else if t == seq![')'] {
            if stack.len() == 0 {
                Err(LispError::ParseUnmatchedCloseParen)
            } else {
                let done = ValS::SExpr(stack.last());
                if stack.len() == 1 {
                    Ok((done, rest))
                } else {
                    spec_read_iter(
                        rest,
                        stack.drop_last().update(
                            stack.len() - 2,
                            stack[stack.len() - 2].push(done),
                        ),
                    )
                }
            }
        } else {
            if stack.len() == 0 {
                Ok((ValS::Sym(t), rest))
            } else {
                spec_read_iter(
                    rest,
                    stack.update(stack.len() - 1, stack.last().push(ValS::Sym(t))),
                )
            }
        }
    }
}

/// The first form of a token sequence, and the tokens after it.
pub open spec fn spec_read(toks: Seq<Seq<char>>) -> Result<(ValS, Seq<Seq<char>>), LispError> {
    spec_read_iter(toks, Seq::empty())
}

/// The form a whole piece of source text denotes: no tokens at all is a
/// lexing fault; otherwise the first form, with any leftover tokens
/// discarded.
pub open spec fn spec_parse(s: Seq<char>) -> Result<ValS, LispError> {
    if spec_tokens(s).len() == 0 {
        Err(LispError::LexEmpty)
    } else {
        match spec_read(spec_tokens(s)) {
            Ok(p) => Ok(p.0),
            Err(e) => Err(e),
        }
    }
}

/// The models of a parser stack: each open list's elements so far.
pub open spec fn stack_model(s: Seq<Vec<LVal>>) -> Seq<Seq<ValS>> {
    Seq::new(s.len(), |j: int| model_seq(s[j]@))
}

/// The model of a parse result, pairing the parsed form with the texts of
/// the leftover tokens.
pub open spec fn read_res_model(r: Result<(LVal, LVal), LispError>) -> Result<
    (ValS, Seq<Seq<char>>),
    LispError,
> {
    match r {
        Ok(p) => Ok((p.1@, texts_of(p.0@))),
        Err(e) => Err(e),
    }
}

/// An atom: the token text wrapped as a symbol; classification into number
/// versus symbol happens lazily at use sites.
pub fn atom(token: String) -> (r: LVal)
    ensures
        r@ == ValS::Sym(token@),
{
    LVal::Sym(token)
}

/// Reads the first complete form from a flat list of symbol tokens and
/// returns the leftover tokens beside it.
pub fn read_from_tokens(tokens: &LVal) -> (r: Result<(LVal, LVal), LispError>)
    requires
        is_token_list(tokens@),
    ensures
        read_res_model(r) == spec_read(texts_of(tokens@)),
        r matches Ok(p) ==> is_token_list(p.0@),
{
    let toks: &Vec<LVal> = match tokens {
        LVal::SExpr(v) => v,
        _ => vstd::pervasive::unreached(),
    };
    let ghost big = texts_of(tokens@);
    proof {
        lemma_model_seq(toks@);
        assert(forall|k: int|
            0 <= k < toks@.len() ==> (#[trigger] toks@[k]).model() == ValS::Sym(big[k]));
    }
    let lp = String::from_str("(");
    let rp = String::from_str(")");
    proof {
        reveal_strlit("(");
        reveal_strlit(")");
        assert(lp@ =~= seq!['(']);
        assert(rp@ =~= seq![')']);
    }
    let n = toks.len();
    let mut stack: Vec<Vec<LVal>> = Vec::new();
    let mut i: usize = 0;
    proof {
        assert(big.subrange(0, n as int) =~= big);
        assert(stack_model(stack@) =~= Seq::<Seq<ValS>>::empty());
    }
    while i < n
        invariant
            i <= n,
            n == toks@.len(),
            big.len() == n,
            forall|k: int| 0 <= k < n ==> (#[trigger] toks@[k]).model() == ValS::Sym(big[k]),
            lp@ == seq!['('],
            rp@ == seq![')'],
            big == texts_of(tokens@),
            is_token_list(tokens@),
            spec_read(big) == spec_read_iter(big.subrange(i as int, n as int), stack_model(stack@)),
        decreases n - i,
    {
        let ghost rem = big.subrange(i as int, n as int);
        let ghost sm = stack_model(stack@);
        proof {
            assert(rem[0] == big[i as int]);
            assert(rem.drop_first() =~= big.subrange(i as int + 1, n as int));
        }
        let tk: &String = match &toks[i] {
            LVal::Sym(t) => t,
            _ => vstd::pervasive::unreached(),
        };
        if *tk == lp {
            stack.push(Vec::new());
            proof {
                assert(stack_model(stack@) =~= sm.push(Seq::empty()));
            }
            i += 1;
        } else if *tk == rp {
            if stack.len() == 0 {
                proof {
                    assert(big[i as int] == rp@);
                    assert(sm.len() == 0);
                    assert(spec_read_iter(rem, sm) == Err::<(ValS, Seq<Seq<char>>), LispError>(
                        LispError::ParseUnmatchedCloseParen,
                    ));
                }
                return Err(LispError::ParseUnmatchedCloseParen);
            }
            let top = match stack.pop() {
                Some(t) => t,
                None => vstd::pervasive::unreached(),
            };
            proof {
                assert(sm.last() == model_seq(top@));
            }
            let done = LVal::SExpr(top);
            if stack.len() == 0 {
                let rest_vec = clone_val_range(toks, i + 1, n);
                let rest = LVal::SExpr(rest_vec);
                proof {
                    lemma_model_seq(rest_vec@);
                    assert(texts_of(rest@) =~= big.subrange(i as int + 1, n as int));
                    assert(sm.len() == 1);
                    assert(done@ == ValS::SExpr(sm.last()));
                    assert(spec_read_iter(rem, sm) == Ok::<(ValS, Seq<Seq<char>>), LispError>(
                        (done@, rem.drop_first()),
                    ));
                }
                return Ok((rest, done));
            }
            let mut top2 = match stack.pop() {
                Some(t) => t,
                None => vstd::pervasive::unreached(),
            };
            let ghost oldtop = top2@;
            let ghost d = done@;
            proof {
                assert(model_seq(oldtop) == sm[sm.len() - 2]);
            }
            top2.push(done);
            proof {
                crate::value::lemma_model_seq_push(oldtop, top2@.last());
                assert(model_seq(top2@) == sm[sm.len() - 2].push(d));
            }
            stack.push(top2);
            proof {
                assert(stack_model(stack@) =~= sm.drop_last().update(
                    sm.len() - 2,
                    sm[sm.len() - 2].push(ValS::SExpr(sm.last())),
                ));
            }
            i += 1;
        } else {
            let a = atom(tk.clone());
            if stack.len() == 0 {
                let rest_vec = clone_val_range(toks, i + 1, n);
                let rest = LVal::SExpr(rest_vec);
                proof {
                    lemma_model_seq(rest_vec@);
                    assert(texts_of(rest@) =~= big.subrange(i as int + 1, n as int));
                }
                return Ok((rest, a));
            }
            let mut top2 = match stack.pop() {
                Some(t) => t,
                None => vstd::pervasive::unreached(),
            };
            let ghost oldtop = top2@;
            proof {
                assert(model_seq(oldtop) == sm[sm.len() - 1]);
            }
            top2.push(a);
            proof {
                crate::value::lemma_model_seq_push(oldtop, top2@.last());
                assert(model_seq(top2@) == sm.last().push(ValS::Sym(big[i as int])));
            }
            stack.push(top2);
            proof {
                assert(stack_model(stack@) =~= sm.update(
                    sm.len() - 1,
                    sm.last().push(ValS::Sym(big[i as int])),
                ));
            }
            i += 1;
        }
    }
    proof {
        assert(big.subrange(n as int, n as int) =~= Seq::<Seq<char>>::empty());
    }
    Err(LispError::ParseUnexpectedEof)
}

/// Parses source text into its first form: tokenize, then read one form,
/// discarding any tokens after it.
pub fn parse(program: &str) -> (r: Result<LVal, LispError>)
    ensures
        val_res_model(r) == spec_parse(program@),
{
    let toks = tokenize(program);
    let empty = match &toks {
        LVal::SExpr(v) => v.len() == 0,
        _ => vstd::pervasive::unreached(),
    };
    if empty {
        return Err(LispError::LexEmpty);
    }
    proof {
        assert(is_token_list(toks@));
        assert(texts_of(toks@) =~= spec_tokens(program@));
    }
    match read_from_tokens(&toks) {
        Ok(p) => Ok(p.1),
        Err(e) => Err(e),
    }
}

} // verus!
