//! Serialization of parsed trees back to source text, and the laws the
//! pipeline obeys: a parsed form re-serializes to text that parses back to
//! the same form, applying a procedure leaves the caller's frame untouched,
//! a `define` is visible to what follows it, and an unbound symbol evaluates
//! to itself.
use vstd::prelude::*;

use crate::lexer::{
    first_special, lemma_first_special, spec_is_special, spec_is_whitespace, spec_tokens,
};
use crate::value::{EnvS, LVal, LispError, ValS};
use vstd::string::StringExecFns;

verus! {

/// The source text of a parsed tree: an atom is its text, a list is its
/// children's texts between parens, separated by single spaces.
pub open spec fn spec_text(v: ValS) -> Seq<char>
    decreases v,
{
    match v {
        ValS::Sym(t) => t,
        ValS::SExpr(es) => seq!['('] + spec_text_list(es) + seq![')'],
        _ => Seq::empty(),
    }
}

/// The texts of a list's children, separated by single spaces.
pub open spec fn spec_text_list(es: Seq<ValS>) -> Seq<char>
    decreases es,
{
    if es.len() == 0 {
        Seq::empty()
    } else if es.len() == 1 {
        spec_text(es[0])
    } else {
        spec_text(es[0]) + seq![' '] + spec_text_list(es.subrange(1, es.len() as int))
    }
}

/// A token text that stands for itself: nonempty, with no paren and no
/// whitespace inside.
pub open spec fn wf_atom(t: Seq<char>) -> bool {
    t.len() > 0 && forall|i: int| 0 <= i < t.len() ==> !spec_is_special(#[trigger] t[i])
}

/// A tree the parser could have produced: symbols and lists only, every
/// symbol a self-standing token.
pub open spec fn wf_tree(v: ValS) -> bool
    decreases v,
{
    match v {
        ValS::Sym(t) => wf_atom(t),
        ValS::SExpr(es) => wf_tree_list(es),
        _ => false,
    }
}

/// Every element of a list is a well-formed tree.
pub open spec fn wf_tree_list(es: Seq<ValS>) -> bool
    decreases es,
{
    if es.len() == 0 {
        true
    } else {
        wf_tree(es[0]) && wf_tree_list(es.subrange(1, es.len() as int))
    }
}

/// The characters of the leading run are not special.
pub proof fn lemma_first_special_chars(s: Seq<char>)
    ensures
        forall|i: int| 0 <= i < first_special(s) ==> !spec_is_special(#[trigger] s[i]),
    decreases s.len(),
{
    crate::lexer::lemma_first_special_le(s);
    if s.len() > 0 && !spec_is_special(s[0]) {
        lemma_first_special_chars(s.drop_first());
        crate::lexer::lemma_first_special_le(s.drop_first());
        assert forall|i: int| 0 <= i < first_special(s) implies !spec_is_special(s[i]) by {
            if i > 0 {
                assert(s.drop_first()[i - 1] == s[i]);
            }
        }
    }
}

/// The character that ends the leading run is special.
pub proof fn lemma_first_special_stop(s: Seq<char>)
    ensures
        first_special(s) < s.len() ==> spec_is_special(s[first_special(s) as int]),
    decreases s.len(),
{
    if s.len() > 0 && !spec_is_special(s[0]) {
        lemma_first_special_stop(s.drop_first());
        crate::lexer::lemma_first_special_le(s.drop_first());
        if first_special(s) < s.len() {
            assert(s.drop_first()[first_special(s.drop_first()) as int] == s[first_special(
                s,
            ) as int]);
        }
    }
}

/// Tokenizing a concatenation splits at the junction whenever one side makes
/// it a boundary.
pub proof fn lemma_tokens_concat(a: Seq<char>, b: Seq<char>)
    requires
        a.len() == 0 || b.len() == 0 || spec_is_special(a.last()) || spec_is_special(b[0]),
    ensures
        spec_tokens(a + b) == spec_tokens(a) + spec_tokens(b),
    decreases a.len(),
{
    if a.len() == 0 {
        assert(a + b =~= b);
        assert(spec_tokens(a) + spec_tokens(b) =~= spec_tokens(b));
    } else {
        let ab = a + b;
        assert(ab[0] == a[0]);
        if a[0] == '(' || a[0] == ')' || spec_is_whitespace(a[0]) {
            assert(ab.drop_first() =~= a.drop_first() + b);
            if a.len() == 1 {
                assert(a.drop_first().len() == 0);
            } else {
                assert(a.drop_first().last() == a.last());
            }
            lemma_tokens_concat(a.drop_first(), b);
            if a[0] == '(' || a[0] == ')' {
                assert(spec_tokens(a) + spec_tokens(b) =~= seq![seq![a[0]]] + spec_tokens(
                    a.drop_first(),
                ) + spec_tokens(b));
            }
        } else {
            let n = first_special(a) as int;
            crate::lexer::lemma_first_special_le(a);
            lemma_first_special_chars(a);
            if n < a.len() {
                lemma_first_special_stop(a);
                assert(spec_is_special(a[n]));
                assert forall|k: int| 0 <= k < n implies !spec_is_special(ab[k]) by {
                    assert(ab[k] == a[k]);
                }
                assert(ab[n] == a[n]);
                lemma_first_special(ab, n);
                assert(ab.subrange(0, n) =~= a.subrange(0, n));
                assert(ab.subrange(n, ab.len() as int) =~= a.subrange(n, a.len() as int) + b);
                assert(a.subrange(n, a.len() as int).len() == 0 || a.subrange(
                    n,
                    a.len() as int,
                ).last() == a.last());
                lemma_tokens_concat(a.subrange(n, a.len() as int), b);
            } else {
                assert forall|k: int| 0 <= k < n implies !spec_is_special(ab[k]) by {
                    assert(ab[k] == a[k]);
                }
                if b.len() == 0 {
                    assert(ab =~= a);
                    assert(spec_tokens(b) =~= Seq::<Seq<char>>::empty());
                    assert(spec_tokens(a) + spec_tokens(b) =~= spec_tokens(a));
                } else {
                    assert(spec_is_special(b[0]));
                    assert(ab[n] == b[0]);
                    lemma_first_special(ab, n);
                    assert(ab.subrange(0, n) =~= a.subrange(0, n));
                    assert(a.subrange(0, n) =~= a);
                    assert(ab.subrange(n, ab.len() as int) =~= b);
                    assert(a.subrange(n, a.len() as int) =~= Seq::<char>::empty());
                    lemma_tokens_concat(a.subrange(n, a.len() as int), b);
                    assert(spec_tokens(a) =~= seq![a] + spec_tokens(
                        a.subrange(n, a.len() as int),
                    ));
                    assert(spec_tokens(ab) =~= seq![a] + spec_tokens(b));
                    assert(spec_tokens(a) + spec_tokens(b) =~= seq![a] + spec_tokens(b));
                }
            }
        }
    }
}

/// The token sequence a serialized tree denotes.
pub open spec fn tok_seq(v: ValS) -> Seq<Seq<char>>
    decreases v,
{
    match v {
        ValS::Sym(t) => seq![t],
        ValS::SExpr(es) => seq![seq!['(']] + tok_seq_list(es) + seq![seq![')']],
        _ => Seq::empty(),
    }
}

/// The concatenated token sequences of a list's children.
pub open spec fn tok_seq_list(es: Seq<ValS>) -> Seq<Seq<char>>
    decreases es,
{
    if es.len() == 0 {
        Seq::empty()
    } else {
        tok_seq(es[0]) + tok_seq_list(es.subrange(1, es.len() as int))
    }
}

/// Serialized well-formed trees tokenize to exactly their token sequences.
pub proof fn lemma_text_tokens(v: ValS)
    requires
        wf_tree(v),
    ensures
        spec_tokens(spec_text(v)) == tok_seq(v),
    decreases v,
{
    match v {
        ValS::Sym(t) => {
            lemma_first_special(t, t.len() as int);
            assert(first_special(t) == t.len());
            assert(t.subrange(0, t.len() as int) =~= t);
            assert(t.subrange(t.len() as int, t.len() as int) =~= Seq::<char>::empty());
            assert(spec_tokens(t.subrange(t.len() as int, t.len() as int)) =~= Seq::<
                Seq<char>,
            >::empty());
            assert(spec_tokens(spec_text(v)) =~= seq![t]);
        },
        ValS::SExpr(es) => {
            let inner = spec_text_list(es);
            let close = seq![')'];
            assert((seq!['('] + (inner + close))[0] == '(');
            lemma_text_tokens_list(es);
            lemma_tokens_concat(inner, close);
            assert(close.drop_first() =~= Seq::<char>::empty());
            assert(spec_tokens(close.drop_first()) =~= Seq::<Seq<char>>::empty());
            assert(spec_tokens(close) =~= seq![seq![')']]);
            assert(spec_text(v) =~= seq!['('] + (inner + close));
            assert((seq!['('] + (inner + close)).drop_first() =~= inner + close);
            assert(spec_tokens(spec_text(v)) =~= seq![seq!['(']] + (tok_seq_list(es) + seq![
                seq![')'],
            ]));
            assert(tok_seq(v) =~= seq![seq!['(']] + (tok_seq_list(es) + seq![seq![')']]));
        },
        _ => {},
    }
}

/// Serialized child lists tokenize to their concatenated token sequences.
pub proof fn lemma_text_tokens_list(es: Seq<ValS>)
    requires
        wf_tree_list(es),
    ensures
        spec_tokens(spec_text_list(es)) == tok_seq_list(es),
    decreases es,
{
    if es.len() == 0 {
        assert(spec_tokens(spec_text_list(es)) =~= tok_seq_list(es));
    } else if es.len() == 1 {
        lemma_text_tokens(es[0]);
        assert(tok_seq_list(es.subrange(1, es.len() as int)) =~= Seq::<Seq<char>>::empty());
        assert(tok_seq_list(es) =~= tok_seq(es[0]));
    } else {
        let rest = es.subrange(1, es.len() as int);
        lemma_text_tokens(es[0]);
        lemma_text_tokens_list(rest);
        let t0 = spec_text(es[0]);
        let sep_rest = seq![' '] + spec_text_list(rest);
        assert(sep_rest[0] == ' ');
        lemma_tokens_concat(t0, sep_rest);
        assert(sep_rest.drop_first() =~= spec_text_list(rest));
        assert(spec_tokens(sep_rest) =~= spec_tokens(spec_text_list(rest)));
        assert(spec_text_list(es) =~= t0 + sep_rest);
        assert(spec_tokens(spec_text_list(es)) =~= tok_seq(es[0]) + tok_seq_list(rest));
        assert(tok_seq_list(es) =~= tok_seq(es[0]) + tok_seq_list(rest));
    }
}

/// Reading a serialized tree's tokens consumes exactly them: with no open
/// list the tree is the result; inside an open list it joins the top frame.
pub proof fn lemma_read_tree(v: ValS, rest: Seq<Seq<char>>, stack: Seq<Seq<ValS>>)
    requires
        wf_tree(v),
    ensures
        crate::parser::spec_read_iter(tok_seq(v) + rest, stack) == (if stack.len() == 0 {
            Ok::<(ValS, Seq<Seq<char>>), LispError>((v, rest))
        } else {
            crate::parser::spec_read_iter(
                rest,
                stack.update(stack.len() - 1, stack.last().push(v)),
            )
        }),
    decreases v,
{
    match v {
        ValS::Sym(t) => {
            let toks = tok_seq(v) + rest;
            assert(toks[0] == t);
            assert(toks.drop_first() =~= rest);
            if t == seq!['('] {
                assert(t[0] == '(');
                assert(false);
            }
            if t == seq![')'] {
                assert(t[0] == ')');
                assert(false);
            }
        },
        ValS::SExpr(es) => {
            let toks = tok_seq(v) + rest;
            let toks2 = seq![seq![')']] + rest;
            assert(toks[0] == seq!['(']);
            assert(toks.drop_first() =~= tok_seq_list(es) + toks2);
            let stack1 = stack.push(Seq::<ValS>::empty());
            lemma_read_children(es, toks2, stack1);
            assert(stack1.update(stack1.len() - 1, stack1.last() + es) =~= stack.push(
                Seq::<ValS>::empty() + es,
            ));
            assert(Seq::<ValS>::empty() + es =~= es);
            assert(toks2[0] == seq![')']);
            assert(toks2.drop_first() =~= rest);
            if seq![')'] == seq!['('] {
                assert(seq![')'][0] == seq!['('][0]);
                assert(false);
            }
            let stack2 = stack.push(es);
            assert(stack2.last() == es);
            if stack.len() == 0 {
                assert(stack2.len() == 1);
            } else {
                assert(stack2.drop_last() =~= stack);
                assert(stack2[stack2.len() - 2] == stack.last());
                assert(stack2.drop_last().update(
                    stack2.len() - 2,
                    stack2[stack2.len() - 2].push(ValS::SExpr(es)),
                ) =~= stack.update(stack.len() - 1, stack.last().push(v)));
            }
        },
        _ => {},
    }
}

/// Reading the children's tokens appends each child, in order, to the top
/// open list.
pub proof fn lemma_read_children(es: Seq<ValS>, rest: Seq<Seq<char>>, stack: Seq<Seq<ValS>>)
    requires
        wf_tree_list(es),
        stack.len() > 0,
    ensures
        crate::parser::spec_read_iter(tok_seq_list(es) + rest, stack)
            == crate::parser::spec_read_iter(
            rest,
            stack.update(stack.len() - 1, stack.last() + es),
        ),
    decreases es,
{
    if es.len() == 0 {
        assert(tok_seq_list(es) + rest =~= rest);
        assert(stack.last() + es =~= stack.last());
        assert(stack.update(stack.len() - 1, stack.last() + es) =~= stack);
    } else {
        let tail = es.subrange(1, es.len() as int);
        assert(tok_seq_list(es) + rest =~= tok_seq(es[0]) + (tok_seq_list(tail) + rest));
        lemma_read_tree(es[0], tok_seq_list(tail) + rest, stack);
        let stack1 = stack.update(stack.len() - 1, stack.last().push(es[0]));
        lemma_read_children(tail, rest, stack1);
        assert(stack.last().push(es[0]) + tail =~= stack.last() + es);
        assert(stack1.update(stack1.len() - 1, stack1.last() + tail) =~= stack.update(
            stack.len() - 1,
            stack.last() + es,
        ));
    }
}

/// The text of a well-formed tree parses back to exactly that tree.
pub proof fn lemma_text_parses_back(v: ValS)
    requires
        wf_tree(v),
    ensures
        crate::parser::spec_parse(spec_text(v)) == Ok::<ValS, LispError>(v),
{
    lemma_text_tokens(v);
    lemma_read_tree(v, Seq::empty(), Seq::empty());
    assert(tok_seq(v) + Seq::<Seq<char>>::empty() =~= tok_seq(v));
}

/// A token the lexer can produce: a paren, or a self-standing atom.
pub open spec fn tok_ok(t: Seq<char>) -> bool {
    t == seq!['('] || t == seq![')'] || wf_atom(t)
}

/// Every token the lexer produces is a paren or a well-formed atom.
pub proof fn lemma_tokens_wf(s: Seq<char>)
    ensures
        forall|i: int| 0 <= i < spec_tokens(s).len() ==> tok_ok(#[trigger] spec_tokens(s)[i]),
    decreases s.len(),
{
    if s.len() == 0 {
    } else if s[0] == '(' || s[0] == ')' {
        lemma_tokens_wf(s.drop_first());
        assert forall|i: int| 0 <= i < spec_tokens(s).len() implies tok_ok(spec_tokens(s)[i]) by {
            if i > 0 {
                assert(spec_tokens(s)[i] == spec_tokens(s.drop_first())[i - 1]);
            }
        }
    } else if spec_is_whitespace(s[0]) {
        lemma_tokens_wf(s.drop_first());
    } else {
        let n = first_special(s) as int;
        crate::lexer::lemma_first_special_le(s);
        lemma_first_special_chars(s);
        lemma_tokens_wf(s.subrange(n, s.len() as int));
        assert(wf_atom(s.subrange(0, n))) by {
            assert(first_special(s) >= 1);
            assert(forall|k: int|
                0 <= k < n ==> s.subrange(0, n)[k] == s[k] && !spec_is_special(s[k]));
        }
        assert forall|i: int| 0 <= i < spec_tokens(s).len() implies tok_ok(spec_tokens(s)[i]) by {
            if i > 0 {
                assert(spec_tokens(s)[i] == spec_tokens(s.subrange(n, s.len() as int))[i - 1]);
            }
        }
    }
}

/// A parse over parens and well-formed atoms yields a well-formed tree.
pub proof fn lemma_read_wf(toks: Seq<Seq<char>>, stack: Seq<Seq<ValS>>)
    requires
        forall|i: int| 0 <= i < toks.len() ==> tok_ok(#[trigger] toks[i]),
        forall|j: int, k: int|
            0 <= j < stack.len() && 0 <= k < stack[j].len() ==> wf_tree(#[trigger] stack[j][k]),
    ensures
        crate::parser::spec_read_iter(toks, stack) matches Ok(p) ==> wf_tree(p.0),
    decreases toks.len(),
{
    if toks.len() == 0 {
    } else {
        let t = toks[0];
        let rest = toks.drop_first();
        assert(tok_ok(t));
        assert(forall|i: int| 0 <= i < rest.len() ==> tok_ok(#[trigger] rest[i]));
        if t == seq!['('] {
            let stack1 = stack.push(Seq::<ValS>::empty());
            assert(forall|j: int, k: int|
                0 <= j < stack1.len() && 0 <= k < stack1[j].len() ==> wf_tree(
                    #[trigger] stack1[j][k],
                ));
            lemma_read_wf(rest, stack1);
        } else if t == seq![')'] {
            if stack.len() > 0 {
                let done = ValS::SExpr(stack.last());
                lemma_wf_list_pointwise(stack.last());
                assert(wf_tree(done));
                if stack.len() == 1 {
                } else {
                    let stack1 = stack.drop_last().update(
                        stack.len() - 2,
                        stack[stack.len() - 2].push(done),
                    );
                    assert(forall|j: int, k: int|
                        0 <= j < stack1.len() && 0 <= k < stack1[j].len() ==> wf_tree(
                            #[trigger] stack1[j][k],
                        ));
                    lemma_read_wf(rest, stack1);
                }
            }
        } else {
            assert(wf_atom(t));
            assert(wf_tree(ValS::Sym(t)));
            if stack.len() == 0 {
            } else {
                let stack1 = stack.update(stack.len() - 1, stack.last().push(ValS::Sym(t)));
                assert(forall|j: int, k: int|
                    0 <= j < stack1.len() && 0 <= k < stack1[j].len() ==> wf_tree(
                        #[trigger] stack1[j][k],
                    ));
                lemma_read_wf(rest, stack1);
            }
        }
    }
}

/// A list is well-formed exactly when each element is.
pub proof fn lemma_wf_list_pointwise(es: Seq<ValS>)
    ensures
        wf_tree_list(es) == (forall|k: int| 0 <= k < es.len() ==> wf_tree(#[trigger] es[k])),
    decreases es.len(),
{
    if es.len() > 0 {
        lemma_wf_list_pointwise(es.subrange(1, es.len() as int));
        assert forall|k: int|
            1 <= k < es.len() implies es.subrange(1, es.len() as int)[k - 1] == es[k] by {}
    }
}

/// ROUND TRIP: re-serializing a successfully parsed program text gives text
/// that parses to the very same tree, whatever the original whitespace.
pub proof fn lemma_parse_round_trip(s: Seq<char>)
    requires
        crate::parser::spec_parse(s) is Ok,
    ensures
        crate::parser::spec_parse(spec_text(crate::parser::spec_parse(s)->Ok_0))
            == crate::parser::spec_parse(s),
{
    lemma_tokens_wf(s);
    lemma_read_wf(spec_tokens(s), Seq::empty());
    lemma_text_parses_back(crate::parser::spec_parse(s)->Ok_0);
}

/// The binding a key was just given is the one its frame yields.
pub proof fn lemma_frame_set_get(
    s: Seq<(Seq<char>, ValS)>,
    k: Seq<char>,
    v: ValS,
)
    ensures
        crate::env::spec_frame_get(crate::env::spec_frame_set(s, k, v), k) == Some(v),
    decreases s.len(),
{
    if s.len() > 0 && s[0].0 != k {
        lemma_frame_set_get(s.drop_first(), k, v);
        assert((seq![s[0]] + crate::env::spec_frame_set(s.drop_first(), k, v)).drop_first()
            =~= crate::env::spec_frame_set(s.drop_first(), k, v));
    }
}

/// LEXICAL SCOPING, outward: applying a procedure evaluates its body in a
/// fresh frame, and the caller's environment is unchanged by the whole
/// application, whatever `define`s ran inside the body.
pub proof fn lemma_application_keeps_caller_env(items: Seq<ValS>, env: EnvS, fuel: nat)
    requires
        items.len() > 0,
        items[0] is Proc,
    ensures
        (crate::eval::spec_eval(ValS::SExpr(items), env, fuel)).0 == env,
{
}

/// LEXICAL SCOPING, inward: a top-level `define` yields an environment whose
/// innermost frame binds the name to the defined value, so the binding is
/// visible to every form evaluated afterwards in that environment.
pub proof fn lemma_define_binds(items: Seq<ValS>, env: EnvS, fuel: nat, nm: Seq<char>)
    requires
        fuel > 0,
        items.len() == 3,
        items[0] == ValS::Sym("define"@),
        items[1] == ValS::Sym(nm),
        (crate::eval::spec_eval(items[2], env, (fuel - 1) as nat)).1 is Ok,
    ensures
        ({
            let (env1, re) = crate::eval::spec_eval(items[2], env, (fuel - 1) as nat);
            let (env2, r2) = crate::eval::spec_eval(ValS::SExpr(items), env, fuel);
            &&& r2 == Ok::<ValS, LispError>(ValS::Succ)
            &&& crate::env::spec_lookup(env2, nm) == Some(re->Ok_0)
            &&& env2.outer == env1.outer
        }),
{
    proof_strlit_distinct();
    let (env1, re) = crate::eval::spec_eval(items[2], env, (fuel - 1) as nat);
    lemma_frame_set_get(env1.current, nm, re->Ok_0);
}

/// LEXICAL SCOPING, follow-up: a symbol the chain binds evaluates to its
/// bound value, so what `lemma_define_binds` established is what later
/// top-level forms see.
pub proof fn lemma_bound_symbol_evaluates(env: EnvS, nm: Seq<char>, v: ValS, fuel: nat)
    requires
        fuel > 0,
        crate::env::spec_lookup(env, nm) == Some(v),
    ensures
        crate::eval::spec_eval(ValS::Sym(nm), env, fuel) == (env, Ok::<ValS, LispError>(v)),
{
    crate::env::lemma_lookup_via_find(env, nm);
}

/// SELF-EVALUATING UNBOUND SYMBOL: a symbol no frame binds evaluates to
/// itself, not to a fault, and leaves the environment unchanged.
pub proof fn lemma_unbound_symbol_self_evaluates(s: Seq<char>, env: EnvS, fuel: nat)
    requires
        fuel > 0,
        crate::env::spec_lookup(env, s) is None,
    ensures
        crate::eval::spec_eval(ValS::Sym(s), env, fuel) == (
            env,
            Ok::<ValS, LispError>(ValS::Sym(s)),
        ),
{
    crate::env::lemma_lookup_via_find(env, s);
}

/// The reserved words are pairwise distinct pieces of text.
proof fn proof_strlit_distinct()
    ensures
        "define"@ != "quote"@,
        "define"@ != "if"@,
{
    reveal_strlit("define");
    reveal_strlit("quote");
    reveal_strlit("if");
    assert("define"@.len() == 6);
    assert("quote"@.len() == 5);
    assert("if"@.len() == 2);
}

/// The source text of a value, as the serializer of parsed trees writes it.
pub fn to_text(v: &LVal) -> (r: String)
    ensures
        r@ == spec_text(v@),
    decreases v, 0int,
{
    match v {
        LVal::Sym(s) => s.clone(),
        LVal::SExpr(es) => {
            let mut out = String::from_str("(");
            proof {
                reveal_strlit("(");
                reveal_strlit(")");
                assert(out@ =~= seq!['(']);
            }
            let inner = to_text_list(es, 0);
            out.append(inner.as_str());
            out.append(")");
            proof {
                crate::value::lemma_model_seq(es@);
                assert(crate::value::model_seq(es@).subrange(0, es@.len() as int)
                    =~= crate::value::model_seq(es@));
                assert(out@ =~= seq!['('] + spec_text_list(crate::value::model_seq(es@)) + seq![
                    ')',
                ]);
            }
            out
        },
        _ => {
            let out = String::new();
            proof {
                assert(out@ =~= Seq::<char>::empty());
            }
            out
        },
    }
}

/// The joined texts of the values from one position on.
pub fn to_text_list(es: &Vec<LVal>, from: usize) -> (r: String)
    requires
        from <= es@.len(),
    ensures
        r@ == spec_text_list(
            crate::value::model_seq(es@).subrange(from as int, es@.len() as int),
        ),
    decreases es, es@.len() - from,
{
    let ghost em = crate::value::model_seq(es@);
    let ghost rem = em.subrange(from as int, es@.len() as int);
    proof {
        crate::value::lemma_model_seq(es@);
    }
    if from >= es.len() {
        let out = String::new();
        proof {
            assert(rem =~= Seq::<ValS>::empty());
            assert(out@ =~= Seq::<char>::empty());
        }
        return out;
    }
    proof {
        assert(decreases_to!(*es => es@));
        assert(decreases_to!(es@ => es@[from as int]));
        assert(decreases_to!(*es => es@[from as int]));
        assert(rem[0] == em[from as int]);
    }
    let head = to_text(&es[from]);
    if from + 1 >= es.len() {
        proof {
            assert(rem.len() == 1);
        }
        return head;
    }
    let mut out = head;
    out.append(" ");
    let tail = to_text_list(es, from + 1);
    out.append(tail.as_str());
    proof {
        reveal_strlit(" ");
        assert(rem.subrange(1, rem.len() as int) =~= em.subrange(
            from as int + 1,
            es@.len() as int,
        ));
        assert(out@ =~= spec_text(rem[0]) + seq![' '] + spec_text_list(
            rem.subrange(1, rem.len() as int),
        ));
    }
    out
}

} // verus!
