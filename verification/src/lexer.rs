//! The lexer: source text becomes a flat ordered sequence of symbol tokens.
//!
//! A `(` or `)` is always its own token, wherever it stands; every other
//! token is a maximal run of characters that are neither parens nor
//! whitespace; whitespace only separates.
use vstd::prelude::*;

use crate::value::{LVal, ValS};
use vstd::std_specs::iter::IteratorSpec;

verus! {

/// Relies on `String::push`: appends the given character to the string.
pub assume_specification[ String::push ](s: &mut String, ch: char)
    ensures
        final(s)@ == old(s)@.push(ch),
;

/// Whether a character has the Unicode `White_Space` property, the notion of
/// whitespace that splitting is defined over.
pub open spec fn spec_is_whitespace(c: char) -> bool {
    c == ' ' || c == '\t' || c == '\n' || c == '\r' || c == '\u{b}' || c == '\u{c}' || c == '\u{85}'
        || c == '\u{a0}' || c == '\u{1680}' || ('\u{2000}' <= c && c <= '\u{200a}') || c
        == '\u{2028}' || c == '\u{2029}' || c == '\u{202f}' || c == '\u{205f}' || c == '\u{3000}'
}

/// Whether a character ends an atom: a paren or whitespace.
pub open spec fn spec_is_special(c: char) -> bool {
    c == '(' || c == ')' || spec_is_whitespace(c)
}

/// Whether a character has the Unicode `White_Space` property.
pub fn is_whitespace_char(c: char) -> (r: bool)
    ensures
        r == spec_is_whitespace(c),
{
    c == ' ' || c == '\t' || c == '\n' || c == '\r' || c == '\u{b}' || c == '\u{c}' || c == '\u{85}'
        || c == '\u{a0}' || c == '\u{1680}' || ('\u{2000}' <= c && c <= '\u{200a}') || c
        == '\u{2028}' || c == '\u{2029}' || c == '\u{202f}' || c == '\u{205f}' || c == '\u{3000}'
}

/// The length of the leading run of non-special characters.
pub open spec fn first_special(s: Seq<char>) -> nat
    decreases s.len(),
{
    if s.len() == 0 {
        0
    } else if spec_is_special(s[0]) {
        0
    } else {
        1 + first_special(s.drop_first())
    }
}

/// A scan that stopped at the first special character measures the leading
/// run exactly.
pub proof fn lemma_first_special(s: Seq<char>, m: int)
    requires
        0 <= m <= s.len(),
        forall|k: int| 0 <= k < m ==> !spec_is_special(#[trigger] s[k]),
        m == s.len() || spec_is_special(s[m]),
    ensures
        first_special(s) == m,
    decreases s.len(),
{
    if m > 0 {
        lemma_first_special(s.drop_first(), m - 1);
    }
}

/// The leading run never reaches past the end of the text.
pub proof fn lemma_first_special_le(s: Seq<char>)
    ensures
        first_special(s) <= s.len(),
    decreases s.len(),
{
    if s.len() > 0 && !spec_is_special(s[0]) {
        lemma_first_special_le(s.drop_first());
    }
}

/// The token texts of a piece of source text: parens stand alone, whitespace
/// separates, and every other maximal run is one token.
pub open spec fn spec_tokens(s: Seq<char>) -> Seq<Seq<char>>
    decreases s.len() via spec_tokens_decreases
{
    if s.len() == 0 {
        Seq::empty()
    } else if s[0] == '(' || s[0] == ')' {
        seq![seq![s[0]]] + spec_tokens(s.drop_first())
    } else if spec_is_whitespace(s[0]) {
        spec_tokens(s.drop_first())
    } else {
        let n = first_special(s) as int;
        seq![s.subrange(0, n)] + spec_tokens(s.subrange(n, s.len() as int))
    }
}

#[via_fn]
proof fn spec_tokens_decreases(s: Seq<char>) {
    if s.len() > 0 && !(s[0] == '(' || s[0] == ')') && !spec_is_whitespace(s[0]) {
        assert(first_special(s) >= 1);
        lemma_first_special_le(s);
    }
}

/// Token texts wrapped as symbol values.
pub open spec fn syms_of(toks: Seq<Seq<char>>) -> Seq<ValS> {
    Seq::new(toks.len(), |i: int| ValS::Sym(toks[i]))
}

/// The characters of a piece of text, in order.
pub fn chars_of(s: &str) -> (r: Vec<char>)
    ensures
        r@ == s@,
{
    let mut out: Vec<char> = Vec::new();
    let mut it = s.chars();
    loop
        invariant
            it.obeys_prophetic_iter_laws(),
            it.decrease() is Some,
            out@ + it.remaining() == s@,
        decreases it.decrease()->0,
    {
        match it.next() {
            Some(c) => {
                out.push(c);
                proof {
                    assert(out@ + it.remaining() =~= s@);
                }
            },
            None => {
                proof {
                    assert(out@ =~= s@);
                }
                return out;
            },
        }
    }
}

/// The text of a character range, as an owned string.
pub fn string_from_range(cs: &Vec<char>, a: usize, b: usize) -> (r: String)
    requires
        a <= b <= cs@.len(),
    ensures
        r@ == cs@.subrange(a as int, b as int),
{
    let mut out = String::new();
    let mut j: usize = a;
    proof {
        assert(cs@.subrange(a as int, a as int) =~= Seq::<char>::empty());
    }
    while j < b
        invariant
            a <= j <= b <= cs@.len(),
            out@ == cs@.subrange(a as int, j as int),
        decreases b - j,
    {
        out.push(cs[j]);
        proof {
            assert(cs@.subrange(a as int, j as int + 1) =~= cs@.subrange(a as int, j as int).push(
                cs@[j as int],
            ));
        }
        j += 1;
    }
    out
}

/// Splits source text into symbol tokens, one per paren and one per maximal
/// run of other non-whitespace characters.
pub fn tokenize(s: &str) -> (r: LVal)
    ensures
        r@ == ValS::SExpr(syms_of(spec_tokens(s@))),
{
    let cs = chars_of(s);
    let n = cs.len();
    let mut out: Vec<LVal> = Vec::new();
    let ghost mut done: Seq<Seq<char>> = Seq::empty();
    let mut i: usize = 0;
    proof {
        assert(cs@.subrange(0, n as int) =~= cs@);
    }
    while i < n
        invariant
            i <= n,
            n == cs@.len(),
            cs@ == s@,
            out@.len() == done.len(),
            forall|k: int| 0 <= k < done.len() ==> (#[trigger] out@[k]).model() == ValS::Sym(
                done[k],
            ),
            spec_tokens(s@) == done + spec_tokens(cs@.subrange(i as int, n as int)),
        decreases n - i,
    {
        let ghost rest = cs@.subrange(i as int, n as int);
        proof {
            assert(rest[0] == cs@[i as int]);
            assert(rest.drop_first() =~= cs@.subrange(i as int + 1, n as int));
        }
        let c = cs[i];
        if c == '(' || c == ')' {
            let mut t = String::new();
            t.push(c);
            proof {
                assert(t@ =~= seq![cs@[i as int]]);
                assert(done.push(t@) + spec_tokens(cs@.subrange(i as int + 1, n as int)) =~= done
                    + spec_tokens(rest));
            }
            out.push(LVal::Sym(t));
            proof {
                done = done.push(t@);
            }
            i += 1;
        } else if is_whitespace_char(c) {
            i += 1;
        } else {
            let mut j: usize = i + 1;
            let mut stop = false;
            while j < n && !stop
                invariant
                    i < j <= n,
                    n == cs@.len(),
                    forall|k: int| i <= k < j ==> !spec_is_special(#[trigger] cs@[k]),
                    stop ==> j < n && spec_is_special(cs@[j as int]),
                decreases n - j, (if stop { 0int } else { 1int }),
            {
                let d = cs[j];
                if d == '(' || d == ')' || is_whitespace_char(d) {
                    stop = true;
                } else {
                    j += 1;
                }
            }
            proof {
                assert(forall|k: int| 0 <= k < j - i ==> rest[k] == cs@[i + k]);
                lemma_first_special(rest, j - i);
                assert(rest.subrange(0, j - i) =~= cs@.subrange(i as int, j as int));
                assert(rest.subrange(j - i, rest.len() as int) =~= cs@.subrange(
                    j as int,
                    n as int,
                ));
            }
            let t = string_from_range(&cs, i, j);
            proof {
                assert(done.push(t@) + spec_tokens(cs@.subrange(j as int, n as int)) =~= done
                    + spec_tokens(rest));
            }
            out.push(LVal::Sym(t));
            proof {
                done = done.push(t@);
            }
            i = j;
        }
    }
    proof {
        assert(cs@.subrange(n as int, n as int) =~= Seq::<char>::empty());
        assert(done =~= spec_tokens(s@));
    }
    let r = LVal::SExpr(out);
    proof {
        crate::value::lemma_model_seq(out@);
        assert(crate::value::model_seq(out@) =~= syms_of(spec_tokens(s@)));
    }
    r
}

} // verus!
