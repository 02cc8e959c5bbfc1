//! The lexical environment: a chain of frames, each mapping symbol text to a
//! value, with lookup from the innermost frame outward.
use vstd::prelude::*;

use crate::value::{
    binding_model, clone_val, frame_model_seq, lemma_frame_model_seq, lemma_model_seq, model_seq,
    Env, EnvS, LVal, LispError, ValS,
};

verus! {

/// The value bound to a key in one frame: the frontmost binding wins.
pub open spec fn spec_frame_get(s: Seq<(Seq<char>, ValS)>, k: Seq<char>) -> Option<ValS>
    decreases s.len(),
{
    if s.len() == 0 {
        None
    } else if s[0].0 == k {
        Some(s[0].1)
    } else {
        spec_frame_get(s.drop_first(), k)
    }
}

/// One frame after binding a key: the first binding of that key is replaced,
/// or a new binding is appended.
pub open spec fn spec_frame_set(
    s: Seq<(Seq<char>, ValS)>,
    k: Seq<char>,
    v: ValS,
) -> Seq<(Seq<char>, ValS)>
    decreases s.len(),
{
    if s.len() == 0 {
        seq![(k, v)]
    } else if s[0].0 == k {
        seq![(k, v)] + s.drop_first()
    } else {
        seq![s[0]] + spec_frame_set(s.drop_first(), k, v)
    }
}

/// A frame without the key holds nothing for it.
pub proof fn lemma_frame_get_absent(s: Seq<(Seq<char>, ValS)>, k: Seq<char>)
    requires
        forall|j: int| 0 <= j < s.len() ==> (#[trigger] s[j]).0 != k,
    ensures
        spec_frame_get(s, k) is None,
    decreases s.len(),
{
    if s.len() > 0 {
        lemma_frame_get_absent(s.drop_first(), k);
    }
}

/// A frame yields the value at the first index that carries the key.
pub proof fn lemma_frame_get_found(s: Seq<(Seq<char>, ValS)>, k: Seq<char>, fi: int)
    requires
        0 <= fi < s.len(),
        s[fi].0 == k,
        forall|j: int| 0 <= j < fi ==> (#[trigger] s[j]).0 != k,
    ensures
        spec_frame_get(s, k) == Some(s[fi].1),
    decreases s.len(),
{
    if fi > 0 {
        lemma_frame_get_found(s.drop_first(), k, fi - 1);
    }
}

/// Binding an absent key appends it.
pub proof fn lemma_frame_set_absent(s: Seq<(Seq<char>, ValS)>, k: Seq<char>, v: ValS)
    requires
        forall|j: int| 0 <= j < s.len() ==> (#[trigger] s[j]).0 != k,
    ensures
        spec_frame_set(s, k, v) =~= s.push((k, v)),
    decreases s.len(),
{
    if s.len() > 0 {
        lemma_frame_set_absent(s.drop_first(), k, v);
    }
}

/// Binding a present key overwrites its first occurrence.
pub proof fn lemma_frame_set_found(s: Seq<(Seq<char>, ValS)>, k: Seq<char>, v: ValS, fi: int)
    requires
        0 <= fi < s.len(),
        s[fi].0 == k,
        forall|j: int| 0 <= j < fi ==> (#[trigger] s[j]).0 != k,
    ensures
        spec_frame_set(s, k, v) =~= s.update(fi, (k, v)),
    decreases s.len(),
{
    if fi > 0 {
        lemma_frame_set_found(s.drop_first(), k, v, fi - 1);
    }
}

/// The innermost environment of a chain whose frame binds the key; the
/// outermost environment when none does.
pub open spec fn spec_find(e: EnvS, k: Seq<char>) -> EnvS
    decreases e,
{
    if spec_frame_get(e.current, k) is Some {
        e
    } else {
        match e.outer {
            Some(b) => spec_find(*b, k),
            None => e,
        }
    }
}

/// The value a chain binds the key to, searching innermost first.
pub open spec fn spec_lookup(e: EnvS, k: Seq<char>) -> Option<ValS>
    decreases e,
{
    match spec_frame_get(e.current, k) {
        Some(v) => Some(v),
        None => match e.outer {
            Some(b) => spec_lookup(*b, k),
            None => None,
        },
    }
}

/// Lookup reads the frame that `spec_find` returns.
pub proof fn lemma_lookup_via_find(e: EnvS, k: Seq<char>)
    ensures
        spec_lookup(e, k) == spec_frame_get(spec_find(e, k).current, k),
    decreases e,
{
    if spec_frame_get(e.current, k) is None {
        match e.outer {
            Some(b) => lemma_lookup_via_find(*b, k),
            None => {},
        }
    }
}

/// One frame after binding, in order, each parameter that is a symbol to the
/// argument at the same position.
pub open spec fn spec_bind(params: Seq<ValS>, args: Seq<ValS>) -> Seq<(Seq<char>, ValS)>
    decreases params.len(),
{
    if params.len() == 0 {
        Seq::empty()
    } else {
        let prev = spec_bind(params.drop_last(), args);
        match params.last() {
            ValS::Sym(name) => spec_frame_set(prev, name, args[params.len() - 1]),
            _ => prev,
        }
    }
}

/// A fresh frame for a procedure call: more parameters than arguments is an
/// arity fault; otherwise each symbol parameter is bound positionally.
pub open spec fn spec_env_new(
    params: Seq<ValS>,
    args: Seq<ValS>,
    outer: Option<Box<EnvS>>,
) -> Result<EnvS, LispError> {
    if params.len() > args.len() {
        Err(LispError::ArityMismatch)
    } else {
        Ok(EnvS { current: spec_bind(params, args), outer })
    }
}

/// A frame after inserting a batch of bindings, frontmost first.
pub open spec fn spec_update(
    cur: Seq<(Seq<char>, ValS)>,
    adds: Seq<(Seq<char>, ValS)>,
) -> Seq<(Seq<char>, ValS)>
    decreases adds.len(),
{
    if adds.len() == 0 {
        cur
    } else {
        spec_update(spec_frame_set(cur, adds[0].0, adds[0].1), adds.drop_first())
    }
}

/// The model of a parent pointer.
pub open spec fn outer_model(o: &Option<Box<Env>>) -> Option<Box<EnvS>>
    decreases o,
{
    match o {
        Some(b) => Some(Box::new((**b).model())),
        None => None,
    }
}

/// The model of a result that carries an environment.
pub open spec fn env_res_model(r: Result<Env, LispError>) -> Result<EnvS, LispError> {
    match r {
        Ok(e) => Ok(e@),
        Err(e) => Err(e),
    }
}

/// Binds a key in a frame held as a vector, replacing its first occurrence
/// or appending.
pub fn frame_set_vec(m: &mut Vec<(String, LVal)>, k: String, v: LVal)
    ensures
        frame_model_seq(final(m)@) == spec_frame_set(frame_model_seq(old(m)@), k@, v@),
{
    let ghost s = frame_model_seq(old(m)@);
    proof {
        lemma_frame_model_seq(old(m)@);
    }
    let n = m.len();
    let mut i: usize = 0;
    while i < n
        invariant
            i <= n,
            n == m@.len(),
            m@ == old(m)@,
            s == frame_model_seq(old(m)@),
            forall|j: int| 0 <= j < i ==> (#[trigger] s[j]).0 != k@,
            s.len() == n,
            forall|j: int| 0 <= j < s.len() ==> s[j] == binding_model(old(m)@[j]),
        decreases n - i,
    {
        if m[i].0 == k {
            proof {
                lemma_frame_set_found(s, k@, v@, i as int);
            }
            m.set(i, (k, v));
            proof {
                lemma_frame_model_seq(m@);
                assert(frame_model_seq(m@) =~= s.update(i as int, (k@, v@)));
            }
            return ;
        }
        i += 1;
    }
    proof {
        lemma_frame_set_absent(s, k@, v@);
    }
    m.push((k, v));
    proof {
        lemma_frame_model_seq(m@);
        assert(frame_model_seq(m@) =~= s.push((k@, v@)));
    }
}

impl Env {
    /// The value the innermost frame alone binds the key to.
    pub fn get(&self, k: &String) -> (r: Option<&LVal>)
        ensures
            match r {
                Some(v) => spec_frame_get(self@.current, k@) == Some(v@),
                None => spec_frame_get(self@.current, k@) is None,
            },
    {
        let ghost s = frame_model_seq(self.current@);
        proof {
            lemma_frame_model_seq(self.current@);
        }
        let n = self.current.len();
        let mut i: usize = 0;
        while i < n
            invariant
                i <= n,
                n == self.current@.len(),
                s == frame_model_seq(self.current@),
                s.len() == n,
                forall|j: int| 0 <= j < s.len() ==> s[j] == binding_model(self.current@[j]),
                forall|j: int| 0 <= j < i ==> (#[trigger] s[j]).0 != k@,
            decreases n - i,
        {
            if self.current[i].0 == *k {
                proof {
                    lemma_frame_get_found(s, k@, i as int);
                }
                return Some(&self.current[i].1);
            }
            i += 1;
        }
        proof {
            lemma_frame_get_absent(s, k@);
        }
        None
    }

    /// A fresh frame binding each symbol parameter, positionally, to the
    /// corresponding argument, with the given parent.
    pub fn new(params: Vec<LVal>, args: Vec<LVal>, outer: Option<Box<Env>>) -> (r: Result<
        Env,
        LispError,
    >)
        ensures
            env_res_model(r) == spec_env_new(
                model_seq(params@),
                model_seq(args@),
                outer_model(&outer),
            ),
    {
        if params.len() > args.len() {
            proof {
                lemma_model_seq(params@);
                lemma_model_seq(args@);
            }
            return Err(LispError::ArityMismatch);
        }
        let ghost ps = model_seq(params@);
        let ghost ags = model_seq(args@);
        proof {
            lemma_model_seq(params@);
            lemma_model_seq(args@);
        }
        let mut m: Vec<(String, LVal)> = Vec::new();
        let n = params.len();
        let mut i: usize = 0;
        while i < n
            invariant
                i <= n,
                n == params@.len(),
                n <= args@.len(),
                ps == model_seq(params@),
                ags == model_seq(args@),
                ps.len() == n,
                ags.len() == args@.len(),
                forall|j: int| 0 <= j < ps.len() ==> ps[j] == params@[j].model(),
                forall|j: int| 0 <= j < ags.len() ==> ags[j] == args@[j].model(),
                frame_model_seq(m@) == spec_bind(ps.subrange(0, i as int), ags),
            decreases n - i,
        {
            let ghost pre = ps.subrange(0, i as int);
            let ghost post = ps.subrange(0, i as int + 1);
            proof {
                assert(post.drop_last() =~= pre);
                assert(post.last() == ps[i as int]);
            }
            match &params[i] {
                LVal::Sym(name) => {
                    let value = clone_val(&args[i]);
                    frame_set_vec(&mut m, name.clone(), value);
                },
                _ => {},
            }
            i += 1;
        }
        proof {
            assert(ps.subrange(0, n as int) =~= ps);
        }
        let res = Env { current: m, outer };
        proof {
            assert(res@.current == spec_bind(ps, ags));
            assert(res@.outer == outer_model(&res.outer));
        }
        Ok(res)
    }

    /// Inserts every given binding, in order, into the innermost frame.
    pub fn update(&mut self, m: Vec<(String, LVal)>)
        ensures
            final(self)@.outer == old(self)@.outer,
            final(self)@.current == spec_update(old(self)@.current, frame_model_seq(m@)),
    {
        let ghost adds = frame_model_seq(m@);
        proof {
            lemma_frame_model_seq(m@);
        }
        let n = m.len();
        proof {
            assert(adds.subrange(0, n as int) =~= adds);
        }
        let mut j: usize = 0;
        while j < n
            invariant
                j <= n,
                n == m@.len(),
                adds == frame_model_seq(m@),
                adds.len() == n,
                forall|i: int| 0 <= i < adds.len() ==> adds[i] == binding_model(m@[i]),
                self@.outer == old(self)@.outer,
                spec_update(old(self)@.current, adds) == spec_update(
                    frame_model_seq(self.current@),
                    adds.subrange(j as int, n as int),
                ),
            decreases n - j,
        {
            let ghost rem = adds.subrange(j as int, n as int);
            proof {
                assert(rem.drop_first() =~= adds.subrange(j as int + 1, n as int));
                assert(rem[0] == adds[j as int]);
            }
            let name = m[j].0.clone();
            let value = clone_val(&m[j].1);
            frame_set_vec(&mut self.current, name, value);
            j += 1;
        }
        proof {
            assert(adds.subrange(n as int, n as int) =~= Seq::<(Seq<char>, ValS)>::empty());
        }
    }

    /// Binds one key in the innermost frame.
    pub fn assoc(&mut self, k: String, v: LVal)
        ensures
            final(self)@.outer == old(self)@.outer,
            final(self)@.current == spec_frame_set(old(self)@.current, k@, v@),
    {
        frame_set_vec(&mut self.current, k, v);
    }

    /// The innermost environment of the chain whose frame binds the key, or
    /// the outermost when none does.
    pub fn find(&self, var: &String) -> (r: &Env)
        ensures
            r@ == spec_find(self@, var@),
        decreases self,
    {
        if self.get(var).is_some() {
            self
        } else {
            match &self.outer {
                Some(o) => (**o).find(var),
                None => self,
            }
        }
    }
}

} // verus!
