use vstd::prelude::*;
use crate::atoms::{Function, Variable};
use crate::host::spec_host_args;
use crate::signature::{Signature, spec_by_return_type};
use crate::term::{Term, spec_term_wf, spec_term_type};
use crate::types::HostType;

verus! {

/// How deep a generated term may be.
pub const MAX_DEPTH: u16 = 8;

/// How often generation is retried per root symbol before giving up.
pub const MAX_TRIES: u16 = 100;

/// One step of the xorshift pseudo-random sequence.
pub open spec fn spec_rand_step(s: u64) -> u64 {
    let a = s ^ (s << 13);
    let b = a ^ (a >> 7);
    b ^ (b << 17)
}

/// A deterministic pseudo-random source: the whole draw sequence is a
/// function of the seed, so generation driven by it is reproducible.
#[derive(Debug, Clone, Copy, PartialEq, Eq, Structural)]
pub struct ZooRand {
    /// The current state of the xorshift sequence.
    pub state: u64,
}

impl ZooRand {
    /// A source seeded with the given value.
    pub fn new(seed: u64) -> (r: ZooRand)
        ensures
            r.state == seed,
    {
        ZooRand { state: seed }
    }

    /// The next draw, below the given bound.
    pub fn next_below(&mut self, bound: u64) -> (r: u64)
        requires
            bound > 0,
        ensures
            final(self).state == spec_rand_step(old(self).state),
            r == spec_rand_step(old(self).state) % bound,
            r < bound,
    {
        let a: u64 = self.state ^ (self.state << 13u64);
        let b: u64 = a ^ (a >> 7u64);
        let c: u64 = b ^ (b << 17u64);
        self.state = c;
        c % bound
    }
}

/// The height of a term: a leaf stands alone, an application is one
/// level above its tallest argument.
pub open spec fn spec_height(t: Term) -> nat
    decreases t,
{
    match t {
        Term::Variable(_) => 1,
        Term::Application(_, args) => 1 + spec_height_all(args@),
    }
}

/// The tallest height among a list of terms.
pub open spec fn spec_height_all(ts: Seq<Term>) -> nat
    decreases ts,
{
    if ts.len() == 0 {
        0
    } else if spec_height(ts.last()) > spec_height_all(ts.drop_last()) {
        spec_height(ts.last())
    } else {
        spec_height_all(ts.drop_last())
    }
}

/// The mathematical shape of a term: the same tree over sequences, so
/// that two terms can be compared node for node.
pub enum TermModel {
    Variable(Variable),
    Application(Function, Seq<TermModel>),
}

/// The shape of a term.
pub open spec fn model_of(t: Term) -> TermModel
    decreases t,
{
    match t {
        Term::Variable(v) => TermModel::Variable(v),
        Term::Application(f, args) => TermModel::Application(f, models_of(args@)),
    }
}

/// The shapes of a list of terms.
pub open spec fn models_of(ts: Seq<Term>) -> Seq<TermModel>
    decreases ts,
{
    if ts.len() == 0 {
        Seq::empty()
    } else {
        models_of(ts.drop_last()).push(model_of(ts.last()))
    }
}

/// What one generation attempt yields for a root symbol at a depth,
/// and the random state it leaves behind: an exhausted depth abandons
/// the attempt; otherwise every declared argument type is filled in
/// order and the application is built.
pub open spec fn spec_gen_term(fs: Seq<Function>, def: Function, depth: int, s: u64) -> (
    Option<TermModel>,
    u64,
)
    decreases depth, 1int, 0int,
{
    if depth <= 0 {
        (None, s)
    } else {
        let res = spec_gen_args(fs, spec_host_args(def.host), depth, s);
        match res.0 {
            None => (None, res.1),
            Some(ms) => (Some(TermModel::Application(def, ms)), res.1),
        }
    }
}

/// Fills a list of required argument types left to right: each draws
/// uniformly from the symbols returning it and recurses one level
/// lower; a type with no candidate, or a failed recursion, abandons
/// the whole list.
pub open spec fn spec_gen_args(fs: Seq<Function>, types: Seq<HostType>, depth: int, s: u64) -> (
    Option<Seq<TermModel>>,
    u64,
)
    decreases depth, 0int, types.len(),
{
    if depth <= 0 {
        (None, s)
    } else if types.len() == 0 {
        (Some(Seq::empty()), s)
    } else {
        let cands = spec_by_return_type(fs, types[0]);
        if cands.len() == 0 {
            (None, s)
        } else {
            let pick = spec_rand_step(s) % (cands.len() as u64);
            let s2 = spec_rand_step(s);
            let sub = spec_gen_term(fs, cands[pick as int], depth - 1, s2);
            match sub.0 {
                None => (None, sub.1),
                Some(tm) => {
                    let rest = spec_gen_args(fs, types.drop_first(), depth, sub.1);
                    match rest.0 {
                        None => (None, rest.1),
                        Some(ms) => (Some(seq![tm] + ms), rest.1),
                    }
                },
            }
        }
    }
}

/// Retries generation for one root symbol until an attempt succeeds
/// or the tries are spent.
pub open spec fn spec_gen_tries(fs: Seq<Function>, def: Function, tries: int, s: u64) -> (
    Option<TermModel>,
    u64,
)
    decreases tries,
{
    if tries <= 0 {
        (None, s)
    } else {
        let attempt = spec_gen_term(fs, def, MAX_DEPTH as int, s);
        match attempt.0 {
            Some(t) => (Some(t), attempt.1),
            None => spec_gen_tries(fs, def, tries - 1, attempt.1),
        }
    }
}

/// The whole zoo: one round of tries per symbol of `rest`, in order,
/// collecting the successes.
pub open spec fn spec_gen_zoo(fs: Seq<Function>, rest: Seq<Function>, s: u64) -> (
    Seq<TermModel>,
    u64,
)
    decreases rest,
{
    if rest.len() == 0 {
        (Seq::empty(), s)
    } else {
        let first = spec_gen_tries(fs, rest[0], MAX_TRIES as int, s);
        let others = spec_gen_zoo(fs, rest.drop_first(), first.1);
        (
            match first.0 {
                Some(t) => seq![t] + others.0,
                None => others.0,
            },
            others.1,
        )
    }
}

/// Joins already generated argument shapes in front of the rest of a
/// list generation.
pub open spec fn spec_join_args(ms: Seq<TermModel>, rest: (Option<Seq<TermModel>>, u64)) -> (
    Option<Seq<TermModel>>,
    u64,
) {
    match rest.0 {
        Some(r) => (Some(ms + r), rest.1),
        None => (None, rest.1),
    }
}

/// Joins already collected zoo shapes in front of the rest of a zoo
/// generation.
pub open spec fn spec_join_zoo(ms: Seq<TermModel>, rest: (Seq<TermModel>, u64)) -> (
    Seq<TermModel>,
    u64,
) {
    (ms + rest.0, rest.1)
}

/// The shape of an optional term.
pub open spec fn opt_model_of(r: Option<Term>) -> Option<TermModel> {
    match r {
        Some(t) => Some(model_of(t)),
        None => None,
    }
}

/// A generated corpus of closed well-typed terms, at most one per root
/// symbol of the signature.
#[derive(Debug)]
pub struct TermZoo {
    /// The produced terms, in the order of their root symbols.
    pub terms: Vec<Term>,
}

/// Every produced term is well formed, rooted in a symbol of the
/// signature, and stays within the depth bound.
pub open spec fn spec_zoo_wf(terms: Seq<Term>, fs: Seq<Function>) -> bool {
    forall|j: int|
        0 <= j < terms.len() ==> {
            &&& spec_term_wf(#[trigger] terms[j])
            &&& spec_height(terms[j]) <= MAX_DEPTH
            &&& terms[j] matches Term::Application(f, _) && fs.contains(f)
        }
}

impl TermZoo {
    /// The generated terms, in the order of their root symbols.
    pub fn terms(&self) -> (r: &Vec<Term>)
        ensures
            r@ == self.terms@,
    {
        &self.terms
    }

    /// Attempts to build one closed well-typed term rooted in the given
    /// symbol: each required argument type draws a symbol returning it
    /// from the signature and recurses one level lower. An exhausted
    /// depth, or a required type with no candidate, abandons the
    /// attempt. The outcome and the random state left behind are
    /// exactly what `spec_gen_term` specifies.
    pub fn generate_term(signature: &Signature, def: Function, depth: u16, rand: &mut ZooRand) -> (r:
        Option<Term>)
        ensures
            depth == 0 ==> r is None,
            spec_gen_term(signature.functions@, def, depth as int, old(rand).state) == (
            opt_model_of(r), final(rand).state),
            match r {
                Some(t) => {
                    &&& t matches Term::Application(f, _) && f == def
                    &&& spec_term_type(t) == crate::host::spec_host_ret(def.host)
                    &&& spec_term_wf(t)
                    &&& spec_height(t) <= depth
                },
                None => true,
            },
        decreases depth,
    {
        if depth == 0 {
            return None;
        }
        let ghost fs = signature.functions@;
        let ghost types = spec_host_args(def.host);
        let ghost s0 = rand.state;
        let arity = def.arity();
        let mut subterms: Vec<Term> = Vec::new();
        let mut i: usize = 0;
        proof {
            assert(types.skip(0) =~= types);
            assert(models_of(subterms@) =~= Seq::<TermModel>::empty());
            let whole = spec_gen_args(fs, types, depth as int, s0);
            match whole.0 {
                Some(ms) => {
                    assert(Seq::<TermModel>::empty() + ms =~= ms);
                },
                None => {},
            }
        }
        while i < arity
            invariant
                i <= arity,
                depth >= 1,
                s0 == old(rand).state,
                fs == signature.functions@,
                types == spec_host_args(def.host),
                arity == types.len(),
                subterms@.len() == i,
                spec_gen_args(fs, types, depth as int, s0) == spec_join_args(
                    models_of(subterms@),
                    spec_gen_args(fs, types.skip(i as int), depth as int, rand.state),
                ),
                forall|j: int| 0 <= j < i ==> spec_term_wf(#[trigger] subterms@[j]),
                forall|j: int| 0 <= j < i ==> spec_height(#[trigger] subterms@[j]) <= depth - 1,
                forall|j: int|
                    0 <= j < i ==> spec_term_type(#[trigger] subterms@[j]) == spec_host_args(
                        def.host,
                    )[j],
            decreases arity - i,
        {
            proof {
                assert(types.skip(i as int)[0] == types[i as int]);
                assert(types.skip(i as int).drop_first() =~= types.skip(i + 1 as int));
            }
            let typ = def.host.argument_type(i);
            let possibilities = signature.functions_by_typ(typ);
            if possibilities.len() == 0 {
                proof {
                    assert(spec_gen_args(fs, types.skip(i as int), depth as int, rand.state) == (
                    None::<Seq<TermModel>>, rand.state));
                    assert(spec_gen_args(fs, types, depth as int, s0) == (
                    None::<Seq<TermModel>>, rand.state));
                    assert(spec_gen_term(fs, def, depth as int, s0) == (
                    None::<TermModel>, rand.state));
                }
                return None;
            }
            let ghost s_draw = rand.state;
            let pick = rand.next_below(possibilities.len() as u64);
            let possibility = possibilities[pick as usize];
            proof {
                lemma_by_return_type_sound(signature.functions@, typ, pick as int);
            }
            match Self::generate_term(signature, possibility, depth - 1, rand) {
                Some(subterm) => {
                    let ghost old_subterms = subterms@;
                    subterms.push(subterm);
                    proof {
                        assert(subterms@.drop_last() =~= old_subterms);
                        assert(subterms@.last() == subterm);
                        assert(models_of(subterms@) == models_of(old_subterms).push(
                            model_of(subterm),
                        ));
                        let rest = spec_gen_args(
                            fs,
                            types.skip(i + 1 as int),
                            depth as int,
                            rand.state,
                        );
                        match rest.0 {
                            Some(rs) => {
                                assert(models_of(old_subterms) + (seq![model_of(subterm)] + rs)
                                    =~= models_of(subterms@) + rs);
                            },
                            None => {},
                        }
                        assert(spec_gen_args(fs, types.skip(i as int), depth as int, s_draw)
                            == spec_join_args(seq![model_of(subterm)], rest));
                    }
                },
                None => {
                    proof {
                        assert(spec_gen_args(fs, types.skip(i as int), depth as int, s_draw) == (
                        None::<Seq<TermModel>>, rand.state));
                        assert(spec_gen_args(fs, types, depth as int, s0) == (
                        None::<Seq<TermModel>>, rand.state));
                        assert(spec_gen_term(fs, def, depth as int, s0) == (
                        None::<TermModel>, rand.state));
                    }
                    return None;
                },
            }
            i = i + 1;
        }
        let t = Term::Application(def, subterms);
        proof {
            lemma_height_all_le(t->Application_1@, (depth - 1) as nat);
            assert(types.skip(arity as int) =~= Seq::<HostType>::empty());
            let ms = models_of(t->Application_1@);
            assert(ms + Seq::<TermModel>::empty() =~= ms);
            assert(spec_gen_args(fs, types, depth as int, s0) == (Some(ms), rand.state));
            assert(model_of(t) == TermModel::Application(def, ms));
        }
        Some(t)
    }

    /// Generates the zoo: for every symbol of the signature, up to
    /// `MAX_TRIES` attempts to build one closed well-typed term of
    /// depth at most `MAX_DEPTH` rooted in it. The produced shapes and
    /// the random state left behind are exactly what `spec_gen_zoo`
    /// specifies: generation is a function of the signature and the
    /// seed alone.
    pub fn generate(signature: &Signature, rand: &mut ZooRand) -> (r: TermZoo)
        ensures
            spec_zoo_wf(r.terms@, signature.functions@),
            spec_gen_zoo(signature.functions@, signature.functions@, old(rand).state) == (
            models_of(r.terms@), final(rand).state),
    {
        let ghost fs = signature.functions@;
        let ghost s0 = rand.state;
        let mut terms: Vec<Term> = Vec::new();
        let n: usize = signature.functions.len();
        let mut i: usize = 0;
        proof {
            assert(fs.skip(0) =~= fs);
            assert(models_of(terms@) =~= Seq::<TermModel>::empty());
            let whole = spec_gen_zoo(fs, fs, s0);
            assert(Seq::<TermModel>::empty() + whole.0 =~= whole.0);
        }
        while i < n
            invariant
                i <= n,
                s0 == old(rand).state,
                fs == signature.functions@,
                n == fs.len(),
                spec_zoo_wf(terms@, signature.functions@),
                spec_gen_zoo(fs, fs, s0) == spec_join_zoo(
                    models_of(terms@),
                    spec_gen_zoo(fs, fs.skip(i as int), rand.state),
                ),
            decreases n - i,
        {
            proof {
                assert(fs.skip(i as int)[0] == fs[i as int]);
                assert(fs.skip(i as int).drop_first() =~= fs.skip(i + 1 as int));
            }
            let def = signature.functions[i];
            let ghost s_enter = rand.state;
            let mut found: Option<Term> = None;
            let mut counter: u16 = MAX_TRIES;
            loop
                invariant_except_break
                    found is None,
                    spec_gen_tries(fs, def, MAX_TRIES as int, s_enter) == spec_gen_tries(
                        fs,
                        def,
                        counter as int,
                        rand.state,
                    ),
                invariant
                    fs == signature.functions@,
                    0 <= i < fs.len(),
                    def == fs[i as int],
                    counter <= MAX_TRIES,
                ensures
                    spec_gen_tries(fs, def, MAX_TRIES as int, s_enter) == (
                    opt_model_of(found), rand.state),
                    match found {
                        Some(t) => {
                            &&& spec_term_wf(t)
                            &&& spec_height(t) <= MAX_DEPTH
                            &&& t matches Term::Application(f, _) && f == def
                        },
                        None => true,
                    },
                decreases counter,
            {
                if counter == 0 {
                    break ;
                }
                counter = counter - 1;
                if let Some(term) = Self::generate_term(signature, def, MAX_DEPTH, rand) {
                    found = Some(term);
                    break ;
                }
            }
            let ghost old_terms = terms@;
            match found {
                Some(term) => {
                    terms.push(term);
                    proof {
                        assert(fs.contains(def)) by {
                            assert(fs[i as int] == def);
                        }
                        assert(terms@.drop_last() =~= old_terms);
                        assert(terms@.last() == term);
                        assert(models_of(terms@) == models_of(old_terms).push(model_of(term)));
                        let rest = spec_gen_zoo(fs, fs.skip(i + 1 as int), rand.state);
                        assert(models_of(old_terms) + (seq![model_of(term)] + rest.0)
                            =~= models_of(terms@) + rest.0);
                    }
                },
                None => {},
            }
            i = i + 1;
        }
        proof {
            assert(fs.skip(n as int) =~= Seq::<Function>::empty());
            assert(models_of(terms@) + Seq::<TermModel>::empty() =~= models_of(terms@));
        }
        TermZoo { terms }
    }
}

/// The zoo generator is deterministic: two generations over the same
/// signature from the same seed produce node-for-node equal terms and
/// leave the random source in the same state.
pub proof fn lemma_zoo_generation_deterministic(
    fs: Seq<Function>,
    seed: u64,
    models1: Seq<TermModel>,
    state1: u64,
    models2: Seq<TermModel>,
    state2: u64,
)
    requires
        spec_gen_zoo(fs, fs, seed) == (models1, state1),
        spec_gen_zoo(fs, fs, seed) == (models2, state2),
    ensures
        models1 == models2,
        state1 == state2,
{
}

impl TermZoo {
    /// Draws uniformly among the terms the filter accepts: the result
    /// was accepted by an invocation of the filter, and nothing comes
    /// back only when every term was rejected by one.
    pub fn choose_filtered<'a, P: Fn(&Term) -> bool>(
        &'a self,
        filter: &P,
        rand: &mut ZooRand,
    ) -> (r: Option<&'a Term>)
        requires
            forall|t: &Term| filter.requires((t,)),
        ensures
            match r {
                Some(s) => exists|j: int|
                    #![auto]
                    0 <= j < self.terms@.len() && *s == self.terms@[j] && call_ensures(
                        *filter,
                        (&self.terms@[j],),
                        true,
                    ),
                None => forall|j: int|
                    0 <= j < self.terms@.len() ==> call_ensures(
                        *filter,
                        (&(#[trigger] self.terms@[j]),),
                        false,
                    ),
            },
    {
        let n: usize = self.terms.len();
        let mut accepted: Vec<usize> = Vec::new();
        let mut i: usize = 0;
        while i < n
            invariant
                i <= n,
                n == self.terms@.len(),
                forall|t: &Term| filter.requires((t,)),
                forall|k: int|
                    0 <= k < accepted@.len() ==> (#[trigger] accepted@[k]) < i && call_ensures(
                        *filter,
                        (&self.terms@[accepted@[k] as int],),
                        true,
                    ),
                forall|j: int|
                    0 <= j < i ==> (#[trigger] accepted@.contains(j as usize) || call_ensures(
                        *filter,
                        (&self.terms@[j],),
                        false,
                    )),
            decreases n - i,
        {
            let ghost old_accepted = accepted@;
            if filter(&self.terms[i]) {
                accepted.push(i);
                proof {
                    assert(accepted@[accepted@.len() - 1] == i);
                    assert(accepted@.contains(i));
                    assert forall|j: int|
                        0 <= j < i && old_accepted.contains(j as usize) implies #[trigger] accepted@
                        .contains(j as usize) by {
                        let k = choose|k: int|
                            0 <= k < old_accepted.len() && old_accepted[k] == j as usize;
                        assert(accepted@[k] == j as usize);
                    }
                }
            }
            i = i + 1;
        }
        if accepted.len() == 0 {
            proof {
                assert forall|j: int|
                    0 <= j < self.terms@.len() implies call_ensures(
                    *filter,
                    (&(#[trigger] self.terms@[j]),),
                    false,
                ) by {
                    assert(!accepted@.contains(j as usize));
                }
            }
            return None;
        }
        let pick = rand.next_below(accepted.len() as u64);
        let index = accepted[pick as usize];
        Some(&self.terms[index])
    }
}

/// Every symbol the by-return-type index hands out is a symbol of the
/// signature with that return type.
pub proof fn lemma_by_return_type_sound(fs: Seq<Function>, t: HostType, j: int)
    requires
        0 <= j < spec_by_return_type(fs, t).len(),
    ensures
        fs.contains(spec_by_return_type(fs, t)[j]),
        crate::host::spec_host_ret(spec_by_return_type(fs, t)[j].host) == t,
    decreases fs,
{
    if fs.len() > 0 {
        let rest = spec_by_return_type(fs.drop_last(), t);
        if j < rest.len() {
            lemma_by_return_type_sound(fs.drop_last(), t, j);
            assert(fs.drop_last().contains(rest[j]));
            let w = choose|w: int| 0 <= w < fs.drop_last().len() && fs.drop_last()[w] == rest[j];
            assert(fs[w] == rest[j]);
        } else {
            assert(fs.contains(fs.last())) by {
                assert(fs[fs.len() - 1] == fs.last());
            }
        }
    }
}

/// A list of terms no taller than a bound has a bounded tallest member.
pub proof fn lemma_height_all_le(ts: Seq<Term>, bound: nat)
    requires
        forall|j: int| 0 <= j < ts.len() ==> spec_height(#[trigger] ts[j]) <= bound,
    ensures
        spec_height_all(ts) <= bound,
    decreases ts,
{
    if ts.len() > 0 {
        lemma_height_all_le(ts.drop_last(), bound);
    }
}

} // verus!
