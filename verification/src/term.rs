use vstd::prelude::*;
use crate::atoms::{Function, Variable, spec_variable_display};
use crate::error::{Error, FnError};
use crate::host::{
    HostFn, call_result_ok, payloads_of, spec_arg_fault, spec_host_args, spec_host_name,
    spec_host_result, spec_host_ret, spec_mismatch_msg, spec_missing_msg, tags_of, views_of,
};
use crate::knowledge::{
    ClaimView, KnowledgeView, TraceContext, spec_find_claim, spec_matching_knowledge,
};
use crate::strings::{remove_prefix, spec_remove_prefix};
use crate::types::{HostType, TypeShape, spec_type_id, spec_type_name};
use crate::value::{EvaluatedTerm, EvaluatedTermView};

verus! {

/// A first-order term: either a variable or a function symbol applied
/// to zero or more terms. A term is a strict tree; sub-terms are owned
/// exclusively by their parent.
#[derive(Debug)]
pub enum Term {
    /// A concrete but unspecified value, resolved against recorded
    /// knowledge when the term is evaluated.
    Variable(Variable),
    /// A function symbol applied to sub-terms. With no sub-terms it is
    /// a constant.
    Application(Function, Vec<Term>),
}

/// Every node of the term in post-order: children strictly before
/// their parent, the term itself last.
pub open spec fn spec_postorder(t: Term) -> Seq<Term>
    decreases t,
{
    match t {
        Term::Variable(_) => seq![t],
        Term::Application(_, args) => spec_postorder_all(args@) + seq![t],
    }
}

/// The concatenated post-orders of a list of terms.
pub open spec fn spec_postorder_all(ts: Seq<Term>) -> Seq<Term>
    decreases ts,
{
    if ts.len() == 0 {
        Seq::empty()
    } else {
        spec_postorder_all(ts.drop_last()) + spec_postorder(ts.last())
    }
}

/// The number of nodes of the term.
pub open spec fn spec_size(t: Term) -> nat
    decreases t,
{
    match t {
        Term::Variable(_) => 1,
        Term::Application(_, args) => 1 + spec_size_all(args@),
    }
}

/// The total number of nodes of a list of terms.
pub open spec fn spec_size_all(ts: Seq<Term>) -> nat
    decreases ts,
{
    if ts.len() == 0 {
        0
    } else {
        spec_size_all(ts.drop_last()) + spec_size(ts.last())
    }
}

/// The type a term evaluates to: the declared type of a variable, the
/// return type of an application's symbol.
pub open spec fn spec_term_type(t: Term) -> HostType {
    match t {
        Term::Variable(v) => v.typ,
        Term::Application(f, _) => spec_host_ret(f.host),
    }
}

/// A term is well formed when every application has as many sub-terms
/// as its symbol's shape declares, each of the declared type.
pub open spec fn spec_term_wf(t: Term) -> bool
    decreases t,
{
    match t {
        Term::Variable(_) => true,
        Term::Application(f, args) => {
            &&& args@.len() == spec_host_args(f.host).len()
            &&& forall|i: int|
                0 <= i < args@.len() ==> spec_term_type(#[trigger] args@[i]) == spec_host_args(
                    f.host,
                )[i]
            &&& forall|i: int| 0 <= i < args@.len() ==> spec_term_wf(#[trigger] args@[i])
        },
    }
}

/// Structural equality of terms. Two terms are equal when they are the
/// same tree, node for node.
pub open spec fn term_eq(a: Term, b: Term) -> bool
    decreases a,
{
    match (a, b) {
        (Term::Variable(x), Term::Variable(y)) => x == y,
        (Term::Application(f, xs), Term::Application(g, ys)) => {
            &&& f == g
            &&& xs@.len() == ys@.len()
            &&& forall|i: int| 0 <= i < xs@.len() ==> term_eq(#[trigger] xs@[i], ys@[i])
        },
        _ => false,
    }
}

/// Post-order visits exactly as many nodes as the term has: the two
/// notions of size agree.
pub proof fn lemma_postorder_size(t: Term)
    ensures
        spec_postorder(t).len() == spec_size(t),
    decreases t,
{
    match t {
        Term::Variable(_) => {},
        Term::Application(_, args) => {
            lemma_postorder_size_all(args@);
        },
    }
}

/// Concatenated post-orders of a list count its total size.
pub proof fn lemma_postorder_size_all(ts: Seq<Term>)
    ensures
        spec_postorder_all(ts).len() == spec_size_all(ts),
    decreases ts,
{
    if ts.len() > 0 {
        lemma_postorder_size_all(ts.drop_last());
        lemma_postorder_size(ts.last());
    }
}

/// In post-order, children come strictly before their parent: the term
/// itself is the last node, after the post-orders of its sub-terms in
/// order.
pub proof fn lemma_postorder_children_first(f: Function, args: Vec<Term>)
    ensures
        spec_postorder(Term::Application(f, args)).last() == Term::Application(f, args),
        spec_postorder(Term::Application(f, args)).drop_last() == spec_postorder_all(args@),
{
    let t = Term::Application(f, args);
    assert(spec_postorder(t).drop_last() =~= spec_postorder_all(args@));
}

/// Post-order iteration is the whole of the term: it yields exactly
/// `size` nodes, the term itself comes last, and all the nodes of its
/// sub-terms stand before it, in argument order — children strictly
/// before their parent.
pub proof fn lemma_postorder_complete(t: Term)
    ensures
        spec_postorder(t).len() == spec_size(t),
        spec_postorder(t).last() == t,
        t matches Term::Application(f, args) ==> spec_postorder(t).drop_last()
            == spec_postorder_all(args@),
        t is Variable ==> spec_postorder(t) == seq![t],
{
    lemma_postorder_size(t);
    match t {
        Term::Variable(_) => {},
        Term::Application(f, args) => {
            assert(spec_postorder(t).drop_last() =~= spec_postorder_all(args@));
        },
    }
}

/// Collects the nodes of a term in post-order.
fn append<'a>(term: &'a Term, v: &mut Vec<&'a Term>)
    ensures
        final(v)@.map_values(|x: &Term| *x) == old(v)@.map_values(|x: &Term| *x)
            + spec_postorder(*term),
    decreases *term,
{
    match term {
        Term::Variable(_) => {
            v.push(term);
            proof {
                assert(v@.map_values(|x: &Term| *x) =~= old(v)@.map_values(|x: &Term| *x)
                    + spec_postorder(*term));
            }
        },
        Term::Application(func, subterms) => {
            let ghost orig = v@.map_values(|x: &Term| *x);
            proof {
                assert(*term == Term::Application(*func, *subterms));
            }
            let n: usize = subterms.len();
            let mut i: usize = 0;
            while i < n
                invariant
                    i <= n,
                    n == subterms@.len(),
                    *term == Term::Application(*func, *subterms),
                    v@.map_values(|x: &Term| *x) == orig + spec_postorder_all(
                        subterms@.take(i as int),
                    ),
                decreases n - i,
            {
                proof {
                    assert(subterms@.take(i + 1 as int).drop_last() =~= subterms@.take(i as int));
                    assert(subterms@.take(i + 1 as int).last() == subterms@[i as int]);
                    assert(decreases_to!(*term => (*term)->Application_1));
                    assert(decreases_to!((*term)->Application_1 => (*term)->Application_1@));
                    assert(decreases_to!((*term)->Application_1@ => (*term)->Application_1@[i as int]));
                    assert((*term)->Application_1@[i as int] == subterms@[i as int]);
                }
                append(&subterms[i], v);
                i = i + 1;
            }
            proof {
                assert(subterms@.take(n as int) =~= subterms@);
            }
            v.push(term);
            proof {
                assert(v@.map_values(|x: &Term| *x) =~= (orig + spec_postorder_all(subterms@)).push(
                    *term,
                ));
                assert((orig + spec_postorder_all(subterms@)).push(*term) =~= orig
                    + spec_postorder(*term));
            }
        },
    }
}

impl Term {
    /// The stable identifier of the root symbol.
    pub fn resistant_id(&self) -> (r: u32)
        ensures
            r == match *self {
                Term::Variable(v) => v.resistant_id,
                Term::Application(f, _) => f.resistant_id,
            },
    {
        match self {
            Term::Variable(v) => v.resistant_id,
            Term::Application(f, _) => f.resistant_id,
        }
    }

    /// The total number of nodes.
    pub fn size(&self) -> (r: usize)
        ensures
            r == spec_size(*self),
    {
        let nodes = self.subterms();
        proof {
            lemma_postorder_size(*self);
        }
        nodes.len()
    }

    /// Whether the term is a leaf: a variable, or a constant.
    pub fn is_leaf(&self) -> (r: bool)
        ensures
            r == match *self {
                Term::Variable(_) => true,
                Term::Application(_, args) => args@.len() == 0,
            },
    {
        match self {
            Term::Variable(_) => true,
            Term::Application(_, subterms) => subterms.len() == 0,
        }
    }

    /// The type the term evaluates to.
    pub fn term_type(&self) -> (r: HostType)
        ensures
            r == spec_term_type(*self),
    {
        match self {
            Term::Variable(v) => v.typ,
            Term::Application(f, _) => f.host.return_type(),
        }
    }

    /// The type shape the term evaluates to, built through the
    /// registry.
    pub fn get_type_shape(&self) -> (r: TypeShape)
        ensures
            r.id == spec_type_id(spec_term_type(*self)),
            r.name@ == spec_type_name(spec_term_type(*self)),
    {
        TypeShape::of(self.term_type())
    }

    /// The display name of the root: the type name of a variable, the
    /// symbol name of an application.
    pub fn name(&self) -> (r: String)
        ensures
            r@ == match *self {
                Term::Variable(v) => spec_type_name(v.typ),
                Term::Application(f, _) => spec_host_name(f.host),
            },
    {
        match self {
            Term::Variable(v) => {
                let ts = TypeShape::of(v.typ);
                ts.name
            },
            Term::Application(f, _) => f.name(),
        }
    }

    /// Whole-subtree replacement in place: the mutator's primitive.
    pub fn mutate(&mut self, other: Term)
        ensures
            *final(self) == other,
    {
        *self = other;
    }

    /// Every node in post-order: children strictly before parents.
    pub fn subterms(&self) -> (r: Vec<&Term>)
        ensures
            r@.map_values(|x: &Term| *x) == spec_postorder(*self),
            r@.len() == spec_size(*self),
    {
        let mut v: Vec<&Term> = Vec::new();
        proof {
            assert(v@.map_values(|x: &Term| *x) =~= Seq::<Term>::empty());
        }
        append(self, &mut v);
        proof {
            lemma_postorder_size(*self);
        }
        v
    }

    /// Every variable used in the term, left to right.
    pub fn variables(&self) -> (r: Vec<Variable>)
        ensures
            r@ == spec_variables(*self),
    {
        let nodes = self.subterms();
        let mut out: Vec<Variable> = Vec::new();
        let n: usize = nodes.len();
        let mut i: usize = 0;
        while i < n
            invariant
                i <= n,
                n == nodes@.len(),
                nodes@.map_values(|x: &Term| *x) == spec_postorder(*self),
                out@ == spec_variables_of_nodes(spec_postorder(*self).take(i as int)),
            decreases n - i,
        {
            proof {
                let po = spec_postorder(*self);
                assert(po.take(i + 1 as int).drop_last() =~= po.take(i as int));
                assert(po.take(i + 1 as int).last() == po[i as int]);
                assert(nodes@.map_values(|x: &Term| *x)[i as int] == *nodes@[i as int]);
            }
            match nodes[i] {
                Term::Variable(v) => {
                    out.push(*v);
                },
                Term::Application(_, _) => {},
            }
            i = i + 1;
        }
        proof {
            assert(spec_postorder(*self).take(n as int) =~= spec_postorder(*self));
        }
        out
    }

    /// Every function symbol used in the term: the symbols of the
    /// sub-terms first, the root symbol last.
    pub fn operators(&self) -> (r: Vec<Function>)
        ensures
            r@ == spec_operators(*self),
    {
        let nodes = self.subterms();
        let mut out: Vec<Function> = Vec::new();
        let n: usize = nodes.len();
        let mut i: usize = 0;
        while i < n
            invariant
                i <= n,
                n == nodes@.len(),
                nodes@.map_values(|x: &Term| *x) == spec_postorder(*self),
                out@ == spec_operators_of_nodes(spec_postorder(*self).take(i as int)),
            decreases n - i,
        {
            proof {
                let po = spec_postorder(*self);
                assert(po.take(i + 1 as int).drop_last() =~= po.take(i as int));
                assert(po.take(i + 1 as int).last() == po[i as int]);
                assert(nodes@.map_values(|x: &Term| *x)[i as int] == *nodes@[i as int]);
            }
            match nodes[i] {
                Term::Variable(_) => {},
                Term::Application(f, _) => {
                    out.push(*f);
                },
            }
            i = i + 1;
        }
        proof {
            assert(spec_postorder(*self).take(n as int) =~= spec_postorder(*self));
        }
        out
    }

    /// A structural copy of the term.
    pub fn deep_copy(&self) -> (r: Term)
        ensures
            term_eq(r, *self),
        decreases *self,
    {
        match self {
            Term::Variable(v) => Term::Variable(*v),
            Term::Application(f, subterms) => {
                proof {
                    assert(*self == Term::Application(*f, *subterms));
                }
                let mut copies: Vec<Term> = Vec::new();
                let n: usize = subterms.len();
                let mut i: usize = 0;
                while i < n
                    invariant
                        i <= n,
                        n == subterms@.len(),
                        *self == Term::Application(*f, *subterms),
                        copies@.len() == i,
                        forall|j: int|
                            0 <= j < i ==> term_eq(#[trigger] copies@[j], subterms@[j]),
                    decreases n - i,
                {
                    proof {
                        assert(decreases_to!(*self => (*self)->Application_1));
                        assert(decreases_to!((*self)->Application_1 => (*self)->Application_1@));
                        assert(decreases_to!((*self)->Application_1@ => (*self)->Application_1@[i as int]));
                        assert((*self)->Application_1@[i as int] == subterms@[i as int]);
                    }
                    copies.push(subterms[i].deep_copy());
                    i = i + 1;
                }
                Term::Application(*f, copies)
            },
        }
    }

    /// Structural copies of the root's arguments; empty for a variable.
    pub fn args(&self) -> (r: Vec<Term>)
        ensures
            match *self {
                Term::Variable(_) => r@.len() == 0,
                Term::Application(_, args) => r@.len() == args@.len() && forall|i: int|
                    0 <= i < args@.len() ==> term_eq(#[trigger] r@[i], args@[i]),
            },
    {
        match self {
            Term::Variable(_) => Vec::new(),
            Term::Application(_, subterms) => {
                let mut copies: Vec<Term> = Vec::new();
                let n: usize = subterms.len();
                let mut i: usize = 0;
                while i < n
                    invariant
                        i <= n,
                        n == subterms@.len(),
                        copies@.len() == i,
                        forall|j: int|
                            0 <= j < i ==> term_eq(#[trigger] copies@[j], subterms@[j]),
                    decreases n - i,
                {
                    copies.push(subterms[i].deep_copy());
                    i = i + 1;
                }
                copies
            },
        }
    }

    /// Builds a well-formed application of the symbol to the given
    /// arguments: the arity and every argument type must fit the
    /// symbol's shape, and the arguments must themselves be well
    /// formed. Ill-fitting arguments are rejected.
    pub fn build_application(f: Function, args: Vec<Term>) -> (r: Result<Term, Error>)
        ensures
            match r {
                Ok(t) => {
                    &&& t == Term::Application(f, args)
                    &&& (forall|i: int| 0 <= i < args@.len() ==> spec_term_wf(#[trigger] args@[i]))
                        ==> spec_term_wf(t)
                },
                Err(_) => !(args@.len() == spec_host_args(f.host).len() && forall|i: int|
                    0 <= i < args@.len() ==> spec_term_type(#[trigger] args@[i]) == spec_host_args(
                        f.host,
                    )[i]),
            },
    {
        let arity = f.arity();
        if args.len() != arity {
            return Err(Error::Term(String::from_str("application arity mismatch")));
        }
        let n: usize = args.len();
        let mut i: usize = 0;
        while i < n
            invariant
                i <= n,
                n == args@.len(),
                n == spec_host_args(f.host).len(),
                forall|j: int|
                    0 <= j < i ==> spec_term_type(#[trigger] args@[j]) == spec_host_args(
                        f.host,
                    )[j],
            decreases n - i,
        {
            if !(args[i].term_type() == f.host.argument_type(i)) {
                return Err(Error::Term(String::from_str("application argument type mismatch")));
            }
            i = i + 1;
        }
        Ok(Term::Application(f, args))
    }
}

/// A run of tab characters, one per depth level.
pub open spec fn spec_tabs(depth: nat) -> Seq<char>
    decreases depth,
{
    if depth == 0 {
        Seq::empty()
    } else {
        spec_tabs((depth - 1) as nat) + "\t"@
    }
}

/// One line per node, indented by depth. A nullary application renders
/// as `name -> ReturnType`, with no parentheses; an n-ary one opens a
/// parenthesis, renders each argument one level deeper, and closes with
/// its return type. Names are shown with module paths stripped.
pub open spec fn spec_display_at_depth(t: Term, depth: nat) -> Seq<char>
    decreases t,
{
    match t {
        Term::Variable(v) => spec_tabs(depth) + spec_variable_display(v),
        Term::Application(f, args) => {
            let op = spec_remove_prefix(spec_host_name(f.host));
            let ret = spec_remove_prefix(spec_type_name(spec_host_ret(f.host)));
            if args@.len() == 0 {
                spec_tabs(depth) + op + " -> "@ + ret
            } else {
                spec_tabs(depth) + op + "(\n"@ + spec_display_list(args@, (depth + 1) as nat)
                    + "\n"@ + spec_tabs(depth) + ") -> "@ + ret
            }
        },
    }
}

/// Renderings of a list of terms, joined with `,\n`.
pub open spec fn spec_display_list(ts: Seq<Term>, depth: nat) -> Seq<char>
    decreases ts,
{
    if ts.len() == 0 {
        Seq::empty()
    } else if ts.len() == 1 {
        spec_display_at_depth(ts[0], depth)
    } else {
        spec_display_list(ts.drop_last(), depth) + ",\n"@ + spec_display_at_depth(
            ts.last(),
            depth,
        )
    }
}

/// The compact one-line rendering: a variable as itself, an
/// application as its stripped name with its arguments in parentheses,
/// or bare when it has none.
pub open spec fn spec_display(t: Term) -> Seq<char>
    decreases t,
{
    match t {
        Term::Variable(v) => spec_variable_display(v),
        Term::Application(f, args) => {
            let op = spec_remove_prefix(spec_host_name(f.host));
            if args@.len() == 0 {
                op
            } else {
                op + "("@ + spec_display_join(args@) + ")"@
            }
        },
    }
}

/// Compact renderings of a list of terms, joined with spaces.
pub open spec fn spec_display_join(ts: Seq<Term>) -> Seq<char>
    decreases ts,
{
    if ts.len() == 0 {
        Seq::empty()
    } else if ts.len() == 1 {
        spec_display(ts[0])
    } else {
        spec_display_join(ts.drop_last()) + " "@ + spec_display(ts.last())
    }
}

/// A list of terms is at least as large as any of its members.
pub proof fn lemma_size_all_ge(ts: Seq<Term>, i: int)
    requires
        0 <= i < ts.len(),
    ensures
        spec_size_all(ts) >= spec_size(ts[i]),
    decreases ts,
{
    if i == ts.len() - 1 {
    } else {
        lemma_size_all_ge(ts.drop_last(), i);
    }
}

/// A run of tab characters, one per depth level.
fn tabs_string(depth: usize) -> (r: String)
    ensures
        r@ == spec_tabs(depth as nat),
{
    let mut out = String::new();
    let mut i: usize = 0;
    while i < depth
        invariant
            i <= depth,
            out@ == spec_tabs(i as nat),
        decreases depth - i,
    {
        out.append("\t");
        i = i + 1;
    }
    out
}

/// A nullary application renders as `name -> ReturnType`, with no
/// parentheses around an empty argument list.
pub proof fn lemma_display_nullary(f: Function, args: Vec<Term>, depth: nat)
    requires
        args@.len() == 0,
    ensures
        spec_display_at_depth(Term::Application(f, args), depth) == spec_tabs(depth)
            + spec_remove_prefix(spec_host_name(f.host)) + " -> "@ + spec_remove_prefix(
            spec_type_name(spec_host_ret(f.host)),
        ),
{
}

/// How an evaluation can fail.
pub enum SpecEvalError {
    /// No knowledge item and no claim answers the variable's query.
    UnknownVariable(Variable),
    /// A call was short of its k-th argument.
    CallMissing(int, HostFn),
    /// The k-th argument of a call carried the wrong type tag.
    CallMismatch(int, HostFn, Seq<HostType>),
}

/// The message reported when a variable cannot be resolved.
pub open spec fn spec_unknown_var_msg(v: Variable) -> Seq<char> {
    "Unable to find variable "@ + spec_variable_display(v) + "!"@
}

/// What evaluating a term against a context yields. A variable resolves
/// against the knowledge base, falling back to the claims of its agent;
/// an application evaluates its sub-terms strictly left to right,
/// propagates the first failure, and invokes its symbol's host function
/// on the collected values.
pub open spec fn spec_eval(t: Term, ks: Seq<KnowledgeView>, cs: Seq<ClaimView>) -> Result<
    EvaluatedTermView,
    SpecEvalError,
>
    decreases t,
{
    match t {
        Term::Variable(v) => {
            let found = spec_matching_knowledge(ks, v.typ, v.query);
            if v.query.counter < found.len() {
                Ok(found[v.query.counter as int].data)
            } else {
                match v.query.source {
                    Some(agent) => match spec_find_claim(cs, agent, v.typ) {
                        Some(d) => Ok(d),
                        None => Err(SpecEvalError::UnknownVariable(v)),
                    },
                    None => Err(SpecEvalError::UnknownVariable(v)),
                }
            }
        },
        Term::Application(f, args) => match spec_eval_list(args@, ks, cs) {
            Err(e) => Err(e),
            Ok(vals) => match spec_arg_fault(spec_host_args(f.host), tags_of(vals), 0) {
                Some(i) => if i >= vals.len() {
                    Err(SpecEvalError::CallMissing(i + 1, f.host))
                } else {
                    Err(SpecEvalError::CallMismatch(i + 1, f.host, tags_of(vals)))
                },
                None => Ok(
                    EvaluatedTermView {
                        typ: spec_host_ret(f.host),
                        bytes: spec_host_result(f.host, payloads_of(vals)),
                    },
                ),
            },
        },
    }
}

/// The values of a list of terms, evaluated strictly left to right; the
/// first failure aborts the list.
pub open spec fn spec_eval_list(ts: Seq<Term>, ks: Seq<KnowledgeView>, cs: Seq<ClaimView>) -> Result<
    Seq<EvaluatedTermView>,
    SpecEvalError,
>
    decreases ts,
{
    if ts.len() == 0 {
        Ok(Seq::empty())
    } else {
        match spec_eval(ts[0], ks, cs) {
            Err(e) => Err(e),
            Ok(v) => match spec_eval_list(ts.drop_first(), ks, cs) {
                Err(e) => Err(e),
                Ok(rest) => Ok(seq![v] + rest),
            },
        }
    }
}

/// Whether an executable error carries exactly the message of a
/// specified evaluation failure.
pub open spec fn spec_err_corresponds(e: SpecEvalError, err: Error) -> bool {
    match e {
        SpecEvalError::UnknownVariable(v) => err matches Error::Term(m) && m@
            == spec_unknown_var_msg(v),
        SpecEvalError::CallMissing(k, f) => err matches Error::Fn(FnError::Impl(m)) && m@
            == spec_missing_msg(k as nat, f),
        SpecEvalError::CallMismatch(k, f, tags) => err matches Error::Fn(FnError::Impl(m)) && m@
            == spec_mismatch_msg(k as nat, f, tags),
    }
}

/// The executable evaluation returns exactly what the specification
/// says: the specified value on success, an error carrying the
/// specified message on failure.
pub open spec fn spec_eval_matches(
    t: Term,
    ks: Seq<KnowledgeView>,
    cs: Seq<ClaimView>,
    r: Result<EvaluatedTerm, Error>,
) -> bool {
    match spec_eval(t, ks, cs) {
        Ok(v) => r matches Ok(val) && val@ == v,
        Err(e) => r matches Err(err) && spec_err_corresponds(e, err),
    }
}

/// Joins evaluated values in front of the rest of a list evaluation.
pub open spec fn spec_prepend_vals(
    vs: Seq<EvaluatedTermView>,
    rest: Result<Seq<EvaluatedTermView>, SpecEvalError>,
) -> Result<Seq<EvaluatedTermView>, SpecEvalError> {
    match rest {
        Ok(r) => Ok(vs + r),
        Err(e) => Err(e),
    }
}

impl Term {
    /// Resolves the term against the context: variables against the
    /// knowledge base with a claim fallback, applications by invoking
    /// their symbol's host function on the evaluated sub-terms, strictly
    /// left to right. Returns exactly what `spec_eval` specifies, so two
    /// evaluations of one term against one context agree.
    pub fn evaluate(&self, context: &TraceContext) -> (r: Result<EvaluatedTerm, Error>)
        ensures
            spec_eval_matches(*self, context.knowledge_views(), context.claim_views(), r),
        decreases *self,
    {
        let ghost ks = context.knowledge_views();
        let ghost cs = context.claim_views();
        match self {
            Term::Variable(v) => {
                match context.find_variable(v.typ, &v.query) {
                    Some(data) => Ok(data.duplicate()),
                    None => {
                        let fallback = match &v.query.source {
                            Some(agent) => context.find_claim(*agent, v.typ),
                            None => None,
                        };
                        match fallback {
                            Some(data) => Ok(data.duplicate()),
                            None => {
                                let mut m = String::from_str("Unable to find variable ");
                                let vd = v.display();
                                m.append(vd.as_str());
                                m.append("!");
                                Err(Error::Term(m))
                            },
                        }
                    },
                }
            },
            Term::Application(func, subterms) => {
                proof {
                    assert(*self == Term::Application(*func, *subterms));
                }
                let mut vals: Vec<EvaluatedTerm> = Vec::new();
                let n: usize = subterms.len();
                let mut i: usize = 0;
                proof {
                    assert(subterms@.skip(0) =~= subterms@);
                    assert(views_of(vals@) =~= Seq::<EvaluatedTermView>::empty());
                    match spec_eval_list(subterms@, ks, cs) {
                        Ok(rs) => {
                            assert(Seq::<EvaluatedTermView>::empty() + rs =~= rs);
                        },
                        Err(_) => {},
                    }
                }
                while i < n
                    invariant
                        i <= n,
                        n == subterms@.len(),
                        *self == Term::Application(*func, *subterms),
                        ks == context.knowledge_views(),
                        cs == context.claim_views(),
                        spec_eval_list(subterms@, ks, cs) == spec_prepend_vals(
                            views_of(vals@),
                            spec_eval_list(subterms@.skip(i as int), ks, cs),
                        ),
                    decreases n - i,
                {
                    proof {
                        assert(decreases_to!(*self => (*self)->Application_1));
                        assert(decreases_to!((*self)->Application_1 => (*self)->Application_1@));
                        assert(decreases_to!((*self)->Application_1@ => (*self)
                            ->Application_1@[i as int]));
                        assert((*self)->Application_1@[i as int] == subterms@[i as int]);
                        assert(subterms@.skip(i as int)[0] == subterms@[i as int]);
                        assert(subterms@.skip(i as int).drop_first() =~= subterms@.skip(
                            i + 1 as int,
                        ));
                    }
                    match subterms[i].evaluate(context) {
                        Err(e) => {
                            proof {
                                assert(spec_eval_list(subterms@, ks, cs) is Err);
                            }
                            return Err(e);
                        },
                        Ok(val) => {
                            let ghost old_vals = vals@;
                            vals.push(val);
                            proof {
                                assert(views_of(vals@) =~= views_of(old_vals).push(val@));
                                let rest = spec_eval_list(subterms@.skip(i + 1 as int), ks, cs);
                                match rest {
                                    Ok(rs) => {
                                        assert(views_of(old_vals) + (seq![val@] + rs) =~= views_of(
                                            vals@,
                                        ) + rs);
                                    },
                                    Err(_) => {},
                                }
                            }
                        },
                    }
                    i = i + 1;
                }
                proof {
                    assert(subterms@.skip(n as int) =~= Seq::<Term>::empty());
                    assert(views_of(vals@) + Seq::<EvaluatedTermView>::empty() =~= views_of(
                        vals@,
                    ));
                    assert(spec_eval_list(subterms@, ks, cs) == Ok::<_, SpecEvalError>(
                        views_of(vals@),
                    ));
                }
                let res = func.host.call(&vals);
                proof {
                    assert(call_result_ok(func.host, views_of(vals@), res));
                }
                match res {
                    Ok(v) => Ok(v),
                    Err(fe) => Err(Error::Fn(fe)),
                }
            },
        }
    }
}

impl Term {
    /// Renders the term one line per node, indented by depth: a
    /// nullary application as `name -> ReturnType` with no parentheses,
    /// an n-ary one with each argument one level deeper.
    pub fn display_at_depth(&self, depth: usize) -> (r: String)
        requires
            depth + spec_size(*self) <= usize::MAX,
        ensures
            r@ == spec_display_at_depth(*self, depth as nat),
        decreases *self,
    {
        match self {
            Term::Variable(v) => {
                let mut out = tabs_string(depth);
                let vd = v.display();
                out.append(vd.as_str());
                out
            },
            Term::Application(func, subterms) => {
                proof {
                    assert(*self == Term::Application(*func, *subterms));
                }
                let nm = func.name();
                let op = remove_prefix(nm.as_str());
                let rts = TypeShape::of(func.host.return_type());
                let ret = remove_prefix(rts.name.as_str());
                let mut out = tabs_string(depth);
                out.append(op.as_str());
                let n: usize = subterms.len();
                if n == 0 {
                    out.append(" -> ");
                    out.append(ret.as_str());
                    return out;
                }
                out.append("(\n");
                let ghost header = spec_tabs(depth as nat) + spec_remove_prefix(
                    spec_host_name(func.host),
                ) + "(\n"@;
                let mut i: usize = 0;
                while i < n
                    invariant
                        i <= n,
                        n == subterms@.len(),
                        n >= 1,
                        *self == Term::Application(*func, *subterms),
                        depth + spec_size(*self) <= usize::MAX,
                        header == spec_tabs(depth as nat) + spec_remove_prefix(
                            spec_host_name(func.host),
                        ) + "(\n"@,
                        out@ == header + spec_display_list(
                            subterms@.take(i as int),
                            (depth + 1) as nat,
                        ),
                    decreases n - i,
                {
                    if i > 0 {
                        out.append(",\n");
                    }
                    proof {
                        assert(decreases_to!(*self => (*self)->Application_1));
                        assert(decreases_to!((*self)->Application_1 => (*self)->Application_1@));
                        assert(decreases_to!((*self)->Application_1@ => (*self)
                            ->Application_1@[i as int]));
                        assert((*self)->Application_1@[i as int] == subterms@[i as int]);
                        lemma_size_all_ge(subterms@, i as int);
                        assert(spec_size(*self) == 1 + spec_size_all(subterms@));
                    }
                    let part = subterms[i].display_at_depth(depth + 1);
                    out.append(part.as_str());
                    proof {
                        assert(subterms@.take(i + 1 as int).drop_last() =~= subterms@.take(
                            i as int,
                        ));
                        assert(subterms@.take(i + 1 as int).last() == subterms@[i as int]);
                        if i == 0 {
                            assert(spec_display_list(subterms@.take(1), (depth + 1) as nat)
                                == spec_display_at_depth(subterms@[0], (depth + 1) as nat));
                        }
                    }
                    i = i + 1;
                }
                proof {
                    assert(subterms@.take(n as int) =~= subterms@);
                }
                out.append("\n");
                let tabs_again = tabs_string(depth);
                out.append(tabs_again.as_str());
                out.append(") -> ");
                out.append(ret.as_str());
                out
            },
        }
    }

    /// The human-readable multi-line rendering of the term.
    pub fn pretty(&self) -> (r: String)
        requires
            spec_size(*self) <= usize::MAX,
        ensures
            r@ == spec_display_at_depth(*self, 0),
    {
        self.display_at_depth(0)
    }

    /// The compact one-line rendering of the term.
    pub fn display(&self) -> (r: String)
        ensures
            r@ == spec_display(*self),
        decreases *self,
    {
        match self {
            Term::Variable(v) => v.display(),
            Term::Application(func, subterms) => {
                proof {
                    assert(*self == Term::Application(*func, *subterms));
                }
                let nm = func.name();
                let mut out = remove_prefix(nm.as_str());
                let n: usize = subterms.len();
                if n == 0 {
                    return out;
                }
                out.append("(");
                let ghost header = spec_remove_prefix(spec_host_name(func.host)) + "("@;
                let mut i: usize = 0;
                while i < n
                    invariant
                        i <= n,
                        n == subterms@.len(),
                        n >= 1,
                        *self == Term::Application(*func, *subterms),
                        header == spec_remove_prefix(spec_host_name(func.host)) + "("@,
                        out@ == header + spec_display_join(subterms@.take(i as int)),
                    decreases n - i,
                {
                    if i > 0 {
                        out.append(" ");
                    }
                    proof {
                        assert(decreases_to!(*self => (*self)->Application_1));
                        assert(decreases_to!((*self)->Application_1 => (*self)->Application_1@));
                        assert(decreases_to!((*self)->Application_1@ => (*self)
                            ->Application_1@[i as int]));
                        assert((*self)->Application_1@[i as int] == subterms@[i as int]);
                    }
                    let part = subterms[i].display();
                    out.append(part.as_str());
                    proof {
                        assert(subterms@.take(i + 1 as int).drop_last() =~= subterms@.take(
                            i as int,
                        ));
                        assert(subterms@.take(i + 1 as int).last() == subterms@[i as int]);
                        if i == 0 {
                            assert(spec_display_join(subterms@.take(1)) == spec_display(
                                subterms@[0],
                            ));
                        }
                    }
                    i = i + 1;
                }
                proof {
                    assert(subterms@.take(n as int) =~= subterms@);
                }
                out.append(")");
                out
            },
        }
    }
}

/// The first position of a term in the list with the given type.
pub open spec fn spec_find_same_type(ts: Seq<Term>, t: HostType) -> Option<int>
    decreases ts,
{
    if ts.len() == 0 {
        None
    } else if spec_term_type(ts[0]) == t {
        Some(0)
    } else {
        match spec_find_same_type(ts.drop_first(), t) {
            Some(j) => Some(j + 1),
            None => None,
        }
    }
}

/// Structural queries over a list of terms, used by the mutators to
/// pick replacement sites. The contracts live on the free functions
/// these methods forward to.
pub trait Subterms {
    /// The first member evaluating to the same type as `term`.
    fn find_subterm_same_shape(&self, term: &Term) -> Option<&Term>;

    /// The first member the predicate accepts.
    fn find_subterm<P: Fn(&Term) -> bool>(&self, predicate: &P) -> Option<&Term>
        requires
            forall|t: &Term| predicate.requires((t,)),
    ;

    /// Every grand sub-term (a sub-term of a member) the predicate
    /// accepts of its parent and itself: the position of the parent in
    /// the list and the grand sub-term's position among the parent's
    /// arguments.
    fn filter_grand_subterms<P: Fn(&Term, &Term) -> bool>(&self, predicate: &P) -> Vec<
        (usize, usize),
    >
        requires
            forall|a: &Term, b: &Term| predicate.requires((a, b)),
    ;
}

impl Subterms for Vec<Term> {
    /// The first member evaluating to the same type as `term`.
    fn find_subterm_same_shape(&self, term: &Term) -> Option<&Term> {
        find_subterm_same_shape_in(self, term)
    }

    /// The first member the predicate accepts.
    fn find_subterm<P: Fn(&Term) -> bool>(&self, predicate: &P) -> Option<&Term> {
        find_subterm_in(self, predicate)
    }

    /// Every grand sub-term the predicate accepts of its parent and
    /// itself.
    fn filter_grand_subterms<P: Fn(&Term, &Term) -> bool>(&self, predicate: &P) -> Vec<
        (usize, usize),
    > {
        filter_grand_subterms_in(self, predicate)
    }
}

/// The first member of the list evaluating to the same type as `term`.
pub fn find_subterm_same_shape_in<'a>(ts: &'a Vec<Term>, term: &Term) -> (r: Option<&'a Term>)
    ensures
        match r {
            Some(s) => spec_find_same_type(ts@, spec_term_type(*term)) matches Some(j) && 0 <= j
                < ts@.len() && *s == ts@[j] && spec_term_type(ts@[j]) == spec_term_type(*term),
            None => spec_find_same_type(ts@, spec_term_type(*term)) is None,
        },
{
    let wanted = term.term_type();
    let n: usize = ts.len();
    let mut i: usize = 0;
    proof {
        assert(ts@.skip(0) =~= ts@);
    }
    while i < n
        invariant
            i <= n,
            n == ts@.len(),
            wanted == spec_term_type(*term),
            spec_find_same_type(ts@, wanted) == match spec_find_same_type(
                ts@.skip(i as int),
                wanted,
            ) {
                Some(j) => Some(j + i),
                None => None::<int>,
            },
        decreases n - i,
    {
        proof {
            assert(ts@.skip(i as int)[0] == ts@[i as int]);
            assert(ts@.skip(i as int).drop_first() =~= ts@.skip(i + 1 as int));
        }
        if ts[i].term_type() == wanted {
            return Some(&ts[i]);
        }
        i = i + 1;
    }
    proof {
        assert(ts@.skip(n as int) =~= Seq::<Term>::empty());
    }
    None
}

/// Whether `ci` indexes an argument of an application at `pi`.
pub open spec fn grand_pair_at(ts: Seq<Term>, pi: int, ci: int) -> bool {
    &&& 0 <= pi < ts.len()
    &&& ts[pi] is Application
    &&& 0 <= ci < ts[pi]->Application_1@.len()
}

/// The `ci`-th argument of the application at `pi`.
pub open spec fn grand_child(ts: Seq<Term>, pi: int, ci: int) -> Term {
    ts[pi]->Application_1@[ci]
}

/// The first member of the list the predicate accepts: the result was
/// accepted by an invocation of the predicate, every earlier member
/// was rejected by one, and `None` comes only when every member was
/// rejected by one.
pub fn find_subterm_in<'a, P: Fn(&Term) -> bool>(ts: &'a Vec<Term>, predicate: &P) -> (r: Option<
    &'a Term,
>)
    requires
        forall|t: &Term| predicate.requires((t,)),
    ensures
        match r {
            Some(s) => exists|j: int|
                #![auto]
                {
                    &&& 0 <= j < ts@.len()
                    &&& *s == ts@[j]
                    &&& call_ensures(*predicate, (&ts@[j],), true)
                    &&& forall|i: int|
                        0 <= i < j ==> call_ensures(*predicate, (&(#[trigger] ts@[i]),), false)
                },
            None => forall|j: int|
                0 <= j < ts@.len() ==> call_ensures(*predicate, (&(#[trigger] ts@[j]),), false),
        },
{
    let n: usize = ts.len();
    let mut i: usize = 0;
    while i < n
        invariant
            i <= n,
            n == ts@.len(),
            forall|t: &Term| predicate.requires((t,)),
            forall|j: int| 0 <= j < i ==> call_ensures(*predicate, (&(#[trigger] ts@[j]),), false),
        decreases n - i,
    {
        if predicate(&ts[i]) {
            proof {
                assert(call_ensures(*predicate, (&ts@[i as int],), true));
            }
            return Some(&ts[i]);
        }
        i = i + 1;
    }
    None
}

/// An element already in a sequence stays in it after a push.
proof fn lemma_push_keeps_contains<T>(s: Seq<T>, x: T, y: T)
    requires
        s.contains(y),
    ensures
        s.push(x).contains(y),
{
    let j = choose|j: int| 0 <= j < s.len() && s[j] == y;
    assert(s.push(x)[j] == y);
}

/// Every grand sub-term of the list the predicate accepts of its
/// parent and itself: the position of the parent in the list, and the
/// position of the grand sub-term among the parent's arguments.
/// Returned pairs were accepted by an invocation of the predicate and
/// come in ascending parent-then-child order; every pair not returned
/// was rejected by an invocation.
pub fn filter_grand_subterms_in<P: Fn(&Term, &Term) -> bool>(ts: &Vec<Term>, predicate: &P) -> (r:
    Vec<(usize, usize)>)
    requires
        forall|a: &Term, b: &Term| predicate.requires((a, b)),
    ensures
        forall|k: int|
            0 <= k < r@.len() ==> {
                &&& grand_pair_at(ts@, (#[trigger] r@[k]).0 as int, r@[k].1 as int)
                &&& call_ensures(
                    *predicate,
                    (&ts@[r@[k].0 as int], &grand_child(ts@, r@[k].0 as int, r@[k].1 as int)),
                    true,
                )
            },
        forall|k1: int, k2: int|
            0 <= k1 < k2 < r@.len() ==> ((#[trigger] r@[k1]).0 < (#[trigger] r@[k2]).0 || (
            r@[k1].0 == r@[k2].0 && r@[k1].1 < r@[k2].1)),
        forall|pi: int, ci: int|
            grand_pair_at(ts@, pi, ci) && !(#[trigger] r@.contains((pi as usize, ci as usize)))
                ==> call_ensures(*predicate, (&ts@[pi], &grand_child(ts@, pi, ci)), false),
{
    let mut found: Vec<(usize, usize)> = Vec::new();
    let n: usize = ts.len();
    let mut i: usize = 0;
    while i < n
        invariant
            i <= n,
            n == ts@.len(),
            forall|a: &Term, b: &Term| predicate.requires((a, b)),
            forall|k: int|
                0 <= k < found@.len() ==> {
                    &&& grand_pair_at(ts@, (#[trigger] found@[k]).0 as int, found@[k].1 as int)
                    &&& found@[k].0 < i
                    &&& call_ensures(
                        *predicate,
                        (
                            &ts@[found@[k].0 as int],
                            &grand_child(ts@, found@[k].0 as int, found@[k].1 as int),
                        ),
                        true,
                    )
                },
            forall|k1: int, k2: int|
                0 <= k1 < k2 < found@.len() ==> ((#[trigger] found@[k1]).0 < (
                #[trigger] found@[k2]).0 || (found@[k1].0 == found@[k2].0 && found@[k1].1
                    < found@[k2].1)),
            forall|pi: int, ci: int|
                grand_pair_at(ts@, pi, ci) && pi < i ==> (#[trigger] found@.contains(
                    (pi as usize, ci as usize),
                ) || call_ensures(*predicate, (&ts@[pi], &grand_child(ts@, pi, ci)), false)),
        decreases n - i,
    {
        match &ts[i] {
            Term::Variable(_) => {},
            Term::Application(_, grand_subterms) => {
                let m: usize = grand_subterms.len();
                let mut g: usize = 0;
                while g < m
                    invariant
                        g <= m,
                        i < n,
                        n == ts@.len(),
                        m == grand_subterms@.len(),
                        ts@[i as int] matches Term::Application(f, args) && args
                            == *grand_subterms,
                        forall|a: &Term, b: &Term| predicate.requires((a, b)),
                        forall|k: int|
                            0 <= k < found@.len() ==> {
                                &&& grand_pair_at(
                                    ts@,
                                    (#[trigger] found@[k]).0 as int,
                                    found@[k].1 as int,
                                )
                                &&& (found@[k].0 < i || (found@[k].0 == i && found@[k].1 < g))
                                &&& call_ensures(
                                    *predicate,
                                    (
                                        &ts@[found@[k].0 as int],
                                        &grand_child(
                                            ts@,
                                            found@[k].0 as int,
                                            found@[k].1 as int,
                                        ),
                                    ),
                                    true,
                                )
                            },
                        forall|k1: int, k2: int|
                            0 <= k1 < k2 < found@.len() ==> ((#[trigger] found@[k1]).0 < (
                            #[trigger] found@[k2]).0 || (found@[k1].0 == found@[k2].0
                                && found@[k1].1 < found@[k2].1)),
                        forall|pi: int, ci: int|
                            grand_pair_at(ts@, pi, ci) && (pi < i || (pi == i && ci < g)) ==> (
                            #[trigger] found@.contains((pi as usize, ci as usize))
                                || call_ensures(
                                *predicate,
                                (&ts@[pi], &grand_child(ts@, pi, ci)),
                                false,
                            )),
                    decreases m - g,
                {
                    let ghost old_found = found@;
                    let accepted = predicate(&ts[i], &grand_subterms[g]);
                    proof {
                        assert(grand_child(ts@, i as int, g as int) == grand_subterms@[g as int]);
                    }
                    if accepted {
                        found.push((i, g));
                        proof {
                            assert(found@[found@.len() - 1] == (i, g));
                            assert(found@.contains((i, g)));
                            assert forall|pi: int, ci: int|
                                grand_pair_at(ts@, pi, ci) && (pi < i || (pi == i && ci < g))
                                    && old_found.contains(
                                    (pi as usize, ci as usize),
                                ) implies #[trigger] found@.contains(
                                (pi as usize, ci as usize),
                            ) by {
                                lemma_push_keeps_contains(
                                    old_found,
                                    (i, g),
                                    (pi as usize, ci as usize),
                                );
                            }
                        }
                    }
                    g = g + 1;
                }
            },
        }
        i = i + 1;
    }
    found
}

/// In a well-typed call, the returned value's runtime type identity is
/// the invoked symbol's declared return type.
pub proof fn lemma_call_returns_declared_type(
    f: HostFn,
    args: Seq<EvaluatedTermView>,
    r: Result<EvaluatedTerm, FnError>,
)
    requires
        call_result_ok(f, args, r),
    ensures
        r matches Ok(v) ==> v@.typ == spec_host_ret(f),
{
}

/// The evaluator is deterministic: two evaluations of one term against
/// one context yield the same value, or failures carrying the same
/// message.
pub proof fn lemma_evaluator_deterministic(
    t: Term,
    ks: Seq<KnowledgeView>,
    cs: Seq<ClaimView>,
    r1: Result<EvaluatedTerm, Error>,
    r2: Result<EvaluatedTerm, Error>,
)
    requires
        spec_eval_matches(t, ks, cs, r1),
        spec_eval_matches(t, ks, cs, r2),
    ensures
        r1 is Ok <==> r2 is Ok,
        match (r1, r2) {
            (Ok(a), Ok(b)) => a@ == b@,
            (Err(a), Err(b)) => crate::error::error_message(a) == crate::error::error_message(b),
            _ => true,
        },
{
    match spec_eval(t, ks, cs) {
        Ok(_) => {},
        Err(e) => {
            match e {
                SpecEvalError::UnknownVariable(_) => {},
                SpecEvalError::CallMissing(_, _) => {},
                SpecEvalError::CallMismatch(_, _, _) => {},
            }
        },
    }
}

/// Every variable of a term, left to right.
pub open spec fn spec_variables(t: Term) -> Seq<Variable> {
    spec_variables_of_nodes(spec_postorder(t))
}

/// The variables among a list of nodes, in order.
pub open spec fn spec_variables_of_nodes(ts: Seq<Term>) -> Seq<Variable>
    decreases ts,
{
    if ts.len() == 0 {
        Seq::empty()
    } else {
        spec_variables_of_nodes(ts.drop_last()) + (match ts.last() {
            Term::Variable(v) => seq![v],
            Term::Application(_, _) => Seq::empty(),
        })
    }
}

/// Every function symbol of a term: sub-terms' symbols first, the root
/// symbol last.
pub open spec fn spec_operators(t: Term) -> Seq<Function> {
    spec_operators_of_nodes(spec_postorder(t))
}

/// The symbols among a list of nodes, in order.
pub open spec fn spec_operators_of_nodes(ts: Seq<Term>) -> Seq<Function>
    decreases ts,
{
    if ts.len() == 0 {
        Seq::empty()
    } else {
        spec_operators_of_nodes(ts.drop_last()) + (match ts.last() {
            Term::Variable(_) => Seq::empty(),
            Term::Application(f, _) => seq![f],
        })
    }
}

} // verus!
