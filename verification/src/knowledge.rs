use vstd::prelude::*;
use crate::atoms::{AgentName, Matcher, Query, Variable, spec_matches};
use crate::types::HostType;
use crate::value::{EvaluatedTerm, EvaluatedTermView};

verus! {

/// Mathematical content of a knowledge item.
pub struct KnowledgeView {
    pub agent: AgentName,
    pub matcher: Option<Matcher>,
    pub data: EvaluatedTermView,
}

/// A typed value recovered from a prior protocol message, addressable
/// by agent, type, matcher and counter.
#[derive(Debug)]
pub struct Knowledge {
    /// The agent whose output the value was extracted from.
    pub agent: AgentName,
    /// The protocol-specific position of the value, if one was
    /// recorded.
    pub matcher: Option<Matcher>,
    /// The value itself.
    pub data: EvaluatedTerm,
}

impl View for Knowledge {
    type V = KnowledgeView;

    open spec fn view(&self) -> KnowledgeView {
        KnowledgeView { agent: self.agent, matcher: self.matcher, data: self.data@ }
    }
}

/// Mathematical content of a claim.
pub struct ClaimView {
    pub agent: AgentName,
    pub kind: u64,
    pub data: EvaluatedTermView,
}

/// A structured assertion an agent emitted about its internal state,
/// recorded with the kind of state it describes.
#[derive(Debug)]
pub struct Claim {
    /// The agent that emitted the claim.
    pub agent: AgentName,
    /// What kind of internal state the claim describes.
    pub kind: u64,
    /// The claimed value.
    pub data: EvaluatedTerm,
}

impl View for Claim {
    type V = ClaimView;

    open spec fn view(&self) -> ClaimView {
        ClaimView { agent: self.agent, kind: self.kind, data: self.data@ }
    }
}

/// Whether a query-side optional matcher accepts an item-side one: no
/// query matcher accepts everything; a query matcher accepts a bare
/// item only if it is the unconstrained matcher.
pub open spec fn spec_opt_matches(query: Option<Matcher>, item: Option<Matcher>) -> bool {
    match query {
        None => true,
        Some(m) => match item {
            Some(im) => spec_matches(m, im),
            None => m == Matcher::Any,
        },
    }
}

/// Whether a knowledge item answers a query for the given type: the
/// agent fits if the query names one, the type fits, and the matcher
/// accepts the item.
pub open spec fn spec_knowledge_matches(k: KnowledgeView, typ: HostType, q: Query) -> bool {
    &&& match q.source {
        Some(a) => k.agent == a,
        None => true,
    }
    &&& k.data.typ == typ
    &&& spec_opt_matches(q.matcher, k.matcher)
}

/// The knowledge items answering the query, in insertion order.
pub open spec fn spec_matching_knowledge(ks: Seq<KnowledgeView>, typ: HostType, q: Query) -> Seq<
    KnowledgeView,
>
    decreases ks,
{
    if ks.len() == 0 {
        Seq::empty()
    } else {
        let rest = spec_matching_knowledge(ks.drop_last(), typ, q);
        if spec_knowledge_matches(ks.last(), typ, q) {
            rest.push(ks.last())
        } else {
            rest
        }
    }
}

/// The latest claim of the agent carrying a value of the given type.
pub open spec fn spec_find_claim(cs: Seq<ClaimView>, agent: AgentName, typ: HostType) -> Option<
    EvaluatedTermView,
>
    decreases cs,
{
    if cs.len() == 0 {
        None
    } else if cs.last().agent == agent && cs.last().data.typ == typ {
        Some(cs.last().data)
    } else {
        spec_find_claim(cs.drop_last(), agent, typ)
    }
}

/// The per-execution state the evaluator consults: the knowledge
/// accumulated from agents' output, and the claims the agents emitted.
/// Owned by a single trace execution; the engine alone appends.
#[derive(Debug)]
pub struct TraceContext {
    /// Append-only knowledge base, in insertion order.
    pub knowledge: Vec<Knowledge>,
    /// Claims drained from the agents, in arrival order.
    pub claims: Vec<Claim>,
}

impl TraceContext {
    /// The knowledge base as a sequence of item views.
    pub open spec fn knowledge_views(&self) -> Seq<KnowledgeView> {
        self.knowledge@.map_values(|k: Knowledge| k@)
    }

    /// The claim store as a sequence of claim views.
    pub open spec fn claim_views(&self) -> Seq<ClaimView> {
        self.claims@.map_values(|c: Claim| c@)
    }

    /// An empty context.
    pub fn new() -> (r: TraceContext)
        ensures
            r.knowledge@.len() == 0,
            r.claims@.len() == 0,
    {
        TraceContext { knowledge: Vec::new(), claims: Vec::new() }
    }

    /// Appends a knowledge item; earlier items keep their positions.
    pub fn add_knowledge(&mut self, k: Knowledge)
        ensures
            final(self).knowledge@ == old(self).knowledge@.push(k),
            final(self).claims@ == old(self).claims@,
    {
        self.knowledge.push(k);
    }

    /// Appends a claim; earlier claims keep their positions.
    pub fn add_claim(&mut self, c: Claim)
        ensures
            final(self).claims@ == old(self).claims@.push(c),
            final(self).knowledge@ == old(self).knowledge@,
    {
        self.claims.push(c);
    }

    /// Resolves a query: among the knowledge items answering it, in
    /// insertion order, the one at position `counter`.
    pub fn find_variable(&self, typ: HostType, query: &Query) -> (r: Option<&EvaluatedTerm>)
        ensures
            match r {
                Some(v) => {
                    &&& query.counter < spec_matching_knowledge(
                        self.knowledge_views(),
                        typ,
                        *query,
                    ).len()
                    &&& v@ == spec_matching_knowledge(
                        self.knowledge_views(),
                        typ,
                        *query,
                    )[query.counter as int].data
                },
                None => query.counter >= spec_matching_knowledge(
                    self.knowledge_views(),
                    typ,
                    *query,
                ).len(),
            },
    {
        proof {
            assert(self.knowledge_views().len() == self.knowledge@.len());
            assert(forall|j: int|
                0 <= j < self.knowledge@.len() ==> #[trigger] self.knowledge_views()[j] == self
                    .knowledge@[j]@);
        }
        let ghost full = self.knowledge_views();
        let n: usize = self.knowledge.len();
        let mut i: usize = 0;
        let mut seen: usize = 0;
        proof {
            assert(full.take(0) =~= Seq::<KnowledgeView>::empty());
        }
        while i < n
            invariant
                i <= n,
                n == self.knowledge@.len(),
                full == self.knowledge_views(),
                full.len() == n,
                forall|j: int| 0 <= j < n ==> #[trigger] full[j] == self.knowledge@[j]@,
                seen == spec_matching_knowledge(full.take(i as int), typ, *query).len(),
                seen <= i,
                seen <= query.counter,
            decreases n - i,
        {
            let k = &self.knowledge[i];
            let agent_ok: bool = match &query.source {
                Some(a) => k.agent == *a,
                None => true,
            };
            let matcher_ok: bool = match &query.matcher {
                None => true,
                Some(m) => match &k.matcher {
                    Some(im) => m.matches(im),
                    None => match m {
                        Matcher::Any => true,
                        Matcher::Tag(_) => false,
                    },
                },
            };
            let type_ok: bool = k.data.host_type() == typ;
            proof {
                assert(full.take(i + 1 as int).drop_last() =~= full.take(i as int));
                assert(full.take(i + 1 as int).last() == full[i as int]);
            }
            if agent_ok && matcher_ok && type_ok {
                proof {
                    assert(spec_knowledge_matches(full[i as int], typ, *query));
                }
                if seen == query.counter as usize {
                    proof {
                        lemma_matching_prefix(full, typ, *query, i + 1 as int);
                        assert(spec_matching_knowledge(full.take(i + 1 as int), typ, *query).last()
                            == full[i as int]);
                    }
                    return Some(&k.data);
                }
                seen = seen + 1;
            } else {
                proof {
                    assert(!spec_knowledge_matches(full[i as int], typ, *query));
                }
            }
            i = i + 1;
        }
        proof {
            assert(full.take(n as int) =~= full);
        }
        None
    }

    /// The latest claim of the agent carrying a value of the given
    /// type.
    pub fn find_claim(&self, agent: AgentName, typ: HostType) -> (r: Option<&EvaluatedTerm>)
        ensures
            match r {
                Some(v) => spec_find_claim(self.claim_views(), agent, typ) == Some(v@),
                None => spec_find_claim(self.claim_views(), agent, typ) is None,
            },
    {
        proof {
            assert(self.claim_views().len() == self.claims@.len());
            assert(forall|j: int|
                0 <= j < self.claims@.len() ==> #[trigger] self.claim_views()[j] == self.claims@[
                    j]@);
        }
        let ghost full = self.claim_views();
        let mut i: usize = self.claims.len();
        proof {
            assert(full.take(self.claims@.len() as int) =~= full);
        }
        while i > 0
            invariant
                i <= self.claims@.len(),
                full == self.claim_views(),
                full.len() == self.claims@.len(),
                forall|j: int| 0 <= j < full.len() ==> #[trigger] full[j] == self.claims@[j]@,
                spec_find_claim(full, agent, typ) == spec_find_claim(
                    full.take(i as int),
                    agent,
                    typ,
                ),
            decreases i,
        {
            let c = &self.claims[i - 1];
            proof {
                assert(full.take(i as int).last() == full[i - 1 as int]);
                assert(full.take(i as int).drop_last() =~= full.take(i - 1 as int));
            }
            if c.agent == agent && c.data.host_type() == typ {
                return Some(&c.data);
            }
            i = i - 1;
        }
        proof {
            assert(full.take(0) =~= Seq::<ClaimView>::empty());
        }
        None
    }
}

/// A source of values for variable resolution.
pub trait VariableContext {
    /// The value a variable resolves to, if any.
    fn find_variable_data(&self, variable: &Variable) -> Option<&EvaluatedTerm>;
}

impl VariableContext for TraceContext {
    /// Resolves the variable's query against the knowledge base.
    fn find_variable_data(&self, variable: &Variable) -> Option<&EvaluatedTerm> {
        self.find_variable(variable.typ, &variable.query)
    }
}

/// The items a query answers among a prefix stand, in the same order,
/// at the front of the items it answers in the whole base.
pub proof fn lemma_matching_prefix(ks: Seq<KnowledgeView>, typ: HostType, q: Query, j: int)
    requires
        0 <= j <= ks.len(),
    ensures
        spec_matching_knowledge(ks.take(j), typ, q).is_prefix_of(
            spec_matching_knowledge(ks, typ, q),
        ),
    decreases ks.len() - j,
{
    if j == ks.len() {
        assert(ks.take(j) =~= ks);
    } else {
        lemma_matching_prefix(ks, typ, q, j + 1);
        assert(ks.take(j + 1).drop_last() =~= ks.take(j));
        assert(ks.take(j + 1).last() == ks[j]);
    }
}

} // verus!
