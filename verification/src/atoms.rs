use vstd::prelude::*;
use crate::fmt::spec_dec;
use crate::fmt::u64_to_dec;
use crate::host::{HostFn, spec_host_args, spec_host_name, spec_host_ret, spec_host_shape_ok};
use crate::types::{DynamicFunctionShape, HostType, TypeShape, spec_type_id, spec_type_name};

verus! {

/// The identity of an agent within a trace.
#[derive(Debug, Clone, Copy, PartialEq, Eq, Hash, Structural)]
pub struct AgentName {
    pub id: u64,
}

impl AgentName {
    /// The first agent name.
    pub fn first() -> (r: AgentName)
        ensures
            r.id == 0,
    {
        AgentName { id: 0 }
    }

    /// The name following this one.
    pub fn next(&self) -> (r: AgentName)
        requires
            self.id < u64::MAX,
        ensures
            r.id == self.id + 1,
    {
        AgentName { id: self.id + 1 }
    }
}

/// A protocol-specific predicate narrowing knowledge lookup. `Any` puts
/// no constraint on an item; `Tag` asks for an item recorded under the
/// same tag. A matcher of higher specificity dominates equal candidates.
#[derive(Debug, Clone, Copy, PartialEq, Eq, Hash, Structural)]
pub enum Matcher {
    Any,
    Tag(u64),
}

/// Whether a query-side matcher accepts an item-side matcher.
pub open spec fn spec_matches(query: Matcher, item: Matcher) -> bool {
    match query {
        Matcher::Any => true,
        Matcher::Tag(k) => item == Matcher::Tag(k),
    }
}

impl Matcher {
    /// Whether this query-side matcher accepts the item-side matcher.
    pub fn matches(&self, item: &Matcher) -> (r: bool)
        ensures
            r == spec_matches(*self, *item),
    {
        match self {
            Matcher::Any => true,
            Matcher::Tag(k) => match item {
                Matcher::Tag(j) => *k == *j,
                Matcher::Any => false,
            },
        }
    }

    /// How specific the matcher is; a higher value dominates.
    pub fn specificity(&self) -> (r: u32)
        ensures
            r == match *self {
                Matcher::Any => 0u32,
                Matcher::Tag(_) => 1u32,
            },
    {
        match self {
            Matcher::Any => 0,
            Matcher::Tag(_) => 1,
        }
    }
}

/// A knowledge query: the agent the data came from, an optional
/// protocol-specific matcher, and the index among the matching items in
/// insertion order.
#[derive(Debug, Clone, Copy, PartialEq, Eq)]
pub struct Query {
    /// The agent whose messages are queried, if one is named.
    pub source: Option<AgentName>,
    /// The protocol-specific narrowing, if any.
    pub matcher: Option<Matcher>,
    /// Selects the n-th matching item, 0-based, in insertion order.
    pub counter: u16,
}

/// The rendering of a query: `agent_N/c` or `*/c`.
pub open spec fn spec_query_display(q: Query) -> Seq<char> {
    (match q.source {
        Some(a) => "agent_"@ + spec_dec(a.id as nat),
        None => "*"@,
    }) + "/"@ + spec_dec(q.counter as nat)
}

impl Query {
    /// Renders the query as `agent_N/c` or `*/c`.
    pub fn display(&self) -> (r: String)
        ensures
            r@ == spec_query_display(*self),
    {
        let mut out: String;
        match self.source {
            Some(a) => {
                out = String::from_str("agent_");
                let d = u64_to_dec(a.id);
                out.append(d.as_str());
            },
            None => {
                out = String::from_str("*");
            },
        }
        out.append("/");
        let c = u64_to_dec(self.counter as u64);
        out.append(c.as_str());
        out
    }
}

/// A variable symbol: a declared type, a query that resolves it against
/// recorded knowledge, and a stable identifier.
#[derive(Debug, Clone, Copy, PartialEq, Eq)]
pub struct Variable {
    /// Stable identifier, kept across renames and persistence.
    pub resistant_id: u32,
    /// The declared type of the variable.
    pub typ: HostType,
    /// How the variable resolves against the knowledge base.
    pub query: Query,
}

/// The rendering of a variable: its type name and its query.
pub open spec fn spec_variable_display(v: Variable) -> Seq<char> {
    spec_type_name(v.typ) + "["@ + spec_query_display(v.query) + "]"@
}

impl Variable {
    /// The declared type shape, built through the registry.
    pub fn type_shape(&self) -> (r: TypeShape)
        ensures
            r.id == spec_type_id(self.typ),
            r.name@ == spec_type_name(self.typ),
    {
        TypeShape::of(self.typ)
    }

    /// Renders the variable as its type name and query.
    pub fn display(&self) -> (r: String)
        ensures
            r@ == spec_variable_display(*self),
    {
        let ts = TypeShape::of(self.typ);
        let mut out = ts.name;
        out.append("[");
        let q = self.query.display();
        out.append(q.as_str());
        out.append("]");
        out
    }
}

/// A function symbol: a host function under a stable identifier. Its
/// shape is derived from the host function through the registry.
#[derive(Debug, Clone, Copy, PartialEq, Eq, Hash, Structural)]
pub struct Function {
    /// Stable identifier, kept across renames and persistence.
    pub resistant_id: u32,
    /// The reified host function.
    pub host: HostFn,
}

impl Function {
    /// The symbolic name, with its module path.
    pub fn name(&self) -> (r: String)
        ensures
            r@ == spec_host_name(self.host),
    {
        self.host.name_string()
    }

    /// The full shape: name, argument shapes, return shape.
    pub fn shape(&self) -> (r: DynamicFunctionShape)
        ensures
            spec_host_shape_ok(self.host, r),
    {
        self.host.shape()
    }

    /// The erased callable standing behind the symbol.
    pub fn dynamic_fn(&self) -> (r: HostFn)
        ensures
            r == self.host,
    {
        self.host
    }

    /// How many arguments the symbol takes.
    pub fn arity(&self) -> (r: usize)
        ensures
            r == spec_host_args(self.host).len(),
    {
        self.host.arity()
    }

    /// The declared return type.
    pub fn return_type(&self) -> (r: HostType)
        ensures
            r == spec_host_ret(self.host),
    {
        self.host.return_type()
    }
}

} // verus!
