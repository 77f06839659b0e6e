use vstd::prelude::*;
use crate::atoms::{AgentName, Function, Matcher, Query, Variable};
use crate::host::{HostFn, spec_host_name, spec_host_ret};
use crate::once::OnceSlot;
use crate::types::{HostType, spec_type_name};

verus! {

/// The closed vocabulary of typed function symbols available to build
/// terms, with lookup by name and by return type. Symbols get monotonic
/// stable identifiers as they are registered.
pub struct Signature {
    /// Every registered symbol, in registration order; the symbol's
    /// `resistant_id` is its position.
    pub functions: Vec<Function>,
    /// The identifier the next variable symbol will get.
    pub next_var_id: u32,
}

/// Every symbol's identifier is its position in the registration order.
pub open spec fn signature_wf(s: Signature) -> bool {
    forall|i: int|
        0 <= i < s.functions@.len() ==> (#[trigger] s.functions@[i]).resistant_id == i
}

/// The first registered symbol with the given name, scanning from the
/// front.
pub open spec fn spec_find_by_name(fs: Seq<Function>, name: Seq<char>) -> Option<Function>
    decreases fs.len(),
{
    if fs.len() == 0 {
        None
    } else if spec_host_name(fs[0].host) == name {
        Some(fs[0])
    } else {
        spec_find_by_name(fs.drop_first(), name)
    }
}

/// The registered symbols whose return type is `t`, in registration
/// order.
pub open spec fn spec_by_return_type(fs: Seq<Function>, t: HostType) -> Seq<Function>
    decreases fs.len(),
{
    if fs.len() == 0 {
        Seq::empty()
    } else {
        let rest = spec_by_return_type(fs.drop_last(), t);
        if spec_host_ret(fs.last().host) == t {
            rest.push(fs.last())
        } else {
            rest
        }
    }
}

impl Signature {
    /// An empty signature.
    pub fn new() -> (r: Signature)
        ensures
            r.functions@.len() == 0,
            r.next_var_id == 0,
            signature_wf(r),
    {
        Signature { functions: Vec::new(), next_var_id: 0 }
    }

    /// Registers a host function under the next monotonic identifier and
    /// returns its symbol.
    pub fn new_function(&mut self, host: HostFn) -> (r: Function)
        requires
            old(self).functions@.len() < u32::MAX,
        ensures
            r.host == host,
            r.resistant_id == old(self).functions@.len(),
            final(self).functions@ == old(self).functions@.push(r),
            final(self).next_var_id == old(self).next_var_id,
            signature_wf(*old(self)) ==> signature_wf(*final(self)),
    {
        let r = Function { resistant_id: self.functions.len() as u32, host };
        self.functions.push(r);
        r
    }

    /// Creates a variable symbol of the given type, resolved by the
    /// given query, under the next monotonic identifier.
    pub fn new_var(
        &mut self,
        typ: HostType,
        source: Option<AgentName>,
        matcher: Option<Matcher>,
        counter: u16,
    ) -> (r: Variable)
        requires
            old(self).next_var_id < u32::MAX,
        ensures
            r.typ == typ,
            r.query.source == source,
            r.query.matcher == matcher,
            r.query.counter == counter,
            r.resistant_id == old(self).next_var_id,
            final(self).next_var_id == old(self).next_var_id + 1,
            final(self).functions@ == old(self).functions@,
    {
        let r = Variable {
            resistant_id: self.next_var_id,
            typ,
            query: Query { source, matcher, counter },
        };
        self.next_var_id = self.next_var_id + 1;
        r
    }

    /// The symbol registered under the given identifier, if any.
    pub fn find_by_id(&self, resistant_id: u32) -> (r: Option<Function>)
        requires
            signature_wf(*self),
        ensures
            match r {
                Some(f) => resistant_id < self.functions@.len() && f == self.functions@[resistant_id as int],
                None => resistant_id >= self.functions@.len(),
            },
    {
        if (resistant_id as usize) < self.functions.len() {
            Some(self.functions[resistant_id as usize])
        } else {
            None
        }
    }

    /// The first symbol with the given name, if any.
    pub fn find_by_name(&self, name: &String) -> (r: Option<Function>)
        ensures
            r == spec_find_by_name(self.functions@, name@),
    {
        let n: usize = self.functions.len();
        let mut i: usize = 0;
        proof {
            assert(self.functions@.skip(0) =~= self.functions@);
        }
        while i < n
            invariant
                i <= n,
                n == self.functions@.len(),
                spec_find_by_name(self.functions@, name@) == spec_find_by_name(
                    self.functions@.skip(i as int),
                    name@,
                ),
            decreases n - i,
        {
            let f = self.functions[i];
            let fname = f.name();
            proof {
                assert(self.functions@.skip(i as int)[0] == self.functions@[i as int]);
                assert(self.functions@.skip(i as int).drop_first() =~= self.functions@.skip(
                    i + 1 as int,
                ));
            }
            if fname == *name {
                return Some(f);
            }
            i = i + 1;
        }
        proof {
            assert(self.functions@.skip(n as int) =~= Seq::<Function>::empty());
        }
        None
    }

    /// The registered symbols returning the given type, in registration
    /// order. The zoo generator draws from this index.
    pub fn functions_by_typ(&self, t: HostType) -> (r: Vec<Function>)
        ensures
            r@ == spec_by_return_type(self.functions@, t),
    {
        let n: usize = self.functions.len();
        let mut out: Vec<Function> = Vec::new();
        let mut i: usize = 0;
        while i < n
            invariant
                i <= n,
                n == self.functions@.len(),
                out@ == spec_by_return_type(self.functions@.take(i as int), t),
            decreases n - i,
        {
            let f = self.functions[i];
            proof {
                assert(self.functions@.take(i + 1 as int).drop_last() =~= self.functions@.take(
                    i as int,
                ));
                assert(self.functions@.take(i + 1 as int).last() == self.functions@[i as int]);
            }
            if f.host.return_type() == t {
                out.push(f);
            }
            i = i + 1;
        }
        proof {
            assert(self.functions@.take(n as int) =~= self.functions@);
        }
        out
    }

    /// The names of all registered symbols, in registration order.
    pub fn function_names(&self) -> (r: Vec<String>)
        ensures
            r@.len() == self.functions@.len(),
            forall|i: int|
                0 <= i < r@.len() ==> (#[trigger] r@[i])@ == spec_host_name(
                    self.functions@[i].host,
                ),
    {
        let n: usize = self.functions.len();
        let mut out: Vec<String> = Vec::new();
        let mut i: usize = 0;
        while i < n
            invariant
                i <= n,
                n == self.functions@.len(),
                out@.len() == i,
                forall|j: int|
                    0 <= j < i ==> (#[trigger] out@[j])@ == spec_host_name(
                        self.functions@[j].host,
                    ),
            decreases n - i,
        {
            out.push(self.functions[i].name());
            i = i + 1;
        }
        out
    }
}

/// All host types of the registry, in registry order.
pub fn all_host_types() -> (r: Vec<HostType>)
    ensures
        r@ == seq![
            HostType::Bytes,
            HostType::U8,
            HostType::U16,
            HostType::U32,
            HostType::HmacKey,
            HostType::HandshakeMessage,
            HostType::Encrypted,
            HostType::ProtocolVersion,
            HostType::Random,
            HostType::ClientExtension,
            HostType::ClientExtensions,
            HostType::Group,
            HostType::SessionId,
            HostType::CipherSuites,
            HostType::CipherSuite,
            HostType::Compressions,
        ],
{
    let mut out: Vec<HostType> = Vec::new();
    out.push(HostType::Bytes);
    out.push(HostType::U8);
    out.push(HostType::U16);
    out.push(HostType::U32);
    out.push(HostType::HmacKey);
    out.push(HostType::HandshakeMessage);
    out.push(HostType::Encrypted);
    out.push(HostType::ProtocolVersion);
    out.push(HostType::Random);
    out.push(HostType::ClientExtension);
    out.push(HostType::ClientExtensions);
    out.push(HostType::Group);
    out.push(HostType::SessionId);
    out.push(HostType::CipherSuites);
    out.push(HostType::CipherSuite);
    out.push(HostType::Compressions);
    proof {
        assert(out@ =~= seq![
            HostType::Bytes,
            HostType::U8,
            HostType::U16,
            HostType::U32,
            HostType::HmacKey,
            HostType::HandshakeMessage,
            HostType::Encrypted,
            HostType::ProtocolVersion,
            HostType::Random,
            HostType::ClientExtension,
            HostType::ClientExtensions,
            HostType::Group,
            HostType::SessionId,
            HostType::CipherSuites,
            HostType::CipherSuite,
            HostType::Compressions,
        ]);
    }
    out
}

/// The names of all registry types, in registry order.
pub fn registered_type_names() -> (r: Vec<String>)
    ensures
        r@.len() == 16,
        forall|i: int|
            0 <= i < r@.len() ==> (#[trigger] r@[i])@ == spec_type_name(all_types_seq()[i]),
{
    let ts = all_host_types();
    let mut out: Vec<String> = Vec::new();
    let n: usize = ts.len();
    let mut i: usize = 0;
    while i < n
        invariant
            i <= n,
            n == ts@.len(),
            ts@ == all_types_seq(),
            out@.len() == i,
            forall|j: int|
                0 <= j < i ==> (#[trigger] out@[j])@ == spec_type_name(all_types_seq()[j]),
        decreases n - i,
    {
        let shape = crate::types::TypeShape::of(ts[i]);
        out.push(shape.name);
        i = i + 1;
    }
    out
}

/// All host types of the registry, in registry order.
pub open spec fn all_types_seq() -> Seq<HostType> {
    seq![
        HostType::Bytes,
        HostType::U8,
        HostType::U16,
        HostType::U32,
        HostType::HmacKey,
        HostType::HandshakeMessage,
        HostType::Encrypted,
        HostType::ProtocolVersion,
        HostType::Random,
        HostType::ClientExtension,
        HostType::ClientExtensions,
        HostType::Group,
        HostType::SessionId,
        HostType::CipherSuites,
        HostType::CipherSuite,
        HostType::Compressions,
    ]
}

/// The process-wide anchor for the active signature, used to rebind
/// function symbols during deserialization. Installed once at startup.
pub type SignatureAnchor = OnceSlot<Signature>;

/// The active signature held by the anchor.
///
/// The anchor must have been set; resolving symbols before the anchor is
/// installed is a startup-order bug.
pub fn current_signature(anchor: &SignatureAnchor) -> (r: &Signature)
    requires
        anchor.inner is Some,
    ensures
        anchor.inner == Some(*r),
{
    match &anchor.inner {
        Some(s) => s,
        None => vstd::pervasive::unreached(),
    }
}

/// Installs the active signature. Installing a second time is an error
/// and leaves the anchor as it was.
pub fn set_current_signature(anchor: &mut SignatureAnchor, signature: Signature) -> (r: Result<
    (),
    (),
>)
    ensures
        old(anchor).inner is None ==> final(anchor).inner == Some(signature) && r is Ok,
        old(anchor).inner is Some ==> *final(anchor) == *old(anchor) && r is Err,
{
    match anchor.set(signature) {
        Ok(_) => Ok(()),
        Err(_) => Err(()),
    }
}

} // verus!
