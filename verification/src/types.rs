use vstd::prelude::*;

verus! {

/// The host value types that the type registry knows. Every value that
/// flows through a term carries the tag of one of these types.
#[derive(Debug, Clone, Copy, PartialEq, Eq, Structural)]
pub enum HostType {
    /// A plain byte string, `Vec<u8>`.
    Bytes,
    U8,
    U16,
    U32,
    HmacKey,
    HandshakeMessage,
    Encrypted,
    ProtocolVersion,
    Random,
    ClientExtension,
    ClientExtensions,
    Group,
    SessionId,
    CipherSuites,
    CipherSuite,
    Compressions,
}

/// The stable identity the registry assigns to a host type. Identities
/// are comparable in constant time and usable as map keys.
pub open spec fn spec_type_id(t: HostType) -> u64 {
    match t {
        HostType::Bytes => 1,
        HostType::U8 => 2,
        HostType::U16 => 3,
        HostType::U32 => 4,
        HostType::HmacKey => 5,
        HostType::HandshakeMessage => 6,
        HostType::Encrypted => 7,
        HostType::ProtocolVersion => 8,
        HostType::Random => 9,
        HostType::ClientExtension => 10,
        HostType::ClientExtensions => 11,
        HostType::Group => 12,
        HostType::SessionId => 13,
        HostType::CipherSuites => 14,
        HostType::CipherSuite => 15,
        HostType::Compressions => 16,
    }
}

/// The human-readable name the registry assigns to a host type,
/// rendered with its module path as a host compiler would.
pub open spec fn spec_type_name(t: HostType) -> Seq<char> {
    match t {
        HostType::Bytes => "alloc::vec::Vec<u8>"@,
        HostType::U8 => "u8"@,
        HostType::U16 => "u16"@,
        HostType::U32 => "u32"@,
        HostType::HmacKey => "puffin::host::HmacKey"@,
        HostType::HandshakeMessage => "puffin::host::HandshakeMessage"@,
        HostType::Encrypted => "puffin::host::Encrypted"@,
        HostType::ProtocolVersion => "puffin::host::ProtocolVersion"@,
        HostType::Random => "puffin::host::Random"@,
        HostType::ClientExtension => "puffin::host::ClientExtension"@,
        HostType::ClientExtensions => "puffin::host::ClientExtensions"@,
        HostType::Group => "puffin::host::Group"@,
        HostType::SessionId => "puffin::host::SessionId"@,
        HostType::CipherSuites => "puffin::host::CipherSuites"@,
        HostType::CipherSuite => "puffin::host::CipherSuite"@,
        HostType::Compressions => "puffin::host::Compressions"@,
    }
}

/// A type shape: the registry's identity for a host type paired with its
/// readable name. Two shapes are equal exactly when their identities are.
#[derive(Debug)]
pub struct TypeShape {
    /// Stable identity within the registry.
    pub id: u64,
    /// Readable name, used for display and persistence.
    pub name: String,
}

/// A shape is canonical when it was built by the registry: its name is
/// the one registered for its identity.
pub open spec fn canonical_shape(s: TypeShape) -> bool {
    exists|t: HostType| spec_type_id(t) == s.id && spec_type_name(t) == s.name@
}

impl TypeShape {
    /// Builds the shape of a host type through the registry, so that
    /// name and identity stay consistent.
    pub fn of(t: HostType) -> (r: TypeShape)
        ensures
            r.id == spec_type_id(t),
            r.name@ == spec_type_name(t),
            canonical_shape(r),
    {
        let id: u64 = match t {
            HostType::Bytes => 1,
            HostType::U8 => 2,
            HostType::U16 => 3,
            HostType::U32 => 4,
            HostType::HmacKey => 5,
            HostType::HandshakeMessage => 6,
            HostType::Encrypted => 7,
            HostType::ProtocolVersion => 8,
            HostType::Random => 9,
            HostType::ClientExtension => 10,
            HostType::ClientExtensions => 11,
            HostType::Group => 12,
            HostType::SessionId => 13,
            HostType::CipherSuites => 14,
            HostType::CipherSuite => 15,
            HostType::Compressions => 16,
        };
        let name: String = match t {
            HostType::Bytes => String::from_str("alloc::vec::Vec<u8>"),
            HostType::U8 => String::from_str("u8"),
            HostType::U16 => String::from_str("u16"),
            HostType::U32 => String::from_str("u32"),
            HostType::HmacKey => String::from_str("puffin::host::HmacKey"),
            HostType::HandshakeMessage => String::from_str("puffin::host::HandshakeMessage"),
            HostType::Encrypted => String::from_str("puffin::host::Encrypted"),
            HostType::ProtocolVersion => String::from_str("puffin::host::ProtocolVersion"),
            HostType::Random => String::from_str("puffin::host::Random"),
            HostType::ClientExtension => String::from_str("puffin::host::ClientExtension"),
            HostType::ClientExtensions => String::from_str("puffin::host::ClientExtensions"),
            HostType::Group => String::from_str("puffin::host::Group"),
            HostType::SessionId => String::from_str("puffin::host::SessionId"),
            HostType::CipherSuites => String::from_str("puffin::host::CipherSuites"),
            HostType::CipherSuite => String::from_str("puffin::host::CipherSuite"),
            HostType::Compressions => String::from_str("puffin::host::Compressions"),
        };
        let r = TypeShape { id, name };
        proof {
            assert(canonical_shape(r)) by {
                assert(spec_type_id(t) == r.id && spec_type_name(t) == r.name@);
            }
        }
        r
    }

    /// A structural copy.
    pub fn duplicate(&self) -> (r: TypeShape)
        ensures
            r == *self,
    {
        TypeShape { id: self.id, name: self.name.clone() }
    }
}

impl Clone for TypeShape {
    /// Copies identity and name.
    fn clone(&self) -> (r: Self)
        ensures
            r == *self,
    {
        self.duplicate()
    }
}

impl PartialEq for TypeShape {
    /// Shapes compare by identity alone.
    fn eq(&self, other: &Self) -> (r: bool) {
        self.id == other.id
    }
}

impl vstd::std_specs::cmp::PartialEqSpecImpl for TypeShape {
    open spec fn obeys_eq_spec() -> bool {
        true
    }

    open spec fn eq_spec(&self, other: &Self) -> bool {
        self.id == other.id
    }
}

/// Readable rendering of a type identity. Registry identities are small
/// integers already, so the identity renders as itself, in hexadecimal.
pub fn hash_type_id(type_id: &u64) -> (r: u64)
    ensures
        r == *type_id,
{
    *type_id
}

/// The shape of an erased host function: its symbolic name, the shapes
/// of its arguments in order, and the shape of its result.
#[derive(Debug)]
pub struct DynamicFunctionShape {
    pub name: String,
    pub argument_types: Vec<TypeShape>,
    pub return_type: TypeShape,
}

/// Argument type names joined with commas.
pub open spec fn spec_joined_type_names(ts: Seq<TypeShape>) -> Seq<char>
    decreases ts.len(),
{
    if ts.len() == 0 {
        Seq::<char>::empty()
    } else if ts.len() == 1 {
        ts[0].name@
    } else {
        spec_joined_type_names(ts.drop_last()) + ","@ + ts.last().name@
    }
}

/// The rendering of a function shape: `name(arg,...) -> ret`.
pub open spec fn spec_shape_display(s: DynamicFunctionShape) -> Seq<char> {
    s.name@ + "("@ + spec_joined_type_names(s.argument_types@) + ") -> "@ + s.return_type.name@
}

impl DynamicFunctionShape {
    /// How many arguments the function takes.
    pub fn arity(&self) -> (r: u16)
        requires
            self.argument_types@.len() <= u16::MAX,
        ensures
            r == self.argument_types@.len(),
    {
        self.argument_types.len() as u16
    }

    /// A structural copy.
    pub fn duplicate(&self) -> (r: DynamicFunctionShape)
        ensures
            r.name == self.name,
            r.argument_types@ == self.argument_types@,
            r.return_type == self.return_type,
    {
        let mut args: Vec<TypeShape> = Vec::new();
        let mut i: usize = 0;
        while i < self.argument_types.len()
            invariant
                i <= self.argument_types@.len(),
                args@ =~= self.argument_types@.subrange(0, i as int),
            decreases self.argument_types@.len() - i,
        {
            args.push(self.argument_types[i].duplicate());
            i = i + 1;
        }
        proof {
            assert(args@ =~= self.argument_types@);
        }
        DynamicFunctionShape {
            name: self.name.clone(),
            argument_types: args,
            return_type: self.return_type.duplicate(),
        }
    }

    /// Renders the shape as `name(arg,...) -> ret`.
    pub fn display(&self) -> (r: String)
        ensures
            r@ == spec_shape_display(*self),
    {
        let mut out: String = self.name.clone();
        out.append("(");
        let mut i: usize = 0;
        let n: usize = self.argument_types.len();
        while i < n
            invariant
                i <= n,
                n == self.argument_types@.len(),
                out@ == self.name@ + "("@ + spec_joined_type_names(
                    self.argument_types@.subrange(0, i as int),
                ),
            decreases n - i,
        {
            if i > 0 {
                out.append(",");
            }
            out.append(self.argument_types[i].name.as_str());
            proof {
                assert(self.argument_types@.subrange(0, i + 1 as int).drop_last() =~= self
                    .argument_types@.subrange(0, i as int));
                assert(self.argument_types@.subrange(0, i + 1 as int).last() == self
                    .argument_types@[i as int]);
                if i == 0 {
                    assert(spec_joined_type_names(self.argument_types@.subrange(0, 1))
                        == self.argument_types@[0].name@);
                }
            }
            i = i + 1;
        }
        proof {
            assert(self.argument_types@.subrange(0, n as int) =~= self.argument_types@);
        }
        out.append(") -> ");
        out.append(self.return_type.name.as_str());
        out
    }
}

impl Clone for DynamicFunctionShape {
    /// Copies name, argument shapes and return shape.
    fn clone(&self) -> (r: Self)
        ensures
            r.name == self.name,
            r.argument_types@ == self.argument_types@,
            r.return_type == self.return_type,
    {
        self.duplicate()
    }
}

} // verus!
