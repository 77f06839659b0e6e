use vstd::prelude::*;
use crate::error::FnError;
use crate::fmt::{spec_dec, spec_hex, u64_to_dec, u64_to_hex};
use crate::types::{
    DynamicFunctionShape, HostType, TypeShape, hash_type_id, spec_type_id, spec_type_name,
};
use crate::value::{EvaluatedTerm, EvaluatedTermView};

verus! {

/// The host functions that can stand behind a function symbol. Each one
/// is a pure, typed function reified with a shape; `call` is its erased,
/// shape-checked form.
#[derive(Debug, Clone, Copy, PartialEq, Eq, Hash, Structural)]
pub enum HostFn {
    Hmac256NewKey,
    Hmac256,
    ClientHello,
    Finished,
    ProtocolVersion12,
    NewSessionId,
    NewRandom,
    ClientExtensionsAppend,
    ClientExtensionsNew,
    SupportGroupExtension,
    SignatureAlgorithmExtension,
    EcPointFormatsExtension,
    SignedCertificateTimestampExtension,
    RenegotiationInfoExtension,
    SignatureAlgorithmCertExtension,
    EmptyBytesVec,
    NamedGroupSecp384r1,
    ClientKeyExchange,
    NewCipherSuites,
    AppendCipherSuite,
    CipherSuite12,
    Compressions,
    Encrypt12,
    Seq0,
    Seq1,
    ExampleOpC,
}

/// The symbolic name of a host function, with its module path.
pub open spec fn spec_host_name(f: HostFn) -> Seq<char> {
    match f {
        HostFn::Hmac256NewKey => "puffin::host::fn_hmac256_new_key"@,
        HostFn::Hmac256 => "puffin::host::fn_hmac256"@,
        HostFn::ClientHello => "puffin::host::fn_client_hello"@,
        HostFn::Finished => "puffin::host::fn_finished"@,
        HostFn::ProtocolVersion12 => "puffin::host::fn_protocol_version12"@,
        HostFn::NewSessionId => "puffin::host::fn_new_session_id"@,
        HostFn::NewRandom => "puffin::host::fn_new_random"@,
        HostFn::ClientExtensionsAppend => "puffin::host::fn_client_extensions_append"@,
        HostFn::ClientExtensionsNew => "puffin::host::fn_client_extensions_new"@,
        HostFn::SupportGroupExtension => "puffin::host::fn_support_group_extension"@,
        HostFn::SignatureAlgorithmExtension => "puffin::host::fn_signature_algorithm_extension"@,
        HostFn::EcPointFormatsExtension => "puffin::host::fn_ec_point_formats_extension"@,
        HostFn::SignedCertificateTimestampExtension
            => "puffin::host::fn_signed_certificate_timestamp_extension"@,
        HostFn::RenegotiationInfoExtension => "puffin::host::fn_renegotiation_info_extension"@,
        HostFn::SignatureAlgorithmCertExtension
            => "puffin::host::fn_signature_algorithm_cert_extension"@,
        HostFn::EmptyBytesVec => "puffin::host::fn_empty_bytes_vec"@,
        HostFn::NamedGroupSecp384r1 => "puffin::host::fn_named_group_secp384r1"@,
        HostFn::ClientKeyExchange => "puffin::host::fn_client_key_exchange"@,
        HostFn::NewCipherSuites => "puffin::host::fn_new_cipher_suites"@,
        HostFn::AppendCipherSuite => "puffin::host::fn_append_cipher_suite"@,
        HostFn::CipherSuite12 => "puffin::host::fn_cipher_suite12"@,
        HostFn::Compressions => "puffin::host::fn_compressions"@,
        HostFn::Encrypt12 => "puffin::host::fn_encrypt12"@,
        HostFn::Seq0 => "puffin::host::fn_seq_0"@,
        HostFn::Seq1 => "puffin::host::fn_seq_1"@,
        HostFn::ExampleOpC => "puffin::host::example_op_c"@,
    }
}

/// The declared argument types of a host function, in order.
pub open spec fn spec_host_args(f: HostFn) -> Seq<HostType> {
    match f {
        HostFn::Hmac256NewKey => seq![],
        HostFn::Hmac256 => seq![HostType::HmacKey, HostType::Bytes],
        HostFn::ClientHello => seq![
            HostType::ProtocolVersion,
            HostType::Random,
            HostType::SessionId,
            HostType::CipherSuites,
            HostType::Compressions,
            HostType::ClientExtensions,
        ],
        HostFn::Finished => seq![],
        HostFn::ProtocolVersion12 => seq![],
        HostFn::NewSessionId => seq![],
        HostFn::NewRandom => seq![],
        HostFn::ClientExtensionsAppend => seq![
            HostType::ClientExtensions,
            HostType::ClientExtension,
        ],
        HostFn::ClientExtensionsNew => seq![],
        HostFn::SupportGroupExtension => seq![HostType::Group],
        HostFn::SignatureAlgorithmExtension => seq![],
        HostFn::EcPointFormatsExtension => seq![],
        HostFn::SignedCertificateTimestampExtension => seq![],
        HostFn::RenegotiationInfoExtension => seq![HostType::Bytes],
        HostFn::SignatureAlgorithmCertExtension => seq![],
        HostFn::EmptyBytesVec => seq![],
        HostFn::NamedGroupSecp384r1 => seq![],
        HostFn::ClientKeyExchange => seq![],
        HostFn::NewCipherSuites => seq![],
        HostFn::AppendCipherSuite => seq![HostType::CipherSuites, HostType::CipherSuite],
        HostFn::CipherSuite12 => seq![],
        HostFn::Compressions => seq![],
        HostFn::Encrypt12 => seq![HostType::HandshakeMessage, HostType::U32],
        HostFn::Seq0 => seq![],
        HostFn::Seq1 => seq![],
        HostFn::ExampleOpC => seq![HostType::U8],
    }
}

/// The declared return type of a host function.
pub open spec fn spec_host_ret(f: HostFn) -> HostType {
    match f {
        HostFn::Hmac256NewKey => HostType::HmacKey,
        HostFn::Hmac256 => HostType::Bytes,
        HostFn::ClientHello => HostType::HandshakeMessage,
        HostFn::Finished => HostType::HandshakeMessage,
        HostFn::ProtocolVersion12 => HostType::ProtocolVersion,
        HostFn::NewSessionId => HostType::SessionId,
        HostFn::NewRandom => HostType::Random,
        HostFn::ClientExtensionsAppend => HostType::ClientExtensions,
        HostFn::ClientExtensionsNew => HostType::ClientExtensions,
        HostFn::SupportGroupExtension => HostType::ClientExtension,
        HostFn::SignatureAlgorithmExtension => HostType::ClientExtension,
        HostFn::EcPointFormatsExtension => HostType::ClientExtension,
        HostFn::SignedCertificateTimestampExtension => HostType::ClientExtension,
        HostFn::RenegotiationInfoExtension => HostType::ClientExtension,
        HostFn::SignatureAlgorithmCertExtension => HostType::ClientExtension,
        HostFn::EmptyBytesVec => HostType::Bytes,
        HostFn::NamedGroupSecp384r1 => HostType::Group,
        HostFn::ClientKeyExchange => HostType::HandshakeMessage,
        HostFn::NewCipherSuites => HostType::CipherSuites,
        HostFn::AppendCipherSuite => HostType::CipherSuites,
        HostFn::CipherSuite12 => HostType::CipherSuite,
        HostFn::Compressions => HostType::Compressions,
        HostFn::Encrypt12 => HostType::Encrypted,
        HostFn::Seq0 => HostType::U32,
        HostFn::Seq1 => HostType::U32,
        HostFn::ExampleOpC => HostType::U16,
    }
}

/// The fixed demonstration HMAC key yielded by `fn_hmac256_new_key`.
/// Host functions are pure, so the key is a constant.
pub open spec fn spec_demo_key() -> Seq<u8> {
    Seq::new(32, |i: int| 0x0bu8)
}

/// The result of `ring::hmac::sign` with `HMAC_SHA256`: a function of the
/// key and the message alone.
pub uninterp spec fn hmac256_of(key: Seq<u8>, msg: Seq<u8>) -> Seq<u8>;

/// Relies on `ring::hmac::sign` with `HMAC_SHA256`: the tag depends only
/// on key and message, and is as long as a SHA-256 digest.
#[verifier::external_body]
fn hmac256_sign(key: &Vec<u8>, msg: &Vec<u8>) -> (r: Vec<u8>)
    ensures
        r@ == hmac256_of(key@, msg@),
        r@.len() == 32,
{
    let k = ring::hmac::Key::new(ring::hmac::HMAC_SHA256, key.as_slice());
    ring::hmac::sign(&k, msg.as_slice()).as_ref().to_vec()
}

/// Little-endian bytes of a 16-bit value.
pub open spec fn spec_u16_le(v: u16) -> Seq<u8> {
    seq![(v & 0xff) as u8, ((v >> 8) & 0xff) as u8]
}

/// Little-endian bytes of a 32-bit value.
pub open spec fn spec_u32_le(v: u32) -> Seq<u8> {
    seq![
        (v & 0xff) as u8,
        ((v >> 8) & 0xff) as u8,
        ((v >> 16) & 0xff) as u8,
        ((v >> 24) & 0xff) as u8,
    ]
}

/// The first byte of a `u8` payload, or zero if the payload is shorter.
pub open spec fn spec_u8_val(s: Seq<u8>) -> u8 {
    if s.len() >= 1 {
        s[0]
    } else {
        0
    }
}

/// What each host function computes from the payloads of its arguments.
/// Every function is pure with respect to its declared inputs.
pub open spec fn spec_host_result(f: HostFn, args: Seq<Seq<u8>>) -> Seq<u8> {
    match f {
        HostFn::Hmac256NewKey => spec_demo_key(),
        HostFn::Hmac256 => hmac256_of(args[0], args[1]),
        HostFn::ClientHello => args[0] + args[1] + args[2] + args[3] + args[4] + args[5],
        HostFn::Finished => Seq::empty(),
        HostFn::ProtocolVersion12 => seq![3u8, 3u8],
        HostFn::NewSessionId => Seq::new(32, |i: int| 0u8),
        HostFn::NewRandom => Seq::new(32, |i: int| 0x2au8),
        HostFn::ClientExtensionsAppend => args[0] + args[1],
        HostFn::ClientExtensionsNew => Seq::empty(),
        HostFn::SupportGroupExtension => seq![0u8, 10u8] + args[0],
        HostFn::SignatureAlgorithmExtension => seq![0u8, 13u8],
        HostFn::EcPointFormatsExtension => seq![0u8, 11u8],
        HostFn::SignedCertificateTimestampExtension => seq![0u8, 18u8],
        HostFn::RenegotiationInfoExtension => seq![0xffu8, 1u8] + args[0],
        HostFn::SignatureAlgorithmCertExtension => seq![0u8, 50u8],
        HostFn::EmptyBytesVec => Seq::empty(),
        HostFn::NamedGroupSecp384r1 => seq![0u8, 24u8],
        HostFn::ClientKeyExchange => Seq::empty(),
        HostFn::NewCipherSuites => Seq::empty(),
        HostFn::AppendCipherSuite => args[0] + args[1],
        HostFn::CipherSuite12 => seq![0u8, 0x2fu8],
        HostFn::Compressions => seq![0u8],
        HostFn::Encrypt12 => args[0] + args[1],
        HostFn::Seq0 => spec_u32_le(0),
        HostFn::Seq1 => spec_u32_le(1),
        HostFn::ExampleOpC => spec_u16_le((spec_u8_val(args[0]) + 1) as u16),
    }
}

/// The position of the first argument that does not fit the declared
/// types, starting the scan at `i`: the first position that is missing
/// from `given` or carries the wrong tag.
pub open spec fn spec_arg_fault(expected: Seq<HostType>, given: Seq<HostType>, i: int) -> Option<
    int,
>
    decreases expected.len() - i,
{
    if i < 0 || i >= expected.len() {
        None
    } else if i >= given.len() || given[i] != expected[i] {
        Some(i)
    } else {
        spec_arg_fault(expected, given, i + 1)
    }
}

/// The type tags of a sequence of erased values.
pub open spec fn tags_of(args: Seq<EvaluatedTermView>) -> Seq<HostType> {
    args.map_values(|a: EvaluatedTermView| a.typ)
}

/// The payloads of a sequence of erased values.
pub open spec fn payloads_of(args: Seq<EvaluatedTermView>) -> Seq<Seq<u8>> {
    args.map_values(|a: EvaluatedTermView| a.bytes)
}

/// The message reported when the call is short of its `k`-th argument.
pub open spec fn spec_missing_msg(k: nat, f: HostFn) -> Seq<char> {
    "Missing argument #"@ + spec_dec(k) + " while calling "@ + spec_host_name(f) + "."@
}

/// Argument type names joined with commas.
pub open spec fn spec_joined_host_types(ts: Seq<HostType>) -> Seq<char>
    decreases ts.len(),
{
    if ts.len() == 0 {
        Seq::<char>::empty()
    } else if ts.len() == 1 {
        spec_type_name(ts[0])
    } else {
        spec_joined_host_types(ts.drop_last()) + ","@ + spec_type_name(ts.last())
    }
}

/// The rendering of a host function's shape: `name(arg,...) -> ret`.
pub open spec fn spec_host_shape_display(f: HostFn) -> Seq<char> {
    spec_host_name(f) + "("@ + spec_joined_host_types(spec_host_args(f)) + ") -> "@
        + spec_type_name(spec_host_ret(f))
}

/// Type identities joined with commas, in hexadecimal.
pub open spec fn spec_joined_tag_ids(ts: Seq<HostType>) -> Seq<char>
    decreases ts.len(),
{
    if ts.len() == 0 {
        Seq::<char>::empty()
    } else if ts.len() == 1 {
        spec_hex(spec_type_id(ts[0]) as nat)
    } else {
        spec_joined_tag_ids(ts.drop_last()) + ","@ + spec_hex(spec_type_id(ts.last()) as nat)
    }
}

/// The rendering of the type identities of passed arguments.
pub open spec fn spec_format_args(ts: Seq<HostType>) -> Seq<char> {
    "("@ + spec_joined_tag_ids(ts) + ")"@
}

/// The message reported when the `k`-th argument carries the wrong tag.
pub open spec fn spec_mismatch_msg(k: nat, f: HostFn, given: Seq<HostType>) -> Seq<char> {
    "Passed argument #"@ + spec_dec(k) + " of "@ + spec_host_name(f)
        + " did not match the shape "@ + spec_host_shape_display(f)
        + ". Hashes of passed types are "@ + spec_format_args(given) + "."@
}

/// What `call` returns: the first ill-fitting argument is reported, and
/// a fitting call computes the declared result under the declared
/// return type.
pub open spec fn call_result_ok(
    f: HostFn,
    args: Seq<EvaluatedTermView>,
    r: Result<EvaluatedTerm, FnError>,
) -> bool {
    match spec_arg_fault(spec_host_args(f), tags_of(args), 0) {
        Some(i) => if i >= args.len() {
            r matches Err(FnError::Impl(m)) && m@ == spec_missing_msg((i + 1) as nat, f)
        } else {
            r matches Err(FnError::Impl(m)) && m@ == spec_mismatch_msg(
                (i + 1) as nat,
                f,
                tags_of(args),
            )
        },
        None => r matches Ok(v) && v@.typ == spec_host_ret(f) && v@.bytes == spec_host_result(
            f,
            payloads_of(args),
        ),
    }
}

impl HostFn {
    /// How many arguments the function declares.
    pub fn arity(&self) -> (r: usize)
        ensures
            r == spec_host_args(*self).len(),
    {
        match self {
            HostFn::Hmac256 => 2,
            HostFn::ClientHello => 6,
            HostFn::ClientExtensionsAppend => 2,
            HostFn::SupportGroupExtension => 1,
            HostFn::RenegotiationInfoExtension => 1,
            HostFn::AppendCipherSuite => 2,
            HostFn::Encrypt12 => 2,
            HostFn::ExampleOpC => 1,
            _ => 0,
        }
    }

    /// The declared type of the `i`-th argument.
    pub fn argument_type(&self, i: usize) -> (r: HostType)
        requires
            i < spec_host_args(*self).len(),
        ensures
            r == spec_host_args(*self)[i as int],
    {
        match self {
            HostFn::Hmac256 => if i == 0 {
                HostType::HmacKey
            } else {
                HostType::Bytes
            },
            HostFn::ClientHello => if i == 0 {
                HostType::ProtocolVersion
            } else if i == 1 {
                HostType::Random
            } else if i == 2 {
                HostType::SessionId
            } else if i == 3 {
                HostType::CipherSuites
            } else if i == 4 {
                HostType::Compressions
            } else {
                HostType::ClientExtensions
            },
            HostFn::ClientExtensionsAppend => if i == 0 {
                HostType::ClientExtensions
            } else {
                HostType::ClientExtension
            },
            HostFn::SupportGroupExtension => HostType::Group,
            HostFn::RenegotiationInfoExtension => HostType::Bytes,
            HostFn::AppendCipherSuite => if i == 0 {
                HostType::CipherSuites
            } else {
                HostType::CipherSuite
            },
            HostFn::Encrypt12 => if i == 0 {
                HostType::HandshakeMessage
            } else {
                HostType::U32
            },
            HostFn::ExampleOpC => HostType::U8,
            _ => {
                proof {
                    assert(false);
                }
                HostType::Bytes
            },
        }
    }

    /// The declared return type.
    pub fn return_type(&self) -> (r: HostType)
        ensures
            r == spec_host_ret(*self),
    {
        match self {
            HostFn::Hmac256NewKey => HostType::HmacKey,
            HostFn::Hmac256 => HostType::Bytes,
            HostFn::ClientHello => HostType::HandshakeMessage,
            HostFn::Finished => HostType::HandshakeMessage,
            HostFn::ProtocolVersion12 => HostType::ProtocolVersion,
            HostFn::NewSessionId => HostType::SessionId,
            HostFn::NewRandom => HostType::Random,
            HostFn::ClientExtensionsAppend => HostType::ClientExtensions,
            HostFn::ClientExtensionsNew => HostType::ClientExtensions,
            HostFn::SupportGroupExtension => HostType::ClientExtension,
            HostFn::SignatureAlgorithmExtension => HostType::ClientExtension,
            HostFn::EcPointFormatsExtension => HostType::ClientExtension,
            HostFn::SignedCertificateTimestampExtension => HostType::ClientExtension,
            HostFn::RenegotiationInfoExtension => HostType::ClientExtension,
            HostFn::SignatureAlgorithmCertExtension => HostType::ClientExtension,
            HostFn::EmptyBytesVec => HostType::Bytes,
            HostFn::NamedGroupSecp384r1 => HostType::Group,
            HostFn::ClientKeyExchange => HostType::HandshakeMessage,
            HostFn::NewCipherSuites => HostType::CipherSuites,
            HostFn::AppendCipherSuite => HostType::CipherSuites,
            HostFn::CipherSuite12 => HostType::CipherSuite,
            HostFn::Compressions => HostType::Compressions,
            HostFn::Encrypt12 => HostType::Encrypted,
            HostFn::Seq0 => HostType::U32,
            HostFn::Seq1 => HostType::U32,
            HostFn::ExampleOpC => HostType::U16,
        }
    }

    /// The symbolic name, with its module path.
    pub fn name_string(&self) -> (r: String)
        ensures
            r@ == spec_host_name(*self),
    {
        match self {
            HostFn::Hmac256NewKey => String::from_str("puffin::host::fn_hmac256_new_key"),
            HostFn::Hmac256 => String::from_str("puffin::host::fn_hmac256"),
            HostFn::ClientHello => String::from_str("puffin::host::fn_client_hello"),
            HostFn::Finished => String::from_str("puffin::host::fn_finished"),
            HostFn::ProtocolVersion12 => String::from_str("puffin::host::fn_protocol_version12"),
            HostFn::NewSessionId => String::from_str("puffin::host::fn_new_session_id"),
            HostFn::NewRandom => String::from_str("puffin::host::fn_new_random"),
            HostFn::ClientExtensionsAppend => String::from_str(
                "puffin::host::fn_client_extensions_append",
            ),
            HostFn::ClientExtensionsNew => String::from_str(
                "puffin::host::fn_client_extensions_new",
            ),
            HostFn::SupportGroupExtension => String::from_str(
                "puffin::host::fn_support_group_extension",
            ),
            HostFn::SignatureAlgorithmExtension => String::from_str(
                "puffin::host::fn_signature_algorithm_extension",
            ),
            HostFn::EcPointFormatsExtension => String::from_str(
                "puffin::host::fn_ec_point_formats_extension",
            ),
            HostFn::SignedCertificateTimestampExtension => String::from_str(
                "puffin::host::fn_signed_certificate_timestamp_extension",
            ),
            HostFn::RenegotiationInfoExtension => String::from_str(
                "puffin::host::fn_renegotiation_info_extension",
            ),
            HostFn::SignatureAlgorithmCertExtension => String::from_str(
                "puffin::host::fn_signature_algorithm_cert_extension",
            ),
            HostFn::EmptyBytesVec => String::from_str("puffin::host::fn_empty_bytes_vec"),
            HostFn::NamedGroupSecp384r1 => String::from_str(
                "puffin::host::fn_named_group_secp384r1",
            ),
            HostFn::ClientKeyExchange => String::from_str("puffin::host::fn_client_key_exchange"),
            HostFn::NewCipherSuites => String::from_str("puffin::host::fn_new_cipher_suites"),
            HostFn::AppendCipherSuite => String::from_str("puffin::host::fn_append_cipher_suite"),
            HostFn::CipherSuite12 => String::from_str("puffin::host::fn_cipher_suite12"),
            HostFn::Compressions => String::from_str("puffin::host::fn_compressions"),
            HostFn::Encrypt12 => String::from_str("puffin::host::fn_encrypt12"),
            HostFn::Seq0 => String::from_str("puffin::host::fn_seq_0"),
            HostFn::Seq1 => String::from_str("puffin::host::fn_seq_1"),
            HostFn::ExampleOpC => String::from_str("puffin::host::example_op_c"),
        }
    }

    /// The full shape: name, argument shapes, return shape.
    pub fn shape(&self) -> (r: DynamicFunctionShape)
        ensures
            spec_host_shape_ok(*self, r),
    {
        let mut argument_types: Vec<TypeShape> = Vec::new();
        let n: usize = self.arity();
        let mut i: usize = 0;
        while i < n
            invariant
                i <= n,
                n == spec_host_args(*self).len(),
                argument_types@.len() == i,
                forall|j: int|
                    0 <= j < i ==> is_shape_of(
                        spec_host_args(*self)[j],
                        #[trigger] argument_types@[j],
                    ),
            decreases n - i,
        {
            argument_types.push(TypeShape::of(self.argument_type(i)));
            i = i + 1;
        }
        DynamicFunctionShape {
            name: self.name_string(),
            argument_types,
            return_type: TypeShape::of(self.return_type()),
        }
    }
}

/// The views of a sequence of erased values.
pub open spec fn views_of(args: Seq<EvaluatedTerm>) -> Seq<EvaluatedTermView> {
    args.map_values(|a: EvaluatedTerm| a@)
}

/// An empty payload.
fn empty_bytes() -> (r: Vec<u8>)
    ensures
        r@ == Seq::<u8>::empty(),
{
    let r: Vec<u8> = Vec::new();
    r
}

/// A two-byte payload.
fn two_bytes(a: u8, b: u8) -> (r: Vec<u8>)
    ensures
        r@ == seq![a, b],
{
    let mut r: Vec<u8> = Vec::new();
    r.push(a);
    r.push(b);
    proof {
        assert(r@ =~= seq![a, b]);
    }
    r
}

/// A constant payload of `n` copies of `b`.
fn filled_bytes(b: u8, n: usize) -> (r: Vec<u8>)
    ensures
        r@ == Seq::new(n as nat, |i: int| b),
{
    let mut r: Vec<u8> = Vec::new();
    let mut i: usize = 0;
    while i < n
        invariant
            i <= n,
            r@ =~= Seq::new(i as nat, |j: int| b),
        decreases n - i,
    {
        r.push(b);
        i = i + 1;
    }
    proof {
        assert(r@ =~= Seq::new(n as nat, |i: int| b));
    }
    r
}

/// Appends a payload to another.
fn append_bytes(dst: &mut Vec<u8>, src: &Vec<u8>)
    ensures
        final(dst)@ == old(dst)@ + src@,
{
    dst.extend_from_slice(src.as_slice());
    proof {
        assert(dst@ =~= old(dst)@ + src@);
    }
}

/// The little-endian bytes of a 16-bit value.
fn u16_le_bytes(v: u16) -> (r: Vec<u8>)
    ensures
        r@ == spec_u16_le(v),
{
    two_bytes((v & 0xff) as u8, ((v >> 8) & 0xff) as u8)
}

/// The little-endian bytes of a 32-bit value.
fn u32_le_bytes(v: u32) -> (r: Vec<u8>)
    ensures
        r@ == spec_u32_le(v),
{
    let mut r = two_bytes((v & 0xff) as u8, ((v >> 8) & 0xff) as u8);
    r.push(((v >> 16) & 0xff) as u8);
    r.push(((v >> 24) & 0xff) as u8);
    proof {
        assert(r@ =~= spec_u32_le(v));
    }
    r
}

/// The fixed demonstration key.
fn demo_key_bytes() -> (r: Vec<u8>)
    ensures
        r@ == spec_demo_key(),
{
    filled_bytes(0x0b, 32)
}

/// Yields the fixed demonstration HMAC key.
pub fn fn_hmac256_new_key() -> (r: Result<Vec<u8>, FnError>)
    ensures
        r matches Ok(k) && k@ == spec_demo_key(),
{
    Ok(demo_key_bytes())
}

/// Signs the message under the key with HMAC-SHA256.
pub fn fn_hmac256(key: &Vec<u8>, msg: &Vec<u8>) -> (r: Result<Vec<u8>, FnError>)
    ensures
        r matches Ok(t) && t@ == hmac256_of(key@, msg@),
{
    Ok(hmac256_sign(key, msg))
}

/// Yields a fresh, all-zero session identifier.
pub fn fn_new_session_id() -> (r: Result<Vec<u8>, FnError>)
    ensures
        r matches Ok(s) && s@ == Seq::new(32, |i: int| 0u8),
{
    Ok(filled_bytes(0, 32))
}

/// The successor of a byte, widened to sixteen bits.
pub fn example_op_c(a: &u8) -> (r: Result<u16, FnError>)
    ensures
        r matches Ok(v) && v == *a as u16 + 1,
{
    Ok((*a as u16) + 1)
}

impl HostFn {
    /// Computes the result payload of a fitting call.
    fn apply_payloads(&self, args: &Vec<EvaluatedTerm>) -> (r: Vec<u8>)
        requires
            args@.len() >= spec_host_args(*self).len(),
        ensures
            r@ == spec_host_result(*self, payloads_of(views_of(args@))),
    {
        proof {
            assert(payloads_of(views_of(args@)).len() == args@.len());
            assert(forall|j: int|
                0 <= j < args@.len() ==> #[trigger] payloads_of(views_of(args@))[j] == args@[j]@
                    .bytes);
        }
        match self {
            HostFn::Hmac256NewKey => demo_key_bytes(),
            HostFn::Hmac256 => hmac256_sign(&args[0].bytes, &args[1].bytes),
            HostFn::ClientHello => {
                let mut out = vstd::slice::slice_to_vec(args[0].bytes.as_slice());
                append_bytes(&mut out, &args[1].bytes);
                append_bytes(&mut out, &args[2].bytes);
                append_bytes(&mut out, &args[3].bytes);
                append_bytes(&mut out, &args[4].bytes);
                append_bytes(&mut out, &args[5].bytes);
                proof {
                    let p = payloads_of(views_of(args@));
                    assert(out@ =~= p[0] + p[1] + p[2] + p[3] + p[4] + p[5]);
                }
                out
            },
            HostFn::Finished => empty_bytes(),
            HostFn::ProtocolVersion12 => two_bytes(3, 3),
            HostFn::NewSessionId => filled_bytes(0, 32),
            HostFn::NewRandom => filled_bytes(0x2a, 32),
            HostFn::ClientExtensionsAppend => {
                let mut out = vstd::slice::slice_to_vec(args[0].bytes.as_slice());
                append_bytes(&mut out, &args[1].bytes);
                out
            },
            HostFn::ClientExtensionsNew => empty_bytes(),
            HostFn::SupportGroupExtension => {
                let mut out = two_bytes(0, 10);
                append_bytes(&mut out, &args[0].bytes);
                out
            },
            HostFn::SignatureAlgorithmExtension => two_bytes(0, 13),
            HostFn::EcPointFormatsExtension => two_bytes(0, 11),
            HostFn::SignedCertificateTimestampExtension => two_bytes(0, 18),
            HostFn::RenegotiationInfoExtension => {
                let mut out = two_bytes(0xff, 1);
                append_bytes(&mut out, &args[0].bytes);
                out
            },
            HostFn::SignatureAlgorithmCertExtension => two_bytes(0, 50),
            HostFn::EmptyBytesVec => empty_bytes(),
            HostFn::NamedGroupSecp384r1 => two_bytes(0, 24),
            HostFn::ClientKeyExchange => empty_bytes(),
            HostFn::NewCipherSuites => empty_bytes(),
            HostFn::AppendCipherSuite => {
                let mut out = vstd::slice::slice_to_vec(args[0].bytes.as_slice());
                append_bytes(&mut out, &args[1].bytes);
                out
            },
            HostFn::CipherSuite12 => two_bytes(0, 0x2f),
            HostFn::Compressions => {
                let mut r: Vec<u8> = Vec::new();
                r.push(0);
                proof {
                    assert(r@ =~= seq![0u8]);
                }
                r
            },
            HostFn::Encrypt12 => {
                let mut out = vstd::slice::slice_to_vec(args[0].bytes.as_slice());
                append_bytes(&mut out, &args[1].bytes);
                out
            },
            HostFn::Seq0 => u32_le_bytes(0),
            HostFn::Seq1 => u32_le_bytes(1),
            HostFn::ExampleOpC => {
                let a: u8 = if args[0].bytes.len() >= 1 {
                    args[0].bytes[0]
                } else {
                    0
                };
                u16_le_bytes((a as u16) + 1)
            },
        }
    }

    /// Renders the shape as `name(arg,...) -> ret`.
    pub fn shape_display(&self) -> (r: String)
        ensures
            r@ == spec_host_shape_display(*self),
    {
        let mut out: String = self.name_string();
        out.append("(");
        let n: usize = self.arity();
        let mut i: usize = 0;
        while i < n
            invariant
                i <= n,
                n == spec_host_args(*self).len(),
                out@ == spec_host_name(*self) + "("@ + spec_joined_host_types(
                    spec_host_args(*self).take(i as int),
                ),
            decreases n - i,
        {
            if i > 0 {
                out.append(",");
            }
            let t = TypeShape::of(self.argument_type(i));
            out.append(t.name.as_str());
            proof {
                let a = spec_host_args(*self);
                assert(a.take(i + 1 as int).drop_last() =~= a.take(i as int));
                assert(a.take(i + 1 as int).last() == a[i as int]);
                if i == 0 {
                    assert(spec_joined_host_types(a.take(1)) == spec_type_name(a[0]));
                }
            }
            i = i + 1;
        }
        proof {
            assert(spec_host_args(*self).take(n as int) =~= spec_host_args(*self));
        }
        out.append(") -> ");
        let rt = TypeShape::of(self.return_type());
        out.append(rt.name.as_str());
        out
    }

    /// The erased, shape-checked call. The first ill-fitting argument
    /// makes the call fail instead of crashing; a fitting call returns
    /// the declared result under the declared return type.
    pub fn call(&self, args: &Vec<EvaluatedTerm>) -> (r: Result<EvaluatedTerm, FnError>)
        ensures
            call_result_ok(*self, views_of(args@), r),
    {
        proof {
            assert(tags_of(views_of(args@)).len() == args@.len());
            assert(forall|j: int|
                0 <= j < args@.len() ==> #[trigger] tags_of(views_of(args@))[j] == args@[j]@.typ);
        }
        let ghost expected = spec_host_args(*self);
        let ghost given = tags_of(views_of(args@));
        let n: usize = self.arity();
        let mut i: usize = 0;
        while i < n
            invariant
                i <= n,
                n == expected.len(),
                expected == spec_host_args(*self),
                given == tags_of(views_of(args@)),
                given.len() == args@.len(),
                forall|j: int| 0 <= j < args@.len() ==> #[trigger] given[j] == args@[j]@.typ,
                i <= args@.len(),
                spec_arg_fault(expected, given, 0) == spec_arg_fault(expected, given, i as int),
            decreases n - i,
        {
            if i >= args.len() {
                let mut m = String::from_str("Missing argument #");
                let d = u64_to_dec((i + 1) as u64);
                m.append(d.as_str());
                m.append(" while calling ");
                let nm = self.name_string();
                m.append(nm.as_str());
                m.append(".");
                proof {
                    assert(spec_arg_fault(expected, given, i as int) == Some(i as int));
                    assert(m@ == spec_missing_msg((i + 1) as nat, *self));
                }
                return Err(FnError::Impl(m));
            }
            if !(args[i].typ == self.argument_type(i)) {
                let mut m = String::from_str("Passed argument #");
                let d = u64_to_dec((i + 1) as u64);
                m.append(d.as_str());
                m.append(" of ");
                let nm = self.name_string();
                m.append(nm.as_str());
                m.append(" did not match the shape ");
                let sd = self.shape_display();
                m.append(sd.as_str());
                m.append(". Hashes of passed types are ");
                let fa = format_args(args);
                m.append(fa.as_str());
                m.append(".");
                proof {
                    assert(spec_arg_fault(expected, given, i as int) == Some(i as int));
                    assert(m@ == spec_mismatch_msg((i + 1) as nat, *self, given));
                }
                return Err(FnError::Impl(m));
            }
            i = i + 1;
        }
        proof {
            assert(spec_arg_fault(expected, given, n as int) == None::<int>);
        }
        let out = self.apply_payloads(args);
        Ok(EvaluatedTerm::new(self.return_type(), out))
    }
}

/// The erased interface of a host function: a shape-checked call on
/// erased arguments.
pub trait DynamicFunction {
    /// Invokes the function on erased arguments.
    fn call_erased(&self, args: &Vec<EvaluatedTerm>) -> Result<EvaluatedTerm, FnError>;
}

impl DynamicFunction for HostFn {
    /// Forwards to the shape-checked call.
    fn call_erased(&self, args: &Vec<EvaluatedTerm>) -> Result<EvaluatedTerm, FnError> {
        self.call(args)
    }
}

/// A typed host function that can describe its own shape and hand out
/// its erased form.
pub trait DescribableFunction {
    /// The shape together with the erased callable.
    fn describe(&self) -> (DynamicFunctionShape, HostFn);
}

impl DescribableFunction for HostFn {
    /// The registry-built shape, and the function itself as callable.
    fn describe(&self) -> (DynamicFunctionShape, HostFn) {
        (self.shape(), *self)
    }
}

/// Wraps a typed host function into its shape and its erased callable.
pub fn make_dynamic(f: &HostFn) -> (r: (DynamicFunctionShape, HostFn))
    ensures
        spec_host_shape_ok(*f, r.0),
        r.1 == *f,
{
    (f.shape(), *f)
}

/// Renders the type identities of the passed arguments, in hexadecimal,
/// joined with commas inside parentheses.
pub fn format_args(args: &Vec<EvaluatedTerm>) -> (r: String)
    ensures
        r@ == spec_format_args(tags_of(views_of(args@))),
{
    proof {
        assert(tags_of(views_of(args@)).len() == args@.len());
        assert(forall|j: int|
            0 <= j < args@.len() ==> #[trigger] tags_of(views_of(args@))[j] == args@[j]@.typ);
    }
    let ghost tags = tags_of(views_of(args@));
    let mut out = String::from_str("(");
    let n: usize = args.len();
    let mut i: usize = 0;
    while i < n
        invariant
            i <= n,
            n == args@.len(),
            tags == tags_of(views_of(args@)),
            tags.len() == args@.len(),
            forall|j: int| 0 <= j < args@.len() ==> #[trigger] tags[j] == args@[j]@.typ,
            out@ == "("@ + spec_joined_tag_ids(tags.take(i as int)),
        decreases n - i,
    {
        if i > 0 {
            out.append(",");
        }
        let ts = TypeShape::of(args[i].typ);
        let h = u64_to_hex(hash_type_id(&ts.id));
        out.append(h.as_str());
        proof {
            assert(tags.take(i + 1 as int).drop_last() =~= tags.take(i as int));
            assert(tags.take(i + 1 as int).last() == tags[i as int]);
            if i == 0 {
                assert(spec_joined_tag_ids(tags.take(1)) == spec_hex(
                    spec_type_id(tags[0]) as nat,
                ));
            }
        }
        i = i + 1;
    }
    proof {
        assert(tags.take(n as int) =~= tags);
    }
    out.append(")");
    out
}

/// A shape built through the registry for the given host type.
pub open spec fn is_shape_of(t: HostType, s: TypeShape) -> bool {
    s.id == spec_type_id(t) && s.name@ == spec_type_name(t)
}

/// The shape describes the host function: same name, argument shapes
/// and return shape, all built through the registry.
pub open spec fn spec_host_shape_ok(f: HostFn, s: DynamicFunctionShape) -> bool {
    &&& s.name@ == spec_host_name(f)
    &&& s.argument_types@.len() == spec_host_args(f).len()
    &&& forall|j: int|
        0 <= j < spec_host_args(f).len() ==> is_shape_of(
            spec_host_args(f)[j],
            #[trigger] s.argument_types@[j],
        )
    &&& is_shape_of(spec_host_ret(f), s.return_type)
}

} // verus!
