use vstd::prelude::*;
use crate::hash_hs::HashAlgorithm;

verus! {

/// Wire identifier of the TLS 1.2 protocol version.
pub const TLS12_VERSION: u16 = 0x0303;

/// Wire identifier of the TLS 1.3 protocol version.
pub const TLS13_VERSION: u16 = 0x0304;

/// Wire identifier of the TLS 1.3 AES-128-GCM-SHA256 suite.
pub const TLS13_AES_128_GCM_SHA256_ID: u16 = 0x1301;

/// Wire identifier of the TLS 1.3 AES-256-GCM-SHA384 suite.
pub const TLS13_AES_256_GCM_SHA384_ID: u16 = 0x1302;

/// Wire identifier of the TLS 1.3 CHACHA20-POLY1305-SHA256 suite.
pub const TLS13_CHACHA20_POLY1305_SHA256_ID: u16 = 0x1303;

/// Wire identifier of the TLS 1.2 ECDHE-ECDSA-AES128-GCM-SHA256 suite.
pub const TLS12_ECDHE_ECDSA_AES_128_GCM_SHA256_ID: u16 = 0xc02b;

/// Wire identifier of the TLS 1.2 ECDHE-ECDSA-AES256-GCM-SHA384 suite.
pub const TLS12_ECDHE_ECDSA_AES_256_GCM_SHA384_ID: u16 = 0xc02c;

/// Wire identifier of the TLS 1.2 ECDHE-ECDSA-CHACHA20-POLY1305 suite.
pub const TLS12_ECDHE_ECDSA_CHACHA20_POLY1305_SHA256_ID: u16 = 0xcca9;

/// Wire identifier of the TLS 1.2 ECDHE-RSA-AES128-GCM-SHA256 suite.
pub const TLS12_ECDHE_RSA_AES_128_GCM_SHA256_ID: u16 = 0xc02f;

/// Wire identifier of the TLS 1.2 ECDHE-RSA-AES256-GCM-SHA384 suite.
pub const TLS12_ECDHE_RSA_AES_256_GCM_SHA384_ID: u16 = 0xc030;

/// Wire identifier of the TLS 1.2 ECDHE-RSA-CHACHA20-POLY1305 suite.
pub const TLS12_ECDHE_RSA_CHACHA20_POLY1305_SHA256_ID: u16 = 0xcca8;

/// Wire identifier of the null cipher suite.
pub const TLS_NULL_WITH_NULL_NULL_ID: u16 = 0x0000;

/// Bulk symmetric encryption scheme used by a cipher suite.
#[derive(Debug, Clone, Copy, PartialEq, Eq, Structural)]
pub enum BulkAlgorithm {
    /// AES with 128-bit keys in Galois counter mode.
    Aes128Gcm,
    /// AES with 256-bit keys in Galois counter mode.
    Aes256Gcm,
    /// Chacha20 for confidentiality with poly1305 for authenticity.
    Chacha20Poly1305,
}

/// The AEAD algorithm a suite encrypts records with.
#[derive(Debug, Clone, Copy, PartialEq, Eq, Structural)]
pub enum AeadAlgorithm {
    Aes128Gcm,
    Aes256Gcm,
    Chacha20Poly1305,
}

/// A signature algorithm family.
#[derive(Debug, Clone, Copy, PartialEq, Eq, Structural)]
pub enum SignatureAlgorithm {
    Rsa,
    Ecdsa,
    Ed25519,
}

/// A concrete signature scheme.
#[derive(Debug, Clone, Copy, PartialEq, Eq, Structural)]
pub enum SignatureScheme {
    EcdsaNistp256Sha256,
    EcdsaNistp384Sha384,
    RsaPssSha256,
    RsaPkcs1Sha256,
    Ed25519,
}

/// The signature algorithm family behind a scheme.
pub open spec fn spec_scheme_sign(s: SignatureScheme) -> SignatureAlgorithm {
    match s {
        SignatureScheme::EcdsaNistp256Sha256 => SignatureAlgorithm::Ecdsa,
        SignatureScheme::EcdsaNistp384Sha384 => SignatureAlgorithm::Ecdsa,
        SignatureScheme::RsaPssSha256 => SignatureAlgorithm::Rsa,
        SignatureScheme::RsaPkcs1Sha256 => SignatureAlgorithm::Rsa,
        SignatureScheme::Ed25519 => SignatureAlgorithm::Ed25519,
    }
}

impl SignatureScheme {
    /// The signature algorithm family behind the scheme.
    pub fn sign(&self) -> (r: SignatureAlgorithm)
        ensures
            r == spec_scheme_sign(*self),
    {
        match self {
            SignatureScheme::EcdsaNistp256Sha256 => SignatureAlgorithm::Ecdsa,
            SignatureScheme::EcdsaNistp384Sha384 => SignatureAlgorithm::Ecdsa,
            SignatureScheme::RsaPssSha256 => SignatureAlgorithm::Rsa,
            SignatureScheme::RsaPkcs1Sha256 => SignatureAlgorithm::Rsa,
            SignatureScheme::Ed25519 => SignatureAlgorithm::Ed25519,
        }
    }
}

/// Common state of a cipher suite: its wire identifier, bulk scheme
/// and AEAD algorithm.
#[derive(Debug, Clone, Copy, PartialEq, Eq, Structural)]
pub struct CipherSuiteCommon {
    /// The TLS enumeration naming this cipher suite.
    pub suite: u16,
    /// How to do bulk encryption.
    pub bulk: BulkAlgorithm,
    /// The AEAD algorithm records are sealed with.
    pub aead_algorithm: AeadAlgorithm,
}

/// A TLS 1.3 cipher suite.
#[derive(Debug, Clone, Copy)]
pub struct Tls13CipherSuite {
    pub common: CipherSuiteCommon,
    /// The hash behind the suite's HKDF.
    pub hkdf_algorithm: HashAlgorithm,
    pub confidentiality_limit: u64,
    pub integrity_limit: u64,
}

impl PartialEq for Tls13CipherSuite {
    /// Suites compare by their wire identifier.
    fn eq(&self, other: &Self) -> (r: bool) {
        self.common.suite == other.common.suite
    }
}

impl vstd::std_specs::cmp::PartialEqSpecImpl for Tls13CipherSuite {
    open spec fn obeys_eq_spec() -> bool {
        true
    }

    open spec fn eq_spec(&self, other: &Self) -> bool {
        self.common.suite == other.common.suite
    }
}

impl Tls13CipherSuite {
    /// Which hash function to use with this suite.
    pub fn hash_algorithm(&self) -> (r: HashAlgorithm)
        ensures
            r == self.hkdf_algorithm,
    {
        self.hkdf_algorithm
    }

    /// Can a session using this suite resume from one using `prev`?
    /// Yes exactly when both run on the same hash; the resumed suite
    /// is then `prev` itself.
    pub fn can_resume_from(&self, prev: &Tls13CipherSuite) -> (r: Option<Tls13CipherSuite>)
        ensures
            match r {
                Some(p) => prev.hkdf_algorithm == self.hkdf_algorithm && p == *prev,
                None => prev.hkdf_algorithm != self.hkdf_algorithm,
            },
    {
        if prev.hkdf_algorithm == self.hkdf_algorithm {
            Some(*prev)
        } else {
            None
        }
    }
}

/// A TLS 1.2 cipher suite.
#[derive(Debug)]
pub struct Tls12CipherSuite {
    pub common: CipherSuiteCommon,
    /// The signature schemes the suite can authenticate with.
    pub sign: Vec<SignatureScheme>,
    /// The suite's handshake hash.
    pub hash_algorithm: HashAlgorithm,
}

impl Tls12CipherSuite {
    /// A structural copy.
    pub fn duplicate(&self) -> (r: Tls12CipherSuite)
        ensures
            r.common == self.common,
            r.sign@ == self.sign@,
            r.hash_algorithm == self.hash_algorithm,
    {
        Tls12CipherSuite {
            common: self.common,
            sign: vstd::slice::slice_to_vec(self.sign.as_slice()),
            hash_algorithm: self.hash_algorithm,
        }
    }
}

/// A supported cipher suite: either of the TLS 1.2 or the TLS 1.3
/// family.
#[derive(Debug)]
pub enum SupportedCipherSuite {
    Tls12(Tls12CipherSuite),
    Tls13(Tls13CipherSuite),
}

/// Mathematical content of a supported suite.
pub enum SupportedCipherSuiteView {
    Tls12 { common: CipherSuiteCommon, sign: Seq<SignatureScheme>, hash: HashAlgorithm },
    Tls13(Tls13CipherSuite),
}

impl View for SupportedCipherSuite {
    type V = SupportedCipherSuiteView;

    open spec fn view(&self) -> SupportedCipherSuiteView {
        match self {
            SupportedCipherSuite::Tls12(inner) => SupportedCipherSuiteView::Tls12 {
                common: inner.common,
                sign: inner.sign@,
                hash: inner.hash_algorithm,
            },
            SupportedCipherSuite::Tls13(inner) => SupportedCipherSuiteView::Tls13(*inner),
        }
    }
}

/// The wire identifier of a suite.
pub open spec fn spec_suite_id(v: SupportedCipherSuiteView) -> u16 {
    match v {
        SupportedCipherSuiteView::Tls12 { common, .. } => common.suite,
        SupportedCipherSuiteView::Tls13(inner) => inner.common.suite,
    }
}

/// Whether a suite can serve a key that only offers the given
/// signature algorithm; every TLS 1.3 suite can.
pub open spec fn spec_usable_for_sigalg(v: SupportedCipherSuiteView, alg: SignatureAlgorithm)
    -> bool {
    match v {
        SupportedCipherSuiteView::Tls13(_) => true,
        SupportedCipherSuiteView::Tls12 { sign, .. } => exists|i: int|
            0 <= i < sign.len() && spec_scheme_sign(#[trigger] sign[i]) == alg,
    }
}

/// The protocol version a suite belongs to.
pub open spec fn spec_suite_version(v: SupportedCipherSuiteView) -> u16 {
    match v {
        SupportedCipherSuiteView::Tls12 { .. } => TLS12_VERSION,
        SupportedCipherSuiteView::Tls13(_) => TLS13_VERSION,
    }
}

impl SupportedCipherSuite {
    /// Which hash function to use with this suite.
    pub fn hash_algorithm(&self) -> (r: HashAlgorithm)
        ensures
            r == match self@ {
                SupportedCipherSuiteView::Tls12 { hash, .. } => hash,
                SupportedCipherSuiteView::Tls13(inner) => inner.hkdf_algorithm,
            },
    {
        match self {
            SupportedCipherSuite::Tls12(inner) => inner.hash_algorithm,
            SupportedCipherSuite::Tls13(inner) => inner.hash_algorithm(),
        }
    }

    /// The cipher suite's wire identifier.
    pub fn suite(&self) -> (r: u16)
        ensures
            r == spec_suite_id(self@),
    {
        self.common().suite
    }

    /// The common state of the suite.
    pub fn common(&self) -> (r: &CipherSuiteCommon)
        ensures
            *r == match self@ {
                SupportedCipherSuiteView::Tls12 { common, .. } => common,
                SupportedCipherSuiteView::Tls13(inner) => inner.common,
            },
    {
        match self {
            SupportedCipherSuite::Tls12(inner) => &inner.common,
            SupportedCipherSuite::Tls13(inner) => &inner.common,
        }
    }

    /// The TLS 1.3 suite inside, if this is one.
    pub fn tls13(&self) -> (r: Option<&Tls13CipherSuite>)
        ensures
            match r {
                Some(inner) => self@ == SupportedCipherSuiteView::Tls13(*inner),
                None => self@ is Tls12,
            },
    {
        match self {
            SupportedCipherSuite::Tls12(_) => None,
            SupportedCipherSuite::Tls13(inner) => Some(inner),
        }
    }

    /// The TLS 1.2 suite inside, if this is one.
    pub fn tls12(&self) -> (r: Option<&Tls12CipherSuite>)
        ensures
            match r {
                Some(_) => self@ is Tls12,
                None => self@ is Tls13,
            },
    {
        match self {
            SupportedCipherSuite::Tls12(inner) => Some(inner),
            SupportedCipherSuite::Tls13(_) => None,
        }
    }

    /// The protocol version the suite belongs to, as its wire
    /// identifier.
    pub fn version(&self) -> (r: u16)
        ensures
            r == spec_suite_version(self@),
    {
        match self {
            SupportedCipherSuite::Tls12(_) => TLS12_VERSION,
            SupportedCipherSuite::Tls13(_) => TLS13_VERSION,
        }
    }

    /// Whether the suite is usable for a key only offering the given
    /// signature algorithm; true for every TLS 1.3 suite.
    pub fn usable_for_signature_algorithm(&self, sig_alg: SignatureAlgorithm) -> (r: bool)
        ensures
            r == spec_usable_for_sigalg(self@, sig_alg),
    {
        match self {
            SupportedCipherSuite::Tls13(_) => true,
            SupportedCipherSuite::Tls12(inner) => {
                let n: usize = inner.sign.len();
                let mut i: usize = 0;
                while i < n
                    invariant
                        i <= n,
                        n == inner.sign@.len(),
                        self@ == (SupportedCipherSuiteView::Tls12 {
                            common: inner.common,
                            sign: inner.sign@,
                            hash: inner.hash_algorithm,
                        }),
                        forall|j: int|
                            0 <= j < i ==> spec_scheme_sign(#[trigger] inner.sign@[j]) != sig_alg,
                    decreases n - i,
                {
                    if inner.sign[i].sign() == sig_alg {
                        proof {
                            assert(spec_usable_for_sigalg(self@, sig_alg)) by {
                                assert(spec_scheme_sign(inner.sign@[i as int]) == sig_alg);
                            }
                        }
                        return true;
                    }
                    i = i + 1;
                }
                false
            },
        }
    }

    /// A structural copy.
    pub fn duplicate(&self) -> (r: SupportedCipherSuite)
        ensures
            r@ == self@,
    {
        match self {
            SupportedCipherSuite::Tls12(inner) => SupportedCipherSuite::Tls12(inner.duplicate()),
            SupportedCipherSuite::Tls13(inner) => SupportedCipherSuite::Tls13(*inner),
        }
    }
}

/// The first suite of the server list carrying the given identifier.
pub open spec fn spec_find_suite(server: Seq<SupportedCipherSuiteView>, id: u16) -> Option<
    SupportedCipherSuiteView,
>
    decreases server,
{
    if server.len() == 0 {
        None
    } else if spec_suite_id(server[0]) == id {
        Some(server[0])
    } else {
        spec_find_suite(server.drop_first(), id)
    }
}

/// The choice preferring the client's order: the first client suite
/// any server suite matches.
pub open spec fn spec_choose_preferring_client(
    client: Seq<u16>,
    server: Seq<SupportedCipherSuiteView>,
) -> Option<SupportedCipherSuiteView>
    decreases client,
{
    if client.len() == 0 {
        None
    } else {
        match spec_find_suite(server, client[0]) {
            Some(v) => Some(v),
            None => spec_choose_preferring_client(client.drop_first(), server),
        }
    }
}

/// The choice preferring the server's order: the first server suite
/// whose identifier the client offered.
pub open spec fn spec_choose_preferring_server(
    client: Seq<u16>,
    server: Seq<SupportedCipherSuiteView>,
) -> Option<SupportedCipherSuiteView>
    decreases server,
{
    if server.len() == 0 {
        None
    } else if client.contains(spec_suite_id(server[0])) {
        Some(server[0])
    } else {
        spec_choose_preferring_server(client, server.drop_first())
    }
}

/// The views of a list of suites.
pub open spec fn suite_views(server: Seq<SupportedCipherSuite>) -> Seq<SupportedCipherSuiteView> {
    server.map_values(|s: SupportedCipherSuite| s@)
}

/// Picks the suite both sides support, preferring the client's order.
pub fn choose_ciphersuite_preferring_client(
    client_suites: &Vec<u16>,
    server_suites: &Vec<SupportedCipherSuite>,
) -> (r: Option<SupportedCipherSuite>)
    ensures
        match r {
            Some(v) => spec_choose_preferring_client(client_suites@, suite_views(server_suites@))
                == Some(v@),
            None => spec_choose_preferring_client(client_suites@, suite_views(server_suites@))
                is None,
        },
{
    proof {
        assert(suite_views(server_suites@).len() == server_suites@.len());
        assert(forall|j: int|
            0 <= j < server_suites@.len() ==> #[trigger] suite_views(server_suites@)[j]
                == server_suites@[j]@);
    }
    let n: usize = client_suites.len();
    let mut i: usize = 0;
    proof {
        assert(client_suites@.skip(0) =~= client_suites@);
    }
    while i < n
        invariant
            i <= n,
            n == client_suites@.len(),
            spec_choose_preferring_client(client_suites@, suite_views(server_suites@))
                == spec_choose_preferring_client(
                client_suites@.skip(i as int),
                suite_views(server_suites@),
            ),
        decreases n - i,
    {
        proof {
            assert(client_suites@.skip(i as int)[0] == client_suites@[i as int]);
            assert(client_suites@.skip(i as int).drop_first() =~= client_suites@.skip(
                i + 1 as int,
            ));
        }
        match find_suite(server_suites, client_suites[i]) {
            Some(found) => {
                return Some(found.duplicate());
            },
            None => {},
        }
        i = i + 1;
    }
    proof {
        assert(client_suites@.skip(n as int) =~= Seq::<u16>::empty());
    }
    None
}

/// The first server suite carrying the identifier.
fn find_suite<'a>(server_suites: &'a Vec<SupportedCipherSuite>, id: u16) -> (r: Option<
    &'a SupportedCipherSuite,
>)
    ensures
        match r {
            Some(v) => spec_find_suite(suite_views(server_suites@), id) == Some(v@),
            None => spec_find_suite(suite_views(server_suites@), id) is None,
        },
{
    proof {
        assert(suite_views(server_suites@).len() == server_suites@.len());
        assert(forall|j: int|
            0 <= j < server_suites@.len() ==> #[trigger] suite_views(server_suites@)[j]
                == server_suites@[j]@);
    }
    let n: usize = server_suites.len();
    let mut i: usize = 0;
    proof {
        assert(suite_views(server_suites@).skip(0) =~= suite_views(server_suites@));
    }
    while i < n
        invariant
            i <= n,
            n == server_suites@.len(),
            spec_find_suite(suite_views(server_suites@), id) == spec_find_suite(
                suite_views(server_suites@).skip(i as int),
                id,
            ),
            suite_views(server_suites@).len() == server_suites@.len(),
            forall|j: int|
                0 <= j < server_suites@.len() ==> #[trigger] suite_views(server_suites@)[j]
                    == server_suites@[j]@,
        decreases n - i,
    {
        proof {
            assert(suite_views(server_suites@).skip(i as int)[0] == suite_views(server_suites@)[
                i as int]);
            assert(suite_views(server_suites@).skip(i as int).drop_first() =~= suite_views(
                server_suites@,
            ).skip(i + 1 as int));
        }
        if server_suites[i].suite() == id {
            return Some(&server_suites[i]);
        }
        i = i + 1;
    }
    proof {
        assert(suite_views(server_suites@).skip(n as int) =~= Seq::<
            SupportedCipherSuiteView,
        >::empty());
    }
    None
}

/// Picks the suite both sides support, preferring the server's order.
pub fn choose_ciphersuite_preferring_server(
    client_suites: &Vec<u16>,
    server_suites: &Vec<SupportedCipherSuite>,
) -> (r: Option<SupportedCipherSuite>)
    ensures
        match r {
            Some(v) => spec_choose_preferring_server(client_suites@, suite_views(server_suites@))
                == Some(v@),
            None => spec_choose_preferring_server(client_suites@, suite_views(server_suites@))
                is None,
        },
{
    proof {
        assert(suite_views(server_suites@).len() == server_suites@.len());
        assert(forall|j: int|
            0 <= j < server_suites@.len() ==> #[trigger] suite_views(server_suites@)[j]
                == server_suites@[j]@);
    }
    let n: usize = server_suites.len();
    let mut i: usize = 0;
    proof {
        assert(suite_views(server_suites@).skip(0) =~= suite_views(server_suites@));
    }
    while i < n
        invariant
            i <= n,
            n == server_suites@.len(),
            spec_choose_preferring_server(client_suites@, suite_views(server_suites@))
                == spec_choose_preferring_server(
                client_suites@,
                suite_views(server_suites@).skip(i as int),
            ),
            suite_views(server_suites@).len() == server_suites@.len(),
            forall|j: int|
                0 <= j < server_suites@.len() ==> #[trigger] suite_views(server_suites@)[j]
                    == server_suites@[j]@,
        decreases n - i,
    {
        proof {
            assert(suite_views(server_suites@).skip(i as int)[0] == suite_views(server_suites@)[
                i as int]);
            assert(suite_views(server_suites@).skip(i as int).drop_first() =~= suite_views(
                server_suites@,
            ).skip(i + 1 as int));
        }
        if contains_id(client_suites, server_suites[i].suite()) {
            return Some(server_suites[i].duplicate());
        }
        i = i + 1;
    }
    proof {
        assert(suite_views(server_suites@).skip(n as int) =~= Seq::<
            SupportedCipherSuiteView,
        >::empty());
    }
    None
}

/// Whether the list holds the identifier.
fn contains_id(ids: &Vec<u16>, id: u16) -> (r: bool)
    ensures
        r == ids@.contains(id),
{
    let n: usize = ids.len();
    let mut i: usize = 0;
    while i < n
        invariant
            i <= n,
            n == ids@.len(),
            forall|j: int| 0 <= j < i ==> ids@[j] != id,
        decreases n - i,
    {
        if ids[i] == id {
            proof {
                assert(ids@.contains(id)) by {
                    assert(ids@[i as int] == id);
                }
            }
            return true;
        }
        i = i + 1;
    }
    false
}

/// The suites of `all` usable with the signature algorithm, in order.
pub open spec fn spec_reduce_sigalg(
    all: Seq<SupportedCipherSuiteView>,
    alg: SignatureAlgorithm,
) -> Seq<SupportedCipherSuiteView>
    decreases all,
{
    if all.len() == 0 {
        Seq::empty()
    } else {
        let rest = spec_reduce_sigalg(all.drop_last(), alg);
        if spec_usable_for_sigalg(all.last(), alg) {
            rest.push(all.last())
        } else {
            rest
        }
    }
}

/// The suites of `all` compatible with the signature algorithm.
pub fn reduce_given_sigalg(all: &Vec<SupportedCipherSuite>, sigalg: SignatureAlgorithm) -> (r: Vec<
    SupportedCipherSuite,
>)
    ensures
        suite_views(r@) == spec_reduce_sigalg(suite_views(all@), sigalg),
{
    proof {
        assert(suite_views(all@).len() == all@.len());
        assert(forall|j: int|
            0 <= j < all@.len() ==> #[trigger] suite_views(all@)[j] == all@[j]@);
    }
    let n: usize = all.len();
    let mut out: Vec<SupportedCipherSuite> = Vec::new();
    let mut i: usize = 0;
    while i < n
        invariant
            i <= n,
            n == all@.len(),
            suite_views(all@).len() == all@.len(),
            forall|j: int| 0 <= j < all@.len() ==> #[trigger] suite_views(all@)[j] == all@[j]@,
            suite_views(out@) == spec_reduce_sigalg(suite_views(all@).take(i as int), sigalg),
        decreases n - i,
    {
        proof {
            assert(suite_views(all@).take(i + 1 as int).drop_last() =~= suite_views(all@).take(
                i as int,
            ));
            assert(suite_views(all@).take(i + 1 as int).last() == suite_views(all@)[i as int]);
        }
        let ghost old_out = out@;
        if all[i].usable_for_signature_algorithm(sigalg) {
            out.push(all[i].duplicate());
            proof {
                assert(suite_views(out@) =~= suite_views(old_out).push(all@[i as int]@));
            }
        }
        i = i + 1;
    }
    proof {
        assert(suite_views(all@).take(n as int) =~= suite_views(all@));
    }
    out
}

/// The suites of `all` belonging to the version, in order.
pub open spec fn spec_reduce_version(all: Seq<SupportedCipherSuiteView>, version: u16) -> Seq<
    SupportedCipherSuiteView,
>
    decreases all,
{
    if all.len() == 0 {
        Seq::empty()
    } else {
        let rest = spec_reduce_version(all.drop_last(), version);
        if spec_suite_version(all.last()) == version {
            rest.push(all.last())
        } else {
            rest
        }
    }
}

/// The suites of `all` compatible with the chosen protocol version.
pub fn reduce_given_version(all: &Vec<SupportedCipherSuite>, version: u16) -> (r: Vec<
    SupportedCipherSuite,
>)
    ensures
        suite_views(r@) == spec_reduce_version(suite_views(all@), version),
{
    proof {
        assert(suite_views(all@).len() == all@.len());
        assert(forall|j: int|
            0 <= j < all@.len() ==> #[trigger] suite_views(all@)[j] == all@[j]@);
    }
    let n: usize = all.len();
    let mut out: Vec<SupportedCipherSuite> = Vec::new();
    let mut i: usize = 0;
    while i < n
        invariant
            i <= n,
            n == all@.len(),
            suite_views(all@).len() == all@.len(),
            forall|j: int| 0 <= j < all@.len() ==> #[trigger] suite_views(all@)[j] == all@[j]@,
            suite_views(out@) == spec_reduce_version(suite_views(all@).take(i as int), version),
        decreases n - i,
    {
        proof {
            assert(suite_views(all@).take(i + 1 as int).drop_last() =~= suite_views(all@).take(
                i as int,
            ));
            assert(suite_views(all@).take(i + 1 as int).last() == suite_views(all@)[i as int]);
        }
        let ghost old_out = out@;
        if all[i].version() == version {
            out.push(all[i].duplicate());
            proof {
                assert(suite_views(out@) =~= suite_views(old_out).push(all@[i as int]@));
            }
        }
        i = i + 1;
    }
    proof {
        assert(suite_views(all@).take(n as int) =~= suite_views(all@));
    }
    out
}

/// Whether the signature scheme is usable by any of the given suites.
pub fn compatible_sigscheme_for_suites(
    sigscheme: SignatureScheme,
    common_suites: &Vec<SupportedCipherSuite>,
) -> (r: bool)
    ensures
        r == exists|i: int|
            0 <= i < common_suites@.len() && spec_usable_for_sigalg(
                #[trigger] common_suites@[i]@,
                spec_scheme_sign(sigscheme),
            ),
{
    let sigalg = sigscheme.sign();
    let n: usize = common_suites.len();
    let mut i: usize = 0;
    while i < n
        invariant
            i <= n,
            n == common_suites@.len(),
            forall|j: int|
                0 <= j < i ==> !spec_usable_for_sigalg(#[trigger] common_suites@[j]@, sigalg),
            sigalg == spec_scheme_sign(sigscheme),
        decreases n - i,
    {
        if common_suites[i].usable_for_signature_algorithm(sigalg) {
            return true;
        }
        i = i + 1;
    }
    false
}

/// The TLS 1.3 AES-128-GCM-SHA256 suite.
pub fn tls13_aes_128_gcm_sha256() -> (r: SupportedCipherSuite)
    ensures
        r@ == SupportedCipherSuiteView::Tls13(
            Tls13CipherSuite {
                common: CipherSuiteCommon {
                    suite: TLS13_AES_128_GCM_SHA256_ID,
                    bulk: BulkAlgorithm::Aes128Gcm,
                    aead_algorithm: AeadAlgorithm::Aes128Gcm,
                },
                hkdf_algorithm: HashAlgorithm::Sha256,
                confidentiality_limit: 0x80_0000,
                integrity_limit: 0x10_0000_0000_0000,
            },
        ),
{
    SupportedCipherSuite::Tls13(
        Tls13CipherSuite {
            common: CipherSuiteCommon {
                suite: TLS13_AES_128_GCM_SHA256_ID,
                bulk: BulkAlgorithm::Aes128Gcm,
                aead_algorithm: AeadAlgorithm::Aes128Gcm,
            },
            hkdf_algorithm: HashAlgorithm::Sha256,
            confidentiality_limit: 0x80_0000,
            integrity_limit: 0x10_0000_0000_0000,
        },
    )
}

/// The TLS 1.3 AES-256-GCM-SHA384 suite.
pub fn tls13_aes_256_gcm_sha384() -> (r: SupportedCipherSuite)
    ensures
        r@ == SupportedCipherSuiteView::Tls13(
            Tls13CipherSuite {
                common: CipherSuiteCommon {
                    suite: TLS13_AES_256_GCM_SHA384_ID,
                    bulk: BulkAlgorithm::Aes256Gcm,
                    aead_algorithm: AeadAlgorithm::Aes256Gcm,
                },
                hkdf_algorithm: HashAlgorithm::Sha384,
                confidentiality_limit: 0x80_0000,
                integrity_limit: 0x10_0000_0000_0000,
            },
        ),
{
    SupportedCipherSuite::Tls13(
        Tls13CipherSuite {
            common: CipherSuiteCommon {
                suite: TLS13_AES_256_GCM_SHA384_ID,
                bulk: BulkAlgorithm::Aes256Gcm,
                aead_algorithm: AeadAlgorithm::Aes256Gcm,
            },
            hkdf_algorithm: HashAlgorithm::Sha384,
            confidentiality_limit: 0x80_0000,
            integrity_limit: 0x10_0000_0000_0000,
        },
    )
}

/// The TLS 1.3 CHACHA20-POLY1305-SHA256 suite.
pub fn tls13_chacha20_poly1305_sha256() -> (r: SupportedCipherSuite)
    ensures
        r@ == SupportedCipherSuiteView::Tls13(
            Tls13CipherSuite {
                common: CipherSuiteCommon {
                    suite: TLS13_CHACHA20_POLY1305_SHA256_ID,
                    bulk: BulkAlgorithm::Chacha20Poly1305,
                    aead_algorithm: AeadAlgorithm::Chacha20Poly1305,
                },
                hkdf_algorithm: HashAlgorithm::Sha256,
                confidentiality_limit: 0xffff_ffff_ffff_ffff,
                integrity_limit: 0x10_0000_0000,
            },
        ),
{
    SupportedCipherSuite::Tls13(
        Tls13CipherSuite {
            common: CipherSuiteCommon {
                suite: TLS13_CHACHA20_POLY1305_SHA256_ID,
                bulk: BulkAlgorithm::Chacha20Poly1305,
                aead_algorithm: AeadAlgorithm::Chacha20Poly1305,
            },
            hkdf_algorithm: HashAlgorithm::Sha256,
            confidentiality_limit: 0xffff_ffff_ffff_ffff,
            integrity_limit: 0x10_0000_0000,
        },
    )
}

/// The signature schemes a TLS 1.2 suite of the family authenticates
/// with.
pub open spec fn spec_tls12_schemes(ecdsa: bool) -> Seq<SignatureScheme> {
    if ecdsa {
        seq![SignatureScheme::EcdsaNistp256Sha256, SignatureScheme::EcdsaNistp384Sha384]
    } else {
        seq![SignatureScheme::RsaPssSha256, SignatureScheme::RsaPkcs1Sha256]
    }
}

/// Builds a TLS 1.2 suite of either signature family.
fn tls12_suite(
    id: u16,
    bulk: BulkAlgorithm,
    aead: AeadAlgorithm,
    hash: HashAlgorithm,
    ecdsa: bool,
) -> (r: SupportedCipherSuite)
    ensures
        r@ matches SupportedCipherSuiteView::Tls12 { common, sign, hash: h } && common
            == (CipherSuiteCommon { suite: id, bulk, aead_algorithm: aead }) && sign
            == spec_tls12_schemes(ecdsa) && h == hash,
{
    let mut sign: Vec<SignatureScheme> = Vec::new();
    if ecdsa {
        sign.push(SignatureScheme::EcdsaNistp256Sha256);
        sign.push(SignatureScheme::EcdsaNistp384Sha384);
    } else {
        sign.push(SignatureScheme::RsaPssSha256);
        sign.push(SignatureScheme::RsaPkcs1Sha256);
    }
    proof {
        assert(sign@ =~= spec_tls12_schemes(ecdsa));
    }
    SupportedCipherSuite::Tls12(
        Tls12CipherSuite {
            common: CipherSuiteCommon { suite: id, bulk, aead_algorithm: aead },
            sign,
            hash_algorithm: hash,
        },
    )
}

/// The TLS 1.2 ECDHE-ECDSA-AES128-GCM-SHA256 suite.
pub fn tls12_ecdhe_ecdsa_aes_128_gcm_sha256() -> (r: SupportedCipherSuite)
    ensures
        r@ matches SupportedCipherSuiteView::Tls12 { common, sign, hash } && common
            == (CipherSuiteCommon {
            suite: TLS12_ECDHE_ECDSA_AES_128_GCM_SHA256_ID,
            bulk: BulkAlgorithm::Aes128Gcm,
            aead_algorithm: AeadAlgorithm::Aes128Gcm,
        }) && sign == spec_tls12_schemes(true) && hash == HashAlgorithm::Sha256,
{
    tls12_suite(
        TLS12_ECDHE_ECDSA_AES_128_GCM_SHA256_ID,
        BulkAlgorithm::Aes128Gcm,
        AeadAlgorithm::Aes128Gcm,
        HashAlgorithm::Sha256,
        true,
    )
}

/// The TLS 1.2 ECDHE-ECDSA-AES256-GCM-SHA384 suite.
pub fn tls12_ecdhe_ecdsa_aes_256_gcm_sha384() -> (r: SupportedCipherSuite)
    ensures
        r@ matches SupportedCipherSuiteView::Tls12 { common, sign, hash } && common
            == (CipherSuiteCommon {
            suite: TLS12_ECDHE_ECDSA_AES_256_GCM_SHA384_ID,
            bulk: BulkAlgorithm::Aes256Gcm,
            aead_algorithm: AeadAlgorithm::Aes256Gcm,
        }) && sign == spec_tls12_schemes(true) && hash == HashAlgorithm::Sha384,
{
    tls12_suite(
        TLS12_ECDHE_ECDSA_AES_256_GCM_SHA384_ID,
        BulkAlgorithm::Aes256Gcm,
        AeadAlgorithm::Aes256Gcm,
        HashAlgorithm::Sha384,
        true,
    )
}

/// The TLS 1.2 ECDHE-ECDSA-CHACHA20-POLY1305 suite.
pub fn tls12_ecdhe_ecdsa_chacha20_poly1305_sha256() -> (r: SupportedCipherSuite)
    ensures
        r@ matches SupportedCipherSuiteView::Tls12 { common, sign, hash } && common
            == (CipherSuiteCommon {
            suite: TLS12_ECDHE_ECDSA_CHACHA20_POLY1305_SHA256_ID,
            bulk: BulkAlgorithm::Chacha20Poly1305,
            aead_algorithm: AeadAlgorithm::Chacha20Poly1305,
        }) && sign == spec_tls12_schemes(true) && hash == HashAlgorithm::Sha256,
{
    tls12_suite(
        TLS12_ECDHE_ECDSA_CHACHA20_POLY1305_SHA256_ID,
        BulkAlgorithm::Chacha20Poly1305,
        AeadAlgorithm::Chacha20Poly1305,
        HashAlgorithm::Sha256,
        true,
    )
}

/// The TLS 1.2 ECDHE-RSA-AES128-GCM-SHA256 suite.
pub fn tls12_ecdhe_rsa_aes_128_gcm_sha256() -> (r: SupportedCipherSuite)
    ensures
        r@ matches SupportedCipherSuiteView::Tls12 { common, sign, hash } && common
            == (CipherSuiteCommon {
            suite: TLS12_ECDHE_RSA_AES_128_GCM_SHA256_ID,
            bulk: BulkAlgorithm::Aes128Gcm,
            aead_algorithm: AeadAlgorithm::Aes128Gcm,
        }) && sign == spec_tls12_schemes(false) && hash == HashAlgorithm::Sha256,
{
    tls12_suite(
        TLS12_ECDHE_RSA_AES_128_GCM_SHA256_ID,
        BulkAlgorithm::Aes128Gcm,
        AeadAlgorithm::Aes128Gcm,
        HashAlgorithm::Sha256,
        false,
    )
}

/// The TLS 1.2 ECDHE-RSA-AES256-GCM-SHA384 suite.
pub fn tls12_ecdhe_rsa_aes_256_gcm_sha384() -> (r: SupportedCipherSuite)
    ensures
        r@ matches SupportedCipherSuiteView::Tls12 { common, sign, hash } && common
            == (CipherSuiteCommon {
            suite: TLS12_ECDHE_RSA_AES_256_GCM_SHA384_ID,
            bulk: BulkAlgorithm::Aes256Gcm,
            aead_algorithm: AeadAlgorithm::Aes256Gcm,
        }) && sign == spec_tls12_schemes(false) && hash == HashAlgorithm::Sha384,
{
    tls12_suite(
        TLS12_ECDHE_RSA_AES_256_GCM_SHA384_ID,
        BulkAlgorithm::Aes256Gcm,
        AeadAlgorithm::Aes256Gcm,
        HashAlgorithm::Sha384,
        false,
    )
}

/// The TLS 1.2 ECDHE-RSA-CHACHA20-POLY1305 suite.
pub fn tls12_ecdhe_rsa_chacha20_poly1305_sha256() -> (r: SupportedCipherSuite)
    ensures
        r@ matches SupportedCipherSuiteView::Tls12 { common, sign, hash } && common
            == (CipherSuiteCommon {
            suite: TLS12_ECDHE_RSA_CHACHA20_POLY1305_SHA256_ID,
            bulk: BulkAlgorithm::Chacha20Poly1305,
            aead_algorithm: AeadAlgorithm::Chacha20Poly1305,
        }) && sign == spec_tls12_schemes(false) && hash == HashAlgorithm::Sha256,
{
    tls12_suite(
        TLS12_ECDHE_RSA_CHACHA20_POLY1305_SHA256_ID,
        BulkAlgorithm::Chacha20Poly1305,
        AeadAlgorithm::Chacha20Poly1305,
        HashAlgorithm::Sha256,
        false,
    )
}

/// Every suite the library supports: the TLS 1.3 suites first, then
/// the TLS 1.2 ECDSA family, then the TLS 1.2 RSA family.
pub fn all_cipher_suites() -> (r: Vec<SupportedCipherSuite>)
    ensures
        r@.len() == 9,
        r@[0]@ == tls13_aes_256_gcm_sha384_view(),
        r@[1]@ == tls13_aes_128_gcm_sha256_view(),
        r@[2]@ == tls13_chacha20_poly1305_sha256_view(),
        forall|i: int| 3 <= i < 9 ==> (#[trigger] r@[i]@) is Tls12,
        spec_suite_id(r@[3]@) == TLS12_ECDHE_ECDSA_AES_256_GCM_SHA384_ID,
        spec_suite_id(r@[4]@) == TLS12_ECDHE_ECDSA_AES_128_GCM_SHA256_ID,
        spec_suite_id(r@[5]@) == TLS12_ECDHE_ECDSA_CHACHA20_POLY1305_SHA256_ID,
        spec_suite_id(r@[6]@) == TLS12_ECDHE_RSA_AES_256_GCM_SHA384_ID,
        spec_suite_id(r@[7]@) == TLS12_ECDHE_RSA_AES_128_GCM_SHA256_ID,
        spec_suite_id(r@[8]@) == TLS12_ECDHE_RSA_CHACHA20_POLY1305_SHA256_ID,
{
    let mut out: Vec<SupportedCipherSuite> = Vec::new();
    out.push(tls13_aes_256_gcm_sha384());
    out.push(tls13_aes_128_gcm_sha256());
    out.push(tls13_chacha20_poly1305_sha256());
    out.push(tls12_ecdhe_ecdsa_aes_256_gcm_sha384());
    out.push(tls12_ecdhe_ecdsa_aes_128_gcm_sha256());
    out.push(tls12_ecdhe_ecdsa_chacha20_poly1305_sha256());
    out.push(tls12_ecdhe_rsa_aes_256_gcm_sha384());
    out.push(tls12_ecdhe_rsa_aes_128_gcm_sha256());
    out.push(tls12_ecdhe_rsa_chacha20_poly1305_sha256());
    out
}

/// The suites an application should use by default: all of them.
pub fn default_cipher_suites() -> (r: Vec<SupportedCipherSuite>)
    ensures
        r@.len() == 9,
{
    all_cipher_suites()
}

/// The view of the TLS 1.3 AES-128-GCM-SHA256 suite.
pub open spec fn tls13_aes_128_gcm_sha256_view() -> SupportedCipherSuiteView {
    SupportedCipherSuiteView::Tls13(
        Tls13CipherSuite {
            common: CipherSuiteCommon {
                suite: TLS13_AES_128_GCM_SHA256_ID,
                bulk: BulkAlgorithm::Aes128Gcm,
                aead_algorithm: AeadAlgorithm::Aes128Gcm,
            },
            hkdf_algorithm: HashAlgorithm::Sha256,
            confidentiality_limit: 0x80_0000,
            integrity_limit: 0x10_0000_0000_0000,
        },
    )
}

/// The view of the TLS 1.3 AES-256-GCM-SHA384 suite.
pub open spec fn tls13_aes_256_gcm_sha384_view() -> SupportedCipherSuiteView {
    SupportedCipherSuiteView::Tls13(
        Tls13CipherSuite {
            common: CipherSuiteCommon {
                suite: TLS13_AES_256_GCM_SHA384_ID,
                bulk: BulkAlgorithm::Aes256Gcm,
                aead_algorithm: AeadAlgorithm::Aes256Gcm,
            },
            hkdf_algorithm: HashAlgorithm::Sha384,
            confidentiality_limit: 0x80_0000,
            integrity_limit: 0x10_0000_0000_0000,
        },
    )
}

/// The view of the TLS 1.3 CHACHA20-POLY1305-SHA256 suite.
pub open spec fn tls13_chacha20_poly1305_sha256_view() -> SupportedCipherSuiteView {
    SupportedCipherSuiteView::Tls13(
        Tls13CipherSuite {
            common: CipherSuiteCommon {
                suite: TLS13_CHACHA20_POLY1305_SHA256_ID,
                bulk: BulkAlgorithm::Chacha20Poly1305,
                aead_algorithm: AeadAlgorithm::Chacha20Poly1305,
            },
            hkdf_algorithm: HashAlgorithm::Sha256,
            confidentiality_limit: 0xffff_ffff_ffff_ffff,
            integrity_limit: 0x10_0000_0000,
        },
    )
}

} // verus!
