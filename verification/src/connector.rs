//! What connections are made with: the certificates to accept, the facts of a
//! TLS handshake, and the resolution of host names.

use rustls_pki_types::CertificateDer;
use vstd::prelude::*;

use crate::foreign::certificate::{copy_certificate, der};

verus! {

/// The size of the buffers that bodies are read into.
pub const BUF_SIZE: usize = 32768;

/// What is known of a completed TLS handshake.
#[derive(Clone, Debug)]
pub struct TlsHandshakeInfo {
    pub protocol_version: Option<String>,
    pub cipher_suite: Option<String>,
    pub kea_group_name: Option<String>,
    pub signature_scheme_name: Option<String>,
    pub alpn_protocol: Option<String>,
    pub certificate_chain_der: Vec<Vec<u8>>,
    pub used_ech: bool,
}

/// The DER encodings of a list of certificates.
pub open spec fn encodings(list: Seq<CertificateDer<'static>>) -> Seq<Seq<u8>> {
    list.map_values(|certificate: CertificateDer<'static>| der(certificate))
}

/// Lists of certificates that are to be accepted despite verification errors,
/// each in the order in which its certificates were added. Every manager stands
/// for one of them.
#[derive(Debug)]
pub struct OverrideLists {
    lists: Vec<Vec<CertificateDer<'static>>>,
}

impl View for OverrideLists {
    type V = Seq<Seq<Seq<u8>>>;

    closed spec fn view(&self) -> Seq<Seq<Seq<u8>>> {
        self.lists@.map_values(|list: Vec<CertificateDer<'static>>| encodings(list@))
    }
}

impl OverrideLists {
    /// No lists.
    pub fn new() -> (lists: Self)
        ensures
            lists@ == Seq::<Seq<Seq<u8>>>::empty(),
    {
        let lists = OverrideLists { lists: Vec::new() };
        assert(lists@ =~= Seq::empty());
        lists
    }
}

impl Default for OverrideLists {
    fn default() -> (lists: Self)
        ensures
            lists@ == Seq::<Seq<Seq<u8>>>::empty(),
    {
        OverrideLists::new()
    }
}

/// The lists once `encoding` is added to the one at index `at`.
pub open spec fn added(
    lists: Seq<Seq<Seq<u8>>>,
    at: nat,
    encoding: Seq<u8>,
) -> Seq<Seq<Seq<u8>>> {
    lists.update(at as int, lists[at as int].push(encoding))
}

/// Tracks the certificates for which to ignore verification errors. A manager
/// stands for a list, by its index among the [`OverrideLists`]; its clones stand
/// for the same one.
#[derive(Debug)]
pub struct CertificateErrorOverrideManager {
    list: usize,
}

impl View for CertificateErrorOverrideManager {
    type V = nat;

    closed spec fn view(&self) -> nat {
        self.list as nat
    }
}

impl Clone for CertificateErrorOverrideManager {
    fn clone(&self) -> (copy: Self)
        ensures
            copy == *self,
    {
        CertificateErrorOverrideManager { list: self.list }
    }
}

impl CertificateErrorOverrideManager {
    /// A manager with a list of its own, which is empty.
    pub fn new(lists: &mut OverrideLists) -> (manager: Self)
        ensures
            manager@ == old(lists)@.len(),
            final(lists)@ == old(lists)@.push(Seq::empty()),
    {
        let list = lists.lists.len();
        lists.lists.push(Vec::new());
        assert(encodings(lists.lists@[list as int]@) =~= Seq::empty());
        assert(lists@ =~= old(lists)@.push(Seq::empty()));
        CertificateErrorOverrideManager { list }
    }

    /// Adds a certificate to this manager's list of those for which to ignore
    /// validation errors.
    pub fn add_override(&self, lists: &mut OverrideLists, certificate: &CertificateDer<'static>)
        requires
            self@ < old(lists)@.len(),
        ensures
            final(lists)@ == added(old(lists)@, self@, der(*certificate)),
            final(lists)@.len() == old(lists)@.len(),
            final(lists)@[self@ as int] == old(lists)@[self@ as int].push(der(*certificate)),
            forall|i: int|
                0 <= i < old(lists)@.len() && i != self@ ==> #[trigger] final(lists)@[i] == old(
                    lists,
                )@[i],
    {
        let ghost before = lists.lists@[self.list as int]@;
        lists.lists[self.list].push(copy_certificate(certificate));
        assert(encodings(lists.lists@[self.list as int]@) =~= encodings(before).push(
            der(*certificate),
        ));
        assert(lists@ =~= added(old(lists)@, self@, der(*certificate)));
    }
}

/// Clones share one list: what is added through one of them is the last in the
/// list of each, behind what was there before, be it there already or not. No
/// other list changes, and that of a new manager stays empty.
pub proof fn law_clones_share_one_list(
    lists: Seq<Seq<Seq<u8>>>,
    manager: CertificateErrorOverrideManager,
    clone: CertificateErrorOverrideManager,
    fresh: CertificateErrorOverrideManager,
    encoding: Seq<u8>,
    other: int,
)
    requires
        manager@ < lists.len(),
        clone == manager,
        fresh@ == lists.len(),
        0 <= other <= lists.len(),
        other != manager@,
    ensures
        ({
            let after = added(lists.push(Seq::empty()), clone@, encoding);
            &&& after.len() == lists.len() + 1
            &&& after[manager@ as int] == lists[manager@ as int].push(encoding)
            &&& after[clone@ as int] == after[manager@ as int]
            &&& after[fresh@ as int] == Seq::<Seq<u8>>::empty()
            &&& after[other] == lists.push(Seq::empty())[other]
        }),
{
}

/// The certificate authorities to trust.
#[derive(Clone, Debug)]
pub enum CACertificates<'de> {
    /// Those of the platform.
    Default,
    /// These, in place of the platform's.
    Override(Vec<CertificateDer<'de>>),
}

impl<'de> Default for CACertificates<'de> {
    fn default() -> (certificates: Self)
        ensures
            certificates is Default,
    {
        CACertificates::Default
    }
}

/// The address of a host, by its bytes in network order.
#[derive(Clone, Copy, Debug, PartialEq, Eq)]
pub enum HostAddress {
    V4([u8; 4]),
    V6([u8; 16]),
}

/// Where to connect to.
#[derive(Clone, Copy, Debug, PartialEq, Eq)]
pub struct Endpoint {
    pub host: HostAddress,
    /// Zero stands for the port of the request's URI, or the conventional one
    /// of its scheme.
    pub port: u16,
}

/// How a host name is resolved.
#[derive(Debug)]
pub enum Resolution {
    /// To these endpoints.
    Fixed(Vec<Endpoint>),
    /// By asking the system's resolver for this name.
    Fallback(String),
}

/// A DNS resolver that applies the engine's host table before it falls back to
/// the system's resolver: host names listed in the table connect to their
/// overridden address, while whatever else names the host keeps the original
/// name.
#[derive(Clone, Debug, Default)]
pub struct ServoDnsResolver {}

impl ServoDnsResolver {
    pub fn new() -> (resolver: Self)
        ensures
            resolver == (ServoDnsResolver {  }),
    {
        ServoDnsResolver {  }
    }

    /// Resolves `name`, for which the host table holds `entry`.
    pub fn resolve(&self, name: String, entry: Option<HostAddress>) -> (resolution: Resolution)
        ensures
            match entry {
                Some(host) => resolution matches Resolution::Fixed(endpoints) && endpoints@
                    == seq![Endpoint { host, port: 0 }],
                None => resolution == Resolution::Fallback(name),
            },
    {
        match entry {
            Some(host) => {
                let mut endpoints: Vec<Endpoint> = Vec::new();
                endpoints.push(Endpoint { host, port: 0 });
                assert(endpoints@ =~= seq![Endpoint { host, port: 0 }]);
                Resolution::Fixed(endpoints)
            },
            None => Resolution::Fallback(name),
        }
    }
}

/// An addition appends to the one list and leaves the others as they are.
pub proof fn law_an_addition_appends(
    lists: Seq<Seq<Seq<u8>>>,
    at: nat,
    encoding: Seq<u8>,
    i: int,
)
    requires
        at < lists.len(),
        0 <= i < lists.len(),
    ensures
        added(lists, at, encoding).len() == lists.len(),
        added(lists, at, encoding)[at as int] == lists[at as int].push(encoding),
        i != at ==> added(lists, at, encoding)[i] == lists[i],
{
}

} // verus!
