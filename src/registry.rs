//! The principals known to the bridge and the roles they hold.
//!
//! A principal is identified by its certificate, compared byte for byte.
//! Once a TLS session has authenticated its peer, the peer's certificate is
//! looked up here and decrypted data is handed on only together with the
//! client id and the non-empty role set of the principal that sent it.

use vstd::prelude::*;

verus! {

/// A role a principal may play in a computation.
#[derive(Clone, Copy, Debug, PartialEq, Eq, Structural)]
pub enum Role {
    PiProvider,
    DataProvider,
    ResultReader,
}

/// A client: its numeric id, its certificate and its roles.
#[derive(Clone, Debug)]
pub struct Principal {
    id: u32,
    certificate: Vec<u8>,
    roles: Vec<Role>,
}

impl Principal {
    pub closed spec fn spec_id(&self) -> u32 {
        self.id
    }

    pub closed spec fn spec_certificate(&self) -> Seq<u8> {
        self.certificate@
    }

    pub closed spec fn spec_roles(&self) -> Seq<Role> {
        self.roles@
    }

    pub fn new(id: u32, certificate: Vec<u8>, roles: Vec<Role>) -> (r: Principal)
        ensures
            r.spec_id() == id,
            r.spec_certificate() == certificate@,
            r.spec_roles() == roles@,
    {
        Principal { id, certificate, roles }
    }

    pub fn id(&self) -> (r: u32)
        ensures
            r == self.spec_id(),
    {
        self.id
    }

    pub fn certificate(&self) -> (r: &Vec<u8>)
        ensures
            r@ == self.spec_certificate(),
    {
        &self.certificate
    }

    pub fn roles(&self) -> (r: &Vec<Role>)
        ensures
            r@ == self.spec_roles(),
    {
        &self.roles
    }
}

/// Why a registry could not be loaded.
#[derive(Clone, Copy, Debug, PartialEq, Eq, Structural)]
pub enum RegistryError {
    /// The principals at these two positions share a certificate.
    DuplicateCertificate(usize, usize),
}

/// Why decrypted data was refused.
#[derive(Clone, Copy, Debug, PartialEq, Eq, Structural)]
pub enum AuthError {
    /// The TLS session has no peer certificate.
    PeerCertificateError,
    /// The peer presented this many certificates instead of one.
    InvalidLengthError(usize),
    /// No principal holds the peer's certificate.
    PeerCertificateUnknown,
    /// The principal with this id holds the certificate but no role.
    EmptyRoleError(u32),
}

/// Whether no two of `ps` share a certificate.
pub open spec fn unique_certificates(ps: Seq<Principal>) -> bool {
    forall|i: int, j: int|
        0 <= i < j < ps.len() ==> #[trigger] ps[i].spec_certificate() != #[trigger] ps[j].spec_certificate()
}

/// What the registry decides for a certificate: the id and roles of the
/// principal holding it, refused if nobody holds it or the holder has no
/// role.
pub open spec fn lookup_spec(reg: PrincipalRegistry, cert: Seq<u8>) -> Result<(u32, Seq<Role>), AuthError> {
    if !reg.knows(cert) {
        Err(AuthError::PeerCertificateUnknown)
    } else {
        let i = choose|i: int|
            0 <= i < reg.spec_principals().len() && #[trigger] reg.spec_principals()[i].spec_certificate() == cert;
        let p = reg.spec_principals()[i];
        if p.spec_roles().len() == 0 {
            Err(AuthError::EmptyRoleError(p.spec_id()))
        } else {
            Ok((p.spec_id(), p.spec_roles()))
        }
    }
}

/// What becomes of decrypted `data` from a peer that presented `certs`.
pub open spec fn plaintext_outcome(reg: PrincipalRegistry, certs: Option<Seq<Seq<u8>>>, data: Seq<u8>) -> Result<
    Option<(u32, Seq<Role>, Seq<u8>)>,
    AuthError,
> {
    if data.len() == 0 {
        Ok(None)
    } else {
        match certs {
            None => Err(AuthError::PeerCertificateError),
            Some(cs) => if cs.len() != 1 {
                Err(AuthError::InvalidLengthError(cs.len() as usize))
            } else {
                match lookup_spec(reg, cs[0]) {
                    Ok((id, roles)) => Ok(Some((id, roles, data))),
                    Err(e) => Err(e),
                }
            },
        }
    }
}

/// The certificates as byte strings.
pub open spec fn certs_view(certs: Option<Vec<Vec<u8>>>) -> Option<Seq<Seq<u8>>> {
    match certs {
        Some(v) => Some(v@.map_values(|c: Vec<u8>| c@)),
        None => None,
    }
}

/// The mathematical value of a delivery decision.
pub open spec fn delivery_view(r: Result<Option<(u32, Vec<Role>, Vec<u8>)>, AuthError>) -> Result<
    Option<(u32, Seq<Role>, Seq<u8>)>,
    AuthError,
> {
    match r {
        Ok(Some((id, roles, data))) => Ok(Some((id, roles@, data@))),
        Ok(None) => Ok(None),
        Err(e) => Err(e),
    }
}

/// The principals of a policy, no two of which share a certificate.
pub struct PrincipalRegistry {
    principals: Vec<Principal>,
}

fn bytes_equal(a: &[u8], b: &[u8]) -> (r: bool)
    ensures
        r == (a@ == b@),
{
    if a.len() != b.len() {
        return false;
    }
    let mut i: usize = 0;
    while i < a.len()
        invariant
            a@.len() == b@.len(),
            i <= a@.len(),
            a@.subrange(0, i as int) == b@.subrange(0, i as int),
        decreases a@.len() - i,
    {
        if a[i] != b[i] {
            assert(a@[i as int] != b@[i as int]);
            return false;
        }
        assert(a@.subrange(0, i + 1) =~= a@.subrange(0, i as int).push(a@[i as int]));
        assert(b@.subrange(0, i + 1) =~= b@.subrange(0, i as int).push(b@[i as int]));
        i = i + 1;
    }
    assert(a@ =~= a@.subrange(0, i as int));
    assert(b@ =~= b@.subrange(0, i as int));
    true
}

fn copy_roles(roles: &Vec<Role>) -> (r: Vec<Role>)
    ensures
        r@ == roles@,
{
    let mut out: Vec<Role> = Vec::new();
    let mut i: usize = 0;
    while i < roles.len()
        invariant
            i <= roles@.len(),
            out@ == roles@.subrange(0, i as int),
        decreases roles@.len() - i,
    {
        out.push(roles[i]);
        i = i + 1;
        assert(out@ =~= roles@.subrange(0, i as int));
    }
    assert(roles@.subrange(0, i as int) =~= roles@);
    out
}

impl PrincipalRegistry {
    pub closed spec fn spec_principals(&self) -> Seq<Principal> {
        self.principals@
    }

    pub open spec fn wf(&self) -> bool {
        unique_certificates(self.spec_principals())
    }

    /// Whether some principal holds certificate `cert`.
    pub open spec fn knows(&self, cert: Seq<u8>) -> bool {
        exists|i: int|
            0 <= i < self.spec_principals().len() && #[trigger] self.spec_principals()[i].spec_certificate()
                == cert
    }

    /// Loads the principals of a policy; two principals sharing a
    /// certificate are a configuration error.
    pub fn load(principals: Vec<Principal>) -> (r: Result<PrincipalRegistry, RegistryError>)
        ensures
            r is Ok <==> unique_certificates(principals@),
            r matches Ok(reg) ==> reg.wf() && reg.spec_principals() == principals@,
            r matches Err(RegistryError::DuplicateCertificate(i, j)) ==> i < j < principals@.len()
                && principals@[i as int].spec_certificate() == principals@[j as int].spec_certificate(),
    {
        let n = principals.len();
        let mut j: usize = 0;
        while j < n
            invariant
                n == principals@.len(),
                j <= n,
                forall|a: int, b: int|
                    0 <= a < b < j ==> #[trigger] principals@[a].spec_certificate()
                        != #[trigger] principals@[b].spec_certificate(),
            decreases n - j,
        {
            let mut i: usize = 0;
            while i < j
                invariant
                    n == principals@.len(),
                    i <= j < n,
                    forall|a: int| 0 <= a < i ==> #[trigger] principals@[a].spec_certificate()
                        != principals@[j as int].spec_certificate(),
                decreases j - i,
            {
                if bytes_equal(principals[i].certificate.as_slice(), principals[j].certificate.as_slice()) {
                    assert(principals@[i as int].spec_certificate() == principals@[j as int].spec_certificate());
                    return Err(RegistryError::DuplicateCertificate(i, j));
                }
                i = i + 1;
            }
            j = j + 1;
        }
        Ok(PrincipalRegistry { principals })
    }

    pub fn principals(&self) -> (r: &Vec<Principal>)
        ensures
            r@ == self.spec_principals(),
    {
        &self.principals
    }

    /// Resolves a certificate to the id and roles of the principal holding
    /// it. An unknown certificate and a principal without roles are refused.
    pub fn lookup(&self, cert: &[u8]) -> (r: Result<(u32, Vec<Role>), AuthError>)
        requires
            self.wf(),
        ensures
            !self.knows(cert@) <==> r == Err::<(u32, Vec<Role>), AuthError>(AuthError::PeerCertificateUnknown),
            forall|i: int|
                0 <= i < self.spec_principals().len() && #[trigger] self.spec_principals()[i].spec_certificate()
                    == cert@ ==> if self.spec_principals()[i].spec_roles().len() == 0 {
                    r == Err::<(u32, Vec<Role>), AuthError>(
                        AuthError::EmptyRoleError(self.spec_principals()[i].spec_id()),
                    )
                } else {
                    r matches Ok((id, roles)) && id == self.spec_principals()[i].spec_id() && roles@
                        == self.spec_principals()[i].spec_roles()
                },
    {
        let mut k: usize = 0;
        while k < self.principals.len()
            invariant
                self.wf(),
                k <= self.spec_principals().len(),
                forall|a: int| 0 <= a < k ==> #[trigger] self.spec_principals()[a].spec_certificate() != cert@,
            decreases self.spec_principals().len() - k,
        {
            let p = &self.principals[k];
            if bytes_equal(p.certificate.as_slice(), cert) {
                assert(self.spec_principals()[k as int].spec_certificate() == cert@);
                assert forall|i: int|
                    0 <= i < self.spec_principals().len() && #[trigger] self.spec_principals()[i].spec_certificate()
                        == cert@ implies i == k by {
                    if i > k {
                        assert(self.spec_principals()[k as int].spec_certificate()
                            != self.spec_principals()[i].spec_certificate());
                    }
                }
                if p.roles.len() == 0 {
                    return Err(AuthError::EmptyRoleError(p.id));
                }
                return Ok((p.id, copy_roles(&p.roles)));
            }
            k = k + 1;
        }
        Err(AuthError::PeerCertificateUnknown)
    }

    /// Decides what becomes of decrypted data read from a TLS session whose
    /// peer presented `peer_certs`: nothing when there is no data, else the
    /// triple of client id, roles and data for exactly one known certificate
    /// held by a principal with roles.
    pub fn authorize_plaintext(&self, peer_certs: Option<Vec<Vec<u8>>>, data: Vec<u8>) -> (r: Result<
        Option<(u32, Vec<Role>, Vec<u8>)>,
        AuthError,
    >)
        requires
            self.wf(),
        ensures
            delivery_view(r) == plaintext_outcome(*self, certs_view(peer_certs), data@),
            data@.len() == 0 ==> r matches Ok(None),
            data@.len() > 0 ==> match peer_certs {
                None => r == Err::<Option<(u32, Vec<Role>, Vec<u8>)>, AuthError>(AuthError::PeerCertificateError),
                Some(certs) => if certs@.len() != 1 {
                    r == Err::<Option<(u32, Vec<Role>, Vec<u8>)>, AuthError>(
                        AuthError::InvalidLengthError(certs@.len() as usize),
                    )
                } else {
                    let cert = certs@[0]@;
                    &&& !self.knows(cert) ==> r == Err::<Option<(u32, Vec<Role>, Vec<u8>)>, AuthError>(
                        AuthError::PeerCertificateUnknown,
                    )
                    &&& forall|i: int|
                        0 <= i < self.spec_principals().len()
                            && #[trigger] self.spec_principals()[i].spec_certificate() == cert ==> if self.spec_principals()[i].spec_roles().len() == 0 {
                            r == Err::<Option<(u32, Vec<Role>, Vec<u8>)>, AuthError>(
                                AuthError::EmptyRoleError(self.spec_principals()[i].spec_id()),
                            )
                        } else {
                            r matches Ok(Some((id, roles, out))) && id == self.spec_principals()[i].spec_id()
                                && roles@ == self.spec_principals()[i].spec_roles() && out@ == data@
                        }
                },
            },
    {
        if data.len() == 0 {
            return Ok(None);
        }
        match peer_certs {
            None => Err(AuthError::PeerCertificateError),
            Some(certs) => {
                if certs.len() != 1 {
                    return Err(AuthError::InvalidLengthError(certs.len()));
                }
                let ghost cert = certs@[0]@;
                let looked = self.lookup(certs[0].as_slice());
                proof {
                    if self.knows(cert) {
                        let i = choose|i: int|
                            0 <= i < self.spec_principals().len()
                                && #[trigger] self.spec_principals()[i].spec_certificate() == cert;
                        assert(self.spec_principals()[i].spec_certificate() == cert);
                    }
                    assert(certs_view(peer_certs) matches Some(cs) && cs[0] == cert && cs.len() == certs@.len());
                }
                match looked {
                    Ok((id, roles)) => Ok(Some((id, roles, data))),
                    Err(e) => Err(e),
                }
            },
        }
    }
}

} // verus!
