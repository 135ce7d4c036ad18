//! Certificates and keys: reading them from PEM files, and the list of certificates
//! that a client trusts.

use vstd::prelude::*;

use crate::config::{KeyView, PrivateKey};
use crate::error::{ErrorView, ProxyError};

verus! {

/// [`rustls::RootCertStore`].
#[verifier::external_type_specification]
#[verifier::external_body]
pub struct ExRootCertStore(rustls::RootCertStore);

/// [`rustls::sign::CertifiedKey`].
#[verifier::external_type_specification]
#[verifier::external_body]
pub struct ExCertifiedKey(rustls::sign::CertifiedKey);

/// The contents of a list of byte strings.
pub open spec fn byte_strings(list: Seq<Vec<u8>>) -> Seq<Seq<u8>> {
    list.map_values(|v: Vec<u8>| v@)
}

/// The certificates of a PEM file in their order, as the rustls-pemfile crate reads
/// it, or the words with which it refuses the file.
pub uninterp spec fn pem_certs(pem: Seq<u8>) -> Result<Seq<Seq<u8>>, Seq<char>>;

/// The first private key of a PEM file, as the rustls-pemfile crate reads it: no key where
/// there is none, or the words with which it refuses the file.
pub uninterp spec fn pem_key(pem: Seq<u8>) -> Result<Option<KeyView>, Seq<char>>;

/// The trust anchor that the rustls crate makes of a certificate: the subject, the public
/// key, and the name constraints; or the words with which it refuses the certificate.
pub uninterp spec fn trust_anchor(der: Seq<u8>) -> Result<
    (Seq<u8>, Seq<u8>, Option<Seq<u8>>),
    Seq<char>,
>;

/// The trust anchors that a store holds, in their order.
pub uninterp spec fn anchors_of(store: rustls::RootCertStore) -> Seq<
    (Seq<u8>, Seq<u8>, Option<Seq<u8>>),
>;

/// The certificates that an identity presents, the server's own first.
pub uninterp spec fn presented(identity: rustls::sign::CertifiedKey) -> Seq<Seq<u8>>;

/// The public key that goes with the key an identity signs with, in the form that a
/// certificate has it in.
pub uninterp spec fn signer_key(identity: rustls::sign::CertifiedKey) -> Seq<u8>;

/// The public key that goes with a private key, in the form that a certificate has it in.
pub uninterp spec fn public_half(key: KeyView) -> Seq<u8>;

/// The public key that a certificate is for.
pub uninterp spec fn cert_key(der: Seq<u8>) -> Seq<u8>;

/// What the rustls crate says of a chain of certificates and a key as an identity, where
/// it is not short of random numbers: nothing, or the words with which it refuses them.
pub uninterp spec fn identity_verdict(chain: Seq<Seq<u8>>, key: KeyView) -> Result<(), Seq<char>>;

/// `rustls_pemfile::certs`, collected up to its first error, of which the words are given.
/// The outcome is a function of the file's bytes.
#[verifier::external_body]
fn read_certs(pem: &[u8]) -> (r: Result<Vec<Vec<u8>>, String>)
    ensures
        r is Ok ==> pem_certs(pem@) is Ok && pem_certs(pem@)->Ok_0 == byte_strings(r->Ok_0@),
        r is Err ==> pem_certs(pem@) is Err && pem_certs(pem@)->Err_0 == r->Err_0@,
{
    let mut reader = pem;
    let certs = rustls_pemfile::certs(&mut reader).map(|cert| cert.map(|der| der.to_vec()));
    certs.collect::<Result<Vec<Vec<u8>>, std::io::Error>>().map_err(|e| e.to_string())
}

/// `rustls_pemfile::private_key`, which gives keys of three kinds and no other, or the
/// words of its error. The outcome is a function of the file's bytes.
#[verifier::external_body]
fn read_key(pem: &[u8]) -> (r: Result<Option<PrivateKey>, String>)
    ensures
        r is Ok ==> pem_key(pem@) is Ok,
        r is Ok && r->Ok_0 is None ==> pem_key(pem@)->Ok_0 is None,
        r is Ok && r->Ok_0 is Some ==> pem_key(pem@)->Ok_0 == Some(r->Ok_0->0@),
        r is Err ==> pem_key(pem@) is Err && pem_key(pem@)->Err_0 == r->Err_0@,
{
    let mut reader = pem;
    match rustls_pemfile::private_key(&mut reader) {
        Ok(Some(rustls_pki_types::PrivateKeyDer::Pkcs1(k))) => Ok(Some(PrivateKey::Pkcs1(k.secret_pkcs1_der().to_vec()))),
        Ok(Some(rustls_pki_types::PrivateKeyDer::Sec1(k))) => Ok(Some(PrivateKey::Sec1(k.secret_sec1_der().to_vec()))),
        Ok(Some(rustls_pki_types::PrivateKeyDer::Pkcs8(k))) => Ok(Some(PrivateKey::Pkcs8(k.secret_pkcs8_der().to_vec()))),
        Ok(_) => Ok(None),
        Err(e) => Err(e.to_string()),
    }
}

/// Whether reading a key may take random numbers. It does for an elliptic curve key, which
/// is what the SEC1 form is for, and which in PKCS#8 form names its algorithm by the object
/// identifier 1.2.840.10045.2.1. A key in PKCS#1 form is an RSA key.
pub open spec fn may_draw(key: KeyView) -> bool {
    match key {
        KeyView::Pkcs1(_) => false,
        KeyView::Sec1(_) => true,
        KeyView::Pkcs8(der) => exists|i: int|
            #![trigger der.subrange(i, i + 7)]
            0 <= i && i + 7 <= der.len() && der.subrange(i, i + 7) == seq![
                0x2au8,
                0x86,
                0x48,
                0xce,
                0x3d,
                0x02,
                0x01,
            ],
    }
}

/// The words with which a key is refused that cannot be read.
pub open spec fn unreadable() -> Seq<char> {
    "unexpected error: failed to parse private key as RSA, ECDSA, or EdDSA"@
}

/// `rustls::sign::CertifiedKey::from_der` with the keys of the ring provider. An identity
/// presents the chain that it was made of, which is not empty, and signs with the key that
/// it was made of, which is the one of the chain's first certificate. It is only made of a
/// chain and a key that the crate does not refuse. Where none is made, the words are those
/// of the refusal, which is a function of the chain and the key; the one exception is a key
/// that takes random numbers to read, which is also called unreadable for want of them.
#[verifier::external_body]
fn certify(chain: &Vec<Vec<u8>>, key: &PrivateKey) -> (r: Result<rustls::sign::CertifiedKey, String>)
    ensures
        r is Ok ==> presented(r->Ok_0) == byte_strings(chain@),
        r is Ok ==> presented(r->Ok_0).len() > 0,
        r is Ok ==> signer_key(r->Ok_0) == public_half(key@),
        r is Ok ==> cert_key(presented(r->Ok_0)[0]) == public_half(key@),
        r is Ok ==> identity_verdict(byte_strings(chain@), key@) is Ok,
        r is Err ==> (identity_verdict(byte_strings(chain@), key@) is Err && r->Err_0@
            == identity_verdict(byte_strings(chain@), key@)->Err_0) || (may_draw(key@)
            && r->Err_0@ == unreadable()),
{
    let certs = chain.iter().map(|der| rustls_pki_types::CertificateDer::from(der.clone())).collect();
    let der = match key {
        PrivateKey::Pkcs1(k) => rustls_pki_types::PrivateKeyDer::Pkcs1(k.clone().into()),
        PrivateKey::Sec1(k) => rustls_pki_types::PrivateKeyDer::Sec1(k.clone().into()),
        PrivateKey::Pkcs8(k) => rustls_pki_types::PrivateKeyDer::Pkcs8(k.clone().into()),
    };
    let provider = rustls::crypto::ring::default_provider();
    rustls::sign::CertifiedKey::from_der(certs, der, &provider).map_err(|e| e.to_string())
}

/// `rustls::RootCertStore::empty`: the store holds no trust anchor.
pub assume_specification[ rustls::RootCertStore::empty ]() -> (r: rustls::RootCertStore)
    ensures
        anchors_of(r).len() == 0,
;

/// `rustls::RootCertStore::add`: the trust anchor of the certificate goes to the end of
/// the store, or the certificate is refused, with words, and the store stays as it is. The
/// anchor and the words are a function of the certificate's bytes.
#[verifier::external_body]
fn add_root(store: &mut rustls::RootCertStore, der: &[u8]) -> (r: Result<(), String>)
    ensures
        r is Ok ==> trust_anchor(der@) is Ok,
        r is Ok ==> anchors_of(*final(store)) == anchors_of(*old(store)).push(
            trust_anchor(der@)->Ok_0,
        ),
        r is Err ==> trust_anchor(der@) is Err && trust_anchor(der@)->Err_0 == r->Err_0@,
        r is Err ==> anchors_of(*final(store)) == anchors_of(*old(store)),
{
    store.add(rustls_pki_types::CertificateDer::from(der)).map_err(|e| e.to_string())
}

/// The certificates of a PEM file.
pub fn parse_certs(pem: &[u8]) -> (r: Result<Vec<Vec<u8>>, ProxyError>)
    ensures
        r matches Ok(certs) ==> pem_certs(pem@) == Ok::<Seq<Seq<u8>>, Seq<char>>(
            byte_strings(certs@),
        ),
        r matches Err(e) ==> e@ is Pem && pem_certs(pem@) == Err::<Seq<Seq<u8>>, Seq<char>>(
            e@->Pem_0,
        ),
{
    match read_certs(pem) {
        Ok(certs) => Ok(certs),
        Err(words) => Err(ProxyError::Pem(words)),
    }
}

/// The first private key of a PEM file, where there is one.
pub fn parse_private_key(pem: &[u8]) -> (r: Result<Option<PrivateKey>, ProxyError>)
    ensures
        r matches Ok(Some(key)) ==> pem_key(pem@) == Ok::<Option<KeyView>, Seq<char>>(Some(key@)),
        r matches Ok(None) ==> pem_key(pem@) == Ok::<Option<KeyView>, Seq<char>>(None),
        r matches Err(e) ==> e@ is Pem && pem_key(pem@) == Err::<Option<KeyView>, Seq<char>>(
            e@->Pem_0,
        ),
{
    match read_key(pem) {
        Ok(key) => Ok(key),
        Err(words) => Err(ProxyError::Pem(words)),
    }
}

/// The error of a chain and a key that were tried as an identity, with the words of the
/// refusal.
pub fn judge_identity(tried: Result<rustls::sign::CertifiedKey, String>) -> (r: Result<
    rustls::sign::CertifiedKey,
    ProxyError,
>)
    ensures
        match (tried, r) {
            (Ok(identity), Ok(taken)) => taken == identity,
            (Err(words), Err(e)) => e@ == ErrorView::Identity(words@),
            _ => false,
        },
{
    match tried {
        Ok(identity) => Ok(identity),
        Err(words) => Err(ProxyError::Identity(words)),
    }
}

/// The contents of an identity.
pub struct IdentityView {
    /// The certificates that it presents.
    pub chain: Seq<Seq<u8>>,
    /// The public key that goes with the key it signs with.
    pub key: Seq<u8>,
}

/// The contents of an identity.
pub open spec fn identity_view(identity: rustls::sign::CertifiedKey) -> IdentityView {
    IdentityView { chain: presented(identity), key: signer_key(identity) }
}

/// The identity that a chain of certificates and a key make.
pub open spec fn identity_of(chain: Seq<Seq<u8>>, key: KeyView) -> IdentityView {
    IdentityView { chain, key: public_half(key) }
}

/// An identity was made of a chain and a key: it is theirs, they are not refused, and the
/// key is the one of the chain's first certificate.
pub open spec fn makes(chain: Seq<Seq<u8>>, key: KeyView, identity: IdentityView) -> bool {
    &&& identity == identity_of(chain, key)
    &&& identity_verdict(chain, key) is Ok
    &&& chain.len() > 0
    &&& cert_key(chain[0]) == identity.key
}

/// No identity was made of a chain and a key, for this reason: they are refused, or the key
/// takes random numbers to read and there were none.
pub open spec fn makes_none(chain: Seq<Seq<u8>>, key: KeyView, e: ErrorView) -> bool {
    &&& e is Identity
    &&& identity_verdict(chain, key) == Err::<(), Seq<char>>(e->Identity_0) || (may_draw(key)
        && e->Identity_0 == unreadable())
}

/// The identity that a chain of certificates and a key make. It presents that chain and
/// signs with that key.
pub fn load_identity(chain: &Vec<Vec<u8>>, key: &PrivateKey) -> (r: Result<
    rustls::sign::CertifiedKey,
    ProxyError,
>)
    ensures
        r matches Ok(identity) ==> makes(byte_strings(chain@), key@, identity_view(identity)),
        r matches Err(e) ==> makes_none(byte_strings(chain@), key@, e@),
{
    judge_identity(certify(chain, key))
}

/// Each certificate of the list is one that the rustls crate takes as a root.
pub open spec fn all_roots(certs: Seq<Seq<u8>>) -> bool {
    forall|i: int| 0 <= i < certs.len() ==> trust_anchor(#[trigger] certs[i]) is Ok
}

/// The trust anchors of a list of certificates.
pub open spec fn root_anchors(certs: Seq<Seq<u8>>) -> Seq<
    (Seq<u8>, Seq<u8>, Option<Seq<u8>>),
> {
    certs.map_values(|der: Seq<u8>| trust_anchor(der)->Ok_0)
}

/// A store that trusts each certificate of the list, in its order. The first one that
/// is refused is the error.
pub fn trust_roots(certs: &Vec<Vec<u8>>) -> (r: Result<rustls::RootCertStore, ProxyError>)
    ensures
        r matches Ok(store) ==> {
            &&& all_roots(byte_strings(certs@))
            &&& anchors_of(store) == root_anchors(byte_strings(certs@))
        },
        r matches Err(e) ==> exists|i: int|
            #![trigger certs@[i]]
            {
                &&& 0 <= i < certs@.len()
                &&& trust_anchor(certs@[i]@) is Err
                &&& e@ == ErrorView::Root(i as usize, trust_anchor(certs@[i]@)->Err_0)
                &&& all_roots(byte_strings(certs@).take(i))
            },
{
    let mut store = rustls::RootCertStore::empty();
    let ghost list = byte_strings(certs@);
    let mut i: usize = 0;
    assert(anchors_of(store) =~= root_anchors(list.take(0)));
    while i < certs.len()
        invariant
            i <= certs@.len(),
            list == byte_strings(certs@),
            all_roots(list.take(i as int)),
            anchors_of(store) == root_anchors(list.take(i as int)),
        decreases certs@.len() - i,
    {
        assert(list[i as int] == certs@[i as int]@);
        match add_root(&mut store, certs[i].as_slice()) {
            Ok(_) => {},
            Err(words) => {
                return Err(ProxyError::Root(i, words));
            },
        }
        proof {
            assert(list.take(i + 1) =~= list.take(i as int).push(list[i as int]));
            assert(root_anchors(list.take(i + 1)) =~= root_anchors(list.take(i as int)).push(
                trust_anchor(list[i as int])->Ok_0,
            ));
            assert forall|k: int| 0 <= k < i + 1 implies trust_anchor(
                #[trigger] list.take(i + 1)[k],
            ) is Ok by {
                if k < i {
                    assert(list.take(i as int)[k] == list.take(i + 1)[k]);
                }
            }
        }
        i = i + 1;
    }
    assert(list.take(i as int) =~= list);
    Ok(store)
}

/// The trust anchors of a list of certificates are those of each of them, in their order,
/// and a list is trusted exactly when none of it is refused.
pub proof fn law_roots(certs: Seq<Seq<u8>>, i: int)
    ensures
        root_anchors(certs).len() == certs.len(),
        0 <= i < certs.len() && trust_anchor(certs[i]) is Ok ==> trust_anchor(certs[i])
            == Ok::<(Seq<u8>, Seq<u8>, Option<Seq<u8>>), Seq<char>>(root_anchors(certs)[i]),
        0 <= i < certs.len() && trust_anchor(certs[i]) is Err ==> !all_roots(certs),
        (forall|j: int| 0 <= j < certs.len() ==> trust_anchor(#[trigger] certs[j]) is Ok)
            ==> all_roots(certs),
{
}

/// An identity that was made of a chain and a key presents that chain and signs with that
/// key, which is the one of the chain's first certificate.
pub proof fn law_identity(chain: Seq<Seq<u8>>, key: KeyView, identity: IdentityView)
    requires
        makes(chain, key, identity),
    ensures
        identity.chain == chain,
        identity.key == public_half(key),
        chain.len() > 0,
        cert_key(chain[0]) == public_half(key),
        identity_verdict(chain, key) is Ok,
{
}

} // verus!
