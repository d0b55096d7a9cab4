//! Certificates: the DER-encoded certificate of the `rustls-pki-types` crate.

use rustls_pki_types::CertificateDer;
use vstd::prelude::*;

verus! {

/// A DER-encoded X.509 certificate.
#[verifier::external_type_specification]
#[verifier::external_body]
pub struct ExCertificateDer<'a>(CertificateDer<'a>);

/// The DER encoding that a certificate holds.
pub uninterp spec fn der(certificate: CertificateDer<'static>) -> Seq<u8>;

/// `CertificateDer::clone` copies the encoding.
#[verifier::external_body]
pub(crate) fn copy_certificate(certificate: &CertificateDer<'static>) -> (copy: CertificateDer<
    'static,
>)
    ensures
        der(copy) == der(*certificate),
{
    certificate.clone()
}

} // verus!
