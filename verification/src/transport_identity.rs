//! The certificate with which the relay shows itself on QUIC and KCP carriers.
use crate::der::{
    certificate_octets, element_octets, law_public_keys_are_found, public_key_info,
    subject_public_key_info, CertificateParts, SEQUENCE,
};
use crate::net::ip_value;
use crate::secrets::{encode_standard_base64, hex_text, lower_hex, standard_base64};
use rustls::pki_types::PrivateKeyDer;
use vstd::prelude::*;
use vstd::utf8::encode_utf8;

verus! {

/// The certificate of the relay, the text of its private key, and the digest of its public key.
#[derive(Debug, Clone, PartialEq, Eq)]
pub struct TransportIdentity {
    pub certificate: Vec<u8>,
    pub private_key_pem: Vec<u8>,
    pub fingerprint: String,
}

/// A private key, by the form in which it is encoded.
#[derive(Debug, Clone, PartialEq, Eq)]
pub enum KeyDer {
    Pkcs1(Vec<u8>),
    Sec1(Vec<u8>),
    Pkcs8(Vec<u8>),
}

/// The SHA-256 digest of a run of bytes.
pub uninterp spec fn sha256_digest(bytes: Seq<u8>) -> Seq<u8>;

/// What stands first among the certificates of a PEM text, or what is wrong with the text.
pub uninterp spec fn pem_certificate(pem: Seq<u8>) -> Result<Option<Seq<u8>>, Seq<char>>;

/// The first private key of a PEM text, or what is wrong with the text.
pub uninterp spec fn pem_private_key(pem: Seq<u8>) -> Result<Option<(u8, Seq<u8>)>, Seq<char>>;

/// `sha2::Sha256::digest`: the digest, 32 bytes long.
#[verifier::external_body]
pub(crate) fn sha256(bytes: &[u8]) -> (r: Vec<u8>)
    ensures
        r@ == sha256_digest(bytes@),
        r@.len() == 32,
{
    <sha2::Sha256 as sha2::Digest>::digest(bytes).to_vec()
}

/// `hex::encode`: the lower-case hexadecimal text.
#[verifier::external_body]
pub(crate) fn encode_hex(bytes: &[u8]) -> (r: String)
    ensures
        r@ == hex_text(bytes@),
{
    hex::encode(bytes)
}

/// `rustls_pemfile::certs`, its first item: nothing where there is no certificate, the text of the
/// error where the PEM text is malformed before a certificate is found.
#[verifier::external_body]
fn read_certificate(pem: &[u8]) -> (r: Result<Option<Vec<u8>>, String>)
    ensures
        (match r {
            Ok(Some(der)) => Ok(Some(der@)),
            Ok(None) => Ok(None),
            Err(e) => Err(e@),
        }) == pem_certificate(pem@),
{
    let mut reader = std::io::BufReader::new(pem);
    let first = rustls_pemfile::certs(&mut reader).next().transpose();
    match first {
        Ok(found) => Ok(found.map(|der| der.to_vec())),
        Err(error) => Err(error.to_string()),
    }
}

/// The form of a key as a number.
pub open spec fn key_form(key: KeyDer) -> (u8, Seq<u8>) {
    match key {
        KeyDer::Pkcs1(der) => (1, der@),
        KeyDer::Sec1(der) => (2, der@),
        KeyDer::Pkcs8(der) => (8, der@),
    }
}

/// `rustls_pemfile::private_key`: the first private key; nothing where there is none, the text of
/// the error where the PEM text is malformed before a key is found. Keys come in the three forms.
#[verifier::external_body]
fn read_private_key(pem: &[u8]) -> (r: Result<Option<KeyDer>, String>)
    ensures
        (match r {
            Ok(Some(key)) => Ok(Some(key_form(key))),
            Ok(None) => Ok(None),
            Err(e) => Err(e@),
        }) == pem_private_key(pem@),
{
    let mut reader = std::io::BufReader::new(pem);
    match rustls_pemfile::private_key(&mut reader) {
        Ok(Some(PrivateKeyDer::Pkcs1(der))) => Ok(Some(KeyDer::Pkcs1(der.secret_pkcs1_der().to_vec()))),
        Ok(Some(PrivateKeyDer::Sec1(der))) => Ok(Some(KeyDer::Sec1(der.secret_sec1_der().to_vec()))),
        Ok(Some(PrivateKeyDer::Pkcs8(der))) => Ok(Some(KeyDer::Pkcs8(der.secret_pkcs8_der().to_vec()))),
        Ok(_) => Ok(None),
        Err(error) => Err(error.to_string()),
    }
}

/// Whether octets stand one after the other somewhere in a run of octets.
pub open spec fn holds(octets: Seq<u8>, part: Seq<u8>) -> bool {
    exists|i: int|
        0 <= i <= octets.len() - part.len() && #[trigger] octets.subrange(i, i + part.len()) == part
}

/// The octets by which a certificate names a host: the tag of a DNS name, its length, its letters.
pub open spec fn dns_entry(name: Seq<char>) -> Seq<u8> {
    seq![0x82u8, name.len() as u8] + encode_utf8(name)
}

/// Whether two texts are those of a certificate for a host and of a private key. The public key is
/// found in the certificate.
pub open spec fn are_files(certificate: Seq<char>, key: Seq<char>, name: Seq<char>) -> bool {
    &&& (pem_certificate(encode_utf8(certificate)) matches Ok(Some(der)) && holds(
        der,
        dns_entry(name),
    ) && public_key_info(der) is Some)
    &&& pem_private_key(encode_utf8(key)) matches Ok(Some(_))
}

/// `rcgen::generate_simple_self_signed`: a new certificate for a name, signed with a new key, both
/// as PEM text under the labels `CERTIFICATE` and `PRIVATE KEY`, so that they read as a certificate
/// and a private key. The certificate names the host as a DNS name, and holds its public key behind
/// its subject. Which key it is, is left to chance, and so is whether one could be made: the text of
/// the error is not stated.
#[verifier::external_body]
fn self_signed(name: &str) -> (r: Result<(String, String), String>)
    requires
        name@.len() < 0x80,
        forall|i: int| 0 <= i < name@.len() ==> (#[trigger] name@[i] as u32) < 0x80,
        ip_value(name@) is None,
    ensures
        r matches Ok((certificate, key)) ==> are_files(certificate@, key@, name@),
{
    rcgen::generate_simple_self_signed(vec![name.to_owned()]).map(
        |made| (made.cert.pem(), made.signing_key.serialize_pem()),
    ).map_err(|error| error.to_string())
}

/// The host that the certificate of a relay names, and for which agents ask.
pub fn transport_name() -> (r: &'static str)
    ensures
        r@ == "tunnelbridge-transport"@,
{
    "tunnelbridge-transport"
}

/// The name of the certificate is a DNS name: it has no dot and no colon.
proof fn lemma_transport_name()
    ensures
        ip_value("tunnelbridge-transport"@) is None,
        "tunnelbridge-transport"@.len() < 0x80,
        forall|i: int|
            0 <= i < "tunnelbridge-transport"@.len() ==> (
            #[trigger] "tunnelbridge-transport"@[i] as u32) < 0x80,
{
    reveal_strlit("tunnelbridge-transport");
}

/// Whether a new certificate has to be made: one of the two files is missing.
pub fn needs_certificate(certificate_exists: bool, key_exists: bool) -> (r: bool)
    ensures
        r == (!certificate_exists || !key_exists),
{
    !certificate_exists || !key_exists
}

/// The texts of a new certificate for the relay and of its key. Which key that is, and whether one
/// can be made, is left to chance.
pub fn create() -> (r: Result<(String, String), String>)
    ensures
        r matches Ok((certificate, key)) ==> are_files(
            certificate@,
            key@,
            "tunnelbridge-transport"@,
        ),
{
    proof {
        lemma_transport_name();
    }
    self_signed(transport_name())
}

/// The digest by which agents know the relay: that of the public key in a certificate.
pub open spec fn fingerprint_text(certificate: Seq<u8>) -> Option<Seq<char>> {
    match public_key_info(certificate) {
        Some(info) => Some(hex_text(sha256_digest(info))),
        None => None,
    }
}

/// The digest of the public key in a certificate: 64 lower-case hexadecimal digits.
pub fn certificate_fingerprint(certificate: &[u8]) -> (r: Option<String>)
    ensures
        crate::protocol::opt_text(r) == fingerprint_text(certificate@),
        r matches Some(text) ==> text@.len() == 64 && lower_hex(text@),
{
    match subject_public_key_info(certificate) {
        Some(info) => {
            let digest = sha256(info.as_slice());
            proof {
                crate::secrets::lemma_hex_text(digest@);
            }
            Some(encode_hex(digest.as_slice()))
        },
        None => None,
    }
}

/// Certificates on one public key have one fingerprint, whatever else they hold: a certificate can
/// be renewed without its agents being enrolled again.
pub proof fn law_fingerprints_go_by_the_key(
    a: CertificateParts,
    b: CertificateParts,
    key: Seq<u8>,
)
    requires
        certificate_octets(a, key).len() < 0x1_0000_0000,
        certificate_octets(b, key).len() < 0x1_0000_0000,
    ensures
        fingerprint_text(certificate_octets(a, key)) == Some(
            hex_text(sha256_digest(element_octets(SEQUENCE, key))),
        ),
        fingerprint_text(certificate_octets(a, key)) == fingerprint_text(
            certificate_octets(b, key),
        ),
{
    law_public_keys_are_found(a, key);
    law_public_keys_are_found(b, key);
}

/// Whether a result is the identity with a certificate.
pub open spec fn identifies(
    r: Result<TransportIdentity, String>,
    certificate: Seq<u8>,
    private_key_pem: Vec<u8>,
) -> bool {
    match fingerprint_text(certificate) {
        Some(text) => r matches Ok(identity) && identity.certificate@ == certificate
            && identity.private_key_pem == private_key_pem && identity.fingerprint@ == text
            && text.len() == 64 && lower_hex(text),
        None => r matches Err(e) && e@ == "transport certificate holds no public key"@,
    }
}

/// The identity with a certificate that was read from its file.
pub fn identity_of(certificate: Vec<u8>, private_key_pem: Vec<u8>) -> (r: Result<
    TransportIdentity,
    String,
>)
    ensures
        identifies(r, certificate@, private_key_pem),
{
    match certificate_fingerprint(certificate.as_slice()) {
        Some(fingerprint) => Ok(TransportIdentity { certificate, private_key_pem, fingerprint }),
        None => Err("transport certificate holds no public key".to_owned()),
    }
}

/// Whether a result is what the two files of an identity hold.
pub open spec fn loads(
    r: Result<TransportIdentity, String>,
    certificate_pem: Seq<u8>,
    private_key_pem: Vec<u8>,
) -> bool {
    match pem_certificate(certificate_pem) {
        Ok(Some(der)) => identifies(r, der, private_key_pem),
        Ok(None) => r matches Err(e) && e@ == "transport certificate PEM is empty"@,
        Err(error) => r matches Err(e) && e@ == error,
    }
}

/// Reads the identity from its two files.
pub fn load(certificate_pem: &[u8], private_key_pem: Vec<u8>) -> (r: Result<TransportIdentity, String>)
    ensures
        loads(r, certificate_pem@, private_key_pem),
{
    match read_certificate(certificate_pem) {
        Ok(Some(certificate)) => identity_of(certificate, private_key_pem),
        Ok(None) => Err("transport certificate PEM is empty".to_owned()),
        Err(e) => Err(e),
    }
}

/// An identity that was made can be loaded from its files: its certificate names the relay, it has
/// a fingerprint, and its key can be used.
pub proof fn law_new_identities_can_be_loaded(
    certificate: Seq<char>,
    key: Seq<char>,
    name: Seq<char>,
    private_key_pem: Vec<u8>,
    r: Result<TransportIdentity, String>,
)
    requires
        are_files(certificate, key, name),
        private_key_pem@ == encode_utf8(key),
        loads(r, encode_utf8(certificate), private_key_pem),
    ensures
        r matches Ok(identity) && holds(identity.certificate@, dns_entry(name))
            && fingerprint_text(identity.certificate@) == Some(identity.fingerprint@) && (
        pem_private_key(identity.private_key_pem@) matches Ok(Some(_))),
{
}

/// The digest by which agents know the relay.
pub fn fingerprint(identity: Option<&TransportIdentity>) -> (r: String)
    ensures
        match identity {
            Some(identity) => r@ == identity.fingerprint@,
            None => r@ == "uninitialized"@,
        },
{
    match identity {
        Some(identity) => identity.fingerprint.clone(),
        None => "uninitialized".to_owned(),
    }
}

/// The certificate of the relay.
pub fn certificate(identity: Option<&TransportIdentity>) -> (r: Result<&Vec<u8>, String>)
    ensures
        match identity {
            Some(identity) => r matches Ok(der) && der@ == identity.certificate@,
            None => r matches Err(e) && e@ == "transport identity is not initialized"@,
        },
{
    match identity {
        Some(identity) => Ok(&identity.certificate),
        None => Err("transport identity is not initialized".to_owned()),
    }
}

/// The certificate of the relay as base64 text.
pub fn certificate_base64(identity: Option<&TransportIdentity>) -> (r: Result<String, String>)
    ensures
        match identity {
            Some(identity) => r matches Ok(text) && text@ == standard_base64(
                identity.certificate@,
            ),
            None => r matches Err(e) && e@ == "transport identity is not initialized"@,
        },
{
    match certificate(identity) {
        Ok(der) => Ok(encode_standard_base64(der.as_slice())),
        Err(e) => Err(e),
    }
}

/// The private key of the relay.
pub fn private_key(identity: Option<&TransportIdentity>) -> (r: Result<KeyDer, String>)
    ensures
        match identity {
            Some(identity) => match pem_private_key(identity.private_key_pem@) {
                Ok(Some(key)) => r matches Ok(k) && key_form(k) == key,
                Ok(None) => r matches Err(e) && e@ == "transport private key PEM is empty"@,
                Err(error) => r matches Err(e) && e@ == error,
            },
            None => r matches Err(e) && e@ == "transport identity is not initialized"@,
        },
{
    match identity {
        Some(identity) => match read_private_key(identity.private_key_pem.as_slice()) {
            Ok(Some(key)) => Ok(key),
            Ok(None) => Err("transport private key PEM is empty".to_owned()),
            Err(e) => Err(e),
        },
        None => Err("transport identity is not initialized".to_owned()),
    }
}

/// An identity holds the certificate and the key of its files, and the fingerprint of that certificate;
/// there is none where the certificate cannot be read or has no public key.
pub proof fn law_identities_are_those_of_their_files(
    r: Result<TransportIdentity, String>,
    certificate_pem: Seq<u8>,
    private_key_pem: Vec<u8>,
)
    requires
        loads(r, certificate_pem, private_key_pem),
    ensures
        r matches Ok(identity) ==> pem_certificate(certificate_pem) == Ok::<
            Option<Seq<u8>>,
            Seq<char>,
        >(Some(identity.certificate@)) && identity.private_key_pem == private_key_pem
            && fingerprint_text(identity.certificate@) == Some(identity.fingerprint@),
        r is Ok <==> (pem_certificate(certificate_pem) matches Ok(Some(der)) && public_key_info(
            der,
        ) is Some),
        pem_certificate(certificate_pem) matches Ok(None) ==> (r matches Err(e) && e@
            == "transport certificate PEM is empty"@),
        pem_certificate(certificate_pem) matches Err(why) ==> (r matches Err(e) && e@ == why),
{
}

} // verus!
