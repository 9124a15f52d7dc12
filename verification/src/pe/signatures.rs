//! Authenticode signature chains: each attribute-certificate table entry
//! decoded as a PKCS#7/CMS signed-data blob into its embedded message
//! digest, its signer identifier when it names issuer and serial, and every
//! certificate of the blob in stored order.  Structural extraction only —
//! no chain-of-trust validation.
//!
//! The policy is fail-closed and all-or-nothing: one malformed attribute
//! certificate aborts the whole signature extraction.

use cms::cert::CertificateChoices;
use cms::content_info::ContentInfo;
use cms::signed_data::{SignedData, SignerIdentifier};
use der::{Decode, SliceReader};
use vstd::prelude::*;

use crate::decoder::CertRaw;
use crate::error::Error;

verus! {

/// The issuer-and-serial identifier of a signer.
#[derive(Clone, Debug, Default, PartialEq)]
pub struct Identifier {
    pub issuer: String,
    pub serial_number: String,
}

/// One certificate of a signature blob: issuer, subject and serial.
#[derive(Clone, Debug, Default, PartialEq)]
pub struct Cert {
    pub issuer: String,
    pub subject: String,
    pub serial_number: String,
}

/// One decoded Authenticode signature.
#[derive(Clone, Debug, Default, PartialEq)]
pub struct AuthenSig {
    /// The embedded message digest, hex-encoded.
    pub digest: String,
    /// The signer's issuer and serial, when its identifier carries them.
    pub issuer: Option<Identifier>,
    /// Every certificate of the blob, in stored order.
    pub certificates: Vec<Cert>,
}

/// All signatures of the image, in table order; a PE security directory may
/// hold several (dual-signed binaries).
#[derive(Clone, Debug, Default, PartialEq)]
pub struct PeAuthenticodes {
    pub signatures: Vec<AuthenSig>,
}

/// Whether an attribute certificate decodes as an Authenticode signature.
/// A name for what the outside decoder accepts: a function of the entry's
/// header fields and blob alone.
pub uninterp spec fn spec_sig_decodes(revision: u16, certificate_type: u16, blob: Seq<u8>) -> bool;

/// The embedded message digest of a decoded blob, as raw bytes.
pub uninterp spec fn spec_sig_digest(blob: Seq<u8>) -> Seq<u8>;

/// The signer's issuer and serial of a decoded blob, when its identifier
/// carries them, each rendered as text.
pub uninterp spec fn spec_sig_signer(blob: Seq<u8>) -> Option<(Seq<char>, Seq<char>)>;

/// The certificates of a decoded blob, in stored order, each as rendered
/// (issuer, subject, serial) text.
pub uninterp spec fn spec_sig_certs(blob: Seq<u8>) -> Seq<(Seq<char>, Seq<char>, Seq<char>)>;

/// The contents of a certificate list, by views.
pub open spec fn spec_certs_view(cs: Seq<Cert>) -> Seq<(Seq<char>, Seq<char>, Seq<char>)> {
    cs.map_values(|c: Cert| (c.issuer@, c.subject@, c.serial_number@))
}

/// Relies on authenticode's `AttributeCertificate::get_authenticode_signature`
/// and `AuthenticodeSignature::digest`: decoding succeeds as a function of
/// the entry alone, only with revision 0x200 and certificate type 2, and
/// the digest is the embedded message digest of the blob.
#[verifier::external_body]
fn decode_digest(revision: u16, certificate_type: u16, data: &[u8]) -> (r: Result<Vec<u8>, ()>)
    ensures
        r is Ok <==> spec_sig_decodes(revision, certificate_type, data@),
        r is Ok ==> revision == 0x200 && certificate_type == 2,
        r matches Ok(d) ==> d@ == spec_sig_digest(data@),
{
    let cert = authenticode::AttributeCertificate { revision, certificate_type, data };
    match cert.get_authenticode_signature() {
        Ok(sig) => Ok(sig.digest().to_vec()),
        Err(_) => Err(()),
    }
}

/// Relies on authenticode's `AuthenticodeSignature::signer_info` and cms's
/// `SignerIdentifier`: an issuer-and-serial identifier is handed out as its
/// rendered text, any other identifier kind as absent.
#[verifier::external_body]
fn decode_signer(revision: u16, certificate_type: u16, data: &[u8]) -> (r: Result<
    Option<(String, String)>,
    (),
>)
    ensures
        r is Ok <==> spec_sig_decodes(revision, certificate_type, data@),
        r matches Ok(s) ==> (match s {
            Some(p) => spec_sig_signer(data@) == Some((p.0@, p.1@)),
            None => spec_sig_signer(data@) is None,
        }),
{
    let cert = authenticode::AttributeCertificate { revision, certificate_type, data };
    match cert.get_authenticode_signature() {
        Ok(sig) => match &sig.signer_info().sid {
            SignerIdentifier::IssuerAndSerialNumber(sid) => Ok(
                Some((sid.issuer.to_string(), sid.serial_number.to_string())),
            ),
            SignerIdentifier::SubjectKeyIdentifier(_) => Ok(None),
        },
        Err(_) => Err(()),
    }
}

/// Relies on authenticode's `get_authenticode_signature` for acceptance and
/// on cms's `SignedData` for the certificate set of the blob, in stored
/// order, each X.509 certificate rendered as its issuer, subject and serial
/// text; an absent set reads as empty, and certificate choices that are not
/// X.509 certificates carry no such fields.
#[verifier::external_body]
fn decode_certs(revision: u16, certificate_type: u16, data: &[u8]) -> (r: Result<Vec<Cert>, ()>)
    ensures
        r is Ok <==> spec_sig_decodes(revision, certificate_type, data@),
        r matches Ok(cs) ==> spec_certs_view(cs@) == spec_sig_certs(data@),
{
    let ac = authenticode::AttributeCertificate { revision, certificate_type, data };
    ac.get_authenticode_signature().map_err(|_| ())?;
    let ci = ContentInfo::decode(&mut SliceReader::new(data).map_err(|_| ())?).map_err(|_| ())?;
    let sd = ci.content.decode_as::<SignedData>().map_err(|_| ())?;
    let certs = sd.certificates.map(|c| c.0.into_vec()).unwrap_or_default();
    Ok(certs.into_iter().filter_map(|c| match c {
        CertificateChoices::Certificate(x) => Some(Cert {
            issuer: x.tbs_certificate.issuer.to_string(),
            subject: x.tbs_certificate.subject.to_string(),
            serial_number: x.tbs_certificate.serial_number.to_string(),
        }),
        _ => None,
    }).collect())
}

/// The character for one lowercase hexadecimal digit.
pub open spec fn spec_hex_digit_lower(d: int) -> char
    recommends
        0 <= d < 16,
{
    if d < 10 {
        ((48 + d) as u32) as char
    } else {
        ((87 + d) as u32) as char
    }
}

/// The lowercase hexadecimal rendering of bytes: two digits for each byte,
/// high nibble first.
pub open spec fn spec_hex_lower(b: Seq<u8>) -> Seq<char>
    decreases b.len(),
{
    if b.len() == 0 {
        Seq::empty()
    } else {
        seq![
            spec_hex_digit_lower(b[0] as int / 16),
            spec_hex_digit_lower(b[0] as int % 16),
        ] + spec_hex_lower(b.drop_first())
    }
}

/// Relies on `hex::encode`: two lowercase hexadecimal digits for each byte,
/// high nibble first.
#[verifier::external_body]
fn to_hex_lower(b: &Vec<u8>) -> (r: String)
    ensures
        r@ == spec_hex_lower(b@),
{
    hex::encode(b)
}

/// What one decoded signature holds for its raw blob.
pub open spec fn spec_matches_authen_sig(s: AuthenSig, blob: Seq<u8>) -> bool {
    &&& s.digest@ == spec_hex_lower(spec_sig_digest(blob))
    &&& match spec_sig_signer(blob) {
        Some(p) => s.issuer matches Some(id) && id.issuer@ == p.0 && id.serial_number@ == p.1,
        None => s.issuer is None,
    }
    &&& spec_certs_view(s.certificates@) == spec_sig_certs(blob)
}

/// Decodes one attribute-certificate entry into a signature record.
fn authen_sig_from_cert(c: &CertRaw) -> (r: Result<AuthenSig, Error>)
    ensures
        r is Ok <==> spec_sig_decodes(c.revision, c.certificate_type, c.data@),
        r matches Ok(s) ==> spec_matches_authen_sig(s, c.data@),
        r matches Err(e) ==> e == Error::SignatureDecodeError,
{
    let digest_bytes = match decode_digest(c.revision, c.certificate_type, c.data.as_slice()) {
        Ok(d) => d,
        Err(_) => {
            return Err(Error::SignatureDecodeError);
        },
    };
    let signer = match decode_signer(c.revision, c.certificate_type, c.data.as_slice()) {
        Ok(s) => s,
        Err(_) => {
            return Err(Error::SignatureDecodeError);
        },
    };
    let certificates = match decode_certs(c.revision, c.certificate_type, c.data.as_slice()) {
        Ok(cs) => cs,
        Err(_) => {
            return Err(Error::SignatureDecodeError);
        },
    };
    let issuer = match signer {
        Some(p) => Some(Identifier { issuer: p.0, serial_number: p.1 }),
        None => None,
    };
    Ok(AuthenSig { digest: to_hex_lower(&digest_bytes), issuer, certificates })
}

/// Whether every attribute-certificate table entry decodes.
pub open spec fn spec_certs_ok(certs: Seq<CertRaw>) -> bool {
    forall|i: int|
        0 <= i < certs.len() ==> spec_sig_decodes(
            (#[trigger] certs[i]).revision,
            certs[i].certificate_type,
            certs[i].data@,
        )
}

/// What the signature list holds for the attribute-certificate table: one
/// decoded signature per entry, in table order.
pub open spec fn spec_matches_authenticodes(p: PeAuthenticodes, certs: Seq<CertRaw>) -> bool {
    &&& p.signatures@.len() == certs.len()
    &&& forall|i: int|
        0 <= i < certs.len() ==> spec_matches_authen_sig(
            #[trigger] p.signatures@[i],
            certs[i].data@,
        )
}

impl PeAuthenticodes {
    /// Decodes every attribute-certificate table entry, fail-closed: the
    /// result is all signatures in table order exactly when every entry
    /// decodes, and one malformed entry aborts the whole extraction.
    pub fn parse(certs: &Vec<CertRaw>) -> (r: Result<PeAuthenticodes, Error>)
        ensures
            r is Ok <==> spec_certs_ok(certs@),
            r matches Ok(p) ==> spec_matches_authenticodes(p, certs@),
            r matches Err(e) ==> e == Error::SignatureDecodeError,
    {
        let n = certs.len();
        let mut signatures: Vec<AuthenSig> = Vec::new();
        for i in 0..n
            invariant
                n == certs@.len(),
                signatures@.len() == i,
                forall|j: int|
                    0 <= j < i ==> spec_sig_decodes(
                        (#[trigger] certs@[j]).revision,
                        certs@[j].certificate_type,
                        certs@[j].data@,
                    ),
                forall|j: int|
                    0 <= j < i ==> spec_matches_authen_sig(
                        #[trigger] signatures@[j],
                        certs@[j].data@,
                    ),
        {
            match authen_sig_from_cert(&certs[i]) {
                Ok(s) => {
                    signatures.push(s);
                },
                Err(e) => {
                    return Err(e);
                },
            }
        }
        Ok(PeAuthenticodes { signatures })
    }
}

} // verus!
