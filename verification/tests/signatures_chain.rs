use file_info::decoder::CertRaw;
use file_info::error::Error;
use file_info::pe::signatures::PeAuthenticodes;

#[test]
fn no_attribute_certificates_mean_an_empty_signature_list() {
    let r = PeAuthenticodes::parse(&vec![]).unwrap();
    assert!(r.signatures.is_empty());
}

#[test]
fn a_wrong_revision_fails_the_extraction() {
    let certs = vec![CertRaw { revision: 0x100, certificate_type: 2, data: vec![0x30, 0x00] }];
    assert_eq!(PeAuthenticodes::parse(&certs), Err(Error::SignatureDecodeError));
}

#[test]
fn a_wrong_certificate_type_fails_the_extraction() {
    let certs = vec![CertRaw { revision: 0x200, certificate_type: 1, data: vec![0x30, 0x00] }];
    assert_eq!(PeAuthenticodes::parse(&certs), Err(Error::SignatureDecodeError));
}

#[test]
fn garbage_signature_bytes_fail_the_extraction() {
    let certs = vec![
        CertRaw { revision: 0x200, certificate_type: 2, data: vec![0xDE, 0xAD, 0xBE, 0xEF] },
    ];
    assert_eq!(PeAuthenticodes::parse(&certs), Err(Error::SignatureDecodeError));
}

fn tlv(tag: u8, content: &[u8]) -> Vec<u8> {
    let mut v = vec![tag];
    let n = content.len();
    if n < 128 {
        v.push(n as u8);
    } else if n < 256 {
        v.push(0x81);
        v.push(n as u8);
    } else {
        v.push(0x82);
        v.push((n >> 8) as u8);
        v.push(n as u8);
    }
    v.extend(content);
    v
}

fn der_seq(content: &[u8]) -> Vec<u8> {
    tlv(0x30, content)
}

fn der_set(content: &[u8]) -> Vec<u8> {
    tlv(0x31, content)
}

fn der_ctx0(content: &[u8]) -> Vec<u8> {
    tlv(0xA0, content)
}

fn der_octets(content: &[u8]) -> Vec<u8> {
    tlv(0x04, content)
}

fn der_oid(bytes: &[u8]) -> Vec<u8> {
    tlv(0x06, bytes)
}

fn der_alg(oid_bytes: &[u8]) -> Vec<u8> {
    der_seq(&der_oid(oid_bytes))
}

const OID_SIGNED_DATA: &[u8] = &[0x2A, 0x86, 0x48, 0x86, 0xF7, 0x0D, 0x01, 0x07, 0x02];
const OID_SHA256: &[u8] = &[0x60, 0x86, 0x48, 0x01, 0x65, 0x03, 0x04, 0x02, 0x01];
const OID_SPC_INDIRECT: &[u8] = &[0x2B, 0x06, 0x01, 0x04, 0x01, 0x82, 0x37, 0x02, 0x01, 0x04];
const OID_SPC_PE_IMAGE: &[u8] = &[0x2B, 0x06, 0x01, 0x04, 0x01, 0x82, 0x37, 0x02, 0x01, 0x0F];
const OID_CN: &[u8] = &[0x55, 0x04, 0x03];
const OID_RSA_SHA256: &[u8] = &[0x2A, 0x86, 0x48, 0x86, 0xF7, 0x0D, 0x01, 0x01, 0x0B];

const OID_RSA_ENC: &[u8] = &[0x2A, 0x86, 0x48, 0x86, 0xF7, 0x0D, 0x01, 0x01, 0x01];

fn cn_name(v: &[u8]) -> Vec<u8> {
    der_seq(&der_set(&der_seq(&[der_oid(OID_CN), tlv(0x13, v)].concat())))
}

/// A minimal X.509 certificate: serial 5, issuer `CN=Issuer X`, subject
/// `CN=Subject Y`.
fn test_certificate() -> Vec<u8> {
    let tbs = der_seq(
        &[
            vec![0x02, 0x01, 0x05],
            der_alg(OID_RSA_SHA256),
            cn_name(b"Issuer X"),
            der_seq(&[tlv(0x17, b"200101000000Z"), tlv(0x17, b"300101000000Z")].concat()),
            cn_name(b"Subject Y"),
            der_seq(&[der_alg(OID_RSA_ENC), tlv(0x03, &[0x00, 0xAA])].concat()),
        ].concat(),
    );
    der_seq(&[tbs, der_alg(OID_RSA_SHA256), tlv(0x03, &[0x00, 0xAA])].concat())
}

/// A well-formed PKCS#7 signed-data blob: SHA256 digest algorithm, an
/// indirect-data content with a fixed 32-byte message digest, one signer
/// identified by issuer `CN=Test CA` and serial `0123`, and optionally one
/// embedded certificate.
fn signature_blob(with_certificate: bool) -> Vec<u8> {
    let digest_bytes = [0x11u8; 32];
    let spc = der_seq(
        &[
            der_seq(&[der_oid(OID_SPC_PE_IMAGE), vec![0x05, 0x00]].concat()),
            der_seq(&[der_alg(OID_SHA256), der_octets(&digest_bytes)].concat()),
        ].concat(),
    );
    let encap = der_seq(&[der_oid(OID_SPC_INDIRECT), der_ctx0(&spc)].concat());
    let sid = der_seq(&[cn_name(b"Test CA"), vec![0x02, 0x02, 0x01, 0x23]].concat());
    let signer = der_seq(
        &[
            vec![0x02, 0x01, 0x01],
            sid,
            der_alg(OID_SHA256),
            der_alg(OID_RSA_SHA256),
            der_octets(&[0xAA, 0xBB]),
        ].concat(),
    );
    let mut content = [vec![0x02, 0x01, 0x01], der_set(&der_alg(OID_SHA256)), encap].concat();
    if with_certificate {
        // the certificate set is tagged implicitly
        content.extend(der_ctx0(&test_certificate()));
    }
    content.extend(der_set(&signer));
    let signed_data = der_seq(&content);
    der_seq(&[der_oid(OID_SIGNED_DATA), der_ctx0(&signed_data)].concat())
}

fn valid_signature_blob() -> Vec<u8> {
    signature_blob(false)
}

#[test]
fn a_wellformed_signature_decodes_into_digest_and_signer() {
    let certs = vec![
        CertRaw { revision: 0x200, certificate_type: 2, data: valid_signature_blob() },
    ];
    let p = PeAuthenticodes::parse(&certs).unwrap();
    assert_eq!(p.signatures.len(), 1);
    let s = &p.signatures[0];
    assert_eq!(s.digest, "11".repeat(32));
    let id = s.issuer.as_ref().unwrap();
    assert_eq!(id.issuer, "CN=Test CA");
    assert_eq!(id.serial_number, "01:23");
    assert!(s.certificates.is_empty());
}

#[test]
fn an_embedded_certificate_is_listed_with_its_names_and_serial() {
    let certs = vec![
        CertRaw { revision: 0x200, certificate_type: 2, data: signature_blob(true) },
    ];
    let p = PeAuthenticodes::parse(&certs).unwrap();
    assert_eq!(p.signatures.len(), 1);
    let s = &p.signatures[0];
    assert_eq!(s.certificates.len(), 1);
    assert_eq!(s.certificates[0].issuer, "CN=Issuer X");
    assert_eq!(s.certificates[0].subject, "CN=Subject Y");
    assert_eq!(s.certificates[0].serial_number, "05");
}

#[test]
fn dual_signed_tables_keep_both_signatures_in_order() {
    let certs = vec![
        CertRaw { revision: 0x200, certificate_type: 2, data: valid_signature_blob() },
        CertRaw { revision: 0x200, certificate_type: 2, data: valid_signature_blob() },
    ];
    let p = PeAuthenticodes::parse(&certs).unwrap();
    assert_eq!(p.signatures.len(), 2);
    assert_eq!(p.signatures[0], p.signatures[1]);
}

#[test]
fn one_bad_entry_aborts_even_beside_none_good() {
    // fail-closed, all or nothing: the bad entry poisons the whole table
    let certs = vec![
        CertRaw { revision: 0x200, certificate_type: 2, data: vec![] },
        CertRaw { revision: 0x200, certificate_type: 2, data: vec![0x01] },
    ];
    assert_eq!(PeAuthenticodes::parse(&certs), Err(Error::SignatureDecodeError));
}
