use rcgen::{CertificateParams, DnType, DnValue, IsCa, KeyPair, KeyUsagePurpose, SanType};
use starling::certs::{
    authority_with, can_rewrite, certificate_name, host_certificate, make_cert, new_authority,
    open_authority, sign_host,
};

fn authority() -> (String, String) {
    let (cert, key) = new_authority().unwrap();
    (cert.pem(), key.serialize_pem())
}

fn utf8(s: &str) -> DnValue {
    DnValue::Utf8String(s.to_string())
}

#[test]
fn a_new_authority_bears_its_name_and_signs() {
    let (pem, _) = authority();
    let p = CertificateParams::from_ca_cert_pem(&pem).unwrap();
    assert!(matches!(p.is_ca, IsCa::Ca(_)));
    assert_eq!(p.distinguished_name.get(&DnType::CommonName), Some(&utf8("Starling Local CA")));
    assert_eq!(p.distinguished_name.get(&DnType::OrganizationName), Some(&utf8("Starling")));
    assert_eq!(p.distinguished_name.iter().count(), 2);
    for usage in [
        KeyUsagePurpose::KeyCertSign,
        KeyUsagePurpose::CrlSign,
        KeyUsagePurpose::DigitalSignature,
    ] {
        assert!(p.key_usages.contains(&usage));
    }
    assert_eq!(p.key_usages.len(), 3);
    assert!(p.subject_alt_names.is_empty());
    assert_eq!((p.not_before.year(), p.not_after.year()), (1975, 4096));
    assert_eq!(p.not_before.unix_timestamp(), 157766400);
    assert_eq!(p.not_after.unix_timestamp(), 67090118400);
    let failed = authority_with(Err("no random numbers".to_string())).err().unwrap();
    assert_eq!(failed, "generating CA key");
}

#[test]
fn certificates_are_for_the_host_that_is_asked_for() {
    let (cert_pem, key_pem) = authority();
    let host = "web-paas.localhost";
    let (leaf, key) = host_certificate(host, &cert_pem, &key_pem).unwrap().unwrap();
    let read = CertificateParams::from_ca_cert_pem(&leaf.pem()).unwrap();
    let name = SanType::DnsName(host.try_into().unwrap());
    assert_eq!(read.subject_alt_names, vec![name.clone()]);
    assert_eq!(leaf.params().subject_alt_names, vec![name]);
    assert_eq!(read.distinguished_name.get(&DnType::CommonName), Some(&utf8(host)));
    assert!(!matches!(leaf.params().is_ca, IsCa::Ca(_)));
    assert!(KeyPair::from_pem(&key.serialize_pem()).is_ok());
    let contains = |part: &[u8]| leaf.der().windows(part.len()).any(|w| w == part);
    assert!(contains(b"Starling Local CA"));
    assert!(contains(&key.public_key_der()));

    let (ip, _) = make_cert("127.0.0.1", &cert_pem, &key_pem).unwrap();
    assert_eq!(
        ip.params().subject_alt_names,
        vec![SanType::IpAddress("127.0.0.1".parse().unwrap())]
    );
    assert_eq!(certificate_name(None), "localhost");
}

#[test]
fn what_no_certificate_can_be_made_of_is_told() {
    let (cert_pem, key_pem) = authority();
    let foreign = host_certificate("b\u{fc}cher.localhost", &cert_pem, &key_pem).unwrap();
    assert_eq!(
        foreign.err().unwrap(),
        "Invalid IA5String: 'b\u{fc}cher.localhost'"
    );
    let no_key = host_certificate("web", &cert_pem, "no key").unwrap();
    assert_eq!(no_key.err().unwrap(), KeyPair::from_pem("no key").err().unwrap().to_string());
    let wrong = open_authority("no certificate", &key_pem).unwrap();
    assert_eq!(wrong.err().unwrap(), "Could not parse certificate");
    assert!(open_authority(&cert_pem, &key_pem).unwrap().is_ok());
    let (ca, ca_key) = open_authority(&cert_pem, &key_pem).unwrap().unwrap();
    let drawn = KeyPair::generate().unwrap();
    let public = drawn.public_key_der();
    let (_, kept) = sign_host("web", drawn, &ca, &ca_key).unwrap();
    assert_eq!(kept.public_key_der(), public);
}

fn base64(bytes: &[u8]) -> String {
    let digits = b"ABCDEFGHIJKLMNOPQRSTUVWXYZabcdefghijklmnopqrstuvwxyz0123456789+/";
    let mut out = String::new();
    for chunk in bytes.chunks(3) {
        let n = chunk.iter().fold(0u32, |n, b| n << 8 | *b as u32) << (8 * (3 - chunk.len()));
        for i in 0..4 {
            let digit = digits[(n >> (18 - 6 * i)) as usize & 63] as char;
            out.push(if i <= chunk.len() { digit } else { '=' });
        }
    }
    out
}

/// The certificate of an authority with a name of its own, some bytes of it replaced.
fn doctored(name: (DnType, DnValue), from: &[u8], to: &[u8]) -> (String, String) {
    let key = KeyPair::generate().unwrap();
    let mut p = CertificateParams::new(Vec::<String>::new()).unwrap();
    p.is_ca = IsCa::Ca(rcgen::BasicConstraints::Unconstrained);
    p.distinguished_name.push(name.0, name.1);
    let mut der = p.self_signed(&key).unwrap().der().to_vec();
    for i in 0..der.len() - from.len() {
        if &der[i..i + from.len()] == from {
            der[i..i + from.len()].copy_from_slice(to);
        }
    }
    let mut lines = String::new();
    for line in base64(&der).as_bytes().chunks(64) {
        lines.push_str(std::str::from_utf8(line).unwrap());
        lines.push('\n');
    }
    let pem = format!("-----BEGIN CERTIFICATE-----\n{lines}-----END CERTIFICATE-----\n");
    (pem, key.serialize_pem())
}

#[test]
fn authorities_that_cannot_be_written_again_are_told_apart() {
    let printable = |s: &str| DnValue::PrintableString(s.try_into().unwrap());
    let name = (DnType::LocalityName, printable("who:me"));
    let (kept, key) = doctored(name.clone(), b"who:me", b"who.me");
    assert!(can_rewrite(&kept));
    assert!(host_certificate("web", &kept, &key).unwrap().is_ok());
    let (odd, key) = doctored(name, b"who:me", b"who?me");
    assert!(CertificateParams::from_ca_cert_pem(&odd).is_ok());
    assert!(!can_rewrite(&odd));
    assert!(host_certificate("web", &odd, &key).is_none());
    assert!(open_authority(&odd, &key).is_none());

    let oid = (DnType::CustomDnType(vec![2, 5, 4, 97]), printable("x"));
    let (kept, key) = doctored(oid.clone(), &[6, 3, 85, 4, 97], &[6, 3, 85, 4, 98]);
    assert!(host_certificate("web", &kept, &key).unwrap().is_ok());
    let (odd, key) = doctored(oid, &[6, 3, 85, 4, 97], &[6, 3, 120, 4, 97]);
    assert!(CertificateParams::from_ca_cert_pem(&odd).is_ok());
    assert!(host_certificate("web", &odd, &key).is_none());
}
