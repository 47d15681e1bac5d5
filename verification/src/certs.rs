//! The local certificate authority: where it is kept, what it says and signs, and how it
//! comes to be trusted.

use vstd::prelude::*;
use vstd::string::*;

use crate::daemon::protocol::{is_state_file, state_file};
use crate::text::{owned, texts};
use crate::x509::{
    alt_for, ascii, ca_read, can_write, cert_contents, contents, entry_index, first_foreign,
    foreign_error, ip_text, key_error, key_from_pem, key_in, name_writable, new_key,
    params_from_pem, params_new, self_sign, self_signs, sign, signs, with_authority, with_subject,
    with_uses, writable, Authority, CertTime, CertV, KeyUse, NameKindV, NameTextV, SubjectPart,
};

verus! {

/// The certificate of the local authority.
pub fn ca_cert_path() -> (r: String)
    ensures
        is_state_file(r@, "ca.pem"@),
{
    state_file("ca.pem")
}

/// The key of the local authority.
pub fn ca_key_path() -> (r: String)
    ensures
        is_state_file(r@, "ca-key.pem"@),
{
    state_file("ca-key.pem")
}

/// The host that a certificate is made for: the one that the client names, else the
/// local host.
pub fn certificate_name<'a>(server_name: Option<&'a str>) -> (r: &'a str)
    ensures
        r@ == (match server_name {
            Some(n) => n@,
            None => "localhost"@,
        }),
{
    match server_name {
        Some(n) => n,
        None => "localhost",
    }
}

/// The times between which certificates are valid.
pub open spec fn long_valid(v: CertV) -> bool {
    v.from == CertTime { year: 1975, unix: 157766400 } && v.until == CertTime {
        year: 4096,
        unix: 67090118400,
    }
}

/// Whether a certificate is that of the local authority: it says so without a limit, bears
/// its name, and its key may sign certificates, lists and data.
pub open spec fn is_authority(v: CertV) -> bool {
    &&& v.subject == seq![
        (NameKindV::Common, NameTextV::Utf8("Starling Local CA"@)),
        (NameKindV::Organization, NameTextV::Utf8("Starling"@)),
    ]
    &&& v.alts.len() == 0
    &&& v.authority == Authority::Yes(None)
    &&& v.uses == seq![KeyUse::CertSign, KeyUse::CrlSign, KeyUse::DigitalSignature]
    &&& v.subtrees.len() == 0
    &&& v.plain && long_valid(v)
}

/// Whether a certificate is for a host and no other: the host is its only alternative name
/// and its common name, and it is not that of an authority.
pub open spec fn is_for_host(v: CertV, host: Seq<char>) -> bool {
    &&& v.subject == seq![(NameKindV::Common, NameTextV::Utf8(host))]
    &&& v.alts == seq![alt_for(host, ip_text(host))]
    &&& v.authority == Authority::Unsaid
    &&& v.uses.len() == 0
    &&& v.subtrees.len() == 0
    &&& v.plain && long_valid(v)
}

/// The parameters of a new authority.
fn authority_params() -> (r: Result<rcgen::CertificateParams, String>)
    ensures
        r is Ok && is_authority(contents(r->Ok_0)) && writable(contents(r->Ok_0)),
{
    let hosts: Vec<String> = Vec::new();
    assert(texts(hosts@) =~= Seq::empty());
    assert(first_foreign(texts(hosts@), 0) is None);
    match params_new(hosts) {
        Ok(p) => {
            let mut uses: Vec<KeyUse> = Vec::new();
            uses.push(KeyUse::CertSign);
            uses.push(KeyUse::CrlSign);
            uses.push(KeyUse::DigitalSignature);
            assert(uses@ =~= seq![KeyUse::CertSign, KeyUse::CrlSign, KeyUse::DigitalSignature]);
            let ghost one = contents(p).subject;
            let q = with_uses(with_authority(p, None), uses);
            let q = with_subject(q, SubjectPart::Common, "Starling Local CA");
            let ghost two = contents(q).subject;
            let q = with_subject(q, SubjectPart::Organization, "Starling");
            proof {
                assert(one[0].0 == NameKindV::Common);
                assert(entry_index(one, NameKindV::Common, 0) == 0);
                assert(two =~= seq![(NameKindV::Common, NameTextV::Utf8("Starling Local CA"@))]);
                assert(entry_index(two, NameKindV::Organization, 1) == 1);
                assert(entry_index(two, NameKindV::Organization, 0) == 1);
                assert(contents(q).subject =~= seq![
                    (NameKindV::Common, NameTextV::Utf8("Starling Local CA"@)),
                    (NameKindV::Organization, NameTextV::Utf8("Starling"@)),
                ]);
            }
            Ok(q)
        },
        Err(e) => Err(e),
    }
}

/// A new authority, given the key pair that was drawn for it: it signs itself.
pub fn authority_with(key: Result<rcgen::KeyPair, String>) -> (r: Result<
    (rcgen::Certificate, rcgen::KeyPair),
    String,
>)
    ensures
        match key {
            Err(_) => r is Err && r->Err_0@ == "generating CA key"@,
            Ok(k) => match r {
                Ok((c, kept)) => kept == k && is_authority(cert_contents(c)) && self_signs(k, c),
                Err(e) => e@ == "self-signing CA"@,
            },
        },
{
    match key {
        Err(_) => Err(owned("generating CA key")),
        Ok(k) => match authority_params() {
            Err(_) => Err(owned("creating CA params")),
            Ok(p) => match self_sign(p, &k) {
                Ok(c) => Ok((c, k)),
                Err(_) => Err(owned("self-signing CA")),
            },
        },
    }
}

/// A new authority: its certificate, and its key pair.
pub fn new_authority() -> (r: Result<(rcgen::Certificate, rcgen::KeyPair), String>)
    ensures
        match r {
            Ok((c, k)) => is_authority(cert_contents(c)) && self_signs(k, c),
            Err(e) => e@ == "generating CA key"@ || e@ == "self-signing CA"@,
        },
{
    authority_with(new_key())
}

/// Whether the certificate of an authority can be written again, where the text holds one.
pub open spec fn rewritable(ca_cert_pem: Seq<char>) -> bool {
    match ca_read(ca_cert_pem) {
        Ok(v) => writable(v),
        Err(_) => true,
    }
}

/// Whether the certificate of an authority can be written again, where the text holds one.
pub fn can_rewrite(ca_cert_pem: &str) -> (r: bool)
    ensures
        r == rewritable(ca_cert_pem@),
{
    match params_from_pem(ca_cert_pem) {
        Ok(p) => can_write(&p),
        Err(_) => true,
    }
}

/// The authority of a certificate that is given as a text, with its key pair: it signs
/// itself again.
pub fn authority_of(ca_key: rcgen::KeyPair, ca_cert_pem: &str) -> (r: Result<
    (rcgen::Certificate, rcgen::KeyPair),
    String,
>)
    requires
        rewritable(ca_cert_pem@),
    ensures
        match ca_read(ca_cert_pem@) {
            Err(e) => r is Err && r->Err_0@ == e,
            Ok(v) => r is Ok ==> (r->Ok_0).1 == ca_key && cert_contents((r->Ok_0).0) == v
                && self_signs(ca_key, (r->Ok_0).0),
        },
{
    match params_from_pem(ca_cert_pem) {
        Err(e) => Err(e),
        Ok(p) => match self_sign(p, &ca_key) {
            Ok(c) => Ok((c, ca_key)),
            Err(e) => Err(e),
        },
    }
}

/// Whether an authority is the one that two texts hold, its certificate and its key.
pub open spec fn held_authority(
    ca_cert_pem: Seq<char>,
    ca_key_pem: Seq<char>,
    ca: rcgen::Certificate,
    ca_key: rcgen::KeyPair,
) -> bool {
    &&& key_in(ca_key_pem, ca_key)
    &&& ca_read(ca_cert_pem) == Ok::<CertV, Seq<char>>(cert_contents(ca))
    &&& self_signs(ca_key, ca)
}

/// The authority that two texts hold, its certificate and its key.
pub fn load_authority(ca_cert_pem: &str, ca_key_pem: &str) -> (r: Result<
    (rcgen::Certificate, rcgen::KeyPair),
    String,
>)
    requires
        rewritable(ca_cert_pem@),
    ensures
        key_error(ca_key_pem@) is Some ==> r is Err && r->Err_0@ == key_error(ca_key_pem@)->0,
        ca_read(ca_cert_pem@) is Err ==> r is Err,
        r is Ok ==> held_authority(ca_cert_pem@, ca_key_pem@, (r->Ok_0).0, (r->Ok_0).1),
{
    match key_from_pem(ca_key_pem) {
        Ok(key) => authority_of(key, ca_cert_pem),
        Err(e) => Err(e),
    }
}

/// The authority that two texts hold; nothing where its certificate cannot be written
/// again.
pub fn open_authority(ca_cert_pem: &str, ca_key_pem: &str) -> (r: Option<
    Result<(rcgen::Certificate, rcgen::KeyPair), String>,
>)
    ensures
        match r {
            None => !rewritable(ca_cert_pem@),
            Some(a) => {
                &&& rewritable(ca_cert_pem@)
                &&& key_error(ca_key_pem@) is Some ==> a is Err && a->Err_0@ == key_error(
                    ca_key_pem@,
                )->0
                &&& ca_read(ca_cert_pem@) is Err ==> a is Err
                &&& a is Ok ==> held_authority(
                    ca_cert_pem@,
                    ca_key_pem@,
                    (a->Ok_0).0,
                    (a->Ok_0).1,
                )
            },
        },
{
    if can_rewrite(ca_cert_pem) {
        Some(load_authority(ca_cert_pem, ca_key_pem))
    } else {
        None
    }
}

/// The parameters of a certificate for a host.
fn host_params(host: &str) -> (r: Result<rcgen::CertificateParams, String>)
    ensures
        match r {
            Ok(p) => ascii(host@) && is_for_host(contents(p), host@) && writable(contents(p)),
            Err(e) => !ascii(host@) && e@ == foreign_error(host@),
        },
{
    let mut hosts: Vec<String> = Vec::new();
    hosts.push(owned(host));
    let ghost names = texts(hosts@);
    assert(names =~= seq![host@]);
    assert(first_foreign(names, 1) is None);
    assert(first_foreign(names, 0) == if ascii(host@) {
        None
    } else {
        Some(host@)
    });
    match params_new(hosts) {
        Ok(p) => {
            let ghost one = contents(p).subject;
            let q = with_subject(p, SubjectPart::Common, host);
            proof {
                assert(one[0].0 == NameKindV::Common);
                assert(entry_index(one, NameKindV::Common, 0) == 0);
                assert(contents(q).subject =~= seq![(NameKindV::Common, NameTextV::Utf8(host@))]);
                assert(contents(q).alts =~= seq![alt_for(host@, ip_text(host@))]);
            }
            Ok(q)
        },
        Err(e) => Err(e),
    }
}

/// A certificate for a host, given the key pair that was drawn for it, signed by an
/// authority. A host that is not made of ASCII characters is an error.
pub fn sign_host(
    host: &str,
    key: rcgen::KeyPair,
    ca: &rcgen::Certificate,
    ca_key: &rcgen::KeyPair,
) -> (r: Result<(rcgen::Certificate, rcgen::KeyPair), String>)
    requires
        name_writable(cert_contents(*ca).subject),
    ensures
        !ascii(host@) ==> r is Err && r->Err_0@ == foreign_error(host@),
        r is Ok ==> (r->Ok_0).1 == key && is_for_host(cert_contents((r->Ok_0).0), host@) && signs(
            *ca,
            *ca_key,
            key,
            (r->Ok_0).0,
        ),
{
    match host_params(host) {
        Err(e) => Err(e),
        Ok(p) => match sign(p, &key, ca, ca_key) {
            Ok(c) => Ok((c, key)),
            Err(e) => Err(e),
        },
    }
}

/// Whether the authority that two texts hold signed a certificate for a key pair.
pub open spec fn signed_by_held(
    ca_cert_pem: Seq<char>,
    ca_key_pem: Seq<char>,
    c: rcgen::Certificate,
    key: rcgen::KeyPair,
) -> bool {
    exists|ca: rcgen::Certificate, ca_key: rcgen::KeyPair| #[trigger]
        held_authority(ca_cert_pem, ca_key_pem, ca, ca_key) && signs(ca, ca_key, key, c)
}

/// Makes a certificate for a host, with a key pair of its own, signed by the authority that
/// two texts hold.
pub fn make_cert(host: &str, ca_cert_pem: &str, ca_key_pem: &str) -> (r: Result<
    (rcgen::Certificate, rcgen::KeyPair),
    String,
>)
    requires
        rewritable(ca_cert_pem@),
    ensures
        key_error(ca_key_pem@) is Some ==> r is Err && r->Err_0@ == key_error(ca_key_pem@)->0,
        ca_read(ca_cert_pem@) is Err ==> r is Err,
        !ascii(host@) ==> r is Err,
        r is Ok ==> is_for_host(cert_contents((r->Ok_0).0), host@) && signed_by_held(
            ca_cert_pem@,
            ca_key_pem@,
            (r->Ok_0).0,
            (r->Ok_0).1,
        ),
{
    match load_authority(ca_cert_pem, ca_key_pem) {
        Err(e) => Err(e),
        Ok((ca, ca_key)) => match new_key() {
            Err(e) => Err(e),
            Ok(key) => {
                let r = sign_host(host, key, &ca, &ca_key);
                assert(held_authority(ca_cert_pem@, ca_key_pem@, ca, ca_key));
                r
            },
        },
    }
}

/// Makes a certificate for a host; nothing where the certificate of the authority cannot be
/// written again.
pub fn host_certificate(host: &str, ca_cert_pem: &str, ca_key_pem: &str) -> (r: Option<
    Result<(rcgen::Certificate, rcgen::KeyPair), String>,
>)
    ensures
        match r {
            None => !rewritable(ca_cert_pem@),
            Some(a) => {
                &&& rewritable(ca_cert_pem@)
                &&& key_error(ca_key_pem@) is Some ==> a is Err && a->Err_0@ == key_error(
                    ca_key_pem@,
                )->0
                &&& ca_read(ca_cert_pem@) is Err ==> a is Err
                &&& !ascii(host@) ==> a is Err
                &&& a is Ok ==> is_for_host(cert_contents((a->Ok_0).0), host@) && signed_by_held(
                    ca_cert_pem@,
                    ca_key_pem@,
                    (a->Ok_0).0,
                    (a->Ok_0).1,
                )
            },
        },
{
    if can_rewrite(ca_cert_pem) {
        Some(make_cert(host, ca_cert_pem, ca_key_pem))
    } else {
        None
    }
}

/// A certificate that is made for a host names that host and no other, whatever authority
/// signs it and whatever keys are drawn.
pub proof fn certificates_tell_hosts_apart(v: CertV, a: Seq<char>, b: Seq<char>)
    requires
        is_for_host(v, a),
        is_for_host(v, b),
    ensures
        a == b,
{
    assert(v.subject[0] == (NameKindV::Common, NameTextV::Utf8(a)));
    assert(v.subject[0] == (NameKindV::Common, NameTextV::Utf8(b)));
}

/// The systems that differ in how a certificate comes to be trusted.
#[derive(Debug, Clone, Copy, PartialEq, Eq, Structural)]
pub enum Platform {
    MacOs,
    Linux,
    Windows,
}

/// The commands that make a system trust a certificate, in order; the last one
/// decides.
pub open spec fn trusting(platform: Platform, ca: Seq<char>) -> Seq<Seq<Seq<char>>> {
    match platform {
        Platform::MacOs => seq![
            seq![
                "sudo"@,
                "security"@,
                "add-trusted-cert"@,
                "-d"@,
                "-r"@,
                "trustRoot"@,
                "-k"@,
                "/Library/Keychains/System.keychain"@,
                ca,
            ],
        ],
        Platform::Linux => seq![
            seq![
                "sudo"@,
                "cp"@,
                ca,
                "/usr/local/share/ca-certificates/starling-ca.crt"@,
            ],
            seq!["sudo"@, "update-ca-certificates"@],
        ],
        Platform::Windows => seq![seq!["certutil"@, "-addstore"@, "-f"@, "ROOT"@, ca]],
    }
}

/// The arguments of commands.
pub open spec fn argvs(v: Seq<Vec<String>>) -> Seq<Seq<Seq<char>>> {
    v.map_values(|a: Vec<String>| texts(a@))
}

/// The commands that make a system trust a certificate, in order; the last one
/// decides.
pub fn trust_commands(platform: Platform, ca: &str) -> (r: Vec<Vec<String>>)
    ensures
        argvs(r@) == trusting(platform, ca@),
{
    let mut r: Vec<Vec<String>> = Vec::new();
    match platform {
        Platform::MacOs => {
            let mut a: Vec<String> = Vec::new();
            a.push(owned("sudo"));
            a.push(owned("security"));
            a.push(owned("add-trusted-cert"));
            a.push(owned("-d"));
            a.push(owned("-r"));
            a.push(owned("trustRoot"));
            a.push(owned("-k"));
            a.push(owned("/Library/Keychains/System.keychain"));
            a.push(owned(ca));
            assert(texts(a@) =~= trusting(platform, ca@)[0]);
            r.push(a);
        },
        Platform::Linux => {
            let mut a: Vec<String> = Vec::new();
            a.push(owned("sudo"));
            a.push(owned("cp"));
            a.push(owned(ca));
            a.push(owned("/usr/local/share/ca-certificates/starling-ca.crt"));
            assert(texts(a@) =~= trusting(platform, ca@)[0]);
            r.push(a);
            let mut b: Vec<String> = Vec::new();
            b.push(owned("sudo"));
            b.push(owned("update-ca-certificates"));
            assert(texts(b@) =~= trusting(platform, ca@)[1]);
            r.push(b);
        },
        Platform::Windows => {
            let mut a: Vec<String> = Vec::new();
            a.push(owned("certutil"));
            a.push(owned("-addstore"));
            a.push(owned("-f"));
            a.push(owned("ROOT"));
            a.push(owned(ca));
            assert(texts(a@) =~= trusting(platform, ca@)[0]);
            r.push(a);
        },
    }
    assert(argvs(r@) =~= trusting(platform, ca@));
    r
}

} // verus!
