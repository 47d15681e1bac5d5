//! What certificates say, and the calls that make, read and sign them.

use vstd::prelude::*;
use vstd::string::*;

use crate::text::{chars_of, texts};

verus! {

/// The parameters of a certificate as `rcgen` holds them.
#[verifier::external_type_specification]
#[verifier::external_body]
pub struct ExCertificateParams(rcgen::CertificateParams);

/// A certificate as `rcgen` holds it.
#[verifier::external_type_specification]
#[verifier::external_body]
pub struct ExCertificate(rcgen::Certificate);

/// A key pair as `rcgen` holds it.
#[verifier::external_type_specification]
#[verifier::external_body]
pub struct ExKeyPair(rcgen::KeyPair);

/// A distinguished name as `rcgen` holds it.
#[verifier::external_type_specification]
#[verifier::external_body]
pub struct ExDistinguishedName(rcgen::DistinguishedName);

/// What an entry of a distinguished name is.
#[derive(Debug)]
pub enum NameKind {
    Common,
    Organization,
    /// One that is given by its object identifier.
    Custom(Vec<u64>),
    /// Another of those that have a name of their own.
    Other,
}

/// What an entry of a distinguished name is, as a mathematical object.
pub enum NameKindV {
    Common,
    Organization,
    Custom(Seq<u64>),
    Other,
}

impl View for NameKind {
    type V = NameKindV;

    open spec fn view(&self) -> NameKindV {
        match self {
            NameKind::Common => NameKindV::Common,
            NameKind::Organization => NameKindV::Organization,
            NameKind::Custom(o) => NameKindV::Custom(o@),
            NameKind::Other => NameKindV::Other,
        }
    }
}

/// The value of an entry, by how it is written.
#[derive(Debug)]
pub enum NameText {
    Utf8(String),
    Printable(String),
    /// A value in another of the encodings.
    Other,
}

/// The value of an entry, as a mathematical object.
pub enum NameTextV {
    Utf8(Seq<char>),
    Printable(Seq<char>),
    Other,
}

impl View for NameText {
    type V = NameTextV;

    open spec fn view(&self) -> NameTextV {
        match self {
            NameText::Utf8(s) => NameTextV::Utf8(s@),
            NameText::Printable(s) => NameTextV::Printable(s@),
            NameText::Other => NameTextV::Other,
        }
    }
}

/// An entry of a distinguished name.
#[derive(Debug)]
pub struct NameEntry {
    pub kind: NameKind,
    pub text: NameText,
}

/// The contents of the entries of a distinguished name.
pub open spec fn entries_of(v: Seq<NameEntry>) -> Seq<(NameKindV, NameTextV)> {
    v.map_values(|e: NameEntry| (e.kind@, e.text@))
}

/// An alternative name of the subject.
#[derive(Debug)]
pub enum AltName {
    Dns(String),
    /// An address, as it is written.
    Ip(String),
    /// A name of a kind that is given by its object identifier.
    Custom(Vec<u64>),
    Other,
}

/// An alternative name of the subject, as a mathematical object.
pub enum AltV {
    Dns(Seq<char>),
    Ip(Seq<char>),
    Custom(Seq<u64>),
    Other,
}

impl View for AltName {
    type V = AltV;

    open spec fn view(&self) -> AltV {
        match self {
            AltName::Dns(s) => AltV::Dns(s@),
            AltName::Ip(s) => AltV::Ip(s@),
            AltName::Custom(o) => AltV::Custom(o@),
            AltName::Other => AltV::Other,
        }
    }
}

/// The contents of alternative names.
pub open spec fn alts_of(v: Seq<AltName>) -> Seq<AltV> {
    v.map_values(|a: AltName| a@)
}

/// A part of the names that an authority is limited to, or barred from.
#[derive(Debug)]
pub enum Subtree {
    Text(String),
    Name(rcgen::DistinguishedName),
    Net,
}

/// A part of the names, as a mathematical object.
pub enum SubtreeV {
    Text(Seq<char>),
    Name(Seq<(NameKindV, NameTextV)>),
    Net,
}

impl View for Subtree {
    type V = SubtreeV;

    open spec fn view(&self) -> SubtreeV {
        match self {
            Subtree::Text(s) => SubtreeV::Text(s@),
            Subtree::Name(n) => SubtreeV::Name(name_contents(*n)),
            Subtree::Net => SubtreeV::Net,
        }
    }
}

/// The contents of parts of the names.
pub open spec fn subtrees_of(v: Seq<Subtree>) -> Seq<SubtreeV> {
    v.map_values(|s: Subtree| s@)
}

/// A time: the year that it is in where it was written down, and the seconds since 1970.
#[derive(Debug, Clone, Copy, PartialEq, Eq, Structural)]
pub struct CertTime {
    pub year: i32,
    pub unix: i64,
}

/// What the key of a certificate may be used for.
#[derive(Debug, Clone, Copy, PartialEq, Eq, Structural)]
pub enum KeyUse {
    CertSign,
    CrlSign,
    DigitalSignature,
}

/// Whether a certificate is that of an authority: it does not say so, it says that it is
/// not, or it is, with a limit to how many authorities may stand below it.
pub enum Authority {
    Unsaid,
    No,
    Yes(Option<u8>),
}

/// What a certificate says.
pub struct CertV {
    pub subject: Seq<(NameKindV, NameTextV)>,
    pub alts: Seq<AltV>,
    pub authority: Authority,
    /// The uses of the key, as far as they are among those that are told apart here.
    pub uses: Seq<KeyUse>,
    pub from: CertTime,
    pub until: CertTime,
    pub subtrees: Seq<SubtreeV>,
    /// Whether it says nothing else: no serial number of its own, no further uses, lists
    /// or extensions.
    pub plain: bool,
}

/// What parameters say of a certificate.
pub uninterp spec fn contents(p: rcgen::CertificateParams) -> CertV;

/// What `rcgen::Certificate::params` says of a certificate.
pub uninterp spec fn cert_contents(c: rcgen::Certificate) -> CertV;

/// The entries of a distinguished name, in order.
pub uninterp spec fn name_contents(n: rcgen::DistinguishedName) -> Seq<(NameKindV, NameTextV)>;

/// The address that `IpAddr::from_str` reads from a text, as it is written again; nothing
/// where the text is no address.
pub uninterp spec fn ip_text(s: Seq<char>) -> Option<Seq<char>>;

/// What `rcgen::CertificateParams::from_ca_cert_pem` reads from a text, or the text of its
/// error.
pub uninterp spec fn ca_read(pem: Seq<char>) -> Result<CertV, Seq<char>>;

/// The error of `rcgen::KeyPair::from_pem` on a text that holds no key.
pub uninterp spec fn key_error(pem: Seq<char>) -> Option<Seq<char>>;

/// Whether a key pair is one that `rcgen::KeyPair::from_pem` returns for a text.
pub uninterp spec fn key_in(pem: Seq<char>, key: rcgen::KeyPair) -> bool;

/// Whether a certificate is one that `rcgen::CertificateParams::self_signed` returns for a
/// key pair: it is for the public key of the pair, and signed by the pair.
pub uninterp spec fn self_signs(key: rcgen::KeyPair, c: rcgen::Certificate) -> bool;

/// Whether a certificate is one that `rcgen::CertificateParams::signed_by` returns for an
/// issuer, its key pair and a key pair: it is for the public key of the latter, names the
/// subject of the issuer as its issuer, and is signed by the issuer's key pair.
pub uninterp spec fn signs(
    issuer: rcgen::Certificate,
    issuer_key: rcgen::KeyPair,
    key: rcgen::KeyPair,
    c: rcgen::Certificate,
) -> bool;

/// Whether a text is made of ASCII characters.
pub open spec fn ascii(s: Seq<char>) -> bool {
    forall|i: int| 0 <= i < s.len() ==> (#[trigger] s[i] as u32) < 128
}

/// The alternative name for a host, given the address that it is, if it is one.
pub open spec fn alt_for(host: Seq<char>, ip: Option<Seq<char>>) -> AltV {
    match ip {
        Some(a) => AltV::Ip(a),
        None => AltV::Dns(host),
    }
}

/// What new parameters with alternative names say.
pub open spec fn fresh(alts: Seq<AltV>) -> CertV {
    CertV {
        subject: seq![(NameKindV::Common, NameTextV::Utf8("rcgen self signed cert"@))],
        alts,
        authority: Authority::Unsaid,
        uses: Seq::empty(),
        from: CertTime { year: 1975, unix: 157766400 },
        until: CertTime { year: 4096, unix: 67090118400 },
        subtrees: Seq::empty(),
        plain: true,
    }
}

/// The first of the hosts, not before `i`, that is not made of ASCII characters.
pub open spec fn first_foreign(hosts: Seq<Seq<char>>, i: int) -> Option<Seq<char>>
    decreases hosts.len() - i,
{
    if i < 0 || i >= hosts.len() {
        None
    } else if !ascii(hosts[i]) {
        Some(hosts[i])
    } else {
        first_foreign(hosts, i + 1)
    }
}

/// The error on a host that cannot stand in a certificate.
pub open spec fn foreign_error(host: Seq<char>) -> Seq<char> {
    "Invalid IA5String: '"@ + host + "'"@
}

/// `rcgen::CertificateParams::new`: the hosts are the alternative names of the subject,
/// addresses as such, and everything else is as by default. A host that is not made of
/// ASCII characters is an error.
#[verifier::external_body]
pub(crate) fn params_new(hosts: Vec<String>) -> (r: Result<rcgen::CertificateParams, String>)
    ensures
        match r {
            Ok(p) => first_foreign(texts(hosts@), 0) is None && contents(p) == fresh(
                Seq::new(
                    hosts@.len(),
                    |i: int| alt_for(texts(hosts@)[i], ip_text(texts(hosts@)[i])),
                ),
            ),
            Err(e) => first_foreign(texts(hosts@), 0) is Some && e@ == foreign_error(
                first_foreign(texts(hosts@), 0)->0,
            ),
        },
{
    rcgen::CertificateParams::new(hosts).map_err(|e| e.to_string())
}

/// The index of the first entry of a kind, not before `i`; the number of entries where
/// there is none.
pub open spec fn entry_index(v: Seq<(NameKindV, NameTextV)>, kind: NameKindV, i: int) -> int
    decreases v.len() - i,
{
    if i < 0 || i >= v.len() {
        v.len() as int
    } else if v[i].0 == kind {
        i
    } else {
        entry_index(v, kind, i + 1)
    }
}

/// The entries with the one of a kind set.
pub open spec fn entry_set(
    v: Seq<(NameKindV, NameTextV)>,
    kind: NameKindV,
    text: Seq<char>,
) -> Seq<(NameKindV, NameTextV)> {
    let i = entry_index(v, kind, 0);
    if i < v.len() {
        v.update(i, (kind, NameTextV::Utf8(text)))
    } else {
        v.push((kind, NameTextV::Utf8(text)))
    }
}

/// The entries of the subject that are set here.
#[derive(Debug, Clone, Copy, PartialEq, Eq, Structural)]
pub enum SubjectPart {
    Common,
    Organization,
}

/// The kind of an entry of the subject.
pub open spec fn part_kind(part: SubjectPart) -> NameKindV {
    match part {
        SubjectPart::Common => NameKindV::Common,
        SubjectPart::Organization => NameKindV::Organization,
    }
}

/// `rcgen::DistinguishedName::push` on the subject, with a text in UTF-8: the entry of the
/// kind is set, in its place where there is one, else behind the others.
#[verifier::external_body]
pub(crate) fn with_subject(p: rcgen::CertificateParams, part: SubjectPart, text: &str) -> (r:
    rcgen::CertificateParams)
    ensures
        contents(r) == (CertV {
            subject: entry_set(contents(p).subject, part_kind(part), text@),
            ..contents(p)
        }),
{
    let mut p = p;
    let kind = match part {
        SubjectPart::Common => rcgen::DnType::CommonName,
        SubjectPart::Organization => rcgen::DnType::OrganizationName,
    };
    p.distinguished_name.push(kind, text);
    p
}

/// Sets the field `is_ca` of `rcgen::CertificateParams`: the certificate is that of an
/// authority, with a limit to how many may stand below it or without one.
#[verifier::external_body]
pub(crate) fn with_authority(p: rcgen::CertificateParams, limit: Option<u8>) -> (r:
    rcgen::CertificateParams)
    ensures
        contents(r) == (CertV { authority: Authority::Yes(limit), ..contents(p) }),
{
    let mut p = p;
    p.is_ca = rcgen::IsCa::Ca(match limit {
        None => rcgen::BasicConstraints::Unconstrained,
        Some(n) => rcgen::BasicConstraints::Constrained(n),
    });
    p
}

/// Sets the field `key_usages` of `rcgen::CertificateParams`.
#[verifier::external_body]
pub(crate) fn with_uses(p: rcgen::CertificateParams, uses: Vec<KeyUse>) -> (r:
    rcgen::CertificateParams)
    ensures
        contents(r) == (CertV { uses: uses@, ..contents(p) }),
{
    let mut p = p;
    p.key_usages = uses.into_iter().map(|u| match u {
        KeyUse::CertSign => rcgen::KeyUsagePurpose::KeyCertSign,
        KeyUse::CrlSign => rcgen::KeyUsagePurpose::CrlSign,
        KeyUse::DigitalSignature => rcgen::KeyUsagePurpose::DigitalSignature,
    }).collect();
    p
}

/// `rcgen::CertificateParams::from_ca_cert_pem`. Nothing is said of the syntax of
/// certificates.
#[verifier::external_body]
pub(crate) fn params_from_pem(pem: &str) -> (r: Result<rcgen::CertificateParams, String>)
    ensures
        match r {
            Ok(p) => ca_read(pem@) == Ok::<CertV, Seq<char>>(contents(p)),
            Err(e) => ca_read(pem@) == Err::<CertV, Seq<char>>(e@),
        },
{
    rcgen::CertificateParams::from_ca_cert_pem(pem).map_err(|e| e.to_string())
}

/// `rcgen::KeyPair::from_pem`. It draws on the machine's source of random numbers, so that
/// a text that holds a key can be refused, and the pair differs from call to call.
#[verifier::external_body]
pub(crate) fn key_from_pem(pem: &str) -> (r: Result<rcgen::KeyPair, String>)
    ensures
        key_error(pem@) is Some ==> r is Err && r->Err_0@ == key_error(pem@)->0,
        r is Ok ==> key_in(pem@, r->Ok_0),
{
    rcgen::KeyPair::from_pem(pem).map_err(|e| e.to_string())
}

/// `rcgen::KeyPair::generate`: a random key pair, so nothing is claimed of it.
#[verifier::external_body]
pub(crate) fn new_key() -> (r: Result<rcgen::KeyPair, String>)
{
    rcgen::KeyPair::generate().map_err(|e| e.to_string())
}

/// The variants of the entries of a `rcgen::DistinguishedName`, taken one by one.
#[verifier::external_body]
pub(crate) fn name_entries(n: &rcgen::DistinguishedName) -> (r: Vec<NameEntry>)
    ensures
        entries_of(r@) == name_contents(*n),
{
    n.iter().map(|(t, v)| NameEntry {
        kind: match t {
            rcgen::DnType::CommonName => NameKind::Common,
            rcgen::DnType::OrganizationName => NameKind::Organization,
            rcgen::DnType::CustomDnType(o) => NameKind::Custom(o.clone()),
            _ => NameKind::Other,
        },
        text: match v {
            rcgen::DnValue::Utf8String(s) => NameText::Utf8(s.clone()),
            rcgen::DnValue::PrintableString(s) => NameText::Printable(s.to_string()),
            _ => NameText::Other,
        },
    }).collect()
}

/// The field `distinguished_name` of `rcgen::CertificateParams`.
#[verifier::external_body]
fn subject_name(p: &rcgen::CertificateParams) -> (r: rcgen::DistinguishedName)
    ensures
        name_contents(r) == contents(*p).subject,
{
    p.distinguished_name.clone()
}

/// The field `subject_alt_names` of `rcgen::CertificateParams`, its variants taken one by
/// one.
#[verifier::external_body]
fn alt_names(p: &rcgen::CertificateParams) -> (r: Vec<AltName>)
    ensures
        alts_of(r@) == contents(*p).alts,
{
    p.subject_alt_names.iter().map(|a| match a {
        rcgen::SanType::DnsName(s) => AltName::Dns(s.to_string()),
        rcgen::SanType::IpAddress(ip) => AltName::Ip(ip.to_string()),
        rcgen::SanType::OtherName((o, _)) => AltName::Custom(o.clone()),
        _ => AltName::Other,
    }).collect()
}

/// The parts of names in the field `name_constraints` of `rcgen::CertificateParams`, first
/// those that are permitted, then those that are excluded, their variants taken one by one.
#[verifier::external_body]
fn subtrees(p: &rcgen::CertificateParams) -> (r: Vec<Subtree>)
    ensures
        subtrees_of(r@) == contents(*p).subtrees,
{
    p.name_constraints.iter().flat_map(|c| [&c.permitted_subtrees, &c.excluded_subtrees])
        .flatten().map(|t| match t {
            rcgen::GeneralSubtree::Rfc822Name(s) => Subtree::Text(s.clone()),
            rcgen::GeneralSubtree::DnsName(s) => Subtree::Text(s.clone()),
            rcgen::GeneralSubtree::DirectoryName(n) => Subtree::Name(n.clone()),
            _ => Subtree::Net,
        }).collect()
}

/// The fields `not_before` and `not_after` of `rcgen::CertificateParams`: the year of each,
/// and `OffsetDateTime::unix_timestamp`.
#[verifier::external_body]
fn validity(p: &rcgen::CertificateParams) -> (r: (CertTime, CertTime))
    ensures
        r.0 == contents(*p).from,
        r.1 == contents(*p).until,
{
    let (a, b) = (p.not_before, p.not_after);
    (
        CertTime { year: a.year(), unix: a.unix_timestamp() },
        CertTime { year: b.year(), unix: b.unix_timestamp() },
    )
}

/// Whether an object identifier can be written.
pub open spec fn oid_writable(o: Seq<u64>) -> bool {
    o.len() >= 2 && o[0] < 3 && o[1] < 18446744073709551535 && (o[0] == 2 || o[1] < 40)
}

/// Whether an entry of a distinguished name can be written: its identifier can, and it has
/// no question mark where it is to be printable.
pub open spec fn entry_writable(e: (NameKindV, NameTextV)) -> bool {
    &&& match e.0 {
        NameKindV::Custom(o) => oid_writable(o),
        _ => true,
    }
    &&& match e.1 {
        NameTextV::Printable(s) => !s.contains('?'),
        _ => true,
    }
}

/// Whether a distinguished name can be written.
pub open spec fn name_writable(v: Seq<(NameKindV, NameTextV)>) -> bool {
    forall|i: int| 0 <= i < v.len() ==> entry_writable(#[trigger] v[i])
}

/// Whether an alternative name can be written.
pub open spec fn alt_writable(a: AltV) -> bool {
    match a {
        AltV::Custom(o) => oid_writable(o),
        _ => true,
    }
}

/// Whether a part of the names can be written.
pub open spec fn subtree_writable(t: SubtreeV) -> bool {
    match t {
        SubtreeV::Text(s) => ascii(s),
        SubtreeV::Name(v) => name_writable(v),
        SubtreeV::Net => true,
    }
}

/// Whether a time can be written: in two digits for the year where the year says so, else
/// in four.
pub open spec fn time_writable(t: CertTime) -> bool {
    if 1950 <= t.year < 2050 {
        -631152000 <= t.unix < 2524608000
    } else {
        -62167219200 <= t.unix < 253402300800
    }
}

/// Whether what a certificate says can be written.
pub open spec fn writable(v: CertV) -> bool {
    &&& name_writable(v.subject)
    &&& forall|i: int| 0 <= i < v.alts.len() ==> alt_writable(#[trigger] v.alts[i])
    &&& forall|i: int| 0 <= i < v.subtrees.len() ==> subtree_writable(#[trigger] v.subtrees[i])
    &&& time_writable(v.from) && time_writable(v.until)
}

/// `rcgen::CertificateParams::self_signed`. It panics on parameters that cannot be written.
/// The signature can fail and differ from call to call; the certificate says what the
/// parameters say.
#[verifier::external_body]
pub(crate) fn self_sign(p: rcgen::CertificateParams, key: &rcgen::KeyPair) -> (r: Result<
    rcgen::Certificate,
    String,
>)
    requires
        writable(contents(p)),
    ensures
        r is Ok ==> cert_contents(r->Ok_0) == contents(p) && self_signs(*key, r->Ok_0),
{
    p.self_signed(key).map_err(|e| e.to_string())
}

/// `rcgen::CertificateParams::signed_by`. It panics on parameters that cannot be written,
/// and on an issuer whose subject cannot. The signature can fail and differ from call to
/// call; the certificate says what the parameters say.
#[verifier::external_body]
pub(crate) fn sign(
    p: rcgen::CertificateParams,
    key: &rcgen::KeyPair,
    issuer: &rcgen::Certificate,
    issuer_key: &rcgen::KeyPair,
) -> (r: Result<rcgen::Certificate, String>)
    requires
        writable(contents(p)),
        name_writable(cert_contents(*issuer).subject),
    ensures
        r is Ok ==> cert_contents(r->Ok_0) == contents(p) && signs(
            *issuer,
            *issuer_key,
            *key,
            r->Ok_0,
        ),
{
    p.signed_by(key, issuer, issuer_key).map_err(|e| e.to_string())
}

fn can_write_oid(o: &Vec<u64>) -> (r: bool)
    ensures
        r == oid_writable(o@),
{
    o.len() >= 2 && o[0] < 3 && o[1] < 18446744073709551535 && (o[0] == 2 || o[1] < 40)
}

fn has_char(s: &str, c: char) -> (r: bool)
    ensures
        r == s@.contains(c),
{
    let v = chars_of(s);
    let mut i: usize = 0;
    while i < v.len()
        invariant
            i <= v@.len(),
            v@ == s@,
            forall|j: int| 0 <= j < i ==> v@[j] != c,
        decreases v@.len() - i,
    {
        if v[i] == c {
            assert(s@[i as int] == c);
            return true;
        }
        i += 1;
    }
    false
}

fn is_ascii(s: &str) -> (r: bool)
    ensures
        r == ascii(s@),
{
    let v = chars_of(s);
    let mut i: usize = 0;
    while i < v.len()
        invariant
            i <= v@.len(),
            v@ == s@,
            forall|j: int| 0 <= j < i ==> (#[trigger] s@[j] as u32) < 128,
        decreases v@.len() - i,
    {
        let n: u32 = v[i] as u32;
        if n >= 128 {
            assert(!((s@[i as int] as u32) < 128));
            return false;
        }
        i += 1;
    }
    true
}

fn can_write_name(n: &rcgen::DistinguishedName) -> (r: bool)
    ensures
        r == name_writable(name_contents(*n)),
{
    let v = name_entries(n);
    let ghost all = name_contents(*n);
    let mut i: usize = 0;
    while i < v.len()
        invariant
            i <= v@.len(),
            all == name_contents(*n),
            all == entries_of(v@),
            forall|j: int| 0 <= j < i ==> entry_writable(#[trigger] all[j]),
        decreases v@.len() - i,
    {
        assert(all[i as int] == (v@[i as int].kind@, v@[i as int].text@));
        let kind_ok = match &v[i].kind {
            NameKind::Custom(o) => can_write_oid(o),
            _ => true,
        };
        let text_ok = match &v[i].text {
            NameText::Printable(s) => !has_char(s.as_str(), '?'),
            _ => true,
        };
        if !kind_ok || !text_ok {
            assert(!entry_writable(all[i as int]));
            return false;
        }
        i += 1;
    }
    true
}

fn can_write_alts(p: &rcgen::CertificateParams) -> (r: bool)
    ensures
        r == (forall|i: int|
            0 <= i < contents(*p).alts.len() ==> alt_writable(#[trigger] contents(*p).alts[i])),
{
    let v = alt_names(p);
    let ghost all = contents(*p).alts;
    let mut i: usize = 0;
    while i < v.len()
        invariant
            i <= v@.len(),
            all == contents(*p).alts,
            all == alts_of(v@),
            forall|j: int| 0 <= j < i ==> alt_writable(#[trigger] all[j]),
        decreases v@.len() - i,
    {
        assert(all[i as int] == v@[i as int]@);
        if let AltName::Custom(o) = &v[i] {
            if !can_write_oid(o) {
                assert(!alt_writable(all[i as int]));
                return false;
            }
        }
        i += 1;
    }
    true
}

fn can_write_subtrees(p: &rcgen::CertificateParams) -> (r: bool)
    ensures
        r == (forall|i: int|
            0 <= i < contents(*p).subtrees.len() ==> subtree_writable(
                #[trigger] contents(*p).subtrees[i],
            )),
{
    let v = subtrees(p);
    let ghost all = contents(*p).subtrees;
    let mut i: usize = 0;
    while i < v.len()
        invariant
            i <= v@.len(),
            all == contents(*p).subtrees,
            all == subtrees_of(v@),
            forall|j: int| 0 <= j < i ==> subtree_writable(#[trigger] all[j]),
        decreases v@.len() - i,
    {
        assert(all[i as int] == v@[i as int]@);
        let good = match &v[i] {
            Subtree::Text(s) => is_ascii(s.as_str()),
            Subtree::Name(n) => can_write_name(n),
            Subtree::Net => true,
        };
        if !good {
            assert(!subtree_writable(all[i as int]));
            return false;
        }
        i += 1;
    }
    true
}

fn can_write_time(t: CertTime) -> (r: bool)
    ensures
        r == time_writable(t),
{
    if 1950 <= t.year && t.year < 2050 {
        -631152000 <= t.unix && t.unix < 2524608000
    } else {
        -62167219200 <= t.unix && t.unix < 253402300800
    }
}

/// Whether what parameters say can be written.
pub(crate) fn can_write(p: &rcgen::CertificateParams) -> (r: bool)
    ensures
        r == writable(contents(*p)),
{
    let (from, until) = validity(p);
    can_write_name(&subject_name(p)) && can_write_alts(p) && can_write_subtrees(p)
        && can_write_time(from) && can_write_time(until)
}

} // verus!
