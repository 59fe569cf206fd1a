//! The credential-bootstrap pipeline.
//!
//! To receive an encrypted secret, the agent generates a fresh RSA keypair
//! and a self-signed certificate over it, advertises the certificate as a
//! single-line token, and, when the platform answers with a
//! signed-and-encrypted envelope addressed to that certificate, decrypts it
//! and unpacks the keyed container inside into an SSH public key. The
//! cryptographic primitives are OpenSSL's, reached through trusted
//! wrappers; the decisions around them — PEM mangling, the empty-chain
//! rule, component assembly — are verified here.

use vstd::prelude::*;

use crate::scan::{contains_sub, contains_sub_exec, find_at, find_char, lemma_find_at, lemma_find_at_shift, matches_at};
use crate::sshkey::SshPublicKey;
use crate::util::{strip_cr, strip_cr_exec};

verus! {

/// A cryptographic failure: always fatal, never retried, since retrying
/// cannot change the outcome.
#[derive(Debug, PartialEq, Eq, Structural)]
pub enum CryptoError {
    /// The RSA keypair could not be generated.
    KeypairGeneration,
    /// Assembling or signing the self-signed certificate failed.
    CertificateBuild,
    /// The certificate could not be rendered as PEM text.
    PemEncode,
    /// The envelope is not a readable signed-and-encrypted structure.
    CmsRead,
    /// The envelope was not addressed to this credential, or decryption
    /// failed.
    CmsDecrypt,
    /// The decrypted bytes are not a readable keyed container.
    ContainerParse,
    /// The chain certificate's public key is not an extractable RSA key.
    PublicKeyExtract,
}

#[verifier::external_type_specification]
#[verifier::external_body]
pub struct ExX509(openssl::x509::X509);

#[verifier::external_type_specification]
#[verifier::external_body]
pub struct ExX509Builder(openssl::x509::X509Builder);

#[verifier::external_type_specification]
#[verifier::external_body]
pub struct ExPrivate(openssl::pkey::Private);

#[verifier::external_type_specification]
#[verifier::external_body]
#[verifier::reject_recursive_types(T)]
pub struct ExPKey<T>(openssl::pkey::PKey<T>);

/// Parameters of one ephemeral credential.
pub struct Config {
    /// Size of the generated RSA keypair, in bits.
    pub rsa_bits: u32,
    /// Length of the certificate's validity window, in days from now.
    pub expire_in_days: u32,
}

impl Config {
    pub fn new(rsa_bits: u32, expire_in_days: u32) -> (r: Self)
        ensures
            r.rsa_bits == rsa_bits,
            r.expire_in_days == expire_in_days,
    {
        Config { rsa_bits, expire_in_days }
    }
}

/// Relies on openssl's `Rsa::generate` and `PKey::from_rsa`: a fresh RSA
/// private key of the requested size, wrapped as a general-purpose key.
#[verifier::external_body]
fn generate_rsa_pkey(bits: u32) -> (r: Result<
    openssl::pkey::PKey<openssl::pkey::Private>,
    CryptoError,
>)
    ensures
        r matches Err(e) ==> e == CryptoError::KeypairGeneration,
{
    let rsa = match openssl::rsa::Rsa::generate(bits) {
        Ok(v) => v,
        Err(_) => return Err(CryptoError::KeypairGeneration),
    };
    match openssl::pkey::PKey::from_rsa(rsa) {
        Ok(v) => Ok(v),
        Err(_) => Err(CryptoError::KeypairGeneration),
    }
}

/// Relies on openssl's `X509::builder` and `X509Builder::set_version`: a
/// fresh certificate builder for an X.509 v3 certificate.
#[verifier::external_body]
fn new_cert_builder() -> (r: Result<openssl::x509::X509Builder, CryptoError>)
    ensures
        r matches Err(e) ==> e == CryptoError::CertificateBuild,
{
    let mut b = match openssl::x509::X509::builder() {
        Ok(v) => v,
        Err(_) => return Err(CryptoError::CertificateBuild),
    };
    if b.set_version(2).is_err() {
        return Err(CryptoError::CertificateBuild);
    }
    Ok(b)
}

/// Relies on openssl's `BigNum::rand` and `X509Builder::set_serial_number`:
/// gives the certificate a random positive serial number.
#[verifier::external_body]
fn set_random_serial(b: &mut openssl::x509::X509Builder) -> (r: Result<(), CryptoError>)
    ensures
        r matches Err(e) ==> e == CryptoError::CertificateBuild,
{
    let mut serial = match openssl::bn::BigNum::new() {
        Ok(v) => v,
        Err(_) => return Err(CryptoError::CertificateBuild),
    };
    if serial.rand(32, openssl::bn::MsbOption::ONE, false).is_err() {
        return Err(CryptoError::CertificateBuild);
    }
    let serial = match serial.to_asn1_integer() {
        Ok(v) => v,
        Err(_) => return Err(CryptoError::CertificateBuild),
    };
    b.set_serial_number(&serial).map_err(|_| CryptoError::CertificateBuild)
}

/// Relies on openssl's `Asn1Time::days_from_now` and the builder's validity
/// setters: the certificate is valid from now until `days` days from now.
#[verifier::external_body]
fn set_validity(b: &mut openssl::x509::X509Builder, days: u32) -> (r: Result<(), CryptoError>)
    ensures
        r matches Err(e) ==> e == CryptoError::CertificateBuild,
{
    let not_before = match openssl::asn1::Asn1Time::days_from_now(0) {
        Ok(v) => v,
        Err(_) => return Err(CryptoError::CertificateBuild),
    };
    let not_after = match openssl::asn1::Asn1Time::days_from_now(days) {
        Ok(v) => v,
        Err(_) => return Err(CryptoError::CertificateBuild),
    };
    if b.set_not_before(&not_before).is_err() {
        return Err(CryptoError::CertificateBuild);
    }
    b.set_not_after(&not_after).map_err(|_| CryptoError::CertificateBuild)
}

/// Relies on openssl's `X509Name` builder and the builder's name setters:
/// issuer and subject are both set to a single common name, as a
/// self-signed certificate requires. `append_entry_by_text` asserts that
/// the value's byte length fits a C int, so the name is required to be
/// ASCII text shorter than that.
#[verifier::external_body]
fn set_self_signed_name(
    b: &mut openssl::x509::X509Builder,
    common_name: &str,
) -> (r: Result<(), CryptoError>)
    requires
        vstd::utf8::is_ascii_chars(common_name@),
        common_name@.len() < 0x8000_0000,
    ensures
        r matches Err(e) ==> e == CryptoError::CertificateBuild,
{
    let mut nb = match openssl::x509::X509Name::builder() {
        Ok(v) => v,
        Err(_) => return Err(CryptoError::CertificateBuild),
    };
    if nb.append_entry_by_text("CN", common_name).is_err() {
        return Err(CryptoError::CertificateBuild);
    }
    let name = nb.build();
    if b.set_issuer_name(&name).is_err() {
        return Err(CryptoError::CertificateBuild);
    }
    b.set_subject_name(&name).map_err(|_| CryptoError::CertificateBuild)
}

/// Relies on openssl's `X509Builder::set_pubkey`: the certificate certifies
/// the public half of `pkey`.
#[verifier::external_body]
fn set_public_key(
    b: &mut openssl::x509::X509Builder,
    pkey: &openssl::pkey::PKey<openssl::pkey::Private>,
) -> (r: Result<(), CryptoError>)
    ensures
        r matches Err(e) ==> e == CryptoError::CertificateBuild,
{
    b.set_pubkey(pkey).map_err(|_| CryptoError::CertificateBuild)
}

/// Relies on openssl's `BasicConstraints` extension builder: marks the
/// certificate CA-capable, as the platform's signing tooling expects.
#[verifier::external_body]
fn append_basic_constraints_ca(b: &mut openssl::x509::X509Builder) -> (r: Result<(), CryptoError>)
    ensures
        r matches Err(e) ==> e == CryptoError::CertificateBuild,
{
    let bc = match openssl::x509::extension::BasicConstraints::new().ca().build() {
        Ok(v) => v,
        Err(_) => return Err(CryptoError::CertificateBuild),
    };
    b.append_extension(bc).map_err(|_| CryptoError::CertificateBuild)
}

/// Relies on openssl's `SubjectKeyIdentifier` extension builder, evaluated
/// in the builder's own X.509 v3 context.
#[verifier::external_body]
fn append_subject_key_id(b: &mut openssl::x509::X509Builder) -> (r: Result<(), CryptoError>)
    ensures
        r matches Err(e) ==> e == CryptoError::CertificateBuild,
{
    let conf = match openssl::conf::Conf::new(openssl::conf::ConfMethod::default()) {
        Ok(v) => v,
        Err(_) => return Err(CryptoError::CertificateBuild),
    };
    let skid = {
        let ctx = b.x509v3_context(None, Some(&conf));
        match openssl::x509::extension::SubjectKeyIdentifier::new().build(&ctx) {
            Ok(v) => v,
            Err(_) => return Err(CryptoError::CertificateBuild),
        }
    };
    b.append_extension(skid).map_err(|_| CryptoError::CertificateBuild)
}

/// Relies on openssl's `AuthorityKeyIdentifier` extension builder: the
/// self-referential authority key identifier, added after the subject key
/// identifier it copies.
#[verifier::external_body]
fn append_authority_key_id(b: &mut openssl::x509::X509Builder) -> (r: Result<(), CryptoError>)
    ensures
        r matches Err(e) ==> e == CryptoError::CertificateBuild,
{
    let conf = match openssl::conf::Conf::new(openssl::conf::ConfMethod::default()) {
        Ok(v) => v,
        Err(_) => return Err(CryptoError::CertificateBuild),
    };
    let akid = {
        let ctx = b.x509v3_context(None, Some(&conf));
        match openssl::x509::extension::AuthorityKeyIdentifier::new().keyid(true).issuer(
            false,
        ).build(&ctx) {
            Ok(v) => v,
            Err(_) => return Err(CryptoError::CertificateBuild),
        }
    };
    b.append_extension(akid).map_err(|_| CryptoError::CertificateBuild)
}

/// Relies on openssl's `X509Builder::sign` and `build`: self-signs the
/// certificate with SHA-256 and finishes it.
#[verifier::external_body]
fn sign_and_build(
    mut b: openssl::x509::X509Builder,
    pkey: &openssl::pkey::PKey<openssl::pkey::Private>,
) -> (r: Result<openssl::x509::X509, CryptoError>)
    ensures
        r matches Err(e) ==> e == CryptoError::CertificateBuild,
{
    if b.sign(pkey, openssl::hash::MessageDigest::sha256()).is_err() {
        return Err(CryptoError::CertificateBuild);
    }
    Ok(b.build())
}

/// Generates one ephemeral credential: a fresh RSA keypair and a
/// self-signed certificate over its public half, with a random positive
/// serial, the configured validity window, identical subject and issuer,
/// and the basic-constraints, subject-key-identifier and
/// authority-key-identifier extensions, in that order. Fails only when an
/// underlying cryptographic primitive fails; such a failure is fatal and
/// is one of the two errors the primitives report.
pub fn generate_cert(config: &Config) -> (r: Result<
    (openssl::x509::X509, openssl::pkey::PKey<openssl::pkey::Private>),
    CryptoError,
>)
    ensures
        r matches Err(e) ==> (e == CryptoError::KeypairGeneration
            || e == CryptoError::CertificateBuild),
{
    let pkey = match generate_rsa_pkey(config.rsa_bits) {
        Ok(v) => v,
        Err(e) => return Err(e),
    };
    let mut builder = match new_cert_builder() {
        Ok(v) => v,
        Err(e) => return Err(e),
    };
    match set_random_serial(&mut builder) {
        Ok(_) => (),
        Err(e) => return Err(e),
    }
    match set_validity(&mut builder, config.expire_in_days) {
        Ok(_) => (),
        Err(e) => return Err(e),
    }
    let common_name = "LinuxTransport";
    if !common_name.is_ascii() || common_name.unicode_len() >= 0x8000_0000 {
        return Err(CryptoError::CertificateBuild);
    }
    match set_self_signed_name(&mut builder, common_name) {
        Ok(_) => (),
        Err(e) => return Err(e),
    }
    match set_public_key(&mut builder, &pkey) {
        Ok(_) => (),
        Err(e) => return Err(e),
    }
    match append_basic_constraints_ca(&mut builder) {
        Ok(_) => (),
        Err(e) => return Err(e),
    }
    match append_subject_key_id(&mut builder) {
        Ok(_) => (),
        Err(e) => return Err(e),
    }
    match append_authority_key_id(&mut builder) {
        Ok(_) => (),
        Err(e) => return Err(e),
    }
    match sign_and_build(builder, &pkey) {
        Ok(cert) => Ok((cert, pkey)),
        Err(e) => Err(e),
    }
}

/// Relies on openssl's `X509Ref::to_pem` and `String::from_utf8`: the
/// certificate rendered as PEM text.
#[verifier::external_body]
fn cert_to_pem(x509: &openssl::x509::X509) -> (r: Result<String, CryptoError>)
    ensures
        r matches Err(e) ==> e == CryptoError::PemEncode,
{
    let pem = match x509.to_pem() {
        Ok(v) => v,
        Err(_) => return Err(CryptoError::PemEncode),
    };
    match String::from_utf8(pem) {
        Ok(v) => Ok(v),
        Err(_) => Err(CryptoError::PemEncode),
    }
}

pub open spec fn begin_marker() -> Seq<char> {
    "BEGIN CERTIFICATE"@
}

pub open spec fn end_marker() -> Seq<char> {
    "END CERTIFICATE"@
}

/// A line's contribution to the mangled certificate: nothing when it is a
/// PEM framing line, the line itself otherwise.
pub open spec fn line_kept(line: Seq<char>) -> Seq<char> {
    if contains_sub(line, begin_marker()) || contains_sub(line, end_marker()) {
        Seq::empty()
    } else {
        line
    }
}

/// The PEM text's lines (split at `\n`, trailing `\r` stripped) with the
/// framing lines dropped, concatenated into a single line.
pub open spec fn strip_pem_spec(s: Seq<char>) -> Seq<char>
    decreases s.len(),
{
    if s.len() == 0 {
        Seq::empty()
    } else {
        match find_at(s, seq!['\n'], 0) {
            Some(j) => {
                if 0 <= j < s.len() {
                    line_kept(strip_cr(s.subrange(0, j))) + strip_pem_spec(
                        s.subrange(j + 1, s.len() as int),
                    )
                } else {
                    line_kept(strip_cr(s))
                }
            },
            None => line_kept(strip_cr(s)),
        }
    }
}

/// Drops the PEM framing lines of `pem` and joins the remaining lines into
/// one, the single-line token the platform expects in a header.
pub fn strip_pem_framing(pem: &str) -> (r: String)
    ensures
        r@ == strip_pem_spec(pem@),
{
    let n = pem.unicode_len();
    let mut out = String::new();
    let mut p: usize = 0;
    proof {
        assert(pem@.subrange(0, n as int) =~= pem@);
        assert(out@ + strip_pem_spec(pem@.subrange(0, n as int)) =~= strip_pem_spec(pem@));
    }
    while p < n
        invariant
            p <= n,
            n == pem@.len(),
            strip_pem_spec(pem@) == out@ + strip_pem_spec(pem@.subrange(p as int, n as int)),
        decreases n - p,
    {
        let ghost suf = pem@.subrange(p as int, n as int);
        let ghost old_out = out@;
        match find_char(pem, '\n', p) {
            Some(j) => {
                proof {
                    lemma_find_at(pem@, seq!['\n'], p as int);
                    assert(matches_at(pem@, seq!['\n'], j as int));
                    lemma_find_at_shift(pem@, seq!['\n'], p as int, 0);
                    assert(pem@.subrange(p as int, j as int) =~= suf.subrange(0, j - p));
                    assert(suf.subrange(j - p + 1, suf.len() as int) =~= pem@.subrange(
                        j + 1,
                        n as int,
                    ));
                }
                let line = strip_cr_exec(pem.substring_char(p, j));
                let keep = !(contains_sub_exec(line.as_str(), "BEGIN CERTIFICATE")
                    || contains_sub_exec(line.as_str(), "END CERTIFICATE"));
                if keep {
                    out.append(line.as_str());
                }
                proof {
                    assert(strip_pem_spec(suf) == line_kept(line@) + strip_pem_spec(
                        pem@.subrange(j + 1, n as int),
                    ));
                    assert(out@ =~= old_out + line_kept(line@));
                    assert(out@ + strip_pem_spec(pem@.subrange(j + 1, n as int))
                        =~= strip_pem_spec(pem@));
                }
                p = j + 1;
            },
            None => {
                proof {
                    lemma_find_at_shift(pem@, seq!['\n'], p as int, 0);
                }
                let line = strip_cr_exec(pem.substring_char(p, n));
                let keep = !(contains_sub_exec(line.as_str(), "BEGIN CERTIFICATE")
                    || contains_sub_exec(line.as_str(), "END CERTIFICATE"));
                if keep {
                    out.append(line.as_str());
                }
                proof {
                    assert(strip_pem_spec(suf) == line_kept(line@));
                    assert(out@ =~= old_out + line_kept(line@));
                    assert(pem@.subrange(n as int, n as int) =~= Seq::<char>::empty());
                    assert(out@ + strip_pem_spec(pem@.subrange(n as int, n as int))
                        =~= strip_pem_spec(pem@));
                }
                p = n;
            },
        }
    }
    proof {
        assert(pem@.subrange(n as int, n as int) =~= Seq::<char>::empty());
        assert(out@ =~= strip_pem_spec(pem@));
    }
    out
}

/// The mangled certificate is a single line: stripping never leaves a line
/// break behind, since every kept piece is the body of one line.
pub proof fn lemma_strip_pem_no_newline(s: Seq<char>)
    ensures
        forall|i: int| 0 <= i < strip_pem_spec(s).len() ==> strip_pem_spec(s)[i] != '\n',
    decreases s.len(),
{
    if s.len() == 0 {
    } else {
        lemma_find_at(s, seq!['\n'], 0);
        match find_at(s, seq!['\n'], 0) {
            Some(j) => {
                if 0 <= j < s.len() {
                    let line = strip_cr(s.subrange(0, j));
                    let kept = line_kept(line);
                    let rest = strip_pem_spec(s.subrange(j + 1, s.len() as int));
                    assert forall|i: int| 0 <= i < line.len() implies line[i] != '\n' by {
                        assert(line[i] == s[i]);
                        assert(!matches_at(s, seq!['\n'], i));
                        if s[i] == '\n' {
                            assert forall|k: int| 0 <= k < 1 implies s[i + k] == seq!['\n'][k] by {
                                assert(k == 0);
                            }
                            assert(matches_at(s, seq!['\n'], i));
                        }
                    }
                    lemma_strip_pem_no_newline(s.subrange(j + 1, s.len() as int));
                    assert(strip_pem_spec(s) == kept + rest);
                    assert forall|i: int| 0 <= i < strip_pem_spec(s).len() implies strip_pem_spec(
                        s,
                    )[i] != '\n' by {
                        if i < kept.len() {
                            assert((kept + rest)[i] == kept[i]);
                            assert(kept[i] == line[i]);
                        } else {
                            assert((kept + rest)[i] == rest[i - kept.len()]);
                        }
                    }
                }
            },
            None => {
                let line = strip_cr(s);
                assert forall|i: int| 0 <= i < line.len() implies line[i] != '\n' by {
                    assert(line[i] == s[i]);
                    assert(!matches_at(s, seq!['\n'], i));
                    if s[i] == '\n' {
                        assert forall|k: int| 0 <= k < 1 implies s[i + k] == seq!['\n'][k] by {
                            assert(k == 0);
                        }
                        assert(matches_at(s, seq!['\n'], i));
                    }
                }
            },
        }
    }
}

/// Renders the certificate as text and strips the PEM framing, producing
/// the single-line token advertised in the certificate header: whatever
/// the certificate was, the token never contains a line break.
pub fn mangle_pem(x509: &openssl::x509::X509) -> (r: Result<String, CryptoError>)
    ensures
        r matches Ok(s) ==> forall|i: int| 0 <= i < s@.len() ==> s@[i] != '\n',
        r matches Err(e) ==> e == CryptoError::PemEncode,
{
    match cert_to_pem(x509) {
        Ok(pem) => {
            let r = strip_pem_framing(pem.as_str());
            proof {
                lemma_strip_pem_no_newline(pem@);
            }
            Ok(r)
        },
        Err(e) => Err(e),
    }
}

/// The S/MIME framing around a base64 envelope payload: MIME headers
/// naming an enveloped-data attachment, a blank line, then the payload.
pub open spec fn smime_framing_head() -> Seq<char> {
    "MIME-Version:1.0\nContent-Disposition: attachment; filename=\"Certificates.p7m\"\nContent-Type: application/x-pkcs7-mime; name=\"Certificates.p7m\"\nContent-Transfer-Encoding: base64\n\n"@
}

/// Wraps the base64 payload the secrets endpoint serves in the S/MIME
/// framing that `decrypt_cms` reads.
pub fn smime_envelope(data: &str) -> (r: String)
    ensures
        r@ == smime_framing_head() + data@,
{
    let mut s = String::from_str(
        "MIME-Version:1.0\nContent-Disposition: attachment; filename=\"Certificates.p7m\"\nContent-Type: application/x-pkcs7-mime; name=\"Certificates.p7m\"\nContent-Transfer-Encoding: base64\n\n",
    );
    s.append(data);
    s
}

/// Whether the envelope's bytes read as a signed-and-encrypted S/MIME
/// structure; what `CmsContentInfo::smime_read_cms` accepts depends on the
/// bytes alone.
pub uninterp spec fn cms_readable(smime: Seq<u8>) -> bool;

/// Relies on openssl's `CmsContentInfo::smime_read_cms` and `decrypt`:
/// reads the signed-and-encrypted S/MIME envelope and decrypts its content
/// with the recipient's private key and certificate. An envelope that does
/// not read as S/MIME is exactly the `CmsRead` error; a readable one either
/// decrypts or — malformed inside, or not addressed to this credential —
/// is the `CmsDecrypt` error. `smime_read_cms` asserts that its input fits
/// a C int, so the envelope is required to be shorter than that.
#[verifier::external_body]
pub fn decrypt_cms(
    smime: &[u8],
    pkey: &openssl::pkey::PKey<openssl::pkey::Private>,
    x509: &openssl::x509::X509,
) -> (r: Result<Vec<u8>, CryptoError>)
    requires
        smime@.len() < 0x8000_0000,
    ensures
        match r {
            Ok(_) => cms_readable(smime@),
            Err(e) => {
                if cms_readable(smime@) {
                    e == CryptoError::CmsDecrypt
                } else {
                    e == CryptoError::CmsRead
                }
            },
        },
{
    let cms = match openssl::cms::CmsContentInfo::smime_read_cms(smime) {
        Ok(v) => v,
        Err(_) => return Err(CryptoError::CmsRead),
    };
    match cms.decrypt(pkey, x509) {
        Ok(d) => Ok(d),
        Err(_) => Err(CryptoError::CmsDecrypt),
    }
}

/// Whether the keyed container's bytes open under the given password; what
/// `Pkcs12::from_der` followed by `parse2` yields depends on the bytes and
/// the password alone.
pub uninterp spec fn p12_parses(der: Seq<u8>, password: Seq<char>) -> bool;

/// How many chain certificates the opened keyed container holds.
pub uninterp spec fn p12_chain_len(der: Seq<u8>, password: Seq<char>) -> nat;

/// Relies on openssl's `Pkcs12::from_der` and `parse2`: opens the keyed
/// container with the given password and hands out its certificate chain,
/// empty when the container carries none. `parse2` turns the password into
/// a C string and panics on an interior NUL, so the password is required
/// to have none.
#[verifier::external_body]
fn p12_chain(der: &[u8], password: &str) -> (r: Result<Vec<openssl::x509::X509>, CryptoError>)
    requires
        forall|i: int| 0 <= i < password@.len() ==> password@[i] != '\0',
    ensures
        match r {
            Ok(chain) => p12_parses(der@, password@) && chain@.len() == p12_chain_len(
                der@,
                password@,
            ),
            Err(e) => !p12_parses(der@, password@) && e == CryptoError::ContainerParse,
        },
{
    let p12 = match openssl::pkcs12::Pkcs12::from_der(der) {
        Ok(v) => v,
        Err(_) => return Err(CryptoError::ContainerParse),
    };
    let parsed = match p12.parse2(password) {
        Ok(v) => v,
        Err(_) => return Err(CryptoError::ContainerParse),
    };
    match parsed.ca {
        Some(stack) => Ok(stack.into_iter().collect()),
        None => Ok(Vec::new()),
    }
}

/// Relies on openssl's `X509Ref::public_key`, `PKey::rsa`, and
/// `BigNumRef::to_vec`: the RSA public exponent and modulus of the
/// certificate's key, as big-endian bytes.
#[verifier::external_body]
fn cert_rsa_components(cert: &openssl::x509::X509) -> (r: Result<(Vec<u8>, Vec<u8>), CryptoError>)
    ensures
        r matches Err(e) ==> e == CryptoError::PublicKeyExtract,
{
    let pkey = match cert.public_key() {
        Ok(v) => v,
        Err(_) => return Err(CryptoError::PublicKeyExtract),
    };
    let rsa = match pkey.rsa() {
        Ok(v) => v,
        Err(_) => return Err(CryptoError::PublicKeyExtract),
    };
    Ok((rsa.e().to_vec(), rsa.n().to_vec()))
}

/// The SSH key a keyed container's chain holds: `None` for an empty chain —
/// the platform populated the endpoint but has no key for this instance,
/// which is success, not an error — and otherwise the bare RSA key of the
/// first chain certificate.
pub fn ssh_key_from_chain(chain: &Vec<openssl::x509::X509>) -> (r: Result<
    Option<SshPublicKey>,
    CryptoError,
>)
    ensures
        chain@.len() == 0 ==> r == Ok::<Option<SshPublicKey>, CryptoError>(None),
        match r {
            Ok(k) => {
                &&& k is Some ==> chain@.len() > 0
                &&& chain@.len() > 0 ==> (k matches Some(key) && key.options is None
                    && key.comment is None && key.data is Rsa)
            },
            Err(e) => e == CryptoError::PublicKeyExtract && chain@.len() > 0,
        },
{
    if chain.len() == 0 {
        return Ok(None);
    }
    match cert_rsa_components(&chain[0]) {
        Err(e) => Err(e),
        Ok((e, n)) => Ok(Some(SshPublicKey::from_rsa(e, n))),
    }
}

/// Opens the keyed container (its password is always empty in this
/// protocol) and extracts the SSH public key its chain holds: bytes that
/// do not open are a fatal error, an empty chain is success with no key —
/// the platform populated the endpoint but has no key for this instance —
/// and otherwise the key is the first chain certificate's bare RSA key.
pub fn p12_to_ssh_pubkey(p12_der: &[u8]) -> (r: Result<Option<SshPublicKey>, CryptoError>)
    ensures
        !p12_parses(p12_der@, Seq::<char>::empty()) ==> r == Err::<
            Option<SshPublicKey>,
            CryptoError,
        >(CryptoError::ContainerParse),
        p12_parses(p12_der@, Seq::<char>::empty()) && p12_chain_len(
            p12_der@,
            Seq::<char>::empty(),
        ) == 0 ==> r == Ok::<Option<SshPublicKey>, CryptoError>(None),
        p12_parses(p12_der@, Seq::<char>::empty()) && p12_chain_len(
            p12_der@,
            Seq::<char>::empty(),
        ) > 0 ==> (match r {
            Ok(k) => k is Some,
            Err(e) => e == CryptoError::PublicKeyExtract,
        }),
        match r {
            Ok(k) => k matches Some(key) ==> (key.options is None && key.comment is None
                && key.data is Rsa),
            Err(e) => e == CryptoError::ContainerParse || e == CryptoError::PublicKeyExtract,
        },
{
    proof {
        reveal_strlit("");
        assert(""@ =~= Seq::<char>::empty());
    }
    let chain = match p12_chain(p12_der, "") {
        Ok(v) => v,
        Err(e) => return Err(e),
    };
    ssh_key_from_chain(&chain)
}

} // verus!
