//! Calls into the outside crates that do the cryptographic and structural
//! work: hashing, base64, PEM framing, X.509 parsing and the object-identifier
//! registry. Each call stands behind one trusted wrapper; what a wrapper's
//! result is gets a name that the rest of the library reasons with.

use vstd::prelude::*;

use crate::model::{Ava, CertError, CertInfo, CertView};
use base64::Engine;
use sha2::Digest;
use x509_parser::prelude::FromDer;

verus! {

/// The SHA-256 digest of a byte sequence.
pub uninterp spec fn sha256_of(data: Seq<u8>) -> Seq<u8>;

/// Relies on sha2's `Sha256` (through `Digest::digest`): the SHA-256 digest of
/// the input, always 32 bytes.
#[verifier::external_body]
pub fn sha256(data: &[u8]) -> (r: Vec<u8>)
    ensures
        r@ == sha256_of(data@),
        r@.len() == 32,
{
    sha2::Sha256::digest(data).to_vec()
}

/// The base64 text (standard alphabet, padded) of a byte sequence.
pub uninterp spec fn base64_of(data: Seq<u8>) -> Seq<char>;

/// Relies on base64's `STANDARD` engine (`Engine::encode`): standard alphabet
/// with padding, so the output holds exactly four characters for every three
/// input bytes, the last group padded. The length bound keeps the engine's
/// own output-size calculation from overflowing, on which it would panic.
#[verifier::external_body]
pub fn base64_encode(data: &[u8]) -> (r: String)
    requires
        data@.len() <= 3 * ((usize::MAX - 4) / 4) + 2,
    ensures
        r@ == base64_of(data@),
        r@.len() == 4 * ((data@.len() + 2) / 3),
{
    base64::engine::general_purpose::STANDARD.encode(data)
}

/// The payload of the first PEM block of a byte sequence, if the bytes are
/// valid PEM framing at all.
pub uninterp spec fn pem_contents_of(data: Seq<u8>) -> Option<Seq<u8>>;

/// Relies on `pem::parse`: decodes the first PEM block and hands back its
/// payload bytes; fails exactly when the input is not valid PEM framing. The
/// payload is decoded from base64 text inside the input, so it is never
/// longer than the input.
#[verifier::external_body]
pub fn pem_decode(data: &[u8]) -> (r: Option<Vec<u8>>)
    ensures
        match r {
            Some(v) => pem_contents_of(data@) == Some(v@) && v@.len() <= data@.len(),
            None => pem_contents_of(data@) is None,
        },
{
    match pem::parse(data) {
        Ok(p) => Some(p.contents().to_vec()),
        Err(_) => None,
    }
}

/// The short display name of an object identifier, when the fixed
/// abbreviation table has one.
pub uninterp spec fn oid_abbrev_of(oid: Seq<u8>) -> Option<Seq<char>>;

/// Relies on `x509_parser::objects::oid2abbrev`: looks the identifier up in
/// the parser's fixed abbreviation table (CN, C, O, OU, ...); the default
/// registry passed alongside is empty, so the table alone decides.
#[verifier::external_body]
pub fn oid_abbrev(oid: &[u8]) -> (r: Option<String>)
    ensures
        match r {
            Some(s) => oid_abbrev_of(oid@) == Some(s@),
            None => oid_abbrev_of(oid@) is None,
        },
{
    let o = x509_parser::oid_registry::Oid::new(std::borrow::Cow::Borrowed(oid));
    let reg = x509_parser::oid_registry::OidRegistry::default();
    x509_parser::objects::oid2abbrev(&o, &reg).ok().map(|s| s.to_string())
}

/// The canonical dotted-decimal text of an object identifier (a hex rendering
/// where an arc does not fit a machine word).
pub uninterp spec fn oid_dotted_of(oid: Seq<u8>) -> Seq<char>;

/// Relies on asn1-rs's `Display` for `Oid` (via `ToString`): the
/// dotted-decimal form of the identifier's DER content bytes; total, never
/// failing, for any byte sequence.
#[verifier::external_body]
pub fn oid_dotted(oid: &[u8]) -> (r: String)
    ensures
        r@ == oid_dotted_of(oid@),
{
    x509_parser::oid_registry::Oid::new(std::borrow::Cow::Borrowed(oid)).to_string()
}

/// What parsing a byte sequence as one DER X.509 certificate yields: the raw
/// subject bytes, raw serial bytes and subject name, or the error.
pub uninterp spec fn x509_parse_of(der: Seq<u8>) -> Result<CertView, CertError>;

/// Relies on x509_parser's `X509Certificate::from_der` (structural parsing,
/// `subject().as_raw()` and `raw_serial()` views into the input) and on
/// `AttributeTypeAndValue::as_str` (string-typed name values only). The raw
/// subject and serial are subslices of the input, so never longer than it.
#[verifier::external_body]
pub fn parse_certificate(der: &[u8]) -> (r: Result<CertInfo, CertError>)
    ensures
        match r {
            Ok(c) => x509_parse_of(der@) == Ok::<CertView, CertError>(c@)
                && c.subject_raw@.len() <= der@.len() && c.serial@.len() <= der@.len(),
            Err(e) => x509_parse_of(der@) == Err::<CertView, CertError>(e),
        },
{
    let cert = match x509_parser::certificate::X509Certificate::from_der(der) {
        Ok((_, c)) => c,
        Err(_) => return Err(CertError::DecodeError),
    };
    let subject = cert.subject();
    let dn: Result<Vec<Vec<Ava>>, CertError> = subject.iter().map(|rdn| {
        rdn.iter().map(|ava| match ava.as_str() {
            Ok(s) => Ok(Ava { oid_der: ava.attr_type().as_bytes().to_vec(), value: s.to_string() }),
            Err(_) => Err(CertError::StructuralParseError),
        }).collect()
    }).collect();
    Ok(CertInfo { subject_raw: subject.as_raw().to_vec(), serial: cert.raw_serial().to_vec(), dn: dn? })
}

/// Relies on std's `String::push`: appends one character.
pub assume_specification[ String::push ](s: &mut String, c: char)
    ensures
        final(s)@ == old(s)@.push(c),
;

} // verus!
