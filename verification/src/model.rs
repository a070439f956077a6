//! The library's view of one parsed certificate: the subject distinguished
//! name as a sequence of relative distinguished names (each a non-empty run
//! of attribute-value assertions), plus the raw subject and serial bytes.

use vstd::prelude::*;

verus! {

/// Mathematical view of one attribute-value assertion: the attribute type as
/// its DER-encoded object-identifier bytes, and the value as text.
pub ghost struct AvaView {
    pub oid: Seq<u8>,
    pub value: Seq<char>,
}

/// One attribute-value assertion of a relative distinguished name.
pub struct Ava {
    /// DER content bytes of the attribute-type object identifier.
    pub oid_der: Vec<u8>,
    /// The attribute value, already rendered as text.
    pub value: String,
}

impl View for Ava {
    type V = AvaView;

    open spec fn view(&self) -> AvaView {
        AvaView { oid: self.oid_der@, value: self.value@ }
    }
}

/// View of one relative distinguished name: its assertions in native order.
pub open spec fn rdn_view(rdn: Seq<Ava>) -> Seq<AvaView> {
    rdn.map_values(|a: Ava| a@)
}

/// View of a whole distinguished name: its relative distinguished names in
/// parse order.
pub open spec fn dn_view(dn: Seq<Vec<Ava>>) -> Seq<Seq<AvaView>> {
    dn.map_values(|r: Vec<Ava>| rdn_view(r@))
}

/// Mathematical view of one parsed certificate.
pub ghost struct CertView {
    /// Raw DER bytes of the whole subject name element.
    pub subject_raw: Seq<u8>,
    /// Raw serial-number content bytes, unsigned, as stored.
    pub serial: Seq<u8>,
    /// The subject distinguished name, in parse order.
    pub dn: Seq<Seq<AvaView>>,
}

/// One parsed certificate, reduced to the parts a table entry needs.
pub struct CertInfo {
    /// Raw DER bytes of the whole subject name element.
    pub subject_raw: Vec<u8>,
    /// Raw serial-number content bytes, unsigned, as stored.
    pub serial: Vec<u8>,
    /// The subject distinguished name, in parse order.
    pub dn: Vec<Vec<Ava>>,
}

impl View for CertInfo {
    type V = CertView;

    open spec fn view(&self) -> CertView {
        CertView {
            subject_raw: self.subject_raw@,
            serial: self.serial@,
            dn: dn_view(self.dn@),
        }
    }
}

/// Why a certificate could not be turned into a table entry. Any of these
/// aborts the whole run: there is no partial-record output.
#[derive(Clone, Copy, Debug, PartialEq, Eq, Structural)]
pub enum CertError {
    /// The input path could not be read. Produced only by callers that do the
    /// reading; the library itself never returns it.
    IoError,
    /// The bytes are neither a valid PEM block nor DER of an X.509 certificate.
    DecodeError,
    /// The DER parsed, but a distinguished-name value cannot be rendered as text.
    StructuralParseError,
}

} // verus!
