//! One output block per certificate: a brace-wrapped record literal holding
//! the reversed-name comment, the fixed category label pair, the fingerprint
//! array, the base64 subject lines and the base64 serial line. Blocks of a
//! batch are emitted strictly in input order, and the first failing input
//! ends the batch with no partial record.

use vstd::prelude::*;
use vstd::string::*;

use crate::dn::{reverse_dn, spec_reverse_dn};
use crate::encode::{
    fingerprint_text, serial_text, spec_fingerprint_text, spec_serial_text, spec_subject_text,
    subject_text,
};
use crate::ext::{parse_certificate, pem_contents_of, pem_decode, x509_parse_of};
use crate::model::{CertError, CertInfo, CertView};

verus! {

/// The whole record block for one certificate, given its DER bytes and its
/// parsed parts.
pub open spec fn spec_record_block(der: Seq<u8>, c: CertView) -> Seq<char> {
    "  {\n    // "@ + spec_reverse_dn(c.dn) + seq!['\n'] + "    \"2.23.140.1.1\",\n"@
        + "    \"CA/Browser Forum EV OID\",\n"@ + spec_fingerprint_text(der)
        + spec_subject_text(c.subject_raw) + spec_serial_text(c.serial) + "  },\n"@
}

/// Renders the record block of one parsed certificate. The length bounds are
/// a machine limit of the base64 engine, unreachable for real inputs.
pub fn format_record(der: &Vec<u8>, cert: &CertInfo) -> (r: String)
    requires
        cert.subject_raw@.len() <= 3 * ((usize::MAX - 4) / 4) + 2,
        cert.serial@.len() <= 3 * ((usize::MAX - 4) / 4) + 2,
    ensures
        r@ == spec_record_block(der@, cert@),
{
    let mut out = String::new();
    out.append("  {\n    // ");
    let dn = reverse_dn(&cert.dn);
    out.append(dn.as_str());
    out.push('\n');
    out.append("    \"2.23.140.1.1\",\n");
    out.append("    \"CA/Browser Forum EV OID\",\n");
    let fp = fingerprint_text(der);
    out.append(fp.as_str());
    let subj = subject_text(&cert.subject_raw);
    out.append(subj.as_str());
    let ser = serial_text(&cert.serial);
    out.append(ser.as_str());
    out.append("  },\n");
    assert(out@ =~= spec_record_block(der@, cert@));
    out
}

/// The DER bytes behind an input: the payload of its first PEM block when the
/// bytes are PEM framing, else the bytes themselves, tried as DER directly.
pub open spec fn spec_to_der(bytes: Seq<u8>) -> Seq<u8> {
    match pem_contents_of(bytes) {
        Some(c) => c,
        None => bytes,
    }
}

/// Unwraps PEM framing when present; otherwise hands the input back as DER.
pub fn to_der(bytes: &Vec<u8>) -> (r: Vec<u8>)
    ensures
        r@ == spec_to_der(bytes@),
        r@.len() <= bytes@.len(),
{
    match pem_decode(bytes.as_slice()) {
        Some(c) => c,
        None => bytes.clone(),
    }
}

/// What one input turns into: its record block, or the first error met while
/// decoding or parsing it.
pub open spec fn spec_block_of(bytes: Seq<u8>) -> Result<Seq<char>, CertError> {
    match x509_parse_of(spec_to_der(bytes)) {
        Ok(c) => Ok(spec_record_block(spec_to_der(bytes), c)),
        Err(e) => Err(e),
    }
}

/// Turns the bytes of one certificate file into its record block: unwraps PEM
/// framing when present, parses the DER, and renders the block. The length
/// bound is a machine limit of the base64 engine, unreachable for real files.
pub fn make_record(bytes: &Vec<u8>) -> (r: Result<String, CertError>)
    requires
        bytes@.len() <= 3 * ((usize::MAX - 4) / 4) + 2,
    ensures
        match r {
            Ok(s) => spec_block_of(bytes@) == Ok::<Seq<char>, CertError>(s@),
            Err(e) => spec_block_of(bytes@) == Err::<Seq<char>, CertError>(e),
        },
{
    let der = to_der(bytes);
    match parse_certificate(der.as_slice()) {
        Ok(cert) => Ok(format_record(&der, &cert)),
        Err(e) => Err(e),
    }
}

/// What a batch of inputs produces: the blocks of the longest prefix of
/// inputs that all succeed, concatenated in input order, and the error of the
/// first failing input, if one fails.
pub open spec fn spec_process(inputs: Seq<Seq<u8>>) -> (Seq<char>, Option<CertError>)
    decreases inputs.len(),
{
    if inputs.len() == 0 {
        (Seq::empty(), None)
    } else {
        match spec_block_of(inputs[0]) {
            Ok(s) => {
                let rest = spec_process(inputs.drop_first());
                (s + rest.0, rest.1)
            },
            Err(e) => (Seq::empty(), Some(e)),
        }
    }
}

/// Law: block order. When every input of a batch succeeds, the batch yields
/// no error and its output is exactly the blocks of the inputs, concatenated
/// in input order with no interleaving.
pub proof fn lemma_process_in_order(inputs: Seq<Seq<u8>>)
    requires
        forall|i: int| 0 <= i < inputs.len() ==> (#[trigger] spec_block_of(inputs[i])) is Ok,
    ensures
        spec_process(inputs).1 is None,
        spec_process(inputs).0 == Seq::new(
            inputs.len(),
            |i: int| spec_block_of(inputs[i])->Ok_0,
        ).flatten(),
    decreases inputs.len(),
{
    let blocks = Seq::new(inputs.len(), |i: int| spec_block_of(inputs[i])->Ok_0);
    if inputs.len() == 0 {
        assert(blocks.flatten() =~= Seq::<char>::empty());
    } else {
        assert(spec_block_of(inputs[0]) is Ok);
        let tail = inputs.drop_first();
        assert forall|i: int| 0 <= i < tail.len() implies (#[trigger] spec_block_of(
            tail[i],
        )) is Ok by {
            assert(tail[i] == inputs[i + 1]);
            assert(spec_block_of(inputs[i + 1]) is Ok);
        }
        lemma_process_in_order(tail);
        assert(blocks.drop_first() =~= Seq::new(tail.len(), |i: int| spec_block_of(tail[i])->Ok_0));
        assert(blocks.flatten() == blocks.first().add(blocks.drop_first().flatten()));
    }
}

/// Law: fail-fast. When input `k` is the first failing input of a batch, the
/// batch output is exactly the blocks of inputs before `k`, in input order,
/// and the batch error is input `k`'s error: the earlier records stand, and
/// nothing past `k` is rendered.
pub proof fn lemma_process_fail_fast(inputs: Seq<Seq<u8>>, k: int)
    requires
        0 <= k < inputs.len(),
        forall|i: int| 0 <= i < k ==> (#[trigger] spec_block_of(inputs[i])) is Ok,
        spec_block_of(inputs[k]) is Err,
    ensures
        spec_process(inputs).1 == Some(spec_block_of(inputs[k])->Err_0),
        spec_process(inputs).0 == Seq::new(k as nat, |i: int| spec_block_of(inputs[i])->Ok_0).flatten(),
    decreases k,
{
    let blocks = Seq::new(k as nat, |i: int| spec_block_of(inputs[i])->Ok_0);
    if k == 0 {
        assert(blocks.flatten() =~= Seq::<char>::empty());
    } else {
        assert(spec_block_of(inputs[0]) is Ok);
        let tail = inputs.drop_first();
        assert forall|i: int| 0 <= i < k - 1 implies (#[trigger] spec_block_of(
            tail[i],
        )) is Ok by {
            assert(tail[i] == inputs[i + 1]);
            assert(spec_block_of(inputs[i + 1]) is Ok);
        }
        assert(tail[k - 1] == inputs[k]);
        lemma_process_fail_fast(tail, k - 1);
        assert(blocks.drop_first() =~= Seq::new((k - 1) as nat, |i: int| spec_block_of(tail[i])->Ok_0));
        assert(blocks.flatten() == blocks.first().add(blocks.drop_first().flatten()));
    }
}

/// Processes a batch of inputs in order, fail-fast: the output holds one
/// block per input up to, and not including, the first failing input. The
/// length bound is a machine limit of the base64 engine, unreachable for
/// real files.
pub fn process_all(inputs: &Vec<Vec<u8>>) -> (r: (String, Option<CertError>))
    requires
        forall|i: int|
            0 <= i < inputs@.len() ==> (#[trigger] inputs@[i])@.len() <= 3 * ((usize::MAX - 4)
                / 4) + 2,
    ensures
        r.0@ == spec_process(inputs@.map_values(|v: Vec<u8>| v@)).0,
        r.1 == spec_process(inputs@.map_values(|v: Vec<u8>| v@)).1,
{
    let ghost m = inputs@.map_values(|v: Vec<u8>| v@);
    let mut out = String::new();
    let n: usize = inputs.len();
    let mut i: usize = 0;
    proof {
        assert(m.skip(0) =~= m);
        assert(out@ + spec_process(m).0 =~= spec_process(m).0);
    }
    while i < n
        invariant
            n == inputs@.len(),
            m == inputs@.map_values(|v: Vec<u8>| v@),
            forall|j: int|
                0 <= j < inputs@.len() ==> (#[trigger] inputs@[j])@.len() <= 3 * ((usize::MAX
                    - 4) / 4) + 2,
            0 <= i <= n,
            spec_process(m).0 == out@ + spec_process(m.skip(i as int)).0,
            spec_process(m).1 == spec_process(m.skip(i as int)).1,
        decreases n - i,
    {
        proof {
            assert(inputs@[i as int]@.len() <= 3 * ((usize::MAX - 4) / 4) + 2);
        }
        match make_record(&inputs[i]) {
            Ok(block) => {
                out.append(block.as_str());
                proof {
                    let rest = m.skip(i as int);
                    assert(rest[0] == m[i as int]);
                    assert(rest.drop_first() =~= m.skip(i + 1 as int));
                }
            },
            Err(e) => {
                proof {
                    let rest = m.skip(i as int);
                    assert(rest[0] == m[i as int]);
                }
                return (out, Some(e));
            },
        }
        i = i + 1;
    }
    proof {
        assert(m.skip(n as int) =~= Seq::<Seq<u8>>::empty());
    }
    (out, None)
}

} // verus!
