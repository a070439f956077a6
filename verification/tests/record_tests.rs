use sha2::Digest;
const CERT1_DER: [u8; 217] = [0x30, 0x81, 0xD6, 0x30, 0x81, 0xBD, 0x02, 0x03, 0x4A, 0x3F, 0x11, 0x30, 0x0D, 0x06, 0x09, 0x2A, 0x86, 0x48, 0x86, 0xF7, 0x0D, 0x01, 0x01, 0x0B, 0x05, 0x00, 0x30, 0x36, 0x31, 0x0B, 0x30, 0x09, 0x06, 0x03, 0x55, 0x04, 0x06, 0x13, 0x02, 0x55, 0x53, 0x31, 0x10, 0x30, 0x0E, 0x06, 0x03, 0x55, 0x04, 0x0A, 0x13, 0x07, 0x45, 0x78, 0x61, 0x6D, 0x70, 0x6C, 0x65, 0x31, 0x15, 0x30, 0x13, 0x06, 0x03, 0x55, 0x04, 0x03, 0x13, 0x0C, 0x45, 0x78, 0x61, 0x6D, 0x70, 0x6C, 0x65, 0x20, 0x52, 0x6F, 0x6F, 0x74, 0x30, 0x1E, 0x17, 0x0D, 0x32, 0x36, 0x30, 0x31, 0x30, 0x31, 0x30, 0x30, 0x30, 0x30, 0x30, 0x30, 0x5A, 0x17, 0x0D, 0x33, 0x36, 0x30, 0x31, 0x30, 0x31, 0x30, 0x30, 0x30, 0x30, 0x30, 0x30, 0x5A, 0x30, 0x36, 0x31, 0x0B, 0x30, 0x09, 0x06, 0x03, 0x55, 0x04, 0x06, 0x13, 0x02, 0x55, 0x53, 0x31, 0x10, 0x30, 0x0E, 0x06, 0x03, 0x55, 0x04, 0x0A, 0x13, 0x07, 0x45, 0x78, 0x61, 0x6D, 0x70, 0x6C, 0x65, 0x31, 0x15, 0x30, 0x13, 0x06, 0x03, 0x55, 0x04, 0x03, 0x13, 0x0C, 0x45, 0x78, 0x61, 0x6D, 0x70, 0x6C, 0x65, 0x20, 0x52, 0x6F, 0x6F, 0x74, 0x30, 0x17, 0x30, 0x0D, 0x06, 0x09, 0x2A, 0x86, 0x48, 0x86, 0xF7, 0x0D, 0x01, 0x01, 0x01, 0x05, 0x00, 0x03, 0x06, 0x00, 0x30, 0x03, 0x01, 0x01, 0xFF, 0x30, 0x0D, 0x06, 0x09, 0x2A, 0x86, 0x48, 0x86, 0xF7, 0x0D, 0x01, 0x01, 0x0B, 0x05, 0x00, 0x03, 0x05, 0x00, 0xDE, 0xAD, 0xBE, 0xEF];
const CERT2_DER: [u8; 219] = [0x30, 0x81, 0xD8, 0x30, 0x81, 0xBF, 0x02, 0x01, 0x02, 0x30, 0x0D, 0x06, 0x09, 0x2A, 0x86, 0x48, 0x86, 0xF7, 0x0D, 0x01, 0x01, 0x0B, 0x05, 0x00, 0x30, 0x38, 0x31, 0x0B, 0x30, 0x09, 0x06, 0x03, 0x55, 0x04, 0x06, 0x13, 0x02, 0x55, 0x53, 0x31, 0x14, 0x30, 0x12, 0x06, 0x03, 0x55, 0x04, 0x0A, 0x13, 0x0B, 0x53, 0x6D, 0x69, 0x74, 0x68, 0x2C, 0x20, 0x49, 0x6E, 0x63, 0x2E, 0x31, 0x13, 0x30, 0x11, 0x06, 0x03, 0x55, 0x04, 0x03, 0x13, 0x0A, 0x53, 0x6D, 0x69, 0x74, 0x68, 0x20, 0x4C, 0x65, 0x61, 0x66, 0x30, 0x1E, 0x17, 0x0D, 0x32, 0x36, 0x30, 0x31, 0x30, 0x31, 0x30, 0x30, 0x30, 0x30, 0x30, 0x30, 0x5A, 0x17, 0x0D, 0x33, 0x36, 0x30, 0x31, 0x30, 0x31, 0x30, 0x30, 0x30, 0x30, 0x30, 0x30, 0x5A, 0x30, 0x38, 0x31, 0x0B, 0x30, 0x09, 0x06, 0x03, 0x55, 0x04, 0x06, 0x13, 0x02, 0x55, 0x53, 0x31, 0x14, 0x30, 0x12, 0x06, 0x03, 0x55, 0x04, 0x0A, 0x13, 0x0B, 0x53, 0x6D, 0x69, 0x74, 0x68, 0x2C, 0x20, 0x49, 0x6E, 0x63, 0x2E, 0x31, 0x13, 0x30, 0x11, 0x06, 0x03, 0x55, 0x04, 0x03, 0x13, 0x0A, 0x53, 0x6D, 0x69, 0x74, 0x68, 0x20, 0x4C, 0x65, 0x61, 0x66, 0x30, 0x17, 0x30, 0x0D, 0x06, 0x09, 0x2A, 0x86, 0x48, 0x86, 0xF7, 0x0D, 0x01, 0x01, 0x01, 0x05, 0x00, 0x03, 0x06, 0x00, 0x30, 0x03, 0x01, 0x01, 0xFF, 0x30, 0x0D, 0x06, 0x09, 0x2A, 0x86, 0x48, 0x86, 0xF7, 0x0D, 0x01, 0x01, 0x0B, 0x05, 0x00, 0x03, 0x05, 0x00, 0xDE, 0xAD, 0xBE, 0xEF];
const CERT3_DER: [u8; 134] = [0x30, 0x81, 0x83, 0x30, 0x6B, 0x02, 0x01, 0x05, 0x30, 0x0D, 0x06, 0x09, 0x2A, 0x86, 0x48, 0x86, 0xF7, 0x0D, 0x01, 0x01, 0x0B, 0x05, 0x00, 0x30, 0x0E, 0x31, 0x0C, 0x30, 0x0A, 0x06, 0x03, 0x55, 0x04, 0x03, 0x14, 0x03, 0x4F, 0x64, 0x64, 0x30, 0x1E, 0x17, 0x0D, 0x32, 0x36, 0x30, 0x31, 0x30, 0x31, 0x30, 0x30, 0x30, 0x30, 0x30, 0x30, 0x5A, 0x17, 0x0D, 0x33, 0x36, 0x30, 0x31, 0x30, 0x31, 0x30, 0x30, 0x30, 0x30, 0x30, 0x30, 0x5A, 0x30, 0x0E, 0x31, 0x0C, 0x30, 0x0A, 0x06, 0x03, 0x55, 0x04, 0x03, 0x14, 0x03, 0x4F, 0x64, 0x64, 0x30, 0x17, 0x30, 0x0D, 0x06, 0x09, 0x2A, 0x86, 0x48, 0x86, 0xF7, 0x0D, 0x01, 0x01, 0x01, 0x05, 0x00, 0x03, 0x06, 0x00, 0x30, 0x03, 0x01, 0x01, 0xFF, 0x30, 0x0D, 0x06, 0x09, 0x2A, 0x86, 0x48, 0x86, 0xF7, 0x0D, 0x01, 0x01, 0x0B, 0x05, 0x00, 0x03, 0x05, 0x00, 0xDE, 0xAD, 0xBE, 0xEF];
const SUBJECT1_DER: [u8; 56] = [0x30, 0x36, 0x31, 0x0B, 0x30, 0x09, 0x06, 0x03, 0x55, 0x04, 0x06, 0x13, 0x02, 0x55, 0x53, 0x31, 0x10, 0x30, 0x0E, 0x06, 0x03, 0x55, 0x04, 0x0A, 0x13, 0x07, 0x45, 0x78, 0x61, 0x6D, 0x70, 0x6C, 0x65, 0x31, 0x15, 0x30, 0x13, 0x06, 0x03, 0x55, 0x04, 0x03, 0x13, 0x0C, 0x45, 0x78, 0x61, 0x6D, 0x70, 0x6C, 0x65, 0x20, 0x52, 0x6F, 0x6F, 0x74];
const SUBJECT2_DER: [u8; 58] = [0x30, 0x38, 0x31, 0x0B, 0x30, 0x09, 0x06, 0x03, 0x55, 0x04, 0x06, 0x13, 0x02, 0x55, 0x53, 0x31, 0x14, 0x30, 0x12, 0x06, 0x03, 0x55, 0x04, 0x0A, 0x13, 0x0B, 0x53, 0x6D, 0x69, 0x74, 0x68, 0x2C, 0x20, 0x49, 0x6E, 0x63, 0x2E, 0x31, 0x13, 0x30, 0x11, 0x06, 0x03, 0x55, 0x04, 0x03, 0x13, 0x0A, 0x53, 0x6D, 0x69, 0x74, 0x68, 0x20, 0x4C, 0x65, 0x61, 0x66];

use base64::Engine;
use cert_table::model::CertError;
use cert_table::record::{make_record, process_all};

fn b64(data: &[u8]) -> String {
    base64::engine::general_purpose::STANDARD.encode(data)
}

fn expected_block(der: &[u8], subject: &[u8], serial: &[u8], comment: &str) -> String {
    let hash: Vec<u8> = sha2::Sha256::digest(der).to_vec();
    let mut out = String::new();
    out.push_str("  {\n");
    out.push_str(&format!("    // {}\n", comment));
    out.push_str("    \"2.23.140.1.1\",\n");
    out.push_str("    \"CA/Browser Forum EV OID\",\n");
    out.push_str("    { ");
    for b in &hash[0..11] {
        out.push_str(&format!("0x{:02X}, ", b));
    }
    out.push('\n');
    out.push_str("      ");
    for b in &hash[11..22] {
        out.push_str(&format!("0x{:02X}, ", b));
    }
    out.push('\n');
    out.push_str("      ");
    for b in &hash[22..31] {
        out.push_str(&format!("0x{:02X}, ", b));
    }
    out.push('\n');
    out.push_str(&format!("      0x{:02X} }},\n", hash[31]));
    let sb = b64(subject);
    let mut first = true;
    for chunk in sb.as_bytes().chunks(64) {
        if !first {
            out.push('\n');
        }
        out.push_str(&format!("    \"{}\"", std::str::from_utf8(chunk).unwrap()));
        first = false;
    }
    if first {
        out.push_str("    \"\"");
    }
    out.push_str(",\n");
    out.push_str(&format!("    \"{}\",\n", b64(serial)));
    out.push_str("  },\n");
    out
}

#[test]
fn end_to_end_minimal_certificate() {
    let der: Vec<u8> = CERT1_DER.to_vec();
    let block = make_record(&der).unwrap();
    let expected = expected_block(
        &CERT1_DER,
        &SUBJECT1_DER,
        &[0x4A, 0x3F, 0x11],
        "CN=Example Root,O=Example,C=US",
    );
    assert_eq!(block, expected);
}

#[test]
fn end_to_end_comment_line_is_reversed_dn() {
    let der: Vec<u8> = CERT1_DER.to_vec();
    let block = make_record(&der).unwrap();
    let comment = block.lines().nth(1).unwrap();
    assert_eq!(comment, "    // CN=Example Root,O=Example,C=US");
}

#[test]
fn end_to_end_serial_is_base64_of_raw_serial() {
    let der: Vec<u8> = CERT1_DER.to_vec();
    let block = make_record(&der).unwrap();
    assert!(block.contains("    \"Sj8R\",\n"));
}

#[test]
fn comma_in_organization_is_quoted_in_comment() {
    let der: Vec<u8> = CERT2_DER.to_vec();
    let block = make_record(&der).unwrap();
    let comment = block.lines().nth(1).unwrap();
    assert_eq!(comment, "    // CN=Smith Leaf,O=\"Smith, Inc.\",C=US");
}

#[test]
fn pem_wrapped_input_gives_the_same_block_as_der() {
    let der: Vec<u8> = CERT1_DER.to_vec();
    let mut pem_text = String::new();
    pem_text.push_str("-----BEGIN CERTIFICATE-----\n");
    let sb = b64(&CERT1_DER);
    for chunk in sb.as_bytes().chunks(64) {
        pem_text.push_str(std::str::from_utf8(chunk).unwrap());
        pem_text.push('\n');
    }
    pem_text.push_str("-----END CERTIFICATE-----\n");
    let from_pem = make_record(&pem_text.into_bytes()).unwrap();
    let from_der = make_record(&der).unwrap();
    assert_eq!(from_pem, from_der);
}

#[test]
fn garbage_input_is_a_decode_error() {
    let garbage: Vec<u8> = vec![0x01, 0x02, 0x03];
    assert_eq!(make_record(&garbage), Err(CertError::DecodeError));
}

#[test]
fn non_text_name_value_is_a_structural_error() {
    let der: Vec<u8> = CERT3_DER.to_vec();
    assert_eq!(make_record(&der), Err(CertError::StructuralParseError));
}

#[test]
fn blocks_of_a_batch_keep_input_order() {
    let inputs: Vec<Vec<u8>> = vec![CERT1_DER.to_vec(), CERT2_DER.to_vec()];
    let (out, err) = process_all(&inputs);
    assert!(err.is_none());
    let b1 = make_record(&inputs[0]).unwrap();
    let b2 = make_record(&inputs[1]).unwrap();
    assert_eq!(out, format!("{}{}", b1, b2));
}

#[test]
fn batch_fails_fast_after_emitting_earlier_blocks() {
    let inputs: Vec<Vec<u8>> = vec![CERT1_DER.to_vec(), vec![0xFF, 0xFE]];
    let (out, err) = process_all(&inputs);
    assert_eq!(err, Some(CertError::DecodeError));
    assert_eq!(out, make_record(&inputs[0]).unwrap());
}

#[test]
fn failing_first_input_emits_nothing() {
    let inputs: Vec<Vec<u8>> = vec![vec![0xFF, 0xFE], CERT1_DER.to_vec()];
    let (out, err) = process_all(&inputs);
    assert_eq!(err, Some(CertError::DecodeError));
    assert_eq!(out, "");
}

#[test]
fn empty_batch_emits_nothing() {
    let (out, err) = process_all(&Vec::new());
    assert!(err.is_none());
    assert_eq!(out, "");
}
