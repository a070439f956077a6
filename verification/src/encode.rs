//! Deterministic binary-to-text rendering: the SHA-256 fingerprint as a
//! fixed-layout array of uppercase-hex byte literals (11, 11, 9 and 1 bytes
//! on four lines), the raw subject bytes as base64 wrapped at 64 characters,
//! and the raw serial bytes as one base64 line.

use vstd::prelude::*;
use vstd::string::*;

use crate::ext::{base64_encode, base64_of, sha256, sha256_of};

verus! {

/// The uppercase hex digit of a value below sixteen.
pub open spec fn spec_hex_char(n: u8) -> char {
    if n == 0 {
        '0'
    } else if n == 1 {
        '1'
    } else if n == 2 {
        '2'
    } else if n == 3 {
        '3'
    } else if n == 4 {
        '4'
    } else if n == 5 {
        '5'
    } else if n == 6 {
        '6'
    } else if n == 7 {
        '7'
    } else if n == 8 {
        '8'
    } else if n == 9 {
        '9'
    } else if n == 10 {
        'A'
    } else if n == 11 {
        'B'
    } else if n == 12 {
        'C'
    } else if n == 13 {
        'D'
    } else if n == 14 {
        'E'
    } else {
        'F'
    }
}

/// Returns the uppercase hex digit of a value below sixteen.
pub fn hex_char(n: u8) -> (r: char)
    requires
        n < 16,
    ensures
        r == spec_hex_char(n),
{
    if n == 0 {
        '0'
    } else if n == 1 {
        '1'
    } else if n == 2 {
        '2'
    } else if n == 3 {
        '3'
    } else if n == 4 {
        '4'
    } else if n == 5 {
        '5'
    } else if n == 6 {
        '6'
    } else if n == 7 {
        '7'
    } else if n == 8 {
        '8'
    } else if n == 9 {
        '9'
    } else if n == 10 {
        'A'
    } else if n == 11 {
        'B'
    } else if n == 12 {
        'C'
    } else if n == 13 {
        'D'
    } else if n == 14 {
        'E'
    } else {
        'F'
    }
}

/// One byte as an `0xHH` literal, uppercase.
pub open spec fn spec_hex_pair(b: u8) -> Seq<char> {
    seq!['0', 'x', spec_hex_char(b / 16), spec_hex_char(b % 16)]
}

/// Appends one byte as an `0xHH` literal.
pub fn push_hex_byte(out: &mut String, b: u8)
    ensures
        final(out)@ == old(out)@ + spec_hex_pair(b),
{
    out.push('0');
    out.push('x');
    out.push(hex_char(b / 16));
    out.push(hex_char(b % 16));
    assert(out@ =~= old(out)@ + spec_hex_pair(b));
}

/// A run of bytes, each as an `0xHH` literal followed by a comma and a space.
pub open spec fn spec_hex_run(h: Seq<u8>) -> Seq<char>
    decreases h.len(),
{
    if h.len() == 0 {
        Seq::empty()
    } else {
        spec_hex_run(h.drop_last()) + spec_hex_pair(h.last()) + seq![',', ' ']
    }
}

/// Appends the bytes of `h[from..to]`, each as `0xHH, `.
pub fn push_hex_run(out: &mut String, h: &Vec<u8>, from: usize, to: usize)
    requires
        from <= to <= h@.len(),
    ensures
        final(out)@ == old(out)@ + spec_hex_run(h@.subrange(from as int, to as int)),
{
    let mut i: usize = from;
    while i < to
        invariant
            from <= i <= to <= h@.len(),
            out@ == old(out)@ + spec_hex_run(h@.subrange(from as int, i as int)),
        decreases to - i,
    {
        push_hex_byte(out, h[i]);
        out.push(',');
        out.push(' ');
        proof {
            let sub = h@.subrange(from as int, i + 1 as int);
            assert(sub.drop_last() =~= h@.subrange(from as int, i as int));
            assert(sub.last() == h@[i as int]);
            assert(out@ =~= old(out)@ + spec_hex_run(sub));
        }
        i = i + 1;
    }
    proof {
        assert(h@.subrange(from as int, to as int) =~= h@.subrange(from as int, to as int));
    }
}

/// The fixed four-line layout of a 32-byte hash: an opening brace, then the
/// bytes broken as 11, 11, 9 and 1 across the lines, the last byte closing
/// the brace.
pub open spec fn spec_hash_text(h: Seq<u8>) -> Seq<char> {
    "    { "@ + spec_hex_run(h.subrange(0, 11)) + seq!['\n'] + "      "@ + spec_hex_run(
        h.subrange(11, 22),
    ) + seq!['\n'] + "      "@ + spec_hex_run(h.subrange(22, 31)) + seq!['\n'] + "      "@
        + spec_hex_pair(h[31]) + " },\n"@
}

/// Renders a 32-byte hash in the fixed four-line array layout.
pub fn format_hash(h: &Vec<u8>) -> (r: String)
    requires
        h@.len() == 32,
    ensures
        r@ == spec_hash_text(h@),
{
    let mut out = String::new();
    out.append("    { ");
    push_hex_run(&mut out, h, 0, 11);
    out.push('\n');
    out.append("      ");
    push_hex_run(&mut out, h, 11, 22);
    out.push('\n');
    out.append("      ");
    push_hex_run(&mut out, h, 22, 31);
    out.push('\n');
    out.append("      ");
    push_hex_byte(&mut out, h[31]);
    out.append(" },\n");
    assert(out@ =~= spec_hash_text(h@));
    out
}

/// The fingerprint of a certificate: the fixed-layout rendering of the
/// SHA-256 digest of its full DER bytes.
pub open spec fn spec_fingerprint_text(der: Seq<u8>) -> Seq<char> {
    spec_hash_text(sha256_of(der))
}

/// Renders the SHA-256 fingerprint of the given DER bytes.
pub fn fingerprint_text(der: &Vec<u8>) -> (r: String)
    ensures
        r@ == spec_fingerprint_text(der@),
{
    let hash = sha256(der.as_slice());
    format_hash(&hash)
}

/// Law: the fingerprint is deterministic — it is a function of the DER bytes
/// alone, so byte-for-byte equal inputs render byte-for-byte equal text.
pub proof fn lemma_fingerprint_deterministic(d1: Seq<u8>, d2: Seq<u8>)
    requires
        d1 == d2,
    ensures
        spec_fingerprint_text(d1) == spec_fingerprint_text(d2),
{
}

/// The four byte groups of the fixed fingerprint layout.
pub open spec fn spec_hash_groups(h: Seq<u8>) -> Seq<Seq<u8>> {
    seq![h.subrange(0, 11), h.subrange(11, 22), h.subrange(22, 31), h.subrange(31, 32)]
}

/// Law: for any 32-byte hash the rendering breaks the bytes into exactly four
/// line groups of 11, 11, 9 and 1 bytes, which together are the whole hash,
/// and the rendered text is the fixed layout over exactly those groups.
pub proof fn lemma_hash_grouping(h: Seq<u8>)
    requires
        h.len() == 32,
    ensures
        spec_hash_groups(h).len() == 4,
        spec_hash_groups(h)[0].len() == 11,
        spec_hash_groups(h)[1].len() == 11,
        spec_hash_groups(h)[2].len() == 9,
        spec_hash_groups(h)[3].len() == 1,
        spec_hash_groups(h)[0] + spec_hash_groups(h)[1] + spec_hash_groups(h)[2]
            + spec_hash_groups(h)[3] =~= h,
        spec_hash_text(h) == "    { "@ + spec_hex_run(spec_hash_groups(h)[0]) + seq!['\n']
            + "      "@ + spec_hex_run(spec_hash_groups(h)[1]) + seq!['\n'] + "      "@
            + spec_hex_run(spec_hash_groups(h)[2]) + seq!['\n'] + "      "@ + spec_hex_pair(
            h[31],
        ) + " },\n"@,
{
}

/// Text split into chunks of 64 characters: every chunk but the last is full,
/// and empty text yields one empty chunk.
pub open spec fn spec_chunks(s: Seq<char>) -> Seq<Seq<char>>
    decreases s.len(),
{
    if s.len() <= 64 {
        seq![s]
    } else {
        seq![s.take(64)] + spec_chunks(s.skip(64))
    }
}

/// Law: chunking at 64 characters. Every chunk before the last holds exactly
/// 64 characters; the last holds at most 64 and is empty only for empty
/// text; the chunks concatenate back to the whole text; and their number is
/// the rounded-up quotient, with one (empty) chunk for empty text.
pub proof fn lemma_chunks(s: Seq<char>)
    ensures
        spec_chunks(s).len() == if s.len() == 0 {
            1int
        } else {
            ((s.len() + 63) / 64) as int
        },
        forall|i: int|
            0 <= i < spec_chunks(s).len() - 1 ==> (#[trigger] spec_chunks(s)[i]).len() == 64,
        spec_chunks(s).last().len() <= 64,
        s.len() > 0 ==> spec_chunks(s).last().len() > 0,
        spec_chunks(s).flatten() == s,
    decreases s.len(),
{
    if s.len() <= 64 {
        let c = spec_chunks(s);
        assert(c == seq![s]);
        c.lemma_flatten_one_element();
        assert(c.flatten() =~= s);
    } else {
        lemma_chunks(s.skip(64));
        let c = spec_chunks(s);
        let rest = spec_chunks(s.skip(64));
        assert(c == seq![s.take(64)] + rest);
        assert(s.skip(64).len() == s.len() - 64);
        vstd::arithmetic::div_mod::lemma_div_plus_one(s.len() - 1, 64);
        assert(c.len() == 1 + rest.len());
        assert forall|i: int| 0 <= i < c.len() - 1 implies (#[trigger] c[i]).len() == 64 by {
            if i > 0 {
                assert(c[i] == rest[i - 1]);
            }
        }
        assert(c.last() == rest.last());
        assert(c.drop_first() =~= rest);
        assert(c.first() == s.take(64));
        assert(c.flatten() == c.first().add(c.drop_first().flatten()));
        assert(rest.flatten() == s.skip(64));
        assert(s.take(64) + s.skip(64) =~= s);
        assert(c.flatten() =~= s);
    }
}

/// Splits text into chunks of 64 characters.
pub fn chunk_lines(s: &str) -> (r: Vec<String>)
    ensures
        r@.map_values(|t: String| t@) == spec_chunks(s@),
{
    let n: usize = s.unicode_len();
    let mut out: Vec<String> = Vec::new();
    let mut pos: usize = 0;
    proof {
        assert(s@.skip(0) =~= s@);
        assert(out@.map_values(|t: String| t@) + spec_chunks(s@) =~= spec_chunks(s@));
    }
    while n - pos > 64
        invariant
            n == s@.len(),
            0 <= pos <= n,
            spec_chunks(s@) == out@.map_values(|t: String| t@) + spec_chunks(
                s@.skip(pos as int),
            ),
        decreases n - pos,
    {
        let piece = s.substring_char(pos, pos + 64);
        out.push(piece.to_owned());
        proof {
            let rest = s@.skip(pos as int);
            assert(rest.take(64) =~= s@.subrange(pos as int, pos + 64 as int));
            assert(rest.skip(64) =~= s@.skip(pos + 64 as int));
            assert(out@.map_values(|t: String| t@) =~= out@.map_values(|t: String| t@).drop_last(
            ).push(rest.take(64)));
            assert(out@.map_values(|t: String| t@) + spec_chunks(s@.skip(pos + 64 as int))
                =~= out@.map_values(|t: String| t@).drop_last() + spec_chunks(rest));
        }
        pos = pos + 64;
    }
    let last = s.substring_char(pos, n);
    out.push(last.to_owned());
    proof {
        let rest = s@.skip(pos as int);
        assert(rest =~= s@.subrange(pos as int, n as int));
        assert(spec_chunks(rest) =~= seq![rest]);
        assert(out@.map_values(|t: String| t@) =~= spec_chunks(s@));
    }
    out
}

/// The subject rendering: the base64 text of the raw subject bytes, split at
/// 64 characters, each chunk on its own quoted, indented line, the last line
/// comma-terminated. Empty base64 text degenerates to one empty quoted line.
pub open spec fn spec_quoted_lines(chunks: Seq<Seq<char>>) -> Seq<char>
    decreases chunks.len(),
{
    if chunks.len() == 0 {
        Seq::empty()
    } else if chunks.len() == 1 {
        "    \""@ + chunks[0] + "\""@
    } else {
        spec_quoted_lines(chunks.drop_last()) + seq!['\n'] + "    \""@ + chunks.last() + "\""@
    }
}

/// The full subject field of one record.
pub open spec fn spec_subject_text(subject_raw: Seq<u8>) -> Seq<char> {
    spec_quoted_lines(spec_chunks(base64_of(subject_raw))) + ",\n"@
}

/// Renders the base64 subject lines of one record. The length bound is a
/// machine limit of the base64 engine, unreachable for real inputs.
pub fn subject_text(subject_raw: &Vec<u8>) -> (r: String)
    requires
        subject_raw@.len() <= 3 * ((usize::MAX - 4) / 4) + 2,
    ensures
        r@ == spec_subject_text(subject_raw@),
{
    let b64 = base64_encode(subject_raw.as_slice());
    let chunks = chunk_lines(b64.as_str());
    let ghost m = chunks@.map_values(|t: String| t@);
    let mut out = String::new();
    let n: usize = chunks.len();
    let mut i: usize = 0;
    proof {
        assert(m.len() > 0);
    }
    while i < n
        invariant
            n == chunks@.len(),
            m == chunks@.map_values(|t: String| t@),
            0 <= i <= n,
            out@ == spec_quoted_lines(m.take(i as int)),
        decreases n - i,
    {
        if i > 0 {
            out.push('\n');
        }
        out.append("    \"");
        out.append(chunks[i].as_str());
        out.append("\"");
        proof {
            assert(m.take(i + 1 as int).drop_last() =~= m.take(i as int));
            assert(m.take(i + 1 as int).last() == m[i as int]);
            assert(out@ =~= spec_quoted_lines(m.take(i + 1 as int)));
        }
        i = i + 1;
    }
    out.append(",\n");
    proof {
        assert(m.take(n as int) =~= m);
        assert(out@ =~= spec_subject_text(subject_raw@));
    }
    out
}

/// The serial field of one record: one quoted, comma-terminated base64 line.
pub open spec fn spec_serial_text(serial: Seq<u8>) -> Seq<char> {
    "    \""@ + base64_of(serial) + "\",\n"@
}

/// Renders the base64 serial line of one record. The length bound is a
/// machine limit of the base64 engine, unreachable for real inputs.
pub fn serial_text(serial: &Vec<u8>) -> (r: String)
    requires
        serial@.len() <= 3 * ((usize::MAX - 4) / 4) + 2,
    ensures
        r@ == spec_serial_text(serial@),
{
    let mut out = String::new();
    out.append("    \"");
    let b64 = base64_encode(serial.as_slice());
    out.append(b64.as_str());
    out.append("\",\n");
    assert(out@ =~= spec_serial_text(serial@));
    out
}

} // verus!
