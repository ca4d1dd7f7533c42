//! Parsing of the newline-delimited credential input: one 32-byte secret key
//! or one 20-byte address per line, written as hex digits (an address may
//! carry a `0x` prefix). A line that does not fit the grammar is an input
//! format error; the caller fails fast on it.
use vstd::prelude::*;

use crate::errors::PipelineError;
use vstd::slice::slice_subrange;

verus! {

/// An ASCII hex digit.
pub open spec fn spec_is_hex_digit(b: u8) -> bool {
    (0x30 <= b && b <= 0x39)  // '0' ..= '9'
     || (0x61 <= b && b <= 0x66)  // 'a' ..= 'f'
     || (0x41 <= b && b <= 0x46)  // 'A' ..= 'F'

}

/// The value of an ASCII hex digit.
pub open spec fn spec_hex_val(b: u8) -> u8
    recommends
        spec_is_hex_digit(b),
{
    if 0x30 <= b && b <= 0x39 {
        (b - 0x30) as u8
    } else if 0x61 <= b && b <= 0x66 {
        (b - 0x61 + 10) as u8
    } else {
        (b - 0x41 + 10) as u8
    }
}

/// Every byte of the sequence is a hex digit.
pub open spec fn spec_all_hex(s: Seq<u8>) -> bool {
    forall|k: int| 0 <= k < s.len() ==> spec_is_hex_digit(#[trigger] s[k])
}

/// The bytes an even-length run of hex digits denotes, two digits per byte,
/// big-endian within each pair.
pub open spec fn spec_hex_decode(s: Seq<u8>) -> Seq<u8>
    recommends
        s.len() % 2 == 0,
    decreases s.len(),
{
    if s.len() < 2 {
        Seq::empty()
    } else {
        seq![(spec_hex_val(s[0]) * 16 + spec_hex_val(s[1])) as u8] + spec_hex_decode(s.skip(2))
    }
}

/// Decoding two more digits extends the decoded bytes by one.
proof fn lemma_hex_decode_snoc(s: Seq<u8>, a: u8, b: u8)
    requires
        s.len() % 2 == 0,
    ensures
        spec_hex_decode(s + seq![a, b]) == spec_hex_decode(s).push(
            (spec_hex_val(a) * 16 + spec_hex_val(b)) as u8,
        ),
    decreases s.len(),
{
    let t = s + seq![a, b];
    if s.len() == 0 {
        assert(t.len() == 2 && t[0] == a && t[1] == b);
        assert(t.skip(2) =~= Seq::<u8>::empty());
        assert(spec_hex_decode(t) == seq![(spec_hex_val(a) * 16 + spec_hex_val(b)) as u8]
            + spec_hex_decode(t.skip(2)));
        assert(spec_hex_decode(t) =~= spec_hex_decode(s).push(
            (spec_hex_val(a) * 16 + spec_hex_val(b)) as u8,
        ));
    } else {
        assert(t[0] == s[0] && t[1] == s[1]);
        assert(t.skip(2) =~= s.skip(2) + seq![a, b]);
        lemma_hex_decode_snoc(s.skip(2), a, b);
        assert(spec_hex_decode(t) =~= spec_hex_decode(s).push(
            (spec_hex_val(a) * 16 + spec_hex_val(b)) as u8,
        ));
    }
}

/// The decoded bytes are half as many as the digits.
pub proof fn lemma_hex_decode_len(s: Seq<u8>)
    requires
        s.len() % 2 == 0,
    ensures
        spec_hex_decode(s).len() == s.len() / 2,
    decreases s.len(),
{
    if s.len() >= 2 {
        lemma_hex_decode_len(s.skip(2));
    }
}

fn hex_digit_value(b: u8) -> (r: Option<u8>)
    ensures
        r == if spec_is_hex_digit(b) {
            Some(spec_hex_val(b))
        } else {
            None::<u8>
        },
{
    if 0x30 <= b && b <= 0x39 {
        Some(b - 0x30)
    } else if 0x61 <= b && b <= 0x66 {
        Some(b - 0x61 + 10)
    } else if 0x41 <= b && b <= 0x46 {
        Some(b - 0x41 + 10)
    } else {
        None
    }
}

/// Decode an even-length run of hex digits into bytes; reject anything else.
pub fn decode_hex(line: &[u8]) -> (r: Result<Vec<u8>, PipelineError>)
    ensures
        r is Ok <==> (line@.len() % 2 == 0 && spec_all_hex(line@)),
        r is Ok ==> r->Ok_0@ == spec_hex_decode(line@),
        r is Err ==> r->Err_0 == PipelineError::InputFormat,
{
    if line.len() % 2 != 0 {
        return Err(PipelineError::InputFormat);
    }
    let mut out: Vec<u8> = Vec::new();
    let mut k: usize = 0;
    while k < line.len()
        invariant
            k <= line@.len(),
            k % 2 == 0,
            line@.len() % 2 == 0,
            spec_all_hex(line@.take(k as int)),
            out@ == spec_hex_decode(line@.take(k as int)),
        decreases line@.len() - k,
    {
        let hi = hex_digit_value(line[k]);
        let lo = hex_digit_value(line[k + 1]);
        match (hi, lo) {
            (Some(h), Some(l)) => {
                proof {
                    lemma_hex_decode_snoc(
                        line@.take(k as int),
                        line@[k as int],
                        line@[k as int + 1],
                    );
                    assert(line@.take(k as int + 2) =~= line@.take(k as int) + seq![
                        line@[k as int],
                        line@[k as int + 1],
                    ]);
                }
                out.push(h * 16 + l);
                k += 2;
            },
            _ => {
                return Err(PipelineError::InputFormat);
            },
        }
    }
    proof {
        assert(line@.take(line@.len() as int) =~= line@);
    }
    Ok(out)
}

/// Parse one private-key line: exactly 64 hex digits, no prefix, denoting the
/// 32-byte big-endian secret scalar.
pub fn parse_private_key(line: &[u8]) -> (r: Result<Vec<u8>, PipelineError>)
    ensures
        r is Ok <==> (line@.len() == 64 && spec_all_hex(line@)),
        r is Ok ==> r->Ok_0@ == spec_hex_decode(line@) && r->Ok_0@.len() == 32,
        r is Err ==> r->Err_0 == PipelineError::InputFormat,
{
    if line.len() != 64 {
        return Err(PipelineError::InputFormat);
    }
    let r = decode_hex(line);
    proof {
        if line@.len() == 64 && spec_all_hex(line@) {
            lemma_hex_decode_len(line@);
        }
    }
    r
}

/// The line with a leading `0x` (or `0X`) taken off, if one is there.
pub open spec fn spec_strip_hex_prefix(s: Seq<u8>) -> Seq<u8> {
    if s.len() >= 2 && s[0] == 0x30 && (s[1] == 0x78 || s[1] == 0x58) {
        s.skip(2)
    } else {
        s
    }
}

/// Parse one address line: an optional `0x` prefix, then exactly 40 hex
/// digits, denoting the 20-byte identifier.
pub fn parse_address(line: &[u8]) -> (r: Result<Vec<u8>, PipelineError>)
    ensures
        r is Ok <==> (spec_strip_hex_prefix(line@).len() == 40 && spec_all_hex(
            spec_strip_hex_prefix(line@),
        )),
        r is Ok ==> r->Ok_0@ == spec_hex_decode(spec_strip_hex_prefix(line@))
            && r->Ok_0@.len() == 20,
        r is Err ==> r->Err_0 == PipelineError::InputFormat,
{
    let stripped: &[u8] = if line.len() >= 2 && line[0] == 0x30 && (line[1] == 0x78 || line[1]
        == 0x58) {
        slice_skip_two(line)
    } else {
        line
    };
    proof {
        assert(stripped@ =~= spec_strip_hex_prefix(line@));
    }
    if stripped.len() != 40 {
        return Err(PipelineError::InputFormat);
    }
    let r = decode_hex(stripped);
    proof {
        if stripped@.len() == 40 && spec_all_hex(stripped@) {
            lemma_hex_decode_len(stripped@);
        }
    }
    r
}

/// The slice without its first two bytes.
fn slice_skip_two(s: &[u8]) -> (r: &[u8])
    requires
        s@.len() >= 2,
    ensures
        r@ == s@.skip(2),
{
    let r = slice_subrange(s, 2, s.len());
    proof {
        assert(r@ =~= s@.skip(2));
    }
    r
}

} // verus!
