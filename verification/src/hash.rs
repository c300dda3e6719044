//! Content hashes of source files, written as lower-case hexadecimal.
use vstd::prelude::*;
use crate::text::{char_from_ascii, push_char};
use vstd::string::StringSliceAdditionalSpecFns;

verus! {

/// The SHA-256 digest of a byte string, as `sha2::Sha256` computes it.
pub uninterp spec fn sha256_of(data: Seq<u8>) -> Seq<u8>;

/// `sha2::Sha256::digest`: the SHA-256 digest of `data`, named
/// `sha256_of(data)`; a SHA-256 digest is 32 bytes long.
#[verifier::external_body]
pub(crate) fn sha256_digest(data: &[u8]) -> (r: Vec<u8>)
    ensures
        r@ == sha256_of(data@),
        r@.len() == 32,
{
    <sha2::Sha256 as sha2::Digest>::digest(data).to_vec()
}

/// The lower-case hexadecimal digit of a value below 16.
pub open spec fn hex_digit(d: u8) -> char {
    if d < 10 {
        (48 + d) as char
    } else {
        (87 + d) as char
    }
}

/// Each byte written as two lower-case hexadecimal digits.
pub open spec fn hex_text(data: Seq<u8>) -> Seq<char>
    decreases data.len(),
{
    if data.len() == 0 {
        seq![]
    } else {
        hex_text(data.drop_last()) + seq![hex_digit(data.last() / 16), hex_digit(data.last() % 16)]
    }
}

/// The digit of a value below 16.
fn hex_char(d: u8) -> (c: char)
    requires
        d < 16,
    ensures
        c == hex_digit(d),
{
    if d < 10 {
        char_from_ascii((48 + d) as u32)
    } else {
        char_from_ascii((87 + d) as u32)
    }
}

/// Writes bytes as lower-case hexadecimal, two digits per byte.
pub fn to_hex(data: &[u8]) -> (r: String)
    ensures
        r@ == hex_text(data@),
{
    let mut out = String::new();
    let mut i: usize = 0;
    while i < data.len()
        invariant
            i <= data@.len(),
            out@ == hex_text(data@.subrange(0, i as int)),
        decreases data.len() - i,
    {
        let b = data[i];
        push_char(&mut out, hex_char(b / 16));
        push_char(&mut out, hex_char(b % 16));
        assert(data@.subrange(0, i + 1).drop_last() =~= data@.subrange(0, i as int));
        assert(out@ =~= hex_text(data@.subrange(0, i + 1)));
        i = i + 1;
    }
    assert(data@.subrange(0, data@.len() as int) =~= data@);
    out
}

/// Whether a character is a lower-case hexadecimal digit.
pub open spec fn is_hex_digit(c: char) -> bool {
    ('0' <= c && c <= '9') || ('a' <= c && c <= 'f')
}

/// The SHA-256 hash of a text (its UTF-8 bytes), in lower-case hexadecimal:
/// always 64 hexadecimal digits.
pub fn compute_hash(file_string: &str) -> (r: String)
    ensures
        r@ == hex_text(sha256_of(file_string.spec_bytes())),
        r@.len() == 64,
        forall|i: int| 0 <= i < r@.len() ==> is_hex_digit(#[trigger] r@[i]),
{
    let bytes = file_string.as_bytes();
    let digest = sha256_digest(bytes);
    proof {
        lemma_hex_text_shape(digest@);
    }
    to_hex(digest.as_slice())
}

/// The hexadecimal writing of `n` bytes has `2 n` lower-case hexadecimal
/// digits.
pub proof fn lemma_hex_text_shape(data: Seq<u8>)
    ensures
        hex_text(data).len() == 2 * data.len(),
        forall|i: int|
            0 <= i < hex_text(data).len() ==> {
                let c = #[trigger] hex_text(data)[i];
                ('0' <= c && c <= '9') || ('a' <= c && c <= 'f')
            },
    decreases data.len(),
{
    if data.len() > 0 {
        lemma_hex_text_shape(data.drop_last());
        let prev = hex_text(data.drop_last());
        let b = data.last();
        assert((b / 16) < 16 && (b % 16) < 16);
        assert forall|i: int| 0 <= i < hex_text(data).len() implies {
            let c = #[trigger] hex_text(data)[i];
            ('0' <= c && c <= '9') || ('a' <= c && c <= 'f')
        } by {
            if i >= prev.len() {
                let d = if i == prev.len() { b / 16 } else { b % 16 };
                assert(hex_text(data)[i] == hex_digit(d));
            } else {
                assert(hex_text(data)[i] == prev[i]);
            }
        }
    }
}

} // verus!
