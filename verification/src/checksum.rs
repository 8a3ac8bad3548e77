//! Checksums and their printed form.

use vstd::prelude::*;
use vstd::utf8::encode_utf8;

verus! {

/// SHA-256 checksum of some bytes.
pub uninterp spec fn sha256_digest(data: Seq<u8>) -> Seq<u8>;

/// `openssl::sha::sha256` computes the SHA-256 checksum of its argument. Nothing
/// is said of which checksum that is, but that it depends on the bytes alone.
pub assume_specification[ openssl::sha::sha256 ](data: &[u8]) -> (r: [u8; 32])
    ensures
        r@ == sha256_digest(data@),
;

/// Lower case hexadecimal digit of a value below 16.
pub open spec fn hex_digit(n: int) -> char {
    if n < 10 {
        (('0' as u32) + n) as char
    } else {
        (('a' as u32) + n - 10) as char
    }
}

/// Bytes in hexadecimal notation, two digits for each.
pub open spec fn hex_text(data: Seq<u8>) -> Seq<char> {
    Seq::new(
        2 * data.len(),
        |i: int|
            if i % 2 == 0 {
                hex_digit(data[i / 2] as int / 16)
            } else {
                hex_digit(data[i / 2] as int % 16)
            },
    )
}

/// `hex::encode` writes each byte as two lower case hexadecimal digits, the high
/// one first.
#[verifier::external_body]
pub(crate) fn hex_encode(data: &[u8]) -> (r: String)
    ensures
        r@ == hex_text(data@),
{
    hex::encode(data)
}

/// Checksum of the text of a configuration file, by which a change of the file is
/// noticed. A file that is not there counts as empty.
pub fn config_digest(content: Option<&str>) -> (r: [u8; 32])
    ensures
        r@ == sha256_digest(
            encode_utf8(
                match content {
                    Some(text) => text@,
                    None => seq![],
                },
            ),
        ),
{
    match content {
        Some(text) => openssl::sha::sha256(text.as_bytes()),
        None => {
            proof {
                reveal_strlit("");
                assert(""@ =~= Seq::<char>::empty());
            }
            openssl::sha::sha256("".as_bytes())
        },
    }
}

/// Printed form of the checksum of a configuration file.
pub fn digest_text(digest: &[u8; 32]) -> (r: String)
    ensures
        r@ == hex_text(digest@),
{
    hex_encode(digest.as_slice())
}

/// Two texts of digits are the same only for the same bytes, and each byte has two digits,
/// from 0 to 9 and from a to f.
pub proof fn digits_tell_bytes_apart(a: Seq<u8>, b: Seq<u8>)
    ensures
        hex_text(a).len() == 2 * a.len(),
        forall|i: int|
            0 <= i < hex_text(a).len() ==> '0' <= #[trigger] hex_text(a)[i] <= '9' || 'a' <= hex_text(
                a,
            )[i] <= 'f',
        hex_text(a) == hex_text(b) ==> a == b,
{
    if hex_text(a) == hex_text(b) {
        assert(hex_text(a).len() == hex_text(b).len());
        assert forall|k: int| 0 <= k < a.len() implies a[k] == b[k] by {
            assert(hex_text(a)[2 * k] == hex_text(b)[2 * k]);
            assert(hex_text(a)[2 * k + 1] == hex_text(b)[2 * k + 1]);
            assert((2 * k) / 2 == k && (2 * k + 1) / 2 == k);
            assert(a[k] as int / 16 == b[k] as int / 16);
            assert(a[k] as int % 16 == b[k] as int % 16);
        }
        assert(a =~= b);
    }
}

} // verus!
