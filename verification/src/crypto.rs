//! Signatures over request bodies.
//!
//! GitHub signs a delivery with HMAC-SHA256 over the raw body and sends the
//! result in the `X-Hub-Signature-256` header as `sha256=` followed by the
//! lower-case hexadecimal digest.

use vstd::prelude::*;
use vstd::string::*;
use hmac::{Hmac, Mac};
use sha2::Sha256;

verus! {

/// The HMAC-SHA256 code of `message` under `key`.
pub uninterp spec fn hmac_sha256(key: Seq<u8>, message: Seq<u8>) -> Seq<u8>;

/// Computes HMAC-SHA256 with the `hmac` and `sha2` crates: `new_from_slice`,
/// which takes a key of any length, then `update` and `finalize`. The
/// contract names the code and claims that it depends on the key and the
/// message alone.
#[verifier::external_body]
fn hmac_sha256_code(key: &[u8], message: &[u8]) -> (code: Vec<u8>)
    ensures
        code@ == hmac_sha256(key@, message@),
{
    let mut mac = Hmac::<Sha256>::new_from_slice(key).expect("HMAC takes a key of any length");
    mac.update(message);
    mac.finalize().into_bytes().to_vec()
}

/// The sixteen hexadecimal digits, lower case.
pub open spec fn hex_digits() -> Seq<char> {
    seq!['0', '1', '2', '3', '4', '5', '6', '7', '8', '9', 'a', 'b', 'c', 'd', 'e', 'f']
}

/// `bytes` in hexadecimal: two lower-case digits for each byte, the high
/// half first.
pub open spec fn hex_lower(bytes: Seq<u8>) -> Seq<char> {
    Seq::new(
        2 * bytes.len(),
        |i: int|
            if i % 2 == 0 {
                hex_digits()[bytes[i / 2] as int / 16]
            } else {
                hex_digits()[bytes[i / 2] as int % 16]
            },
    )
}

/// The value of the signature header for `body` under `secret`.
pub open spec fn github_signature(secret: Seq<char>, body: Seq<u8>) -> Seq<char> {
    "sha256="@ + hex_lower(hmac_sha256(vstd::utf8::encode_utf8(secret), body))
}

fn hex_digit(n: u8) -> (r: &'static str)
    requires
        n < 16,
    ensures
        r@ == seq![hex_digits()[n as int]],
{
    proof {
        reveal_strlit("0");
        reveal_strlit("1");
        reveal_strlit("2");
        reveal_strlit("3");
        reveal_strlit("4");
        reveal_strlit("5");
        reveal_strlit("6");
        reveal_strlit("7");
        reveal_strlit("8");
        reveal_strlit("9");
        reveal_strlit("a");
        reveal_strlit("b");
        reveal_strlit("c");
        reveal_strlit("d");
        reveal_strlit("e");
        reveal_strlit("f");
    }
    let r = match n {
        0 => "0",
        1 => "1",
        2 => "2",
        3 => "3",
        4 => "4",
        5 => "5",
        6 => "6",
        7 => "7",
        8 => "8",
        9 => "9",
        10 => "a",
        11 => "b",
        12 => "c",
        13 => "d",
        14 => "e",
        _ => "f",
    };
    assert(r@ =~= seq![hex_digits()[n as int]]);
    r
}

/// Appends `bytes` in hexadecimal to `out`.
fn push_hex(out: &mut String, bytes: &[u8])
    ensures
        final(out)@ == old(out)@ + hex_lower(bytes@),
{
    let ghost start = out@;
    let mut i: usize = 0;
    assert(out@ =~= start + hex_lower(bytes@.take(0)));
    while i < bytes.len()
        invariant
            i <= bytes.len(),
            out@ == start + hex_lower(bytes@.take(i as int)),
        decreases bytes.len() - i,
    {
        let b = bytes[i];
        let ghost before = out@;
        out.append(hex_digit(b / 16));
        out.append(hex_digit(b % 16));
        proof {
            let longer = hex_lower(bytes@.take(i + 1));
            let shorter = hex_lower(bytes@.take(i as int));
            assert(longer =~= shorter + seq![hex_digits()[b as int / 16]] + seq![
                hex_digits()[b as int % 16],
            ]) by {
                assert forall|k: int| 0 <= k < 2 * i implies longer[k] == shorter[k] by {
                    assert(bytes@.take(i + 1)[k / 2] == bytes@.take(i as int)[k / 2]);
                }
                assert(bytes@.take(i + 1)[i as int] == b);
            }
            assert(out@ =~= start + longer);
        }
        i += 1;
    }
    assert(bytes@.take(i as int) =~= bytes@);
}

/// The value of the signature header for `body` under `secret`: `sha256=`
/// and the hexadecimal HMAC-SHA256 code of the body.
pub fn compute_hmac_sha256(secret: &str, body: &[u8]) -> (signature: String)
    ensures
        signature@ == github_signature(secret@, body@),
{
    let code = hmac_sha256_code(secret.as_bytes(), body);
    let mut signature = String::from_str("sha256=");
    push_hex(&mut signature, code.as_slice());
    signature
}

/// Whether `a` and `b` hold the same bytes. Bytes that differ do not end
/// the comparison early: where the lengths agree, every position is read.
pub fn constant_time_eq(a: &[u8], b: &[u8]) -> (r: bool)
    ensures
        r == (a@ == b@),
{
    if a.len() != b.len() {
        return false;
    }
    let mut diff: u8 = 0;
    let mut i: usize = 0;
    assert(a@.take(0) =~= b@.take(0));
    while i < a.len()
        invariant
            i <= a.len(),
            a.len() == b.len(),
            diff == 0 <==> a@.take(i as int) == b@.take(i as int),
        decreases a.len() - i,
    {
        let x = a[i];
        let y = b[i];
        let ghost before = diff;
        diff = diff | (x ^ y);
        proof {
            assert((before | (x ^ y)) == 0 <==> before == 0 && x == y) by (bit_vector);
            if before == 0 && x == y {
                assert(a@.take(i + 1) =~= a@.take(i as int).push(x));
                assert(b@.take(i + 1) =~= b@.take(i as int).push(y));
            }
            if a@.take(i + 1) == b@.take(i + 1) {
                assert(a@.take(i + 1)[i as int] == b@.take(i + 1)[i as int]);
                assert(a@.take(i as int) =~= a@.take(i + 1).take(i as int));
                assert(b@.take(i as int) =~= b@.take(i + 1).take(i as int));
            }
        }
        i += 1;
    }
    assert(a@.take(i as int) =~= a@);
    assert(b@.take(i as int) =~= b@);
    diff == 0
}

/// Whether `presented` is the signature of `body` under `secret`. The
/// comparison takes the same time wherever the two differ.
pub fn verify_signature(secret: &str, body: &[u8], presented: &str) -> (r: bool)
    ensures
        r == (presented@ == github_signature(secret@, body@)),
{
    let expected = compute_hmac_sha256(secret, body);
    proof {
        vstd::utf8::encode_utf8_decode_utf8(expected@);
        vstd::utf8::encode_utf8_decode_utf8(presented@);
    }
    constant_time_eq(expected.as_str().as_bytes(), presented.as_bytes())
}

} // verus!
