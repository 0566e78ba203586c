//! Message digests and authentication codes.

use crate::identifier::hex_char;
use vstd::prelude::*;
use vstd::slice::slice_to_vec;

verus! {

/// The length of a SHA-256 digest.
pub const DIGEST_BYTES: usize = 32;

/// The block length of SHA-256.
pub const BLOCK_BYTES: usize = 64;

/// The SHA-256 digest of a message.
pub uninterp spec fn sha256(message: Seq<u8>) -> Seq<u8>;

/// Computes a digest with `sha2::Sha256::digest`. The result is the named
/// digest of the message, and it is 32 bytes long.
#[verifier::external_body]
pub(crate) fn sha256_digest(message: &[u8]) -> (digest: Vec<u8>)
    ensures
        digest@ == sha256(message@),
        digest@.len() == DIGEST_BYTES,
{
    <sha2::Sha256 as sha2::Digest>::digest(message).to_vec()
}

/// The key, hashed where it is longer than one block, and filled up with zeros
/// to one block.
pub open spec fn key_block(key: Seq<u8>) -> Seq<u8> {
    let normalized = if key.len() > BLOCK_BYTES {
        sha256(key)
    } else {
        key
    };
    Seq::new(
        BLOCK_BYTES as nat,
        |i: int|
            if i < normalized.len() {
                normalized[i]
            } else {
                0u8
            },
    )
}

/// Every byte of a block, combined with one mask byte by exclusive or.
pub open spec fn masked(block: Seq<u8>, mask: u8) -> Seq<u8> {
    Seq::new(block.len(), |i: int| block[i] ^ mask)
}

/// The HMAC of a message under a key, over SHA-256.
pub open spec fn hmac(key: Seq<u8>, message: Seq<u8>) -> Seq<u8> {
    let block = key_block(key);
    sha256(masked(block, 0x5c) + sha256(masked(block, 0x36) + message))
}

fn masked_block(normalized: &Vec<u8>, mask: u8) -> (block: Vec<u8>)
    requires
        normalized@.len() <= BLOCK_BYTES,
    ensures
        block@ == masked(
            Seq::new(
                BLOCK_BYTES as nat,
                |i: int|
                    if i < normalized@.len() {
                        normalized@[i]
                    } else {
                        0u8
                    },
            ),
            mask,
        ),
{
    let mut block: Vec<u8> = Vec::new();
    let mut i: usize = 0;
    while i < BLOCK_BYTES
        invariant
            i <= BLOCK_BYTES,
            block@.len() == i,
            forall|k: int|
                0 <= k < i ==> #[trigger] block@[k] == (if k < normalized@.len() {
                    normalized@[k]
                } else {
                    0u8
                }) ^ mask,
        decreases BLOCK_BYTES - i,
    {
        let byte: u8 = if i < normalized.len() {
            normalized[i]
        } else {
            0
        };
        block.push(byte ^ mask);
        i += 1;
    }
    block
}

fn append_bytes(target: &mut Vec<u8>, bytes: &[u8])
    ensures
        final(target)@ == old(target)@ + bytes@,
{
    let mut i: usize = 0;
    while i < bytes.len()
        invariant
            i <= bytes@.len(),
            target@ == old(target)@ + bytes@.take(i as int),
        decreases bytes@.len() - i,
    {
        target.push(bytes[i]);
        assert(bytes@.take(i + 1) =~= bytes@.take(i as int).push(bytes@[i as int]));
        i += 1;
    }
    assert(bytes@.take(i as int) =~= bytes@);
}

/// Computes the HMAC of a message under a key.
pub fn hmac_sha256(key: &[u8], message: &[u8]) -> (code: Vec<u8>)
    ensures
        code@ == hmac(key@, message@),
        code@.len() == DIGEST_BYTES,
{
    let normalized = if key.len() > BLOCK_BYTES {
        sha256_digest(key)
    } else {
        slice_to_vec(key)
    };
    let ghost block = key_block(key@);
    let mut inner = masked_block(&normalized, 0x36);
    assert(inner@ =~= masked(block, 0x36));
    append_bytes(&mut inner, message);
    let inner_digest = sha256_digest(inner.as_slice());
    let mut outer = masked_block(&normalized, 0x5c);
    assert(outer@ =~= masked(block, 0x5c));
    append_bytes(&mut outer, inner_digest.as_slice());
    sha256_digest(outer.as_slice())
}

/// The lowercase hexadecimal spelling of a byte string, two digits to a byte.
pub open spec fn hex_text(bytes: Seq<u8>) -> Seq<char> {
    Seq::new(
        2 * bytes.len(),
        |i: int|
            if i % 2 == 0 {
                hex_char((bytes[i / 2] / 16) as nat)
            } else {
                hex_char((bytes[i / 2] % 16) as nat)
            },
    )
}

fn hex_digit_text(digit: u8) -> (text: &'static str)
    requires
        digit < 16,
    ensures
        text@ == seq![hex_char(digit as nat)],
{
    proof {
        reveal_strlit("0");
        reveal_strlit("1");
        reveal_strlit("2");
        reveal_strlit("3");
        reveal_strlit("4");
        reveal_strlit("5");
        reveal_strlit("6");
        reveal_strlit("7");
        reveal_strlit("8");
        reveal_strlit("9");
        reveal_strlit("a");
        reveal_strlit("b");
        reveal_strlit("c");
        reveal_strlit("d");
        reveal_strlit("e");
        reveal_strlit("f");
    }
    let text = match digit {
        0 => "0",
        1 => "1",
        2 => "2",
        3 => "3",
        4 => "4",
        5 => "5",
        6 => "6",
        7 => "7",
        8 => "8",
        9 => "9",
        10 => "a",
        11 => "b",
        12 => "c",
        13 => "d",
        14 => "e",
        _ => "f",
    };
    assert(text@ =~= seq![hex_char(digit as nat)]);
    text
}

/// Writes a byte string in lowercase hexadecimal.
pub fn hex_lower(bytes: &[u8]) -> (text: String)
    ensures
        text@ == hex_text(bytes@),
{
    let mut text = String::new();
    let mut i: usize = 0;
    assert(text@ =~= hex_text(bytes@.take(0)));
    while i < bytes.len()
        invariant
            i <= bytes@.len(),
            text@ == hex_text(bytes@.take(i as int)),
        decreases bytes@.len() - i,
    {
        let byte: u8 = bytes[i];
        text = text.concat(hex_digit_text(byte / 16)).concat(hex_digit_text(byte % 16));
        assert(text@ =~= hex_text(bytes@.take(i + 1)));
        i += 1;
    }
    assert(bytes@.take(i as int) =~= bytes@);
    text
}

/// Compares two byte strings. Where the lengths agree, every byte is looked at
/// whatever the earlier ones were.
pub fn constant_time_equal(left: &[u8], right: &[u8]) -> (equal: bool)
    ensures
        equal == (left@ == right@),
{
    if left.len() != right.len() {
        return false;
    }
    let mut difference: u8 = 0;
    let mut i: usize = 0;
    while i < left.len()
        invariant
            i <= left@.len(),
            left@.len() == right@.len(),
            difference == 0 <==> (forall|k: int| 0 <= k < i ==> left@[k] == right@[k]),
        decreases left@.len() - i,
    {
        let l: u8 = left[i];
        let r: u8 = right[i];
        assert((difference | (l ^ r)) == 0 <==> difference == 0 && l == r) by (bit_vector);
        difference = difference | (l ^ r);
        i += 1;
    }
    assert((forall|k: int| 0 <= k < i ==> left@[k] == right@[k]) ==> left@ =~= right@);
    difference == 0
}

/// A key that is longer than a block stands for its digest, and a shorter one for
/// itself with zeros behind it.
pub proof fn law_keys_are_brought_to_one_block(key: Seq<u8>, message: Seq<u8>)
    ensures
        key.len() > 64 && sha256(key).len() == 32 ==> hmac(key, message) == hmac(
            sha256(key),
            message,
        ),
        key.len() < 64 ==> hmac(key.push(0u8), message) == hmac(key, message),
        key_block(key).len() == 64,
        key.len() <= 64 ==> key_block(key).take(key.len() as int) == key,
{
    if key.len() > 64 && sha256(key).len() == 32 {
        assert(key_block(key) =~= key_block(sha256(key)));
    }
    if key.len() < 64 {
        assert(key_block(key.push(0u8)) =~= key_block(key));
    }
    if key.len() <= 64 {
        assert(key_block(key).take(key.len() as int) =~= key);
    }
}

/// A code is the digest of the outer key and the digest of the inner key and the
/// message, where each is the block of the key under its own mask.
pub proof fn law_code_is_a_digest_of_a_digest(key: Seq<u8>, message: Seq<u8>)
    requires
        key.len() <= 64,
    ensures
        ({
            let outer = Seq::new(
                64,
                |i: int|
                    if i < key.len() {
                        key[i] ^ 0x5cu8
                    } else {
                        0x5cu8
                    },
            );
            let inner = Seq::new(
                64,
                |i: int|
                    if i < key.len() {
                        key[i] ^ 0x36u8
                    } else {
                        0x36u8
                    },
            );
            hmac(key, message) == sha256(outer + sha256(inner + message))
        }),
{
    let block = key_block(key);
    assert(0u8 ^ 0x5cu8 == 0x5cu8) by (bit_vector);
    assert(0u8 ^ 0x36u8 == 0x36u8) by (bit_vector);
    let outer = Seq::new(
        64,
        |i: int|
            if i < key.len() {
                key[i] ^ 0x5cu8
            } else {
                0x5cu8
            },
    );
    let inner = Seq::new(
        64,
        |i: int|
            if i < key.len() {
                key[i] ^ 0x36u8
            } else {
                0x36u8
            },
    );
    assert(masked(block, 0x5c) =~= outer);
    assert(masked(block, 0x36) =~= inner);
}

} // verus!
