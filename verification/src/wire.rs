//! Wire framing of a shielded ciphertext: key hash, KEM ciphertext length and bytes, AEAD
//! nonce, and AEAD ciphertext, concatenated in that order.
use vstd::prelude::*;

verus! {

/// The two little-endian bytes of a length taken modulo 2^16.
pub open spec fn le16_length(len: nat) -> Seq<u8> {
    seq![(len % 65536 % 256) as u8, (len % 65536 / 256) as u8]
}

/// The framed ciphertext: `key_hash ‖ le16(len(kem_ct)) ‖ kem_ct ‖ nonce ‖ aead_ct`.
pub open spec fn spec_wire_ciphertext(
    key_hash: Seq<u8>,
    kem_ct: Seq<u8>,
    nonce: Seq<u8>,
    aead_ct: Seq<u8>,
) -> Seq<u8> {
    key_hash + le16_length(kem_ct.len()) + kem_ct + nonce + aead_ct
}

/// Appends `bytes` to `buf`.
fn append_bytes(buf: &mut Vec<u8>, bytes: &[u8])
    ensures
        final(buf)@ == old(buf)@ + bytes@,
{
    let mut i: usize = 0;
    while i < bytes.len()
        invariant
            0 <= i <= bytes@.len(),
            buf@ == old(buf)@ + bytes@.subrange(0, i as int),
        decreases bytes@.len() - i,
    {
        buf.push(bytes[i]);
        proof {
            assert(bytes@.subrange(0, i + 1) =~= bytes@.subrange(0, i as int).push(bytes@[i as int]));
        }
        i = i + 1;
    }
    proof {
        assert(bytes@.subrange(0, bytes@.len() as int) =~= bytes@);
    }
}

/// Frames a shielded ciphertext for the wire; the KEM ciphertext length is written as a
/// little-endian 16-bit value, taken modulo 2^16.
pub fn build_wire_ciphertext(
    key_hash: &[u8; 16],
    kem_ct: &[u8],
    nonce: &[u8; 24],
    aead_ct: &[u8],
) -> (r: Vec<u8>)
    ensures
        r@ == spec_wire_ciphertext(key_hash@, kem_ct@, nonce@, aead_ct@),
{
    let mut buf: Vec<u8> = Vec::new();
    append_bytes(&mut buf, vstd::array::array_as_slice(key_hash));
    let len: usize = kem_ct.len() % 65536;
    buf.push((len % 256) as u8);
    buf.push((len / 256) as u8);
    append_bytes(&mut buf, kem_ct);
    append_bytes(&mut buf, vstd::array::array_as_slice(nonce));
    append_bytes(&mut buf, aead_ct);
    proof {
        assert(buf@ =~= spec_wire_ciphertext(key_hash@, kem_ct@, nonce@, aead_ct@));
    }
    buf
}

/// The frame lays its parts out in order: the key hash first, then the KEM ciphertext's length
/// as two little-endian bytes (modulo 2^16), the KEM ciphertext, the nonce and the AEAD
/// ciphertext, with nothing added or dropped.
pub proof fn lemma_wire_layout(key_hash: Seq<u8>, kem_ct: Seq<u8>, nonce: Seq<u8>, aead_ct: Seq<u8>)
    ensures
        ({
            let w = spec_wire_ciphertext(key_hash, kem_ct, nonce, aead_ct);
            let k = key_hash.len() as int;
            let n = kem_ct.len() as int;
            &&& w.len() == key_hash.len() + 2 + kem_ct.len() + nonce.len() + aead_ct.len()
            &&& w.subrange(0, k) == key_hash
            &&& w[k] as int + 256 * (w[k + 1] as int) == kem_ct.len() % 65536
            &&& w.subrange(k + 2, k + 2 + n) == kem_ct
            &&& w.subrange(k + 2 + n, k + 2 + n + nonce.len()) == nonce
            &&& w.subrange(k + 2 + n + nonce.len(), w.len() as int) == aead_ct
        }),
{
    let w = spec_wire_ciphertext(key_hash, kem_ct, nonce, aead_ct);
    let k = key_hash.len() as int;
    let n = kem_ct.len() as int;
    assert(w.subrange(0, k) =~= key_hash);
    assert(w.subrange(k + 2, k + 2 + n) =~= kem_ct);
    assert(w.subrange(k + 2 + n, k + 2 + n + nonce.len()) =~= nonce);
    assert(w.subrange(k + 2 + n + nonce.len(), w.len() as int) =~= aead_ct);
    assert(w[k] == le16_length(kem_ct.len())[0]);
    assert(w[k + 1] == le16_length(kem_ct.len())[1]);
}

} // verus!
