//! Laws of the construction, proved once over the model: the keystream is
//! its own inverse, the counter carry never reaches byte 13, a generated
//! next-challenge record verifies and yields the original value back, and
//! the reconnect response separates challenges that differ in their second
//! half.

use vstd::prelude::*;

use crate::cipher::AesContext;
use crate::model::{
    spec_ctr_at, spec_ctr_base, spec_ctr_crypt, spec_hash, spec_hash_iv, spec_hash_state,
    spec_inc, spec_next_chal_record, spec_next_enc_challenge, spec_next_enc_hash, spec_next_nonce,
    spec_next_recovered, spec_next_verdict, spec_offset_encrypt, spec_reconnect_response,
    spec_xor16,
};

verus! {

/// XOR by the same byte twice gives the original byte back.
pub proof fn lemma_xor_cancel(a: u8, b: u8)
    ensures
        ((a ^ b) ^ b) == a,
{
    assert(((a ^ b) ^ b) == a) by (bit_vector);
}

/// XOR of a byte with the XOR of itself and another byte gives the other
/// byte back.
pub proof fn lemma_xor_absorb(a: u8, b: u8)
    ensures
        (a ^ (a ^ b)) == b,
{
    assert((a ^ (a ^ b)) == b) by (bit_vector);
}

/// XOR by a fixed byte is injective.
pub proof fn lemma_xor_injective(a: u8, b: u8, c: u8)
    requires
        b != c,
    ensures
        (a ^ b) != (a ^ c),
{
    assert(b != c ==> (a ^ b) != (a ^ c)) by (bit_vector);
}

/// The keyed-hash tag is always a 16-byte block.
pub proof fn lemma_hash_len<T: AesContext>(key: Seq<u8>, nonce: Seq<u8>, data: Seq<u8>)
    ensures
        spec_hash::<T>(key, nonce, data).len() == 16,
{
    let n: nat = data.len() / 16;
    if n == 0 {
        T::block_of_len(key, spec_hash_iv(nonce, data.len()));
    } else {
        T::block_of_len(
            key,
            spec_xor16(
                spec_hash_state::<T>(key, nonce, data, (n - 1) as nat),
                data.subrange((16 * (n - 1)) as int, (16 * n) as int),
            ),
        );
    }
}

/// The keystream transform is its own inverse: applying it twice under the
/// same key and nonce gives any block-aligned data back.
pub proof fn lemma_ctr_crypt_involutive<T: AesContext>(key: Seq<u8>, nonce: Seq<u8>, data: Seq<u8>)
    requires
        data.len() % 16 == 0,
    ensures
        spec_ctr_crypt::<T>(key, nonce, spec_ctr_crypt::<T>(key, nonce, data)) == data,
{
    assert(16 * (data.len() / 16) == data.len()) by (nonlinear_arith)
        requires
            data.len() % 16 == 0,
    ;
    let c = spec_ctr_crypt::<T>(key, nonce, data);
    let cc = spec_ctr_crypt::<T>(key, nonce, c);
    assert forall|j: int| 0 <= j < data.len() implies cc[j] == data[j] by {
        let b = T::block_of(key, spec_ctr_at(nonce, (j / 16 + 1) as nat))[j % 16];
        assert(c[j] == (data[j] ^ b));
        assert(cc[j] == ((data[j] ^ b) ^ b));
        lemma_xor_cancel(data[j], b);
    };
    assert(cc =~= data);
}

/// Offset encryption is its own inverse: applying it twice under the same
/// key and nonce gives any 16-byte value back.
pub proof fn lemma_offset_encrypt_involutive<T: AesContext>(
    key: Seq<u8>,
    nonce: Seq<u8>,
    value: Seq<u8>,
)
    requires
        value.len() == 16,
    ensures
        spec_offset_encrypt::<T>(key, nonce, spec_offset_encrypt::<T>(key, nonce, value)) == value,
{
    let once = spec_offset_encrypt::<T>(key, nonce, value);
    let twice = spec_offset_encrypt::<T>(key, nonce, once);
    assert forall|i: int| 0 <= i < 16 implies twice[i] == value[i] by {
        let b = T::block_of(key, spec_ctr_base(nonce))[i];
        lemma_xor_absorb(b, value[i]);
    };
    assert(twice =~= value);
}

/// The counter increment never carries past byte 14: bytes 0 through 13,
/// and with them the mode tag and the nonce prefix, are preserved.
pub proof fn lemma_inc_ctr_carry_confined(c: Seq<u8>)
    requires
        c.len() == 16,
    ensures
        spec_inc(c).len() == 16,
        forall|i: int| 0 <= i < 14 ==> spec_inc(c)[i] == c[i],
{
}

/// Round trip: a next-challenge record generated for a 16-byte value
/// verifies as authentic, and decryption recovers exactly that value.
pub proof fn lemma_next_chal_round_trip<T: AesContext>(key: Seq<u8>, nonce: Seq<u8>, data: Seq<u8>)
    requires
        nonce.len() == 16,
        data.len() == 16,
    ensures
        spec_next_recovered::<T>(key, spec_next_chal_record::<T>(key, nonce, data)) == data,
        spec_next_verdict::<T>(key, spec_next_chal_record::<T>(key, nonce, data)),
{
    let rec = spec_next_chal_record::<T>(key, nonce, data);
    let h = spec_hash::<T>(key, nonce, data);
    assert(spec_ctr_crypt::<T>(key, nonce, data).len() == 16);
    assert(spec_next_nonce(rec) =~= nonce);
    assert(spec_next_enc_challenge(rec) =~= spec_ctr_crypt::<T>(key, nonce, data));
    assert(spec_next_enc_hash(rec) =~= spec_offset_encrypt::<T>(key, nonce, h));
    lemma_ctr_crypt_involutive::<T>(key, nonce, data);
    assert(spec_next_recovered::<T>(key, rec) == data);
    lemma_hash_len::<T>(key, nonce, data);
    lemma_offset_encrypt_involutive::<T>(key, nonce, h);
}

/// The reconnect response separates challenges: under one key, two 32-byte
/// challenges with the same first half but any difference in the second
/// half get different responses.
pub proof fn lemma_reconnect_second_half<T: AesContext>(key: Seq<u8>, c1: Seq<u8>, c2: Seq<u8>)
    requires
        c1.len() == 32,
        c2.len() == 32,
        c1.subrange(0, 16) == c2.subrange(0, 16),
        c1 != c2,
    ensures
        spec_reconnect_response::<T>(key, c1) != spec_reconnect_response::<T>(key, c2),
{
    assert(exists|j: int| 0 <= j < 32 && c1[j] != c2[j]) by {
        if forall|j: int| 0 <= j < 32 ==> c1[j] == c2[j] {
            assert(c1 =~= c2);
        }
    };
    let j = choose|j: int| 0 <= j < 32 && c1[j] != c2[j];
    assert(0 <= j < 32 && c1[j] != c2[j]);
    if j < 16 {
        assert(c1[j] == c1.subrange(0, 16)[j]);
        assert(c2[j] == c2.subrange(0, 16)[j]);
        assert(false);
    }
    let b = T::block_of(key, c1.subrange(0, 16))[j - 16];
    lemma_xor_injective(b, c1[j], c2[j]);
    assert(spec_reconnect_response::<T>(key, c1)[j - 16] == (b ^ c1[j]));
    assert(spec_reconnect_response::<T>(key, c2)[j - 16] == (b ^ c2[j]));
}

} // verus!
