//! The mathematical model: what every counter block, keystream, tag and
//! record is as a function of the inputs. The executable code in [`crate::cert`]
//! is proved to produce exactly these values, and the laws in
//! [`crate::laws`] are stated over them.

use vstd::prelude::*;

use crate::cipher::AesContext;

verus! {

/// The starting counter block for the keystream and for offset encryption:
/// byte 0 is the mode tag 1, bytes 1..14 are the first 13 nonce bytes,
/// bytes 14 and 15 are zero.
pub open spec fn spec_ctr_base(nonce: Seq<u8>) -> Seq<u8> {
    Seq::new(
        16,
        |i: int|
            if i == 0 {
                1u8
            } else if i <= 13 {
                nonce[i - 1]
            } else {
                0u8
            },
    )
}

/// The initial block of the keyed hash: byte 0 is the mode tag 57, bytes
/// 1..14 are the first 13 nonce bytes, bytes 14 and 15 are the high and low
/// bytes of the data length.
pub open spec fn spec_hash_iv(nonce: Seq<u8>, len: nat) -> Seq<u8> {
    Seq::new(
        16,
        |i: int|
            if i == 0 {
                57u8
            } else if i <= 13 {
                nonce[i - 1]
            } else if i == 14 {
                (((len / 256) % 256) as u8)
            } else {
                ((len % 256) as u8)
            },
    )
}

/// The counter increment: a big-endian increment confined to the last two
/// bytes. Wrapping byte 15 carries into byte 14; the carry never propagates
/// past byte 14.
pub open spec fn spec_inc(c: Seq<u8>) -> Seq<u8> {
    if c[15] == 255 {
        c.update(15, 0u8).update(
            14,
            if c[14] == 255 {
                0u8
            } else {
                (c[14] + 1) as u8
            },
        )
    } else {
        c.update(15, (c[15] + 1) as u8)
    }
}

/// The counter after `i` increments of the starting counter.
pub open spec fn spec_ctr_at(nonce: Seq<u8>, i: nat) -> Seq<u8>
    decreases i,
{
    if i == 0 {
        spec_ctr_base(nonce)
    } else {
        spec_inc(spec_ctr_at(nonce, (i - 1) as nat))
    }
}

/// Byte-wise exclusive or of two 16-byte blocks.
pub open spec fn spec_xor16(a: Seq<u8>, b: Seq<u8>) -> Seq<u8> {
    Seq::new(16, |i: int| a[i] ^ b[i])
}

/// The CTR-mode transform of `data`: each whole 16-byte block `i`
/// (0-indexed) is XORed with the encryption of the counter after `i + 1`
/// increments (the counter is incremented before each block, so counter
/// index 0 is never used for the keystream). A trailing remainder that does
/// not fill a block is dropped.
pub open spec fn spec_ctr_crypt<T: AesContext>(key: Seq<u8>, nonce: Seq<u8>, data: Seq<u8>) -> Seq<
    u8,
> {
    Seq::new(
        16 * (data.len() / 16),
        |j: int| data[j] ^ T::block_of(key, spec_ctr_at(nonce, (j / 16 + 1) as nat))[j % 16],
    )
}

/// The hash state after absorbing the first `i` blocks of `data`: state 0 is
/// the encrypted IV, and each step XORs in one data block and re-encrypts.
pub open spec fn spec_hash_state<T: AesContext>(
    key: Seq<u8>,
    nonce: Seq<u8>,
    data: Seq<u8>,
    i: nat,
) -> Seq<u8>
    decreases i,
{
    if i == 0 {
        T::block_of(key, spec_hash_iv(nonce, data.len()))
    } else {
        T::block_of(
            key,
            spec_xor16(
                spec_hash_state::<T>(key, nonce, data, (i - 1) as nat),
                data.subrange((16 * (i - 1)) as int, (16 * i) as int),
            ),
        )
    }
}

/// The 16-byte keyed-hash tag of `data` under `key` and `nonce`: the hash
/// state after all whole 16-byte blocks of `data`. A trailing remainder is
/// never incorporated, though the full byte length enters the IV.
pub open spec fn spec_hash<T: AesContext>(key: Seq<u8>, nonce: Seq<u8>, data: Seq<u8>) -> Seq<u8> {
    spec_hash_state::<T>(key, nonce, data, data.len() / 16)
}

/// Offset encryption: the encryption of the un-incremented starting counter,
/// XORed with a 16-byte value. Applying it twice under the same key and
/// nonce gives the value back.
pub open spec fn spec_offset_encrypt<T: AesContext>(
    key: Seq<u8>,
    nonce: Seq<u8>,
    value: Seq<u8>,
) -> Seq<u8> {
    spec_xor16(T::block_of(key, spec_ctr_base(nonce)), value)
}

/// The reconnect response: the encryption of the first half of the 32-byte
/// challenge, XORed with its second half.
pub open spec fn spec_reconnect_response<T: AesContext>(key: Seq<u8>, challenge: Seq<u8>) -> Seq<
    u8,
> {
    spec_xor16(T::block_of(key, challenge.subrange(0, 16)), challenge.subrange(16, 32))
}

/// The challenge value that next-challenge generation encrypts: the given
/// 16-byte value, or the all-zero block when none is given.
pub open spec fn spec_opt_challenge(in_data: Option<&[u8; 16]>) -> Seq<u8> {
    match in_data {
        Some(d) => d@,
        None => Seq::new(16, |i: int| 0u8),
    }
}

/// The nonce field of a next-challenge record.
pub open spec fn spec_next_nonce(rec: Seq<u8>) -> Seq<u8> {
    rec.subrange(0, 16)
}

/// The encrypted-challenge field of a next-challenge record.
pub open spec fn spec_next_enc_challenge(rec: Seq<u8>) -> Seq<u8> {
    rec.subrange(16, 32)
}

/// The encrypted-hash field of a next-challenge record.
pub open spec fn spec_next_enc_hash(rec: Seq<u8>) -> Seq<u8> {
    rec.subrange(32, 48)
}

/// The 48-byte next-challenge record for a 16-byte challenge value: the
/// nonce, the keystream-encrypted value, and the offset-encrypted tag of the
/// value.
pub open spec fn spec_next_chal_record<T: AesContext>(
    key: Seq<u8>,
    nonce: Seq<u8>,
    data: Seq<u8>,
) -> Seq<u8> {
    nonce + spec_ctr_crypt::<T>(key, nonce, data) + spec_offset_encrypt::<T>(
        key,
        nonce,
        spec_hash::<T>(key, nonce, data),
    )
}

/// The challenge value that decryption recovers from a next-challenge
/// record: the keystream transform of its encrypted-challenge field under
/// its own nonce.
pub open spec fn spec_next_recovered<T: AesContext>(key: Seq<u8>, rec: Seq<u8>) -> Seq<u8> {
    spec_ctr_crypt::<T>(key, spec_next_nonce(rec), spec_next_enc_challenge(rec))
}

/// The authenticity verdict on a next-challenge record: the keyed hash of
/// the recovered challenge equals the offset-decrypted tag field.
pub open spec fn spec_next_verdict<T: AesContext>(key: Seq<u8>, rec: Seq<u8>) -> bool {
    spec_hash::<T>(key, spec_next_nonce(rec), spec_next_recovered::<T>(key, rec))
        == spec_offset_encrypt::<T>(key, spec_next_nonce(rec), spec_next_enc_hash(rec))
}

/// A sequence reversed.
pub open spec fn spec_rev(a: Seq<u8>) -> Seq<u8> {
    Seq::new(a.len(), |i: int| a[a.len() - 1 - i])
}

/// The serialized inner main-challenge record: the reversed device address,
/// the main nonce, the keystream-encrypted challenge value, and the
/// offset-encrypted tag of the value, as one contiguous 54-byte sequence.
pub open spec fn spec_main_challenge_bytes<T: AesContext>(
    mac: Seq<u8>,
    key: Seq<u8>,
    nonce: Seq<u8>,
    challenge: Seq<u8>,
) -> Seq<u8> {
    spec_rev(mac) + nonce + spec_ctr_crypt::<T>(key, nonce, challenge) + spec_offset_encrypt::<T>(
        key,
        nonce,
        spec_hash::<T>(key, nonce, challenge),
    )
}

} // verus!
