//! The single-block cipher collaborator: a context that holds a key schedule
//! and encrypts one 16-byte block at a time. Callers of this library supply
//! their own implementation (typically a hardware or vetted software AES);
//! [`DemoCipher`] is a small verified stand-in usable in tests and examples.

use vstd::prelude::*;

verus! {

/// A block-cipher context: "set a 128-bit key" and "encrypt one 16-byte
/// block". `loaded_key` models the active key schedule and `block_of` the
/// single-block transform, so that everything built on top is proved for
/// every implementation of this trait.
pub trait AesContext: Sized {
    /// The key currently loaded into the context.
    spec fn loaded_key(&self) -> Seq<u8>;

    /// The single-block transform under a given key: a pure function of the
    /// key and the input block.
    spec fn block_of(key: Seq<u8>, block: Seq<u8>) -> Seq<u8>;

    /// The single-block transform always yields a 16-byte block.
    proof fn block_of_len(key: Seq<u8>, block: Seq<u8>)
        ensures
            Self::block_of(key, block).len() == 16,
    ;

    /// Replaces the active key schedule.
    fn aes_set_key(&mut self, key: &[u8; 16])
        ensures
            final(self).loaded_key() == key@,
    ;

    /// Encrypts one 16-byte block under the currently loaded key.
    fn pgp_aes_encrypt(&self, input: &[u8; 16], output: &mut [u8; 16])
        ensures
            final(output)@ == Self::block_of(self.loaded_key(), input@),
    ;
}

/// One byte of the demo transform: a byte permutation, a key XOR and a
/// wrapping key addition. Deterministic and bijective per block position,
/// which is all the tests need; it is not AES.
pub open spec fn demo_block_byte(key: Seq<u8>, block: Seq<u8>, i: int) -> u8 {
    (((block[(i + 3) % 16] ^ key[i]) + key[(i + 7) % 16]) % 256) as u8
}

/// A lightweight software block transform implementing [`AesContext`]: a
/// stand-in for a real AES engine, for tests and examples.
pub struct DemoCipher {
    pub key: [u8; 16],
}

impl AesContext for DemoCipher {
    open spec fn loaded_key(&self) -> Seq<u8> {
        self.key@
    }

    open spec fn block_of(key: Seq<u8>, block: Seq<u8>) -> Seq<u8> {
        Seq::new(16, |i: int| demo_block_byte(key, block, i))
    }

    proof fn block_of_len(key: Seq<u8>, block: Seq<u8>) {
    }

    fn aes_set_key(&mut self, key: &[u8; 16]) {
        self.key = *key;
    }

    fn pgp_aes_encrypt(&self, input: &[u8; 16], output: &mut [u8; 16]) {
        let mut i: usize = 0;
        while i < 16
            invariant
                0 <= i <= 16,
                forall|j: int|
                    0 <= j < i ==> output@[j] == demo_block_byte(self.key@, input@, j),
            decreases 16 - i,
        {
            let x: u8 = input[(i + 3) % 16] ^ self.key[i];
            let s: u16 = x as u16 + self.key[(i + 7) % 16] as u16;
            output[i] = (s % 256) as u8;
            i += 1;
        }
        proof {
            assert(output@ =~= Self::block_of(self.loaded_key(), input@));
        }
    }
}

} // verus!
