//! The executable primitives and protocol operations, each proved to
//! produce the values that [`crate::model`] defines.

use vstd::prelude::*;

use vstd::array::ref_mut_array_unsizing_coercion;

use crate::cipher::AesContext;
use crate::model::{
    spec_ctr_at, spec_ctr_base, spec_ctr_crypt, spec_hash, spec_hash_iv, spec_hash_state, spec_inc,
    spec_main_challenge_bytes, spec_next_chal_record, spec_next_enc_challenge, spec_next_enc_hash,
    spec_next_nonce, spec_next_recovered, spec_next_verdict, spec_offset_encrypt,
    spec_opt_challenge, spec_reconnect_response, spec_rev, spec_xor16,
};

verus! {

/// Copies `src` into `dst` starting at `at`; every other byte of `dst` is
/// left as it was.
pub fn copy_into<const N: usize>(dst: &mut [u8; N], at: usize, src: &[u8])
    requires
        at + src@.len() <= N,
    ensures
        forall|j: int| 0 <= j < at ==> final(dst)@[j] == old(dst)@[j],
        forall|j: int| at <= j < at + src@.len() ==> final(dst)@[j] == src@[j - at],
        forall|j: int| at + src@.len() <= j < N ==> final(dst)@[j] == old(dst)@[j],
{
    let mut i: usize = 0;
    while i < src.len()
        invariant
            0 <= i <= src@.len(),
            at + src@.len() <= N,
            forall|j: int| 0 <= j < at ==> dst@[j] == old(dst)@[j],
            forall|j: int| at <= j < at + i ==> dst@[j] == src@[j - at],
            forall|j: int| at + i <= j < N ==> dst@[j] == old(dst)@[j],
        decreases src@.len() - i,
    {
        dst[at + i] = src[i];
        i += 1;
    }
}

/// Copies the 16 bytes of `src` starting at `at` into a fresh block.
pub fn sub16<const N: usize>(src: &[u8; N], at: usize) -> (r: [u8; 16])
    requires
        at + 16 <= N,
    ensures
        r@ == src@.subrange(at as int, at as int + 16),
{
    let mut r: [u8; 16] = [0; 16];
    let mut i: usize = 0;
    while i < 16
        invariant
            0 <= i <= 16,
            at + 16 <= N,
            forall|j: int| 0 <= j < i ==> r@[j] == src@[at + j],
        decreases 16 - i,
    {
        r[i] = src[at + i];
        i += 1;
    }
    proof {
        assert(r@ =~= src@.subrange(at as int, at as int + 16));
    }
    r
}

/// Builds the starting counter block from a nonce.
pub fn init_nonce_ctr(nonce: &[u8; 16], nonce_ctr: &mut [u8; 16])
    ensures
        final(nonce_ctr)@ == spec_ctr_base(nonce@),
{
    nonce_ctr[0] = 1;
    let mut j: usize = 0;
    while j < 13
        invariant
            0 <= j <= 13,
            nonce_ctr@[0] == 1u8,
            forall|k: int| 1 <= k <= j ==> nonce_ctr@[k] == nonce@[k - 1],
        decreases 13 - j,
    {
        nonce_ctr[j + 1] = nonce[j];
        j += 1;
    }
    nonce_ctr[14] = 0;
    nonce_ctr[15] = 0;
    proof {
        assert(nonce_ctr@ =~= spec_ctr_base(nonce@));
    }
}

/// Builds the keyed-hash IV block from a nonce and the data length.
pub fn init_nonce_hash(nonce: &[u8; 16], datalen: usize, nonce_hash: &mut [u8; 16])
    ensures
        final(nonce_hash)@ == spec_hash_iv(nonce@, datalen as nat),
{
    nonce_hash[0] = 57;
    let mut j: usize = 0;
    while j < 13
        invariant
            0 <= j <= 13,
            nonce_hash@[0] == 57u8,
            forall|k: int| 1 <= k <= j ==> nonce_hash@[k] == nonce@[k - 1],
        decreases 13 - j,
    {
        nonce_hash[j + 1] = nonce[j];
        j += 1;
    }
    nonce_hash[14] = ((datalen / 256) % 256) as u8;
    nonce_hash[15] = (datalen % 256) as u8;
    proof {
        assert(nonce_hash@ =~= spec_hash_iv(nonce@, datalen as nat));
    }
}

/// Advances the counter by one: a big-endian increment confined to the last
/// two bytes, with no carry past byte 14.
pub fn inc_ctr(ctr: &mut [u8; 16])
    ensures
        final(ctr)@ == spec_inc(old(ctr)@),
{
    if ctr[15] == 255 {
        ctr[15] = 0;
        let b14: u8 = ctr[14];
        if b14 == 255 {
            ctr[14] = 0;
        } else {
            ctr[14] = b14 + 1;
        }
    } else {
        let b15: u8 = ctr[15];
        ctr[15] = b15 + 1;
    }
    proof {
        assert(ctr@ =~= spec_inc(old(ctr)@));
    }
}

/// The CTR-mode keystream transform: encrypts data (or decrypts, the
/// transform is its own inverse) under the loaded key and the given nonce.
/// Each whole 16-byte block of `data` is XORed with the encryption of the
/// incremented counter; a trailing remainder and any output bytes past the
/// whole blocks are left as they were.
pub fn aes_ctr<T: AesContext>(context: &T, nonce: &[u8; 16], data: &[u8], output: &mut [u8])
    requires
        16 * (data@.len() / 16) <= old(output)@.len(),
    ensures
        final(output)@.len() == old(output)@.len(),
        forall|j: int|
            0 <= j < 16 * (data@.len() / 16) ==> final(output)@[j] == spec_ctr_crypt::<T>(
                context.loaded_key(),
                nonce@,
                data@,
            )[j],
        forall|j: int|
            16 * (data@.len() / 16) <= j < old(output)@.len() ==> final(output)@[j] == old(
                output,
            )@[j],
{
    let ghost key: Seq<u8> = context.loaded_key();
    let mut ctr: [u8; 16] = [0; 16];
    let mut encrypted_ctr: [u8; 16] = [0; 16];

    init_nonce_ctr(nonce, &mut ctr);

    let blocks: usize = data.len() / 16;
    proof {
        assert(16 * (data@.len() / 16) <= data@.len()) by (nonlinear_arith);
    }
    let mut i: usize = 0;
    while i < blocks
        invariant
            0 <= i <= blocks,
            blocks == data@.len() / 16,
            16 * blocks <= data@.len(),
            data@.len() <= usize::MAX,
            16 * blocks <= output@.len(),
            output@.len() == old(output)@.len(),
            key == context.loaded_key(),
            ctr@ == spec_ctr_at(nonce@, i as nat),
            forall|j: int|
                0 <= j < 16 * i ==> output@[j] == spec_ctr_crypt::<T>(key, nonce@, data@)[j],
            forall|j: int| 16 * i <= j < output@.len() ==> output@[j] == old(output)@[j],
        decreases blocks - i,
    {
        inc_ctr(&mut ctr);
        context.pgp_aes_encrypt(&ctr, &mut encrypted_ctr);
        proof {
            assert(ctr@ == spec_ctr_at(nonce@, (i + 1) as nat));
            assert(encrypted_ctr@ == T::block_of(key, spec_ctr_at(nonce@, (i + 1) as nat)));
        }
        let mut j: usize = 0;
        while j < 16
            invariant
                0 <= j <= 16,
                0 <= i < blocks,
                blocks == data@.len() / 16,
                16 * blocks <= data@.len(),
                data@.len() <= usize::MAX,
                16 * blocks <= output@.len(),
                output@.len() == old(output)@.len(),
                key == context.loaded_key(),
                encrypted_ctr@ == T::block_of(key, spec_ctr_at(nonce@, (i + 1) as nat)),
                forall|k: int|
                    0 <= k < 16 * i + j ==> output@[k] == spec_ctr_crypt::<T>(
                        key,
                        nonce@,
                        data@,
                    )[k],
                forall|k: int| 16 * i + j <= k < output@.len() ==> output@[k] == old(output)@[k],
            decreases 16 - j,
        {
            output[16 * i + j] = data[16 * i + j] ^ encrypted_ctr[j];
            proof {
                let k: int = 16 * i + j;
                assert(k / 16 == i && k % 16 == j) by (nonlinear_arith)
                    requires
                        0 <= i,
                        0 <= j < 16,
                        k == 16 * i + j,
                ;
            }
            j += 1;
        }
        i += 1;
    }
}

/// The keyed-hash tag: the hash IV is encrypted, then each whole 16-byte
/// block of `data` is XORed into the state and the state re-encrypted; the
/// final state is the tag.
pub fn aes_hash<T: AesContext>(context: &T, nonce: &[u8; 16], data: &[u8], output: &mut [u8; 16])
    ensures
        final(output)@ == spec_hash::<T>(context.loaded_key(), nonce@, data@),
{
    let ghost key: Seq<u8> = context.loaded_key();
    let mut tmp: [u8; 16] = [0; 16];
    let mut tmp2: [u8; 16] = [0; 16];
    let mut nonce_hash: [u8; 16] = [0; 16];

    init_nonce_hash(nonce, data.len(), &mut nonce_hash);

    context.pgp_aes_encrypt(&nonce_hash, &mut tmp);

    let blocks: usize = data.len() / 16;
    proof {
        assert(16 * (data@.len() / 16) <= data@.len()) by (nonlinear_arith);
    }
    let mut i: usize = 0;
    while i < blocks
        invariant
            0 <= i <= blocks,
            blocks == data@.len() / 16,
            16 * blocks <= data@.len(),
            data@.len() <= usize::MAX,
            key == context.loaded_key(),
            tmp@ == spec_hash_state::<T>(key, nonce@, data@, i as nat),
        decreases blocks - i,
    {
        let ghost state: Seq<u8> = tmp@;
        let mut j: usize = 0;
        while j < 16
            invariant
                0 <= j <= 16,
                0 <= i < blocks,
                blocks == data@.len() / 16,
                16 * blocks <= data@.len(),
                data@.len() <= usize::MAX,
                tmp@.len() == 16,
                state.len() == 16,
                forall|k: int| 0 <= k < j ==> tmp@[k] == (state[k] ^ data@[16 * i + k]),
                forall|k: int| j <= k < 16 ==> tmp@[k] == state[k],
            decreases 16 - j,
        {
            let t: u8 = tmp[j];
            tmp[j] = t ^ data[i * 16 + j];
            j += 1;
        }
        proof {
            assert(tmp@ =~= spec_xor16(
                state,
                data@.subrange((16 * i) as int, (16 * i + 16) as int),
            ));
        }
        tmp2 = tmp;
        context.pgp_aes_encrypt(&tmp2, &mut tmp);
        proof {
            assert(tmp@ == spec_hash_state::<T>(key, nonce@, data@, (i + 1) as nat));
        }
        i += 1;
    }
    *output = tmp;
}

/// Offset encryption: encrypts the un-incremented starting counter for the
/// nonce and XORs it with the given 16-byte value. Applying it twice under
/// the same key and nonce gives the value back.
pub fn encrypt_block<T: AesContext>(
    context: &T,
    nonce_iv: &[u8; 16],
    nonce: &[u8; 16],
    output: &mut [u8; 16],
)
    ensures
        final(output)@ == spec_offset_encrypt::<T>(context.loaded_key(), nonce@, nonce_iv@),
{
    let mut tmp: [u8; 16] = [0; 16];
    let mut nonce_ctr: [u8; 16] = [0; 16];

    init_nonce_ctr(nonce, &mut nonce_ctr);

    context.pgp_aes_encrypt(&nonce_ctr, &mut tmp);

    let mut i: usize = 0;
    while i < 16
        invariant
            0 <= i <= 16,
            tmp@ == T::block_of(context.loaded_key(), spec_ctr_base(nonce@)),
            forall|k: int| 0 <= k < i ==> output@[k] == (tmp@[k] ^ nonce_iv@[k]),
        decreases 16 - i,
    {
        output[i] = tmp[i] ^ nonce_iv[i];
        i += 1;
    }
    proof {
        assert(output@ =~= spec_offset_encrypt::<T>(context.loaded_key(), nonce@, nonce_iv@));
    }
}

/// Compares two 16-byte blocks.
fn bytes16_eq(a: &[u8; 16], b: &[u8; 16]) -> (r: bool)
    ensures
        r <==> a@ == b@,
{
    let mut i: usize = 0;
    while i < 16
        invariant
            0 <= i <= 16,
            forall|k: int| 0 <= k < i ==> a@[k] == b@[k],
        decreases 16 - i,
    {
        if a[i] != b[i] {
            proof {
                assert(a@[i as int] != b@[i as int]);
            }
            return false;
        }
        i += 1;
    }
    proof {
        assert(a@ =~= b@);
    }
    true
}

/// Generates a chained reconnect challenge record: the nonce, the
/// keystream-encrypted challenge value (the all-zero block when none is
/// given), and the offset-encrypted keyed-hash tag of the value, in the
/// first 48 bytes of the output; the reserved tail is left as it was.
/// The tag goes into the record's dedicated hash field, so the encrypted
/// challenge value stays recoverable and a generated record verifies.
pub fn generate_next_chal<T: AesContext>(
    context: &mut T,
    in_data: Option<&[u8; 16]>,
    key: &[u8; 16],
    nonce: &[u8; 16],
    output: &mut [u8; 52],
)
    ensures
        final(context).loaded_key() == key@,
        final(output)@.subrange(0, 48) == spec_next_chal_record::<T>(
            key@,
            nonce@,
            spec_opt_challenge(in_data),
        ),
        final(output)@.subrange(48, 52) == old(output)@.subrange(48, 52),
{
    let data: [u8; 16] = match in_data {
        Some(d) => *d,
        None => [0; 16],
    };
    proof {
        assert(data@ =~= spec_opt_challenge(in_data));
    }

    context.aes_set_key(key);

    let mut enc_chal: [u8; 16] = [0; 16];
    aes_ctr(context, nonce, data.as_slice(), ref_mut_array_unsizing_coercion(&mut enc_chal));
    proof {
        assert(enc_chal@ =~= spec_ctr_crypt::<T>(key@, nonce@, data@));
    }

    let mut tmp_hash: [u8; 16] = [0; 16];
    aes_hash(context, nonce, data.as_slice(), &mut tmp_hash);

    let mut enc_hash: [u8; 16] = [0; 16];
    encrypt_block(context, &tmp_hash, nonce, &mut enc_hash);

    copy_into(output, 0, nonce.as_slice());
    copy_into(output, 16, enc_chal.as_slice());
    copy_into(output, 32, enc_hash.as_slice());
    proof {
        assert(output@.subrange(0, 48) =~= spec_next_chal_record::<T>(
            key@,
            nonce@,
            spec_opt_challenge(in_data),
        ));
        assert(output@.subrange(48, 52) =~= old(output)@.subrange(48, 52));
    }
}

/// Decrypts and authenticates a chained reconnect challenge record: writes
/// the recovered 16-byte challenge value into `output` and returns whether
/// the keyed hash of the recovered value matches the record's
/// offset-decrypted tag. On `false` the recovered value must be discarded.
pub fn decrypt_next_challenge<T: AesContext>(
    context: &mut T,
    data: &[u8; 80],
    key: &[u8; 16],
    output: &mut [u8; 16],
) -> (r: bool)
    ensures
        final(context).loaded_key() == key@,
        final(output)@ == spec_next_recovered::<T>(key@, data@.subrange(0, 48)),
        r == spec_next_verdict::<T>(key@, data@.subrange(0, 48)),
{
    let ghost rec: Seq<u8> = data@.subrange(0, 48);
    let nonce: [u8; 16] = sub16(data, 0);
    let enc_chal: [u8; 16] = sub16(data, 16);
    let enc_hash: [u8; 16] = sub16(data, 32);
    proof {
        assert(nonce@ =~= spec_next_nonce(rec));
        assert(enc_chal@ =~= spec_next_enc_challenge(rec));
        assert(enc_hash@ =~= spec_next_enc_hash(rec));
    }

    context.aes_set_key(key);

    aes_ctr(context, &nonce, enc_chal.as_slice(), ref_mut_array_unsizing_coercion(output));
    proof {
        assert(output@ =~= spec_next_recovered::<T>(key@, rec));
    }

    let mut enc_nonce: [u8; 16] = [0; 16];
    encrypt_block(context, &enc_hash, &nonce, &mut enc_nonce);

    let mut hash_1: [u8; 16] = [0; 16];
    aes_hash(context, &nonce, output.as_slice(), &mut hash_1);

    bytes16_eq(&hash_1, &enc_nonce)
}

/// Generates the reconnect response: the single-block encryption of the
/// first half of the 32-byte challenge, XORed byte for byte with its second
/// half.
pub fn generate_reconnect_response<T: AesContext>(
    context: &mut T,
    key: &[u8; 16],
    challenge: &[u8; 32],
    output: &mut [u8; 16],
)
    ensures
        final(context).loaded_key() == key@,
        final(output)@ == spec_reconnect_response::<T>(key@, challenge@),
{
    context.aes_set_key(key);

    let first: [u8; 16] = sub16(challenge, 0);
    context.pgp_aes_encrypt(&first, output);

    let ghost encrypted: Seq<u8> = output@;
    let mut i: usize = 0;
    while i < 16
        invariant
            0 <= i <= 16,
            output@.len() == 16,
            forall|k: int| 0 <= k < i ==> output@[k] == (encrypted[k] ^ challenge@[16 + k]),
            forall|k: int| i <= k < 16 ==> output@[k] == encrypted[k],
        decreases 16 - i,
    {
        let t: u8 = output[i];
        output[i] = t ^ challenge[i + 16];
        i += 1;
    }
    proof {
        assert(output@ =~= spec_reconnect_response::<T>(key@, challenge@));
    }
}

/// Generates the initial outer challenge record: copies the blob, the
/// reversed device address, the outer nonce and a zeroed state field; builds
/// the inner main-challenge record under the main nonce; keystream-encrypts
/// the serialized inner record under the outer nonce into the encrypted
/// inner-challenge field; and offset-encrypts the first block of that
/// keystream output into the encrypted-hash field. The reserved tail of the
/// output is left as it was.
pub fn generate_chal_0<T: AesContext>(
    context: &mut T,
    bt_mac: &[u8; 6],
    blob: &[u8; 256],
    the_challenge: &[u8; 16],
    main_nonce: &[u8; 16],
    main_key: &[u8; 16],
    outer_nonce: &[u8; 16],
    output: &mut [u8; 378],
)
    ensures
        final(context).loaded_key() == main_key@,
        final(output)@.subrange(0, 256) == blob@,
        final(output)@.subrange(256, 262) == spec_rev(bt_mac@),
        final(output)@.subrange(262, 278) == outer_nonce@,
        final(output)@.subrange(278, 282) == Seq::new(4, |i: int| 0u8),
        final(output)@.subrange(282, 298) == spec_offset_encrypt::<T>(
            main_key@,
            outer_nonce@,
            spec_ctr_crypt::<T>(
                main_key@,
                outer_nonce@,
                spec_main_challenge_bytes::<T>(bt_mac@, main_key@, main_nonce@, the_challenge@),
            ).subrange(0, 16),
        ),
        final(output)@.subrange(298, 346) == spec_ctr_crypt::<T>(
            main_key@,
            outer_nonce@,
            spec_main_challenge_bytes::<T>(bt_mac@, main_key@, main_nonce@, the_challenge@),
        ),
        final(output)@.subrange(346, 378) == old(output)@.subrange(346, 378),
{
    let ghost inner_spec: Seq<u8> = spec_main_challenge_bytes::<T>(
        bt_mac@,
        main_key@,
        main_nonce@,
        the_challenge@,
    );

    // The reversed device address.
    let mut reversed_mac: [u8; 6] = [0; 6];
    let mut m: usize = 0;
    while m < 6
        invariant
            0 <= m <= 6,
            forall|k: int| 0 <= k < m ==> reversed_mac@[k] == bt_mac@[5 - k],
        decreases 6 - m,
    {
        reversed_mac[m] = bt_mac[5 - m];
        m += 1;
    }
    proof {
        assert(reversed_mac@ =~= spec_rev(bt_mac@));
    }

    // The outer layer's verbatim fields.
    copy_into(output, 0, blob.as_slice());
    copy_into(output, 256, reversed_mac.as_slice());
    copy_into(output, 262, outer_nonce.as_slice());
    let zero_state: [u8; 4] = [0; 4];
    copy_into(output, 278, zero_state.as_slice());

    // The inner main-challenge record under the main key and nonce.
    context.aes_set_key(main_key);

    let mut enc_chal: [u8; 16] = [0; 16];
    aes_ctr(
        context,
        main_nonce,
        the_challenge.as_slice(),
        ref_mut_array_unsizing_coercion(&mut enc_chal),
    );
    proof {
        assert(enc_chal@ =~= spec_ctr_crypt::<T>(main_key@, main_nonce@, the_challenge@));
    }

    let mut tmp_hash: [u8; 16] = [0; 16];
    aes_hash(context, main_nonce, the_challenge.as_slice(), &mut tmp_hash);

    let mut enc_hash: [u8; 16] = [0; 16];
    encrypt_block(context, &tmp_hash, main_nonce, &mut enc_hash);

    let mut inner: [u8; 54] = [0; 54];
    copy_into(&mut inner, 0, reversed_mac.as_slice());
    copy_into(&mut inner, 6, main_nonce.as_slice());
    copy_into(&mut inner, 22, enc_chal.as_slice());
    copy_into(&mut inner, 38, enc_hash.as_slice());
    proof {
        assert(inner@ =~= inner_spec);
    }

    // The outer layer: the keystream transform of the serialized inner
    // record under the outer nonce, written once, feeding both the
    // encrypted-hash field (its first block) and the encrypted
    // inner-challenge field (its three whole blocks).
    let mut crypt_buf: [u8; 54] = [0; 54];
    aes_ctr(
        context,
        outer_nonce,
        inner.as_slice(),
        ref_mut_array_unsizing_coercion(&mut crypt_buf),
    );
    let ghost outer_crypt: Seq<u8> = spec_ctr_crypt::<T>(main_key@, outer_nonce@, inner_spec);

    let tmp: [u8; 16] = sub16(&crypt_buf, 0);
    proof {
        assert(tmp@ =~= outer_crypt.subrange(0, 16));
    }

    let mut enc_hash_outer: [u8; 16] = [0; 16];
    encrypt_block(context, &tmp, outer_nonce, &mut enc_hash_outer);
    copy_into(output, 282, enc_hash_outer.as_slice());

    let mut enc_main: [u8; 48] = [0; 48];
    let mut c: usize = 0;
    while c < 48
        invariant
            0 <= c <= 48,
            crypt_buf@.len() == 54,
            forall|k: int| 0 <= k < c ==> enc_main@[k] == crypt_buf@[k],
        decreases 48 - c,
    {
        enc_main[c] = crypt_buf[c];
        c += 1;
    }
    proof {
        assert(enc_main@ =~= outer_crypt);
    }
    copy_into(output, 298, enc_main.as_slice());

    proof {
        assert(output@.subrange(0, 256) =~= blob@);
        assert(output@.subrange(256, 262) =~= spec_rev(bt_mac@));
        assert(output@.subrange(262, 278) =~= outer_nonce@);
        assert(output@.subrange(278, 282) =~= Seq::new(4, |i: int| 0u8));
        assert(output@.subrange(282, 298) =~= spec_offset_encrypt::<T>(
            main_key@,
            outer_nonce@,
            outer_crypt.subrange(0, 16),
        ));
        assert(output@.subrange(298, 346) =~= outer_crypt);
        assert(output@.subrange(346, 378) =~= old(output)@.subrange(346, 378));
    }
}

} // verus!
