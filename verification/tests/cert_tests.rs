use cert_chal::cert::{
    aes_ctr, aes_hash, decrypt_next_challenge, encrypt_block, generate_chal_0, generate_next_chal,
    generate_reconnect_response, inc_ctr, init_nonce_ctr, init_nonce_hash,
};
use cert_chal::cipher::{AesContext, DemoCipher};

fn ctx() -> DemoCipher {
    DemoCipher { key: [0u8; 16] }
}

fn keyed(key: &[u8; 16]) -> DemoCipher {
    let mut c = ctx();
    c.aes_set_key(key);
    c
}

fn record_80(rec52: &[u8; 52]) -> [u8; 80] {
    let mut buf = [0u8; 80];
    buf[..52].copy_from_slice(rec52);
    buf
}

#[test]
fn keystream_round_trip() {
    let key = [0x5Au8; 16];
    let mut nonce = [0u8; 16];
    for i in 0..16 {
        nonce[i] = (i as u8).wrapping_mul(7);
    }
    let mut data = [0u8; 48];
    for i in 0..48 {
        data[i] = (i as u8).wrapping_mul(13).wrapping_add(5);
    }
    let c = keyed(&key);
    let mut enc = [0u8; 48];
    aes_ctr(&c, &nonce, &data, &mut enc);
    assert_ne!(enc, data);
    let mut dec = [0u8; 48];
    aes_ctr(&c, &nonce, &enc, &mut dec);
    assert_eq!(dec, data);
}

#[test]
fn keystream_processes_whole_blocks_only() {
    let key = [0x21u8; 16];
    let nonce = [0x42u8; 16];
    let data = [0x0Fu8; 20];
    let mut out = [0xAAu8; 20];
    let c = keyed(&key);
    aes_ctr(&c, &nonce, &data, &mut out);

    // The first block matches the counter-derived keystream exactly.
    let mut ctr = [0u8; 16];
    init_nonce_ctr(&nonce, &mut ctr);
    inc_ctr(&mut ctr);
    let mut ks = [0u8; 16];
    c.pgp_aes_encrypt(&ctr, &mut ks);
    for i in 0..16 {
        assert_eq!(out[i], data[i] ^ ks[i]);
    }
    // The 4-byte remainder is never touched.
    assert_eq!(&out[16..], &[0xAAu8; 4]);
}

#[test]
fn counter_base_layout() {
    let mut nonce = [0u8; 16];
    for i in 0..16 {
        nonce[i] = 0x30 + i as u8;
    }
    let mut ctr = [0xFFu8; 16];
    init_nonce_ctr(&nonce, &mut ctr);
    assert_eq!(ctr[0], 1);
    assert_eq!(&ctr[1..14], &nonce[..13]);
    assert_eq!(ctr[14], 0);
    assert_eq!(ctr[15], 0);
}

#[test]
fn hash_iv_layout() {
    let mut nonce = [0u8; 16];
    for i in 0..16 {
        nonce[i] = 0x60 + i as u8;
    }
    let mut iv = [0u8; 16];
    init_nonce_hash(&nonce, 0x1234, &mut iv);
    assert_eq!(iv[0], 57);
    assert_eq!(&iv[1..14], &nonce[..13]);
    assert_eq!(iv[14], 0x12);
    assert_eq!(iv[15], 0x34);
}

#[test]
fn counter_increment_simple() {
    let mut ctr = [7u8; 16];
    ctr[14] = 3;
    ctr[15] = 5;
    inc_ctr(&mut ctr);
    assert_eq!(ctr[15], 6);
    assert_eq!(ctr[14], 3);
    assert_eq!(&ctr[..14], &[7u8; 14]);
}

#[test]
fn counter_increment_wraps_byte_15() {
    let mut ctr = [7u8; 16];
    ctr[14] = 3;
    ctr[15] = 0xFF;
    inc_ctr(&mut ctr);
    assert_eq!(ctr[15], 0);
    assert_eq!(ctr[14], 4);
    // The carry stops at byte 14: bytes 0..=13 are untouched.
    assert_eq!(&ctr[..14], &[7u8; 14]);
}

#[test]
fn counter_increment_never_carries_past_byte_14() {
    let mut ctr = [0x99u8; 16];
    ctr[14] = 0xFF;
    ctr[15] = 0xFF;
    inc_ctr(&mut ctr);
    assert_eq!(ctr[15], 0);
    assert_eq!(ctr[14], 0);
    assert_eq!(ctr[13], 0x99);
    assert_eq!(&ctr[..14], &[0x99u8; 14]);
}

#[test]
fn hash_is_deterministic() {
    let key = [0x77u8; 16];
    let nonce = [0x0Du8; 16];
    let mut data = [0u8; 32];
    for i in 0..32 {
        data[i] = i as u8;
    }
    let c = keyed(&key);
    let mut tag1 = [0u8; 16];
    let mut tag2 = [0u8; 16];
    aes_hash(&c, &nonce, &data, &mut tag1);
    aes_hash(&c, &nonce, &data, &mut tag2);
    assert_eq!(tag1, tag2);
}

#[test]
fn hash_changes_with_data_nonce_and_key() {
    let key = [0x77u8; 16];
    let nonce = [0x0Du8; 16];
    let mut data = [0u8; 32];
    for i in 0..32 {
        data[i] = i as u8;
    }
    let c = keyed(&key);
    let mut tag = [0u8; 16];
    aes_hash(&c, &nonce, &data, &mut tag);

    let mut data2 = data;
    data2[17] ^= 0x01;
    let mut tag_d = [0u8; 16];
    aes_hash(&c, &nonce, &data2, &mut tag_d);
    assert_ne!(tag, tag_d);

    let mut nonce2 = nonce;
    nonce2[4] ^= 0x80;
    let mut tag_n = [0u8; 16];
    aes_hash(&c, &nonce2, &data, &mut tag_n);
    assert_ne!(tag, tag_n);

    let mut key2 = key;
    key2[9] ^= 0x10;
    let c2 = keyed(&key2);
    let mut tag_k = [0u8; 16];
    aes_hash(&c2, &nonce, &data, &mut tag_k);
    assert_ne!(tag, tag_k);
}

#[test]
fn hash_one_block_exact() {
    let key = [0x31u8; 16];
    let nonce = [0x52u8; 16];
    let data = [0x9Cu8; 16];
    let c = keyed(&key);
    let mut tag = [0u8; 16];
    aes_hash(&c, &nonce, &data, &mut tag);

    let mut iv = [0u8; 16];
    init_nonce_hash(&nonce, 16, &mut iv);
    let mut state = [0u8; 16];
    c.pgp_aes_encrypt(&iv, &mut state);
    let mut mixed = [0u8; 16];
    for i in 0..16 {
        mixed[i] = state[i] ^ data[i];
    }
    let mut expected = [0u8; 16];
    c.pgp_aes_encrypt(&mixed, &mut expected);
    assert_eq!(tag, expected);
}

#[test]
fn offset_encrypt_is_involution() {
    let key = [0x44u8; 16];
    let nonce = [0x55u8; 16];
    let value = [0xC3u8; 16];
    let c = keyed(&key);
    let mut once = [0u8; 16];
    encrypt_block(&c, &value, &nonce, &mut once);
    assert_ne!(once, value);
    let mut twice = [0u8; 16];
    encrypt_block(&c, &once, &nonce, &mut twice);
    assert_eq!(twice, value);
}

#[test]
fn next_chal_round_trip_none() {
    let key = [0xA1u8; 16];
    let nonce = [0xB2u8; 16];
    let mut rec = [0u8; 52];
    let mut c = ctx();
    generate_next_chal(&mut c, None, &key, &nonce, &mut rec);
    let buf = record_80(&rec);
    let mut recovered = [0xFFu8; 16];
    let ok = decrypt_next_challenge(&mut c, &buf, &key, &mut recovered);
    assert!(ok);
    assert_eq!(recovered, [0u8; 16]);
}

#[test]
fn next_chal_round_trip_value() {
    let key = [0xA1u8; 16];
    let nonce = [0xB2u8; 16];
    let mut value = [0u8; 16];
    for i in 0..16 {
        value[i] = 0xF0 - i as u8;
    }
    let mut rec = [0u8; 52];
    let mut c = ctx();
    generate_next_chal(&mut c, Some(&value), &key, &nonce, &mut rec);
    assert_eq!(&rec[..16], &nonce);
    let buf = record_80(&rec);
    let mut recovered = [0u8; 16];
    let ok = decrypt_next_challenge(&mut c, &buf, &key, &mut recovered);
    assert!(ok);
    assert_eq!(recovered, value);
}

#[test]
fn next_chal_tamper_any_bit_fails() {
    let key = [0x3Eu8; 16];
    let nonce = [0x90u8; 16];
    let value = [0x6Bu8; 16];
    let mut rec = [0u8; 52];
    let mut c = ctx();
    generate_next_chal(&mut c, Some(&value), &key, &nonce, &mut rec);
    let buf = record_80(&rec);
    // Flip each bit of the encrypted-challenge and encrypted-hash fields.
    for byte in 16..48 {
        for bit in 0..8 {
            let mut tampered = buf;
            tampered[byte] ^= 1u8 << bit;
            let mut recovered = [0u8; 16];
            let ok = decrypt_next_challenge(&mut c, &tampered, &key, &mut recovered);
            assert!(!ok, "bit {} of byte {} went unnoticed", bit, byte);
        }
    }
}

#[test]
fn reconnect_response_deterministic() {
    let key = [0x18u8; 16];
    let mut challenge = [0u8; 32];
    for i in 0..32 {
        challenge[i] = (i as u8).wrapping_mul(11);
    }
    let mut c = ctx();
    let mut out1 = [0u8; 16];
    generate_reconnect_response(&mut c, &key, &challenge, &mut out1);
    let mut out2 = [0xFFu8; 16];
    generate_reconnect_response(&mut c, &key, &challenge, &mut out2);
    assert_eq!(out1, out2);
}

#[test]
fn reconnect_response_differs_per_half() {
    let key = [0x18u8; 16];
    let mut challenge = [0u8; 32];
    for i in 0..32 {
        challenge[i] = (i as u8).wrapping_mul(11);
    }
    let mut c = ctx();
    let mut base = [0u8; 16];
    generate_reconnect_response(&mut c, &key, &challenge, &mut base);

    let mut first_changed = challenge;
    first_changed[3] ^= 0x04;
    let mut out_first = [0u8; 16];
    generate_reconnect_response(&mut c, &key, &first_changed, &mut out_first);
    assert_ne!(base, out_first);

    let mut second_changed = challenge;
    second_changed[29] ^= 0x40;
    let mut out_second = [0u8; 16];
    generate_reconnect_response(&mut c, &key, &second_changed, &mut out_second);
    assert_ne!(base, out_second);
}

#[test]
fn reconnect_response_exact() {
    let key = [0x2Cu8; 16];
    let mut challenge = [0u8; 32];
    for i in 0..32 {
        challenge[i] = 0xD0u8.wrapping_add(i as u8);
    }
    let mut c = ctx();
    let mut out = [0u8; 16];
    generate_reconnect_response(&mut c, &key, &challenge, &mut out);

    let mut first = [0u8; 16];
    first.copy_from_slice(&challenge[..16]);
    let mut expected = [0u8; 16];
    c.pgp_aes_encrypt(&first, &mut expected);
    for i in 0..16 {
        expected[i] ^= challenge[16 + i];
    }
    assert_eq!(out, expected);
}

#[test]
fn scenario_generate_then_verify() {
    let key = [0x11u8; 16];
    let nonce = [0x22u8; 16];
    let challenge = [0x33u8; 16];
    let mut rec = [0u8; 52];
    let mut c = ctx();
    generate_next_chal(&mut c, Some(&challenge), &key, &nonce, &mut rec);
    let buf = record_80(&rec);
    let mut recovered = [0u8; 16];
    let ok = decrypt_next_challenge(&mut c, &buf, &key, &mut recovered);
    assert!(ok);
    assert_eq!(recovered, challenge);
}

#[test]
fn scenario_flipped_hash_bit_fails() {
    let key = [0x11u8; 16];
    let nonce = [0x22u8; 16];
    let challenge = [0x33u8; 16];
    let mut rec = [0u8; 52];
    let mut c = ctx();
    generate_next_chal(&mut c, Some(&challenge), &key, &nonce, &mut rec);
    let mut buf = record_80(&rec);
    // The encrypted-hash field starts at byte 32 of the record.
    buf[32] ^= 0x01;
    let mut recovered = [0u8; 16];
    let ok = decrypt_next_challenge(&mut c, &buf, &key, &mut recovered);
    assert!(!ok);
}
