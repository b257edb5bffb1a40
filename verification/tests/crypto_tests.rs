use fencryption::crypto::{
    derive_key, Crypto, CryptoError, ENCRYPTED_CHUNK_LEN, FRAME_OVERHEAD, IV_LEN, PLAIN_CHUNK_LEN,
};
use fencryption::stream::{frame_count, frame_label};

fn hex(bytes: &[u8]) -> String {
    let mut out = String::new();
    for b in bytes {
        out.push_str(&format!("{:02x}", b));
    }
    out
}

fn sample(len: usize) -> Vec<u8> {
    let mut data = Vec::with_capacity(len);
    let mut x: u32 = 12345;
    for _ in 0..len {
        x = x.wrapping_mul(1664525).wrapping_add(1013904223);
        data.push((x >> 24) as u8);
    }
    data
}

#[test]
fn derive_key_is_sha256_of_the_passphrase() {
    assert_eq!(
        hex(derive_key(b"abc").as_bytes()),
        "ba7816bf8f01cfea414140de5dae2223b00361a396177a9cb410ff61f20015ad"
    );
    assert_eq!(
        hex(derive_key(b"correct horse").as_bytes()),
        "4104d36f8da2c254349f85836793ebe029e0c957063a34c91c2e9203187b5631"
    );
}

#[test]
fn derive_key_is_deterministic() {
    for len in [1usize, 2, 31, 32, 33, 1000] {
        let passphrase = sample(len);
        assert_eq!(derive_key(&passphrase).as_bytes(), derive_key(&passphrase).as_bytes());
    }
}

#[test]
fn derive_key_tells_passphrases_apart() {
    let mut seen: Vec<[u8; 32]> = Vec::new();
    for len in 1usize..200 {
        let key = *derive_key(&sample(len)).as_bytes();
        assert!(!seen.contains(&key));
        seen.push(key);
    }
    assert_ne!(derive_key(b"a").as_bytes(), derive_key(b"b").as_bytes());
}

#[test]
fn derived_key_has_fixed_length() {
    assert_eq!(derive_key(b"x").as_bytes().len(), 32);
    assert_eq!(derive_key(&sample(5000)).as_bytes().len(), 32);
}

#[test]
fn wipe_zeroes_the_key() {
    let mut key = derive_key(b"secret");
    assert_ne!(key.as_bytes(), &[0u8; 32]);
    key.wipe();
    assert_eq!(key.as_bytes(), &[0u8; 32]);
}

#[test]
fn new_rejects_empty_passphrase() {
    assert!(matches!(Crypto::new(b""), Err(CryptoError::InvalidKey)));
    assert!(Crypto::new(b"k").is_ok());
}

#[test]
fn encrypt_with_iv_known_answer() {
    let crypto = Crypto::new(b"correct horse").unwrap();
    let iv: Vec<u8> = (0u8..12).collect();
    let frame = crypto.encrypt_with_iv(b"hello", &iv).unwrap();
    assert_eq!(
        hex(&frame),
        "000102030405060708090a0b67a2900c6407702cf73adc103e4ae9598da51c116f"
    );
    assert_eq!(crypto.decrypt(&frame).unwrap(), b"hello".to_vec());
}

#[test]
fn encrypt_adds_nonce_and_tag() {
    let crypto = Crypto::new(b"key").unwrap();
    let plain = sample(100);
    let frame = crypto.encrypt(&plain).unwrap();
    assert_eq!(frame.len(), plain.len() + FRAME_OVERHEAD);
    assert_ne!(&frame[IV_LEN..IV_LEN + plain.len()], &plain[..]);
    assert_eq!(crypto.decrypt(&frame).unwrap(), plain);
}

#[test]
fn encrypt_uses_fresh_nonces() {
    let crypto = Crypto::new(b"key").unwrap();
    let a = crypto.encrypt(b"same").unwrap();
    let b = crypto.encrypt(b"same").unwrap();
    assert_ne!(a, b);
    assert_eq!(crypto.decrypt(&a).unwrap(), crypto.decrypt(&b).unwrap());
}

#[test]
fn decrypt_rejects_short_input() {
    let crypto = Crypto::new(b"key").unwrap();
    assert_eq!(crypto.decrypt(&[]), Err(CryptoError::AuthenticationFailure));
    assert_eq!(crypto.decrypt(&[0u8; 27]), Err(CryptoError::AuthenticationFailure));
}

#[test]
fn decrypt_rejects_wrong_key() {
    let frame = Crypto::new(b"one").unwrap().encrypt(b"payload").unwrap();
    assert_eq!(
        Crypto::new(b"two").unwrap().decrypt(&frame),
        Err(CryptoError::AuthenticationFailure)
    );
}

#[test]
fn decrypt_rejects_tampering() {
    let crypto = Crypto::new(b"key").unwrap();
    let frame = crypto.encrypt(b"payload").unwrap();
    for at in 0..frame.len() {
        let mut bad = frame.clone();
        bad[at] ^= 1;
        assert_eq!(crypto.decrypt(&bad), Err(CryptoError::AuthenticationFailure));
    }
}

#[test]
fn frame_count_counts_the_short_last_frame() {
    assert_eq!(frame_count(0), 1);
    assert_eq!(frame_count(1), 1);
    assert_eq!(frame_count(PLAIN_CHUNK_LEN - 1), 1);
    assert_eq!(frame_count(PLAIN_CHUNK_LEN), 2);
    assert_eq!(frame_count(3 * PLAIN_CHUNK_LEN + 5), 4);
}

#[test]
fn stream_round_trip_empty() {
    let crypto = Crypto::new(b"key").unwrap();
    let stream = crypto.encrypt_stream(&[]).unwrap();
    assert_eq!(stream.len(), FRAME_OVERHEAD);
    assert_eq!(crypto.decrypt_stream(&stream).unwrap(), Vec::<u8>::new());
}

#[test]
fn stream_round_trip_one_byte() {
    let crypto = Crypto::new(b"key").unwrap();
    let stream = crypto.encrypt_stream(&[7]).unwrap();
    assert_eq!(stream.len(), 1 + FRAME_OVERHEAD);
    assert_eq!(crypto.decrypt_stream(&stream).unwrap(), vec![7u8]);
}

#[test]
fn stream_round_trip_exact_chunk() {
    let crypto = Crypto::new(b"key").unwrap();
    let data = sample(PLAIN_CHUNK_LEN);
    let stream = crypto.encrypt_stream(&data).unwrap();
    assert_eq!(stream.len(), ENCRYPTED_CHUNK_LEN + FRAME_OVERHEAD);
    assert_eq!(crypto.decrypt_stream(&stream).unwrap(), data);
}

#[test]
fn stream_round_trip_multi_megabyte() {
    let crypto = Crypto::new(b"key").unwrap();
    let data = sample(2 * 1024 * 1024 + 17);
    let stream = crypto.encrypt_stream(&data).unwrap();
    assert_eq!(stream.len(), data.len() + frame_count(data.len()) * FRAME_OVERHEAD);
    assert_eq!(crypto.decrypt_stream(&stream).unwrap(), data);
}

#[test]
fn stream_with_ivs_is_the_frames_in_order() {
    let crypto = Crypto::new(b"key").unwrap();
    let data = sample(PLAIN_CHUNK_LEN + 10);
    let ivs = vec![[1u8; 12], [2u8; 12]];
    let stream = crypto.encrypt_stream_with_ivs(&data, &ivs);
    let first = frame_label(0, false);
    let second = frame_label(1, true);
    let mut expected = crypto.seal_with_iv(&data[..PLAIN_CHUNK_LEN], &[1u8; 12], &first).unwrap();
    expected.extend(crypto.seal_with_iv(&data[PLAIN_CHUNK_LEN..], &[2u8; 12], &second).unwrap());
    assert_eq!(stream, expected);
    assert_eq!(crypto.decrypt_stream(&stream).unwrap(), data);
}

#[test]
fn stream_rejects_wrong_key() {
    let data = sample(1000);
    let stream = Crypto::new(b"K1").unwrap().encrypt_stream(&data).unwrap();
    assert_eq!(
        Crypto::new(b"K2").unwrap().decrypt_stream(&stream),
        Err(CryptoError::AuthenticationFailure)
    );
}

#[test]
fn stream_rejects_truncation() {
    let crypto = Crypto::new(b"key").unwrap();
    let data = sample(PLAIN_CHUNK_LEN + 100);
    let stream = crypto.encrypt_stream(&data).unwrap();
    assert_eq!(
        crypto.decrypt_stream(&stream[..ENCRYPTED_CHUNK_LEN]),
        Err(CryptoError::AuthenticationFailure)
    );
    assert_eq!(
        crypto.decrypt_stream(&stream[..stream.len() - 1]),
        Err(CryptoError::AuthenticationFailure)
    );
    assert_eq!(crypto.decrypt_stream(&[]), Err(CryptoError::AuthenticationFailure));
}

#[test]
fn stream_rejects_corruption() {
    let crypto = Crypto::new(b"key").unwrap();
    let data = sample(PLAIN_CHUNK_LEN + 100);
    let mut stream = crypto.encrypt_stream(&data).unwrap();
    stream[ENCRYPTED_CHUNK_LEN + 40] ^= 0x80;
    assert_eq!(crypto.decrypt_stream(&stream), Err(CryptoError::AuthenticationFailure));
}

#[test]
fn frame_label_layout() {
    assert_eq!(frame_label(0, true), vec![0, 0, 0, 0, 0, 0, 0, 0, 1]);
    assert_eq!(frame_label(0x0102, false), vec![2, 1, 0, 0, 0, 0, 0, 0, 0]);
    assert_eq!(frame_label(u64::MAX, true), vec![255, 255, 255, 255, 255, 255, 255, 255, 1]);
}

#[test]
fn seal_with_iv_known_answer() {
    let crypto = Crypto::new(b"correct horse").unwrap();
    let iv: Vec<u8> = (0u8..12).collect();
    let frame = crypto.seal_with_iv(b"hello", &iv, &frame_label(0, true)).unwrap();
    assert_eq!(
        hex(&frame),
        "000102030405060708090a0b67a2900c64f6d003ac5663279fe3e9f12ee5ffbf82"
    );
    let frame = crypto.seal_with_iv(b"hello", &iv, b"label").unwrap();
    assert_eq!(
        hex(&frame),
        "000102030405060708090a0b67a2900c642d9847c24dd008c4bd8e3dc787bca48c"
    );
    assert_eq!(crypto.open(&frame, b"label").unwrap(), b"hello".to_vec());
}

#[test]
fn frames_open_only_with_their_label() {
    let crypto = Crypto::new(b"key").unwrap();
    let frame = crypto.seal(b"payload", b"here").unwrap();
    assert_eq!(crypto.open(&frame, b"here").unwrap(), b"payload".to_vec());
    assert_eq!(crypto.open(&frame, b"there"), Err(CryptoError::AuthenticationFailure));
    assert_eq!(crypto.open(&frame, b""), Err(CryptoError::AuthenticationFailure));
    assert_eq!(crypto.decrypt(&frame), Err(CryptoError::AuthenticationFailure));
    let bare = crypto.encrypt(b"payload").unwrap();
    assert_eq!(crypto.open(&bare, b"").unwrap(), b"payload".to_vec());
    assert_eq!(crypto.open(&bare, b"here"), Err(CryptoError::AuthenticationFailure));
}

#[test]
fn stream_rejects_swapped_frames() {
    let crypto = Crypto::new(b"key").unwrap();
    let stream = crypto.encrypt_stream(&sample(2 * PLAIN_CHUNK_LEN + 9)).unwrap();
    let mut swapped = stream[ENCRYPTED_CHUNK_LEN..2 * ENCRYPTED_CHUNK_LEN].to_vec();
    swapped.extend(&stream[..ENCRYPTED_CHUNK_LEN]);
    swapped.extend(&stream[2 * ENCRYPTED_CHUNK_LEN..]);
    assert_eq!(swapped.len(), stream.len());
    assert_eq!(crypto.decrypt_stream(&swapped), Err(CryptoError::AuthenticationFailure));
}

#[test]
fn stream_rejects_repeated_frames() {
    let crypto = Crypto::new(b"key").unwrap();
    let stream = crypto.encrypt_stream(&sample(PLAIN_CHUNK_LEN + 9)).unwrap();
    let mut repeated = stream[..ENCRYPTED_CHUNK_LEN].to_vec();
    repeated.extend(&stream);
    assert_eq!(crypto.decrypt_stream(&repeated), Err(CryptoError::AuthenticationFailure));
}

#[test]
fn stream_rejects_dropped_frames() {
    let crypto = Crypto::new(b"key").unwrap();
    let stream = crypto.encrypt_stream(&sample(2 * PLAIN_CHUNK_LEN + 9)).unwrap();
    assert_eq!(
        crypto.decrypt_stream(&stream[ENCRYPTED_CHUNK_LEN..]),
        Err(CryptoError::AuthenticationFailure)
    );
    let mut without_middle = stream[..ENCRYPTED_CHUNK_LEN].to_vec();
    without_middle.extend(&stream[2 * ENCRYPTED_CHUNK_LEN..]);
    assert_eq!(crypto.decrypt_stream(&without_middle), Err(CryptoError::AuthenticationFailure));
}

#[test]
fn stream_rejects_a_last_frame_from_another_stream() {
    let crypto = Crypto::new(b"key").unwrap();
    let long = crypto.encrypt_stream(&sample(PLAIN_CHUNK_LEN + 9)).unwrap();
    let short = crypto.encrypt_stream(&sample(9)).unwrap();
    let mut mixed = long[..ENCRYPTED_CHUNK_LEN].to_vec();
    mixed.extend(&short);
    assert_eq!(crypto.decrypt_stream(&mixed), Err(CryptoError::AuthenticationFailure));
}

#[test]
fn a_bare_frame_is_no_stream() {
    let crypto = Crypto::new(b"key").unwrap();
    let frame = crypto.encrypt(b"payload").unwrap();
    assert_eq!(crypto.decrypt_stream(&frame), Err(CryptoError::AuthenticationFailure));
}
