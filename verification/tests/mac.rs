use integrity::error::Error;
use integrity::mac::{generate_key, hmac, sign, verify, AuthKey};

fn counting_key() -> AuthKey {
    let mut bytes = [0u8; 32];
    for (i, b) in bytes.iter_mut().enumerate() {
        *b = i as u8;
    }
    AuthKey::from_bytes(bytes)
}

const TAG_OF_DATA: [u8; 32] = [
    157, 215, 143, 163, 107, 38, 195, 50, 131, 31, 178, 128, 157, 14, 187, 67, 152, 0, 154, 204,
    250, 235, 190, 69, 118, 58, 4, 89, 162, 20, 72, 111,
];

const TAG_OF_NOTHING: [u8; 32] = [
    211, 139, 66, 9, 109, 128, 244, 95, 130, 107, 68, 169, 213, 96, 125, 231, 36, 150, 164, 21,
    211, 244, 161, 168, 200, 142, 59, 185, 218, 141, 193, 203,
];

#[test]
fn test_hmac() {
    let _ = hmac("data".as_bytes()).unwrap();
}

#[test]
fn hmac_gives_a_tag_of_32_bytes() {
    let tag = hmac(b"data").unwrap();
    assert_eq!(tag.as_bytes().len(), 32);
}

#[test]
fn sign_gives_the_published_tag() {
    let key = counting_key();
    assert_eq!(sign(&key, b"data").as_bytes(), &TAG_OF_DATA[..]);
    assert_eq!(sign(&key, b"").as_bytes(), &TAG_OF_NOTHING[..]);
}

#[test]
fn sign_is_a_function_of_key_and_message() {
    let key = counting_key();
    let again = AuthKey::from_bytes(*key.expose());
    assert_eq!(sign(&key, b"message").as_bytes(), sign(&again, b"message").as_bytes());
}

#[test]
fn a_signed_message_verifies() {
    let key = generate_key().unwrap();
    for message in [&b""[..], b"a", b"hello, world", &[0u8; 200]] {
        let tag = sign(&key, message);
        assert_eq!(verify(&key, message, tag.as_bytes()), Ok(true));
    }
    assert_eq!(verify(&counting_key(), b"data", &TAG_OF_DATA), Ok(true));
}

#[test]
fn a_flipped_bit_in_the_message_is_refused() {
    let key = counting_key();
    let message = b"hello, world".to_vec();
    let tag = sign(&key, &message);
    for byte in 0..message.len() {
        for bit in 0..8 {
            let mut other = message.clone();
            other[byte] ^= 1 << bit;
            assert_eq!(verify(&key, &other, tag.as_bytes()), Ok(false));
        }
    }
}

#[test]
fn a_flipped_bit_in_the_key_is_refused() {
    let key = counting_key();
    let tag = sign(&key, b"hello, world");
    for byte in 0..32 {
        for bit in 0..8 {
            let mut bytes = *key.expose();
            bytes[byte] ^= 1 << bit;
            let other = AuthKey::from_bytes(bytes);
            assert_eq!(verify(&other, b"hello, world", tag.as_bytes()), Ok(false));
        }
    }
}

#[test]
fn a_flipped_bit_in_the_tag_is_refused() {
    let key = counting_key();
    for byte in 0..32 {
        let mut tag = TAG_OF_DATA;
        tag[byte] ^= 0x10;
        assert_eq!(verify(&key, b"data", &tag), Ok(false));
    }
}

#[test]
fn a_tag_of_another_length_is_malformed() {
    let key = counting_key();
    assert_eq!(verify(&key, b"data", &[]), Err(Error::MalformedTag));
    assert_eq!(verify(&key, b"data", &TAG_OF_DATA[..31]), Err(Error::MalformedTag));
    let mut long = TAG_OF_DATA.to_vec();
    long.push(0);
    assert_eq!(verify(&key, b"data", &long), Err(Error::MalformedTag));
}

#[test]
fn generated_keys_differ() {
    let a = generate_key().unwrap();
    let b = generate_key().unwrap();
    assert_eq!(a.expose().len(), 32);
    assert_ne!(a.expose(), b.expose());
}
