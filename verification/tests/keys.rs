use secp256k1::{PublicKey, Secp256k1, SecretKey};
use vanity_address::keys::{address_from_digest, key_address_from_keypair};
use vanity_address::{generate_key_address, Wallet};

fn unhex(text: &str) -> Vec<u8> {
    let digits: Vec<u32> = text.chars().map(|c| c.to_digit(16).unwrap()).collect();
    digits.chunks(2).map(|pair| (pair[0] * 16 + pair[1]) as u8).collect()
}

fn public_key_of(secret: &[u8; 32]) -> [u8; 65] {
    let context = Secp256k1::new();
    let secret_key = SecretKey::from_slice(secret).unwrap();
    PublicKey::from_secret_key(&context, &secret_key).serialize_uncompressed()
}

fn is_lower_hex(text: &str) -> bool {
    text.chars().all(|c| matches!(c, '0'..='9' | 'a'..='f'))
}

#[test]
fn address_is_the_tail_of_the_digest() {
    let mut digest = [0u8; 32];
    for (i, byte) in digest.iter_mut().enumerate() {
        *byte = i as u8;
    }
    assert_eq!(address_from_digest(&digest), "0c0d0e0f101112131415161718191a1b1c1d1e1f");
}

#[test]
fn address_ignores_the_head_of_the_digest() {
    let mut digest = [0xffu8; 32];
    for byte in digest.iter_mut().skip(12) {
        *byte = 0xab;
    }
    assert_eq!(address_from_digest(&digest), "ab".repeat(20));
}

#[test]
fn key_address_of_secret_key_one() {
    let mut secret = [0u8; 32];
    secret[31] = 1;
    let public = public_key_of(&secret);
    let (private_key, address) = key_address_from_keypair(&secret, &public);
    assert_eq!(private_key, "0000000000000000000000000000000000000000000000000000000000000001");
    assert_eq!(address, "7e5f4552091a69125d5dfcb7b8c2659029395bdf");
}

#[test]
fn key_address_of_secret_key_two() {
    let mut secret = [0u8; 32];
    secret[31] = 2;
    let public = public_key_of(&secret);
    let (private_key, address) = key_address_from_keypair(&secret, &public);
    assert_eq!(private_key, "0000000000000000000000000000000000000000000000000000000000000002");
    assert_eq!(address, "2b5ad5c4795c026514f8317c7a215e218dccd6cf");
}

#[test]
fn key_address_of_the_generator_point() {
    let mut secret = [0u8; 32];
    secret[31] = 1;
    let encoded = unhex(
        "0479be667ef9dcbbac55a06295ce870b07029bfcdb2dce28d959f2815b16f81798\
         483ada7726a3c4655da4fbfc0e1108a8fd17b448a68554199c47d08ffb10d4b8",
    );
    let mut public = [0u8; 65];
    public.copy_from_slice(&encoded);
    let (_, address) = key_address_from_keypair(&secret, &public);
    assert_eq!(address, "7e5f4552091a69125d5dfcb7b8c2659029395bdf");
}

#[test]
fn key_address_drops_the_format_byte() {
    let mut secret = [0u8; 32];
    secret[31] = 1;
    let mut public = public_key_of(&secret);
    let (_, address) = key_address_from_keypair(&secret, &public);
    public[0] = 0xff;
    let (_, other) = key_address_from_keypair(&secret, &public);
    assert_eq!(address, other);
}

#[test]
fn generated_texts_have_the_right_form() {
    for _ in 0..8 {
        let (private_key, address) = generate_key_address();
        assert_eq!(private_key.len(), 64);
        assert!(is_lower_hex(&private_key));
        assert_eq!(address.len(), 40);
        assert!(is_lower_hex(&address));
    }
}

#[test]
fn generated_address_belongs_to_the_private_key() {
    for _ in 0..8 {
        let (private_key, address) = generate_key_address();
        let mut secret = [0u8; 32];
        secret.copy_from_slice(&unhex(&private_key));
        let public = public_key_of(&secret);
        let (again, expected) = key_address_from_keypair(&secret, &public);
        assert_eq!(again, private_key);
        assert_eq!(address, expected);
    }
}

#[test]
fn generated_keys_differ() {
    let (first, _) = generate_key_address();
    let (second, _) = generate_key_address();
    assert_ne!(first, second);
}

#[test]
fn new_wallet_holds_a_key_and_its_address() {
    let wallet = Wallet::new();
    assert_eq!(wallet.private_key.len(), 64);
    assert!(is_lower_hex(&wallet.private_key));
    assert_eq!(wallet.public_key.len(), 40);
    assert!(is_lower_hex(&wallet.public_key));
    let mut secret = [0u8; 32];
    secret.copy_from_slice(&unhex(&wallet.private_key));
    let (_, expected) = key_address_from_keypair(&secret, &public_key_of(&secret));
    assert_eq!(wallet.public_key, expected);
}
