//! Key pairs on the secp256k1 curve and the account address of a public key.

use crate::address::{is_address, lowercase};
use crate::hex::{
    all_lower_hex, hex_decode, hex_encode, lemma_hex_decode_encode, lemma_hex_encode_digits, to_hex,
};
use crate::keccak::{keccak256, keccak256_digest};
use secp256k1::Secp256k1;
use vstd::prelude::*;
use vstd::slice::slice_subrange;

verus! {

/// The public key of a secret key: the 65 bytes of its uncompressed encoding,
/// as `secp256k1::PublicKey::from_secret_key` derives the key and
/// `serialize_uncompressed` writes it. The function is not defined here; it
/// stands for the curve arithmetic of the `secp256k1` crate.
pub uninterp spec fn secp256k1_public_key(secret: Seq<u8>) -> Seq<u8>;

/// Trusted: draws a key pair with `secp256k1::Secp256k1::generate_keypair`, on
/// a context from `Secp256k1::new` and with `rand::thread_rng` as the source of
/// randomness. The secret key is handed back as its 32 bytes
/// (`SecretKey::secret_bytes`), the public key as the 65 bytes of its
/// uncompressed encoding (`PublicKey::serialize_uncompressed`).
///
/// Nothing is claimed of which secret key is drawn. The contract claims that
/// the public key is the one that belongs to the secret key:
/// `generate_keypair` makes it by `PublicKey::from_secret_key` from the
/// secret key it has just drawn. The call panics only where the system's
/// source of randomness fails.
#[verifier::external_body]
pub(crate) fn random_keypair() -> (pair: ([u8; 32], [u8; 65]))
    ensures
        pair.1@ == secp256k1_public_key(pair.0@),
{
    let mut rng = rand::thread_rng();
    let context = Secp256k1::new();
    let (secret_key, public_key) = context.generate_keypair(&mut rng);
    (secret_key.secret_bytes(), public_key.serialize_uncompressed())
}

/// The text of a private key: 64 lowercase hexadecimal digits.
pub open spec fn is_private_key(text: Seq<char>) -> bool {
    text.len() == 64 && all_lower_hex(text)
}

/// The text of a raw address: 40 lowercase hexadecimal digits.
pub open spec fn is_raw_address(text: Seq<char>) -> bool {
    text.len() == 40 && all_lower_hex(text)
}

/// The raw address held in a Keccak-256 digest: the text of its last 20 bytes.
pub open spec fn address_of_digest(digest: Seq<u8>) -> Seq<char> {
    hex_encode(digest.subrange(12, 32))
}

/// The raw address of an uncompressed public key: the leading format byte is
/// dropped, the remaining 64 bytes are hashed, and the digest gives the address.
pub open spec fn address_of_public_key(public: Seq<u8>) -> Seq<char> {
    address_of_digest(keccak256(public.subrange(1, 65)))
}

/// `address` is the raw address that belongs to `private_key`: the address of
/// the public key of the secret key that the 64 digits of `private_key` spell.
pub open spec fn is_key_address(private_key: Seq<char>, address: Seq<char>) -> bool {
    &&& is_private_key(private_key)
    &&& address == address_of_public_key(secp256k1_public_key(hex_decode(private_key)))
}

/// A raw address is an address, and is its own lowercase form.
pub proof fn lemma_raw_address_is_lowercase(address: Seq<char>)
    requires
        is_raw_address(address),
    ensures
        is_address(address),
        lowercase(address) == address,
{
    assert(lowercase(address) =~= address);
}

/// The raw address in a digest, as 40 lowercase hexadecimal digits.
pub fn address_from_digest(digest: &[u8; 32]) -> (address: String)
    ensures
        address@ == address_of_digest(digest@),
        is_raw_address(address@),
{
    let tail = slice_subrange(digest.as_slice(), 12, 32);
    proof {
        lemma_hex_encode_digits(tail@);
    }
    to_hex(tail)
}

/// The texts of a key pair: the private key as 64 hexadecimal digits and the
/// raw address of the public key as 40.
pub fn key_address_from_keypair(secret: &[u8; 32], public: &[u8; 65]) -> (texts: (String, String))
    ensures
        texts.0@ == hex_encode(secret@),
        texts.1@ == address_of_public_key(public@),
        is_private_key(texts.0@),
        is_raw_address(texts.1@),
{
    proof {
        lemma_hex_encode_digits(secret@);
    }
    let private_key = to_hex(secret.as_slice());
    let digest = keccak256_digest(slice_subrange(public.as_slice(), 1, 65));
    let address = address_from_digest(&digest);
    (private_key, address)
}

/// Draws a fresh key pair and gives its texts, private key first. Whichever
/// key is drawn, the address is the one that belongs to it.
pub fn generate_key_address() -> (texts: (String, String))
    ensures
        is_private_key(texts.0@),
        is_raw_address(texts.1@),
        is_key_address(texts.0@, texts.1@),
{
    let (secret, public) = random_keypair();
    proof {
        lemma_hex_decode_encode(secret@);
    }
    key_address_from_keypair(&secret, &public)
}

/// A key pair as text.
pub struct Wallet {
    /// The private key, as 64 lowercase hexadecimal digits.
    pub private_key: String,
    /// The account address, as 40 hexadecimal digits.
    pub public_key: String,
}

impl Wallet {
    /// The two texts have the form of a private key and of an address.
    pub open spec fn well_formed(self) -> bool {
        is_private_key(self.private_key@) && is_address(self.public_key@)
    }

    /// A freshly drawn key pair with its raw address.
    pub fn new() -> (wallet: Wallet)
        ensures
            wallet.well_formed(),
            is_raw_address(wallet.public_key@),
            is_key_address(wallet.private_key@, wallet.public_key@),
    {
        let (private_key, public_key) = generate_key_address();
        Wallet { private_key, public_key }
    }
}

} // verus!
