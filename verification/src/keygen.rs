//! Candidate generation: fresh random key pairs and their mainnet
//! Taproot address strings, delegated to outside cryptographic crates
//! behind trusted wrappers.
//!
//! The derivations are deterministic functions of the secret key, so
//! their results carry names (`xonly_of`, `addr_chars_of`,
//! `wif_chars_of`) that the contracts speak of exactly.

use vstd::prelude::*;
use crate::pattern::taproot_hrp;

verus! {

/// A secp256k1 context able to perform every curve operation. The
/// outside type is generic over a context-capability trait that Verus
/// cannot declare, so the all-capabilities instance is held opaquely
/// in this field.
#[verifier::external_body]
pub struct SecpContext {
    ctx: bitcoin::secp256k1::Secp256k1<bitcoin::secp256k1::All>,
}

#[verifier::external_type_specification]
#[verifier::external_body]
pub struct ExSecretKey(bitcoin::secp256k1::SecretKey);

#[verifier::external_type_specification]
#[verifier::external_body]
pub struct ExXOnlyPublicKey(bitcoin::secp256k1::XOnlyPublicKey);

#[verifier::external_type_specification]
#[verifier::external_body]
pub struct ExThreadRng(rand::rngs::ThreadRng);

/// The x-only public key that secp256k1 derives from a secret key: a
/// deterministic function of the key alone.
pub uninterp spec fn xonly_of(secret_key: bitcoin::secp256k1::SecretKey) -> bitcoin::secp256k1::XOnlyPublicKey;

/// The mainnet Taproot address text of an internal key (the BIP-341
/// tweak with no script tree, bech32m-encoded): a deterministic
/// function of the key alone.
pub uninterp spec fn addr_chars_of(internal_key: bitcoin::secp256k1::XOnlyPublicKey) -> Seq<char>;

/// The mainnet export encoding of a secret key: a deterministic
/// function of the key alone.
pub uninterp spec fn wif_chars_of(secret_key: bitcoin::secp256k1::SecretKey) -> Seq<char>;

/// The 32-symbol bech32 alphabet, lowercase, in encoding order.
pub open spec fn bech32_charset() -> Seq<u8> {
    seq![
        113u8, 112u8, 122u8, 114u8, 121u8, 57u8, 120u8, 56u8, 103u8, 102u8, 50u8, 116u8, 118u8,
        100u8, 119u8, 48u8, 115u8, 51u8, 106u8, 110u8, 53u8, 52u8, 107u8, 104u8, 99u8, 101u8,
        54u8, 109u8, 117u8, 97u8, 55u8, 108u8,
    ]
}

/// The shape of a mainnet Taproot address: 62 bytes, the `"bc1p"`
/// prefix, and every symbol after `"bc1"` drawn from the bech32
/// alphabet.
pub open spec fn is_taproot_address_shape(chars: Seq<char>) -> bool {
    let bytes = vstd::utf8::encode_utf8(chars);
    &&& taproot_hrp().is_prefix_of(bytes)
    &&& bytes.len() == 62
    &&& forall|i: int| 3 <= i < 62 ==> bech32_charset().contains(#[trigger] bytes[i])
}

/// Relies on secp256k1's `Secp256k1::new`: a context able to perform
/// every curve operation.
#[verifier::external_body]
pub(crate) fn new_secp_context() -> SecpContext {
    SecpContext { ctx: bitcoin::secp256k1::Secp256k1::new() }
}

/// Relies on rand's `thread_rng`: a handle to this thread's
/// cryptographically secure random generator.
#[verifier::external_body]
pub(crate) fn new_thread_rng() -> rand::rngs::ThreadRng {
    rand::thread_rng()
}

/// Relies on secp256k1's `SecretKey::new`, which redraws 32 random
/// bytes until they form a valid secret scalar, so it always returns a
/// valid key. The result depends on the random stream: nothing can be
/// promised of its value.
#[verifier::external_body]
pub(crate) fn random_secret_key(rng: &mut rand::rngs::ThreadRng) -> bitcoin::secp256k1::SecretKey {
    bitcoin::secp256k1::SecretKey::new(rng)
}

/// Draws a fresh random secret key from a worker's entropy stream.
pub fn fresh_secret_key(rng: &mut rand::rngs::ThreadRng) -> bitcoin::secp256k1::SecretKey {
    random_secret_key(rng)
}

/// Relies on secp256k1's `PublicKey::from_secret_key`, a deterministic
/// derivation that cannot fail for a valid key; the x-only form of the
/// derived point is the untweaked Taproot internal key.
#[verifier::external_body]
pub(crate) fn x_only_public_key(
    secp: &SecpContext,
    secret_key: &bitcoin::secp256k1::SecretKey,
) -> (r: bitcoin::secp256k1::XOnlyPublicKey)
    ensures
        r == xonly_of(*secret_key),
{
    bitcoin::secp256k1::XOnlyPublicKey::from(
        bitcoin::secp256k1::PublicKey::from_secret_key(&secp.ctx, secret_key),
    )
}

/// Relies on bitcoin's `Address::p2tr` (which applies the BIP-341
/// output-key tweak itself, deterministically) and on the bech32m
/// display of a mainnet segwit version-1 address: the lowercase human
/// readable part `"bc"`, the separator `"1"`, the version symbol
/// `"p"`, then 52 program symbols and 6 checksum symbols from the
/// bech32 alphabet — 62 characters in all, a function of the internal
/// key alone.
#[verifier::external_body]
pub(crate) fn p2tr_address_string(
    secp: &SecpContext,
    internal_key: bitcoin::secp256k1::XOnlyPublicKey,
) -> (r: String)
    ensures
        r@ == addr_chars_of(internal_key),
        is_taproot_address_shape(r@),
{
    bitcoin::Address::p2tr(&secp.ctx, internal_key, None, bitcoin::Network::Bitcoin).to_string()
}

/// Relies on bitcoin's `PrivateKey::to_wif`, the standard export
/// encoding of a mainnet private key: a deterministic function of the
/// key (`PrivateKey::new` is a conversion).
#[verifier::external_body]
pub(crate) fn export_wif(secret_key: &bitcoin::secp256k1::SecretKey) -> (r: String)
    ensures
        r@ == wif_chars_of(*secret_key),
{
    bitcoin::PrivateKey::new(*secret_key, bitcoin::Network::Bitcoin).to_wif()
}

/// Derives the mainnet Taproot address string of a secret key: the
/// same key always yields the same address, of the standard shape.
pub fn generate_taproot_address(secp: &SecpContext, secret_key: &bitcoin::secp256k1::SecretKey) -> (r:
    String)
    ensures
        r@ == addr_chars_of(xonly_of(*secret_key)),
        is_taproot_address_shape(r@),
{
    let internal_key = x_only_public_key(secp, secret_key);
    p2tr_address_string(secp, internal_key)
}

/// Draws one fresh candidate: the Taproot address string of a new
/// random key pair, together with the exported private key. Whatever
/// key the entropy stream yields, the two strings belong to that one
/// key, and the address has the standard Taproot shape.
pub fn generate_candidate(secp: &SecpContext, rng: &mut rand::rngs::ThreadRng) -> (r: (
    String,
    String,
))
    ensures
        exists|sk: bitcoin::secp256k1::SecretKey|
            r.0@ == addr_chars_of(#[trigger] xonly_of(sk)) && r.1@ == wif_chars_of(sk),
        is_taproot_address_shape(r.0@),
{
    let secret_key = random_secret_key(rng);
    let address = generate_taproot_address(secp, &secret_key);
    let wif = export_wif(&secret_key);
    proof {
        assert(address@ == addr_chars_of(xonly_of(secret_key)) && wif@ == wif_chars_of(
            secret_key,
        ));
    }
    (address, wif)
}

} // verus!
