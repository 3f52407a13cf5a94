use crate::attestation::SignedTradeSettlement;
use vstd::prelude::*;

verus! {

/// Why the engine's signing key cannot be had or used.
#[derive(Debug, Clone)]
pub enum SettlementError {
    MissingKeypair,
    InvalidKeypair,
    SigningError(String),
}

/// Value of a hexadecimal digit, either case.
pub open spec fn hex_digit(c: char) -> Option<int> {
    if '0' <= c && c <= '9' {
        Some(c as int - '0' as int)
    } else if 'a' <= c && c <= 'f' {
        Some(c as int - 'a' as int + 10)
    } else if 'A' <= c && c <= 'F' {
        Some(c as int - 'A' as int + 10)
    } else {
        None
    }
}

/// The bytes that a hexadecimal text spells, two digits each, or `None` where
/// its length is odd or a character is no hex digit.
pub open spec fn hex_decoded(s: Seq<char>) -> Option<Seq<u8>> {
    if s.len() % 2 == 0 && forall|i: int| 0 <= i < s.len() ==> (#[trigger] hex_digit(s[i])).is_some() {
        Some(Seq::new((s.len() / 2) as nat, |i: int| (16 * hex_digit(s[2 * i]).unwrap() + hex_digit(s[2 * i + 1]).unwrap()) as u8))
    } else {
        None
    }
}

/// Relies on hex::decode: pairs of hex digits of either case become bytes; an
/// odd length or another character is refused.
#[verifier::external_body]
fn hex_decode(s: &str) -> (r: Option<Vec<u8>>)
    ensures
        match r {
            Some(v) => hex_decoded(s@) == Some(v@),
            None => hex_decoded(s@).is_none(),
        },
{
    hex::decode(s).ok()
}

/// Whether ed25519_dalek takes 64 bytes as a key pair (secret half, then a
/// public half that is a valid curve point).
pub uninterp spec fn keypair_accepts(b: Seq<u8>) -> bool;

/// The Ed25519 signature that the key pair `key` makes over `msg`; signing is
/// deterministic in the two.
pub uninterp spec fn ed25519_signature_of(key: Seq<u8>, msg: Seq<u8>) -> Seq<u8>;

/// Relies on ed25519_dalek's Keypair::from_bytes: whether it accepts `b`,
/// which depends on the bytes alone; it refuses every input that is not 64
/// bytes long.
#[verifier::external_body]
fn keypair_accepted(b: &[u8]) -> (r: bool)
    ensures
        r == (b@.len() == 64 && keypair_accepts(b@)),
{
    ed25519_dalek::Keypair::from_bytes(b).is_ok()
}

/// Relies on ed25519_dalek's Signer::sign for Keypair and Signature::to_bytes:
/// the 64-byte Ed25519 signature of `msg` under the key pair read from `key`.
#[verifier::external_body]
fn sign_message(key: &[u8; 64], msg: &[u8]) -> (r: [u8; 64])
    requires
        keypair_accepts(key@),
    ensures
        r@ == ed25519_signature_of(key@, msg@),
{
    let keypair = ed25519_dalek::Keypair::from_bytes(key).unwrap();
    ed25519_dalek::Signer::sign(&keypair, msg).to_bytes()
}

/// Relies on ed25519_dalek's PublicKey::to_bytes: the public half of the pair
/// read from `key`, which is the bytes it was read from.
#[verifier::external_body]
fn public_key_of(key: &[u8; 64]) -> (r: [u8; 32])
    requires
        keypair_accepts(key@),
    ensures
        r@ == key@.subrange(32, 64),
{
    ed25519_dalek::Keypair::from_bytes(key).unwrap().public.to_bytes()
}

/// The engine's Ed25519 identity, which signs every trade attestation.
pub struct EngineSigner {
    key: [u8; 64],
}

impl EngineSigner {
    #[verifier::type_invariant]
    spec fn inv(self) -> bool {
        keypair_accepts(self.key@)
    }

    /// The 64 bytes of the signer's key pair.
    pub closed spec fn key_bytes(self) -> Seq<u8> {
        self.key@
    }

    /// A signer from the hexadecimal text of a 64-byte key pair (secret half,
    /// then public half).
    pub fn from_hex(hex_key: &str) -> (r: Result<EngineSigner, SettlementError>)
        ensures
            r is Ok <==> (hex_decoded(hex_key@) matches Some(b) && b.len() == 64 && keypair_accepts(b)),
            r matches Ok(s) ==> hex_decoded(hex_key@) == Some(s.key_bytes()),
            r is Err ==> (r matches Err(SettlementError::InvalidKeypair)),
    {
        let bytes = match hex_decode(hex_key) {
            Some(b) => b,
            None => {
                return Err(SettlementError::InvalidKeypair);
            },
        };
        if !keypair_accepted(bytes.as_slice()) {
            return Err(SettlementError::InvalidKeypair);
        }
        let mut key = [0u8; 64];
        let mut i: usize = 0;
        while i < 64
            invariant
                i <= 64,
                bytes@.len() == 64,
                forall|j: int| 0 <= j < i ==> key@[j] == bytes@[j],
            decreases 64 - i,
        {
            key[i] = bytes[i];
            i = i + 1;
        }
        assert(key@ =~= bytes@);
        Ok(EngineSigner { key })
    }

    /// A signer from the value of the key's environment variable, if it is set.
    pub fn from_env(value: Option<String>) -> (r: Result<EngineSigner, SettlementError>)
        ensures
            value is None ==> (r matches Err(SettlementError::MissingKeypair)),
            value matches Some(v) ==> (r is Ok <==> (hex_decoded(v@) matches Some(b) && b.len() == 64
                && keypair_accepts(b))),
            value matches Some(v) ==> (r matches Ok(s) ==> hex_decoded(v@) == Some(s.key_bytes())),
            value is Some ==> (r is Err ==> (r matches Err(SettlementError::InvalidKeypair))),
    {
        match value {
            Some(v) => EngineSigner::from_hex(v.as_str()),
            None => Err(SettlementError::MissingKeypair),
        }
    }

    /// The engine's public key, as the settlement program knows it.
    pub fn solana_pubkey(&self) -> (r: [u8; 32])
        ensures
            r@ == self.key_bytes().subrange(32, 64),
    {
        proof {
            use_type_invariant(self);
        }
        public_key_of(&self.key)
    }

    /// Signs a trade message for the given nonces.
    pub fn sign_trade_raw(&self, msg: &[u8], buyer_nonce: u64, seller_nonce: u64) -> (r: Result<SignedTradeSettlement, SettlementError>)
        ensures
            r matches Ok(s) && s.signature@ == ed25519_signature_of(self.key_bytes(), msg@) && s.buyer_nonce
                == buyer_nonce && s.seller_nonce == seller_nonce,
            ed25519_signature_of(self.key_bytes(), msg@).len() == 64,
    {
        proof {
            use_type_invariant(self);
        }
        let sig = sign_message(&self.key, msg);
        let mut signature: Vec<u8> = Vec::with_capacity(64);
        let mut i: usize = 0;
        while i < 64
            invariant
                i <= 64,
                signature@ == sig@.subrange(0, i as int),
            decreases 64 - i,
        {
            signature.push(sig[i]);
            assert(sig@.subrange(0, i + 1) =~= sig@.subrange(0, i as int).push(sig@[i as int]));
            i = i + 1;
        }
        assert(sig@.subrange(0, 64) =~= sig@);
        Ok(SignedTradeSettlement { signature, buyer_nonce, seller_nonce })
    }
}

} // verus!
