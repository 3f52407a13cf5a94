use crate::attestation::{build_verify_data, message_bytes, verify_payload, zeros, TradeSettlementMessage};
use crate::book::MatchResult;
use crate::margin::{ed25519_program_id, verifier_program_id};
use crate::signer::{ed25519_signature_of, EngineSigner};
use vstd::prelude::*;

verus! {

/// Arguments of the settlement instruction.
#[derive(Debug, Clone, Copy, PartialEq, Eq, Structural)]
pub struct SettleArgs {
    pub trade_id: u64,
    pub price: u64,
    pub quantity: u64,
    pub buyer_nonce: u64,
    pub seller_nonce: u64,
}

/// Everything that goes on chain for one trade: the attested fields, their
/// canonical bytes, the engine's key and signature over them, the signature
/// verifier's program id and the data of its instruction (which takes no
/// accounts), and the settlement arguments.
#[derive(Debug, Clone)]
pub struct SettlementBundle {
    pub attestation: TradeSettlementMessage,
    pub message: Vec<u8>,
    pub pubkey: [u8; 32],
    pub signature: [u8; 64],
    pub verify_program: [u8; 32],
    pub verify_data: Vec<u8>,
    pub settle: SettleArgs,
}

/// Prepares the settlement of one match between the owners of `buyer` and
/// `seller`, attested at `timestamp` (seconds since the Unix epoch) in the
/// single market. The nonces are sent as zero.
pub fn prepare_settlement(
    signer: &EngineSigner,
    m: &MatchResult,
    buyer: [u8; 32],
    seller: [u8; 32],
    timestamp: i64,
) -> (r: SettlementBundle)
    ensures
        r.attestation.trade_id == m.trade_id,
        r.attestation.buyer == buyer,
        r.attestation.seller == seller,
        r.attestation.market@ == zeros(16),
        r.attestation.price == m.price,
        r.attestation.quantity == m.quantity,
        r.attestation.timestamp == timestamp,
        r.message@ == message_bytes(r.attestation),
        r.pubkey@ == signer.key_bytes().subrange(32, 64),
        r.signature@ == ed25519_signature_of(signer.key_bytes(), r.message@),
        r.verify_program@ == verifier_program_id(),
        r.verify_data@ == verify_payload(r.pubkey@, r.signature@, r.message@),
        r.settle == (SettleArgs {
            trade_id: m.trade_id,
            price: m.price,
            quantity: m.quantity,
            buyer_nonce: 0,
            seller_nonce: 0,
        }),
{
    let attestation = TradeSettlementMessage {
        trade_id: m.trade_id,
        buyer,
        seller,
        market: [0u8; 16],
        price: m.price,
        quantity: m.quantity,
        timestamp,
    };
    assert(attestation.market@ =~= zeros(16));
    let message = attestation.to_bytes();
    let signed = signer.sign_trade_raw(message.as_slice(), 0, 0);
    let mut signature = [0u8; 64];
    if let Ok(s) = signed {
        let mut i: usize = 0;
        while i < 64
            invariant
                i <= 64,
                s.signature@.len() == 64,
                forall|j: int| 0 <= j < i ==> signature@[j] == s.signature@[j],
            decreases 64 - i,
        {
            signature[i] = s.signature[i];
            i = i + 1;
        }
        assert(signature@ =~= s.signature@);
    }
    let pubkey = signer.solana_pubkey();
    let verify_data = build_verify_data(&pubkey, &signature, message.as_slice());
    SettlementBundle {
        attestation,
        message,
        pubkey,
        signature,
        verify_program: ed25519_program_id(),
        verify_data,
        settle: SettleArgs { trade_id: m.trade_id, price: m.price, quantity: m.quantity, buyer_nonce: 0, seller_nonce: 0 },
    }
}

} // verus!
