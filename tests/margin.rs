use perp_dex::attestation::{build_verify_data, TradeSettlementMessage};
use perp_dex::signer::EngineSigner;
use perp_dex::margin::{
    apply_fill_to_account, create_margin_account, deposit_handler, ed25519_program_id, initialize,
    settle_trade_handler, MarginAccount, PerpError, MAX_POSITIONS,
};

fn account(owner: u8, collateral: u64, nonce: u64) -> MarginAccount {
    let mut a = create_margin_account([owner; 32], 255);
    a.collateral = collateral;
    a.nonce = nonce;
    a
}

fn settle(b: &mut MarginAccount, s: &mut MarginAccount, price: u64, qty: u64, bn: u64, sn: u64) -> Result<(), PerpError> {
    settle_trade_handler(b, s, 1, ed25519_program_id(), 1, price, qty, bn, sn)
}

#[test]
fn nonce_replay_is_rejected() {
    let mut b = account(1, 1_000_000_000, 5);
    let mut s = account(2, 1_000_000_000, 7);
    assert_eq!(settle(&mut b, &mut s, 100_000_000, 1_000_000, 5, 7), Ok(()));
    assert_eq!(b.nonce, 6);
    assert_eq!(s.nonce, 8);
    let (b_before, s_before) = (b, s);
    assert_eq!(settle(&mut b, &mut s, 100_000_000, 1_000_000, 5, 8), Err(PerpError::StaleNonce));
    assert_eq!(b.nonce, b_before.nonce);
    assert_eq!(s.nonce, s_before.nonce);
    assert_eq!(b.positions[0].size, b_before.positions[0].size);
}

#[test]
fn pnl_is_realized_on_close() {
    let mut a = account(1, 100_000_000, 0);
    assert_eq!(apply_fill_to_account(&mut a, [0; 16], 1_000_000, 100_000_000), Ok(()));
    assert_eq!(a.position_count, 1);
    assert_eq!(a.positions[0].size, 1_000_000);
    assert_eq!(a.positions[0].avg_entry_price, 100_000_000);
    assert_eq!(apply_fill_to_account(&mut a, [0; 16], -1_000_000, 150_000_000), Ok(()));
    assert_eq!(a.collateral, 150_000_000);
    assert_eq!(a.position_count, 0);
    assert_eq!(a.positions[0].size, 0);
}

#[test]
fn leverage_guard_rejects_oversized_position() {
    let mut a = account(1, 10_000_000, 0);
    let before = a;
    assert_eq!(
        apply_fill_to_account(&mut a, [0; 16], 2_000_000, 100_000_000),
        Err(PerpError::InsufficientCollateral)
    );
    assert_eq!(a.position_count, before.position_count);
    assert_eq!(a.collateral, before.collateral);
}

#[test]
fn leverage_at_the_limit_is_accepted() {
    let mut a = account(1, 20_000_000, 0);
    assert_eq!(apply_fill_to_account(&mut a, [0; 16], 2_000_000, 100_000_000), Ok(()));
    assert!(a.collateral as u128 * 10 >= 2_000_000u128 * 100_000_000 / 1_000_000);
}

#[test]
fn short_loses_when_price_rises() {
    let mut a = account(1, 100_000_000, 0);
    apply_fill_to_account(&mut a, [0; 16], -2_000_000, 100_000_000).unwrap();
    apply_fill_to_account(&mut a, [0; 16], 1_000_000, 110_000_000).unwrap();
    assert_eq!(a.collateral, 90_000_000);
    assert_eq!(a.positions[0].size, -1_000_000);
}

#[test]
fn growing_a_position_averages_the_entry_price() {
    let mut a = account(1, 1_000_000_000, 0);
    apply_fill_to_account(&mut a, [0; 16], 1_000_000, 100_000_000).unwrap();
    apply_fill_to_account(&mut a, [0; 16], 3_000_000, 120_000_000).unwrap();
    assert_eq!(a.positions[0].size, 4_000_000);
    assert_eq!(a.positions[0].avg_entry_price, 115_000_000);
}

#[test]
fn flipping_a_position_resets_the_entry_price() {
    let mut a = account(1, 1_000_000_000, 0);
    apply_fill_to_account(&mut a, [0; 16], 1_000_000, 100_000_000).unwrap();
    apply_fill_to_account(&mut a, [0; 16], -3_000_000, 90_000_000).unwrap();
    assert_eq!(a.collateral, 990_000_000);
    assert_eq!(a.positions[0].size, -2_000_000);
    assert_eq!(a.positions[0].avg_entry_price, 90_000_000);
}

#[test]
fn closing_a_position_moves_the_last_one_into_its_slot() {
    let mut a = account(1, 1_000_000_000, 0);
    apply_fill_to_account(&mut a, [1; 16], 1_000_000, 10_000_000).unwrap();
    apply_fill_to_account(&mut a, [2; 16], 1_000_000, 10_000_000).unwrap();
    apply_fill_to_account(&mut a, [3; 16], 1_000_000, 10_000_000).unwrap();
    apply_fill_to_account(&mut a, [1; 16], -1_000_000, 10_000_000).unwrap();
    assert_eq!(a.position_count, 2);
    assert_eq!(a.positions[0].market, [3; 16]);
    assert_eq!(a.positions[1].market, [2; 16]);
    assert_eq!(a.positions[2].size, 0);
}

#[test]
fn ninth_market_is_refused() {
    let mut a = account(1, 1_000_000_000, 0);
    for m in 0..MAX_POSITIONS {
        apply_fill_to_account(&mut a, [m as u8 + 1; 16], 1_000, 1_000_000).unwrap();
    }
    assert_eq!(
        apply_fill_to_account(&mut a, [99; 16], 1_000, 1_000_000),
        Err(PerpError::MaxPositionsReached)
    );
    assert_eq!(a.position_count as usize, MAX_POSITIONS);
}

#[test]
fn zero_fill_on_an_open_position_changes_nothing() {
    let mut a = account(1, 1_000_000_000, 0);
    apply_fill_to_account(&mut a, [0; 16], 1_000_000, 100_000_000).unwrap();
    let before = a;
    assert_eq!(apply_fill_to_account(&mut a, [0; 16], 0, 120_000_000), Ok(()));
    assert_eq!(a.position_count, 1);
    assert_eq!(a.positions[0].size, before.positions[0].size);
    assert_eq!(a.positions[0].avg_entry_price, before.positions[0].avg_entry_price);
    assert_eq!(a.collateral, before.collateral);
}

#[test]
fn zero_fill_on_a_full_account_reports_no_free_slot() {
    let mut a = account(1, 1_000_000_000, 0);
    for m in 0..MAX_POSITIONS {
        apply_fill_to_account(&mut a, [m as u8 + 1; 16], 1_000, 1_000_000).unwrap();
    }
    assert_eq!(apply_fill_to_account(&mut a, [99; 16], 0, 1_000_000), Err(PerpError::MaxPositionsReached));
}

#[test]
fn zero_settlement_on_open_positions_advances_nonces() {
    let mut b = account(1, 1_000_000_000, 0);
    let mut s = account(2, 1_000_000_000, 0);
    settle(&mut b, &mut s, 100_000_000, 1_000_000, 0, 0).unwrap();
    assert_eq!(settle(&mut b, &mut s, 100_000_000, 0, 1, 1), Ok(()));
    assert_eq!((b.nonce, s.nonce), (2, 2));
    assert_eq!(b.positions[0].size, 1_000_000);
    assert_eq!(s.positions[0].size, -1_000_000);
}

#[test]
fn zero_fill_is_refused() {
    let mut a = account(1, 1_000_000_000, 0);
    assert_eq!(apply_fill_to_account(&mut a, [0; 16], 0, 1_000_000), Err(PerpError::ZeroPositionSize));
}

#[test]
fn loss_beyond_collateral_aborts() {
    let mut a = account(1, 100_000_000, 0);
    apply_fill_to_account(&mut a, [0; 16], 10_000_000, 100_000_000).unwrap();
    assert_eq!(
        apply_fill_to_account(&mut a, [0; 16], -10_000_000, 50_000_000),
        Err(PerpError::MathOverflow)
    );
    assert_eq!(a.positions[0].size, 10_000_000);
}

#[test]
fn settlement_needs_the_verifier_just_before() {
    let mut b = account(1, 1_000_000_000, 0);
    let mut s = account(2, 1_000_000_000, 0);
    assert_eq!(
        settle_trade_handler(&mut b, &mut s, 0, ed25519_program_id(), 1, 100, 10, 0, 0),
        Err(PerpError::MissingSignature)
    );
    assert_eq!(
        settle_trade_handler(&mut b, &mut s, 1, [7; 32], 1, 100, 10, 0, 0),
        Err(PerpError::InvalidSignatureProgram)
    );
    assert_eq!(b.nonce, 0);
    assert_eq!(s.nonce, 0);
}

#[test]
fn settlement_moves_both_sides_and_advances_nonces() {
    let mut b = account(1, 1_000_000_000, 0);
    let mut s = account(2, 1_000_000_000, 0);
    assert_eq!(settle(&mut b, &mut s, 150_000_000, 1_000_000, 0, 0), Ok(()));
    assert_eq!(b.positions[0].size, 1_000_000);
    assert_eq!(s.positions[0].size, -1_000_000);
    assert_eq!(b.nonce, 1);
    assert_eq!(s.nonce, 1);
}

#[test]
fn seller_failure_leaves_buyer_untouched() {
    let mut b = account(1, 1_000_000_000, 0);
    let mut s = account(2, 0, 0);
    assert_eq!(settle(&mut b, &mut s, 150_000_000, 1_000_000, 0, 0), Err(PerpError::InsufficientCollateral));
    assert_eq!(b.position_count, 0);
    assert_eq!(b.nonce, 0);
}

#[test]
fn oversized_quantity_is_refused() {
    let mut b = account(1, 1_000_000_000, 0);
    let mut s = account(2, 1_000_000_000, 0);
    assert_eq!(settle(&mut b, &mut s, 1, u64::MAX, 0, 0), Err(PerpError::MathOverflow));
}

#[test]
fn test_secure_settlement() {
    let engine_key = EngineSigner::from_hex(
        "9d61b19deffd5a60ba844af492ec2cc44449c5697b326919703bac031cae7f60\
         d75a980182b10ab7d54bfed3c964073a0ee172f3daa62325af021a68f707511a",
    )
    .unwrap();
    let mut b = account(1, 0, 0);
    let mut s = account(2, 0, 0);
    let msg = TradeSettlementMessage {
        trade_id: 1,
        buyer: b.owner,
        seller: s.owner,
        market: [0; 16],
        price: 100,
        quantity: 10,
        timestamp: 1620000000,
    }
    .to_bytes();
    let signed = engine_key.sign_trade_raw(&msg, 0, 0).unwrap();
    let mut signature = [0u8; 64];
    signature.copy_from_slice(&signed.signature);
    let ed_ix = build_verify_data(&engine_key.solana_pubkey(), &signature, &msg);
    assert_eq!(&ed_ix[176..], &msg[..]);
    let result = settle_trade_handler(&mut b, &mut s, 1, ed25519_program_id(), 1, 100, 10, 0, 0);
    assert!(result.is_ok());
}

#[test]
fn deposit_adds_collateral() {
    let mut a = account(1, 5, 0);
    assert_eq!(deposit_handler(&mut a, 10), Ok(()));
    assert_eq!(a.collateral, 15);
    assert_eq!(deposit_handler(&mut a, u64::MAX), Err(PerpError::MathOverflow));
    assert_eq!(a.collateral, 15);
}

#[test]
fn new_accounts_and_config_start_empty() {
    let a = create_margin_account([9; 32], 3);
    assert_eq!(a.owner, [9; 32]);
    assert_eq!(a.bump, 3);
    assert_eq!((a.collateral, a.position_count, a.nonce), (0, 0, 0));
    let c = initialize([1; 32], [2; 32], 4);
    assert_eq!(c.engine_signer, [2; 32]);
    assert_eq!(c.authority, [1; 32]);
    assert_eq!(c.bump, 4);
}
