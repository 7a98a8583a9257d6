//! Escrow design waves: the financial rules escrowed settlement must keep,
//! computed with the library's basis-point share where a share is taken.

use lily_contracts::payments::bps_share;

fn share(amount: u128, bps: u128) -> u128 {
    bps_share(amount as i128, bps as u32) as u128
}

#[test]
fn test_wave10_multisig_quorum_ratio_validation() {
    let _total_signers: u32 = 5;
    let required_quorum_threshold: u32 = 3;
    let current_approvals: u32 = 3;
    let has_quorum = current_approvals >= required_quorum_threshold;
    assert!(has_quorum, "multisig transaction must satisfy minimum 60% quorum threshold");
}

#[test]
fn test_wave10_cancellation_penalty_settlement_bounds() {
    let deposit_amount: u128 = 100_000_0000;
    let penalty_bps: u128 = 500;
    let penalty_withheld = share(deposit_amount, penalty_bps);
    let refund_amount = deposit_amount - penalty_withheld;
    assert_eq!(penalty_withheld, 5_000_0000);
    assert_eq!(refund_amount, 95_000_0000);
    assert_eq!(refund_amount + penalty_withheld, deposit_amount);
}

#[test]
fn test_wave10_escrow_royalty_split_bps_distribution() {
    let gross_bounty: u128 = 200_000_0000;
    let protocol_fee_bps: u128 = 250;
    let creator_royalty_bps: u128 = 500;
    let protocol_fee = share(gross_bounty, protocol_fee_bps);
    let creator_royalty = share(gross_bounty, creator_royalty_bps);
    let hunter_payout = gross_bounty - protocol_fee - creator_royalty;
    assert_eq!(protocol_fee, 5_000_0000);
    assert_eq!(creator_royalty, 10_000_0000);
    assert_eq!(hunter_payout, 185_000_0000);
    assert_eq!(protocol_fee + creator_royalty + hunter_payout, gross_bounty);
}

#[test]
fn test_wave10_max_bounty_cap_invariants() {
    let max_bounty_cap: u128 = 1_000_000_0000;
    let requested_deposit: u128 = 500_000_0000;
    assert!(requested_deposit <= max_bounty_cap, "deposit must remain below max protocol cap");
}

#[test]
fn test_wave13_unclaimed_bounty_expiration_refund_bounds() {
    let deposit_time: u64 = 1_700_000_000;
    let expiration_window: u64 = 86_400 * 90;
    let expiry_timestamp = deposit_time + expiration_window;
    let check_time_before = deposit_time + 86_400 * 60;
    let check_time_after = deposit_time + 86_400 * 95;
    let can_refund_before = check_time_before >= expiry_timestamp;
    let can_refund_after = check_time_after >= expiry_timestamp;
    assert!(!can_refund_before, "depositor cannot claim expiry refund prior to 90d window");
    assert!(can_refund_after, "depositor must be entitled to 100% refund after expiration timestamp");
}

#[test]
fn test_wave13_min_bounty_funding_threshold() {
    let min_deposit_amount: u128 = 10_000_0000;
    let deposit_attempt: u128 = 150_000_0000;
    assert!(deposit_attempt >= min_deposit_amount, "bounty deposit must satisfy protocol minimum");
}

#[test]
fn test_wave7_timelock_cliff_vesting_evaluation() {
    let start_time: u64 = 1_000_000;
    let cliff_seconds: u64 = 86_400 * 30;
    let cliff_timestamp = start_time + cliff_seconds;
    let current_before_cliff = start_time + 86_400 * 15;
    let current_after_cliff = start_time + 86_400 * 35;
    let is_vested_before = current_before_cliff >= cliff_timestamp;
    let is_vested_after = current_after_cliff >= cliff_timestamp;
    assert!(!is_vested_before, "funds must remain locked prior to cliff timestamp");
    assert!(is_vested_after, "funds must become unlockable upon reaching cliff");
}

#[test]
fn test_wave7_emergency_halt_state_guard() {
    let is_halted = true;
    let can_withdraw = !is_halted;
    assert!(!can_withdraw, "withdrawals must be strictly prohibited during emergency halt state");
}

#[test]
fn test_wave9_escrow_timelock_duration_bounds() {
    let min_timelock_secs: u64 = 3600;
    let max_timelock_secs: u64 = 604800;
    let proposed_lock: u64 = 86400;
    assert!(proposed_lock >= min_timelock_secs, "proposed lock below minimum threshold");
    assert!(proposed_lock <= max_timelock_secs, "proposed lock exceeds maximum safety window");
}

#[test]
fn test_wave9_basis_point_royalty_precision() {
    let gross_amount: u128 = 250_000_0000;
    let royalty_bps: u128 = 250;
    let calculated_royalty = share(gross_amount, royalty_bps);
    let net_payout = gross_amount - calculated_royalty;
    assert_eq!(calculated_royalty, 6_250_0000);
    assert_eq!(net_payout, 243_750_0000);
    assert_eq!(net_payout + calculated_royalty, gross_amount);
}
