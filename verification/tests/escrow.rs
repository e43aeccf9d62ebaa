use escrow_engine::authority;
use escrow_engine::engine::Engine;
use escrow_engine::errors::EscrowError;
use escrow_engine::record::{MakeTerms, RefundRequest, TakeRequest, Terms, TokenData};

fn party(n: u8) -> [u8; 32] {
    [n; 32]
}

fn funded(e: &mut Engine, mint: usize, owner: [u8; 32], amount: u64) -> usize {
    let h = e.ledger.open_account(mint, owner).unwrap();
    e.ledger.credit(h, amount).unwrap();
    h
}

/// A partial-fill engine: mints A and B, maker's A source holding the
/// deposit, taker's B source, and empty receiving accounts on both sides.
/// Returns (engine, id, pay_source, maker_dest, recv_dest, vault).
fn partial_setup(
    deposit: u64,
    receive_per_unit: u64,
    taker_b_funds: u64,
) -> (Engine, usize, usize, usize, usize, usize) {
    let maker = party(1);
    let taker = party(2);
    let mut e = Engine::new();
    let mint_a = e.ledger.register_mint(6);
    let mint_b = e.ledger.register_mint(9);
    let maker_src = funded(&mut e, mint_a, maker, deposit);
    let pay_source = funded(&mut e, mint_b, taker, taker_b_funds);
    let maker_dest = e.ledger.open_account(mint_b, maker).unwrap();
    let recv_dest = e.ledger.open_account(mint_a, taker).unwrap();
    let id = e
        .make(
            7,
            maker,
            MakeTerms::PartialFill {
                offered_mint: mint_a,
                expected_mint: mint_b,
                deposit,
                receive_per_unit,
            },
            &vec![maker_src],
            0,
        )
        .unwrap();
    let vault = e.records[id].as_ref().unwrap().vaults[0];
    (e, id, pay_source, maker_dest, recv_dest, vault)
}

fn remaining_of(e: &Engine, id: usize) -> u64 {
    match &e.records[id].as_ref().unwrap().terms {
        Terms::PartialFill {
            remaining_amount, ..
        } => *remaining_amount,
        _ => panic!("not a partial fill"),
    }
}

#[test]
fn make_partial_sets_running_balance() {
    let (e, id, _, _, _, vault) = partial_setup(500, 3, 0);
    let rec = e.records[id].as_ref().unwrap();
    match &rec.terms {
        Terms::PartialFill {
            total_amount,
            remaining_amount,
            ..
        } => {
            assert_eq!(*total_amount, 500);
            assert_eq!(*remaining_amount, 500);
        }
        _ => panic!("wrong variant"),
    }
    assert_eq!(e.ledger.balance_of(vault), 500);
}

#[test]
fn make_zero_deposit_rejected() {
    let maker = party(1);
    let mut e = Engine::new();
    let mint_a = e.ledger.register_mint(6);
    let mint_b = e.ledger.register_mint(6);
    let src = funded(&mut e, mint_a, maker, 10);
    let r = e.make(
        1,
        maker,
        MakeTerms::FullFill {
            offered_mint: mint_a,
            expected_mint: mint_b,
            deposit: 0,
            receive: 5,
        },
        &vec![src],
        0,
    );
    assert_eq!(r.unwrap_err(), EscrowError::InvalidAmount);
    assert_eq!(e.records.len(), 0);
}

#[test]
fn make_unregistered_asset_rejected() {
    let maker = party(1);
    let mut e = Engine::new();
    let mint_a = e.ledger.register_mint(6);
    let src = funded(&mut e, mint_a, maker, 10);
    let r = e.make(
        1,
        maker,
        MakeTerms::FullFill {
            offered_mint: 99,
            expected_mint: mint_a,
            deposit: 10,
            receive: 5,
        },
        &vec![src],
        0,
    );
    assert_eq!(r.unwrap_err(), EscrowError::AssetMismatch);
}

#[test]
fn full_fill_swap_settles_whole_deposit() {
    // make(seed=1, deposit=100 of A, receive=50 of B) then take().
    let maker = party(1);
    let taker = party(2);
    let mut e = Engine::new();
    let mint_a = e.ledger.register_mint(6);
    let mint_b = e.ledger.register_mint(6);
    let maker_src = funded(&mut e, mint_a, maker, 100);
    let pay_source = funded(&mut e, mint_b, taker, 50);
    let maker_dest = e.ledger.open_account(mint_b, maker).unwrap();
    let recv_dest = e.ledger.open_account(mint_a, taker).unwrap();
    let id = e
        .make(
            1,
            maker,
            MakeTerms::FullFill {
                offered_mint: mint_a,
                expected_mint: mint_b,
                deposit: 100,
                receive: 50,
            },
            &vec![maker_src],
            0,
        )
        .unwrap();
    let vault = e.records[id].as_ref().unwrap().vaults[0];
    assert!(e.is_open(id));
    assert_eq!(e.ledger.balance_of(vault), 100);
    assert_eq!(e.ledger.balance_of(maker_src), 0);
    assert_eq!(e.ledger.decimals_of(mint_a), 6);
    e.take(
        id,
        taker,
        &TakeRequest::Settle {
            pay_source,
            maker_dest,
            recv_dest,
        },
        0,
    )
    .unwrap();
    assert_eq!(e.ledger.balance_of(recv_dest), 100);
    assert_eq!(e.ledger.balance_of(maker_dest), 50);
    assert_eq!(e.ledger.balance_of(pay_source), 0);
    assert!(!e.ledger.is_open_account(vault));
    assert!(e.records[id].is_none());
    assert!(!e.is_open(id));
}

#[test]
fn partial_fill_two_takes() {
    // deposit 1000 of A at 2 B per unit; take(300) then take(700).
    let (mut e, id, pay_source, maker_dest, recv_dest, vault) = partial_setup(1000, 2, 2000);
    e.take(
        id,
        party(2),
        &TakeRequest::SettlePartial {
            amount_to_take: 300,
            pay_source,
            maker_dest,
            recv_dest,
        },
        0,
    )
    .unwrap();
    assert_eq!(e.ledger.balance_of(maker_dest), 600);
    assert_eq!(e.ledger.balance_of(recv_dest), 300);
    assert_eq!(remaining_of(&e, id), 700);
    assert_eq!(e.ledger.balance_of(vault), 700);
    assert!(e.ledger.is_open_account(vault));
    e.take(
        id,
        party(2),
        &TakeRequest::SettlePartial {
            amount_to_take: 700,
            pay_source,
            maker_dest,
            recv_dest,
        },
        0,
    )
    .unwrap();
    assert_eq!(e.ledger.balance_of(maker_dest), 2000);
    assert_eq!(e.ledger.balance_of(recv_dest), 1000);
    assert!(e.records[id].is_none());
    assert!(!e.ledger.is_open_account(vault));
}

#[test]
fn partial_take_zero_amount_rejected() {
    let (mut e, id, pay_source, maker_dest, recv_dest, _) = partial_setup(100, 2, 1000);
    let r = e.take(
        id,
        party(2),
        &TakeRequest::SettlePartial {
            amount_to_take: 0,
            pay_source,
            maker_dest,
            recv_dest,
        },
        0,
    );
    assert_eq!(r.unwrap_err(), EscrowError::InvalidAmount);
    assert_eq!(remaining_of(&e, id), 100);
}

#[test]
fn partial_take_exceeding_remaining_rejected() {
    let (mut e, id, pay_source, maker_dest, recv_dest, _) = partial_setup(100, 2, 1000);
    let r = e.take(
        id,
        party(2),
        &TakeRequest::SettlePartial {
            amount_to_take: 101,
            pay_source,
            maker_dest,
            recv_dest,
        },
        0,
    );
    assert_eq!(r.unwrap_err(), EscrowError::ExceedsRemainingAmount);
    assert_eq!(remaining_of(&e, id), 100);
}

#[test]
fn partial_take_price_overflow_rejected() {
    // receive_per_unit = 2^63; take(10) scales past u64.
    let (mut e, id, pay_source, maker_dest, recv_dest, vault) =
        partial_setup(100, 1u64 << 63, 1000);
    let r = e.take(
        id,
        party(2),
        &TakeRequest::SettlePartial {
            amount_to_take: 10,
            pay_source,
            maker_dest,
            recv_dest,
        },
        0,
    );
    assert_eq!(r.unwrap_err(), EscrowError::ArithmeticOverflow);
    assert_eq!(remaining_of(&e, id), 100);
    assert_eq!(e.ledger.balance_of(vault), 100);
    assert_eq!(e.ledger.balance_of(maker_dest), 0);
    assert_eq!(e.ledger.balance_of(recv_dest), 0);
}

#[test]
fn partial_take_insufficient_payment_rejected() {
    // taker holds 100 B but owes 300 * 2 = 600 B.
    let (mut e, id, pay_source, maker_dest, recv_dest, _) = partial_setup(1000, 2, 100);
    let r = e.take(
        id,
        party(2),
        &TakeRequest::SettlePartial {
            amount_to_take: 300,
            pay_source,
            maker_dest,
            recv_dest,
        },
        0,
    );
    assert_eq!(r.unwrap_err(), EscrowError::InsufficientCustodyBalance);
    assert_eq!(remaining_of(&e, id), 1000);
    assert_eq!(e.ledger.balance_of(pay_source), 100);
}

#[test]
fn partial_take_capacity_wrap_is_custodian_side() {
    // The maker's receiving account is already at the representable
    // ceiling: the payment leg cannot land, and the failure is the
    // custodian's capacity kind, not the protocol's own overflow kind.
    let (mut e, id, pay_source, maker_dest, recv_dest, vault) = partial_setup(100, 1, 10);
    e.ledger.credit(maker_dest, u64::MAX).unwrap();
    let r = e.take(
        id,
        party(2),
        &TakeRequest::SettlePartial {
            amount_to_take: 1,
            pay_source,
            maker_dest,
            recv_dest,
        },
        0,
    );
    assert_eq!(r.unwrap_err(), EscrowError::CustodyCapacityExceeded);
    assert_eq!(remaining_of(&e, id), 100);
    assert_eq!(e.ledger.balance_of(vault), 100);
    assert_eq!(e.ledger.balance_of(pay_source), 10);
}

#[test]
fn refund_returns_exactly_remaining() {
    let (mut e, id, pay_source, maker_dest, recv_dest, vault) = partial_setup(1000, 2, 2000);
    e.take(
        id,
        party(2),
        &TakeRequest::SettlePartial {
            amount_to_take: 300,
            pay_source,
            maker_dest,
            recv_dest,
        },
        0,
    )
    .unwrap();
    let refund_dest = e.ledger.open_account(0, party(1)).unwrap();
    e.refund(
        id,
        &RefundRequest::Reclaim {
            maker_dest: refund_dest,
        },
        0,
    )
    .unwrap();
    // Exactly the 700 still in custody comes back, not the original 1000.
    assert_eq!(e.ledger.balance_of(refund_dest), 700);
    assert!(!e.ledger.is_open_account(vault));
    assert!(e.records[id].is_none());
}

fn timed_setup(duration: i64) -> (Engine, usize, usize, usize, usize, usize) {
    let maker = party(1);
    let taker = party(2);
    let mut e = Engine::new();
    let mint_a = e.ledger.register_mint(6);
    let mint_b = e.ledger.register_mint(6);
    let maker_src = funded(&mut e, mint_a, maker, 100);
    let pay_source = funded(&mut e, mint_b, taker, 50);
    let maker_dest = e.ledger.open_account(mint_b, maker).unwrap();
    let recv_dest = e.ledger.open_account(mint_a, taker).unwrap();
    let id = e
        .make(
            3,
            maker,
            MakeTerms::TimeBoxed {
                offered_mint: mint_a,
                expected_mint: mint_b,
                deposit: 100,
                receive: 50,
                duration,
            },
            &vec![maker_src],
            1_000,
        )
        .unwrap();
    let vault = e.records[id].as_ref().unwrap().vaults[0];
    (e, id, pay_source, maker_dest, recv_dest, vault)
}

#[test]
fn timed_take_before_deadline_succeeds() {
    let (mut e, id, pay_source, maker_dest, recv_dest, vault) = timed_setup(500);
    e.take(
        id,
        party(2),
        &TakeRequest::Settle {
            pay_source,
            maker_dest,
            recv_dest,
        },
        1_499,
    )
    .unwrap();
    assert_eq!(e.ledger.balance_of(recv_dest), 100);
    assert_eq!(e.ledger.balance_of(maker_dest), 50);
    assert!(!e.ledger.is_open_account(vault));
    assert!(e.records[id].is_none());
}

#[test]
fn timed_take_at_deadline_rejected() {
    let (mut e, id, pay_source, maker_dest, recv_dest, _) = timed_setup(500);
    let r = e.take(
        id,
        party(2),
        &TakeRequest::Settle {
            pay_source,
            maker_dest,
            recv_dest,
        },
        1_500,
    );
    assert_eq!(r.unwrap_err(), EscrowError::EscrowExpired);
    assert!(e.records[id].is_some());
    assert_eq!(e.ledger.balance_of(maker_dest), 0);
}

#[test]
fn timed_refund_before_deadline_rejected() {
    let (mut e, id, _, _, _, _) = timed_setup(500);
    let refund_dest = e.ledger.open_account(0, party(1)).unwrap();
    let r = e.refund(
        id,
        &RefundRequest::Reclaim {
            maker_dest: refund_dest,
        },
        1_499,
    );
    assert_eq!(r.unwrap_err(), EscrowError::EscrowNotExpired);
    assert!(e.records[id].is_some());
    assert_eq!(e.ledger.balance_of(refund_dest), 0);
}

#[test]
fn timed_refund_at_deadline_succeeds() {
    let (mut e, id, _, _, _, vault) = timed_setup(500);
    let refund_dest = e.ledger.open_account(0, party(1)).unwrap();
    e.refund(
        id,
        &RefundRequest::Reclaim {
            maker_dest: refund_dest,
        },
        1_500,
    )
    .unwrap();
    assert_eq!(e.ledger.balance_of(refund_dest), 100);
    assert!(!e.ledger.is_open_account(vault));
    assert!(e.records[id].is_none());
}

/// A bundle engine: offered [(X, 100), (Y, 50)], expected [(Z, 10)].
/// Returns (engine, id, handles-for-take, taker dests, maker dest, vaults).
fn bundle_setup() -> (
    Engine,
    usize,
    Vec<usize>,
    (usize, usize),
    usize,
    (usize, usize),
) {
    let maker = party(1);
    let taker = party(2);
    let mut e = Engine::new();
    let mint_x = e.ledger.register_mint(0);
    let mint_y = e.ledger.register_mint(0);
    let mint_z = e.ledger.register_mint(0);
    let maker_src_x = funded(&mut e, mint_x, maker, 100);
    let maker_src_y = funded(&mut e, mint_y, maker, 50);
    let taker_src_z = funded(&mut e, mint_z, taker, 10);
    let maker_dest_z = e.ledger.open_account(mint_z, maker).unwrap();
    let taker_dest_x = e.ledger.open_account(mint_x, taker).unwrap();
    let taker_dest_y = e.ledger.open_account(mint_y, taker).unwrap();
    let id = e
        .make(
            9,
            maker,
            MakeTerms::MultiAsset {
                offered: vec![
                    TokenData {
                        mint: mint_x,
                        amount: 100,
                    },
                    TokenData {
                        mint: mint_y,
                        amount: 50,
                    },
                ],
                expected: vec![TokenData {
                    mint: mint_z,
                    amount: 10,
                }],
            },
            &vec![maker_src_x, maker_src_y],
            0,
        )
        .unwrap();
    let vaults = (
        e.records[id].as_ref().unwrap().vaults[0],
        e.records[id].as_ref().unwrap().vaults[1],
    );
    // One (asset, source, destination) triple per expected entry, then one
    // per offered entry.
    let handles = vec![
        mint_z,
        taker_src_z,
        maker_dest_z,
        mint_x,
        vaults.0,
        taker_dest_x,
        mint_y,
        vaults.1,
        taker_dest_y,
    ];
    (
        e,
        id,
        handles,
        (taker_dest_x, taker_dest_y),
        maker_dest_z,
        vaults,
    )
}

#[test]
fn bundle_swap_settles_both_sides() {
    let (mut e, id, handles, (dest_x, dest_y), maker_dest_z, vaults) = bundle_setup();
    e.take(id, party(2), &TakeRequest::SettleBundle { handles }, 0)
        .unwrap();
    assert_eq!(e.ledger.balance_of(dest_x), 100);
    assert_eq!(e.ledger.balance_of(dest_y), 50);
    assert_eq!(e.ledger.balance_of(maker_dest_z), 10);
    assert!(!e.ledger.is_open_account(vaults.0));
    assert!(!e.ledger.is_open_account(vaults.1));
    assert!(e.records[id].is_none());
}

#[test]
fn bundle_take_length_mismatch_rejected() {
    let (mut e, id, mut handles, (dest_x, dest_y), maker_dest_z, vaults) = bundle_setup();
    handles.pop();
    let r = e.take(id, party(2), &TakeRequest::SettleBundle { handles }, 0);
    assert_eq!(r.unwrap_err(), EscrowError::BundleLengthMismatch);
    assert_eq!(e.ledger.balance_of(dest_x), 0);
    assert_eq!(e.ledger.balance_of(dest_y), 0);
    assert_eq!(e.ledger.balance_of(maker_dest_z), 0);
    assert_eq!(e.ledger.balance_of(vaults.0), 100);
    assert_eq!(e.ledger.balance_of(vaults.1), 50);
    assert!(e.records[id].is_some());
}

#[test]
fn bundle_take_wrong_asset_descriptor_rejected() {
    let (mut e, id, mut handles, _, _, vaults) = bundle_setup();
    // Declare the wrong asset for the second offered entry.
    handles[6] = 0;
    let r = e.take(id, party(2), &TakeRequest::SettleBundle { handles }, 0);
    assert_eq!(r.unwrap_err(), EscrowError::AssetMismatch);
    assert_eq!(e.ledger.balance_of(vaults.0), 100);
    assert_eq!(e.ledger.balance_of(vaults.1), 50);
    assert!(e.records[id].is_some());
}

#[test]
fn bundle_take_wrong_vault_handle_rejected() {
    let (mut e, id, mut handles, _, _, vaults) = bundle_setup();
    // Point the first offered triple at the wrong custody account.
    handles[4] = vaults.1;
    let r = e.take(id, party(2), &TakeRequest::SettleBundle { handles }, 0);
    assert_eq!(r.unwrap_err(), EscrowError::UnauthorizedAuthority);
    assert_eq!(e.ledger.balance_of(vaults.0), 100);
    assert_eq!(e.ledger.balance_of(vaults.1), 50);
    assert!(e.records[id].is_some());
}

#[test]
fn bundle_refund_reclaims_every_vault() {
    let (mut e, id, _, _, _, vaults) = bundle_setup();
    let maker = party(1);
    let back_x = e.ledger.open_account(0, maker).unwrap();
    let back_y = e.ledger.open_account(1, maker).unwrap();
    let handles = vec![0, vaults.0, back_x, 1, vaults.1, back_y];
    e.refund(id, &RefundRequest::ReclaimBundle { handles }, 0)
        .unwrap();
    assert_eq!(e.ledger.balance_of(back_x), 100);
    assert_eq!(e.ledger.balance_of(back_y), 50);
    assert!(!e.ledger.is_open_account(vaults.0));
    assert!(!e.ledger.is_open_account(vaults.1));
    assert!(e.records[id].is_none());
}

#[test]
fn make_bundle_length_bounds_enforced() {
    let maker = party(1);
    let mut e = Engine::new();
    let mint_x = e.ledger.register_mint(0);
    let r = e.make(
        1,
        maker,
        MakeTerms::MultiAsset {
            offered: vec![],
            expected: vec![TokenData {
                mint: mint_x,
                amount: 1,
            }],
        },
        &vec![],
        0,
    );
    assert_eq!(r.unwrap_err(), EscrowError::BundleLengthMismatch);
    let big: Vec<TokenData> = (0..11)
        .map(|_| TokenData {
            mint: mint_x,
            amount: 1,
        })
        .collect();
    let srcs: Vec<usize> = Vec::new();
    let r = e.make(
        2,
        maker,
        MakeTerms::MultiAsset {
            offered: big,
            expected: vec![TokenData {
                mint: mint_x,
                amount: 1,
            }],
        },
        &srcs,
        0,
    );
    assert_eq!(r.unwrap_err(), EscrowError::BundleLengthMismatch);
}

#[test]
fn make_bundle_zero_amount_rejected() {
    let maker = party(1);
    let mut e = Engine::new();
    let mint_x = e.ledger.register_mint(0);
    let src = funded(&mut e, mint_x, maker, 5);
    let r = e.make(
        1,
        maker,
        MakeTerms::MultiAsset {
            offered: vec![TokenData {
                mint: mint_x,
                amount: 0,
            }],
            expected: vec![TokenData {
                mint: mint_x,
                amount: 1,
            }],
        },
        &vec![src],
        0,
    );
    assert_eq!(r.unwrap_err(), EscrowError::InvalidAmount);
}

#[test]
fn derive_is_deterministic_and_not_the_maker() {
    let maker = party(5);
    let (addr1, bump1) = authority::derive(&maker, 42).unwrap();
    let (addr2, bump2) = authority::derive(&maker, 42).unwrap();
    assert_eq!(addr1, addr2);
    assert_eq!(bump1, bump2);
    assert_ne!(addr1, maker);
    let (other, _) = authority::derive(&maker, 43).unwrap();
    assert_ne!(addr1, other);
}

#[test]
fn authorize_accepts_only_the_recorded_owner() {
    let maker = party(5);
    let (addr, bump) = authority::derive(&maker, 42).unwrap();
    let auth = authority::authorize(&maker, 42, bump, &addr).unwrap();
    assert_eq!(auth.address, addr);
    let wrong = party(6);
    assert_eq!(
        authority::authorize(&maker, 42, bump, &wrong).unwrap_err(),
        EscrowError::UnauthorizedAuthority
    );
    assert_eq!(
        authority::authorize(&wrong, 42, bump, &addr).unwrap_err(),
        EscrowError::UnauthorizedAuthority
    );
}

#[test]
fn custody_vault_is_owned_by_the_derived_address() {
    let (e, id, _, _, _, vault) = partial_setup(10, 1, 0);
    let rec = e.records[id].as_ref().unwrap();
    let (addr, bump) = authority::derive(&rec.maker, rec.seed).unwrap();
    assert_eq!(bump, rec.bump);
    assert_eq!(e.ledger.accounts[vault].owner, addr);
}
