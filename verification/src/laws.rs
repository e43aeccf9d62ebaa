//! The protocol's laws: what holds of every deal, proved once and for all
//! against the contracts of `make`, `take` and `refund`.

use vstd::prelude::*;

use crate::engine::{
    make_terms_err, made_terms, refund_err, take_err, Engine,
};
use crate::errors::EscrowError;
use crate::ledger::{Ledger, TokenAccount};
use crate::record::{MakeTerms, RefundRequest, TakeRequest, Terms};

verus! {

/// The sum of a sequence of take amounts.
pub open spec fn sum_of(amounts: Seq<u64>) -> int
    decreases amounts.len(),
{
    if amounts.len() == 0 {
        0
    } else {
        amounts[0] + sum_of(amounts.drop_first())
    }
}

/// Each take in the sequence claims a positive amount no larger than what
/// remains at its turn — exactly the preconditions `take` enforces on a
/// partial fill, whose contract then reduces the remaining amount by the
/// claimed amount and closes the record exactly when it reaches zero.
pub open spec fn valid_take_seq(amounts: Seq<u64>, remaining: int) -> bool
    decreases amounts.len(),
{
    if amounts.len() == 0 {
        true
    } else {
        0 < amounts[0] <= remaining && valid_take_seq(amounts.drop_first(), remaining - amounts[0])
    }
}

/// The remaining amount after a sequence of takes from a deposit.
pub open spec fn remaining_after(total: int, amounts: Seq<u64>) -> int {
    total - sum_of(amounts)
}

/// Law: creating a partial-fill escrow with any positive deposit yields a
/// record whose remaining amount and total amount both equal the deposit,
/// and the deposit check itself accepts exactly the positive deposits.
pub proof fn lemma_make_partial_initial_balance(
    offered_mint: usize,
    expected_mint: usize,
    deposit: u64,
    receive_per_unit: u64,
    now: i64,
)
    requires
        deposit > 0,
    ensures
        ({
            let t = made_terms(
                MakeTerms::PartialFill { offered_mint, expected_mint, deposit, receive_per_unit },
                now,
            );
            &&& t->PartialFill_total_amount == deposit
            &&& t->PartialFill_remaining_amount == deposit
        }),
        make_terms_err(
            MakeTerms::PartialFill { offered_mint, expected_mint, deposit, receive_per_unit },
        ) is None,
{
}

/// Law: a sequence of valid partial takes never overdraws the deposit; the
/// record is closed (remaining amount zero) after the sequence exactly
/// when the takes sum to the whole deposit; and after every proper prefix
/// of the sequence the record is still open with `remaining == total -
/// sum` positive.
pub proof fn lemma_partial_take_sequence(amounts: Seq<u64>, total: u64)
    requires
        valid_take_seq(amounts, total as int),
    ensures
        0 <= sum_of(amounts) <= total,
        (remaining_after(total as int, amounts) == 0) <==> (sum_of(amounts) == total),
        forall|n: int|
            0 <= n < amounts.len() ==> remaining_after(
                total as int,
                #[trigger] amounts.take(n),
            ) > 0,
    decreases amounts.len(),
{
    if amounts.len() == 0 {
    } else {
        let rest = amounts.drop_first();
        let rem1 = total - amounts[0];
        lemma_partial_take_sequence_from(rest, rem1 as int);
        assert(sum_of(amounts) == amounts[0] + sum_of(rest));
        assert forall|n: int|
            0 <= n < amounts.len() implies remaining_after(total as int, #[trigger] amounts.take(n))
            > 0 by {
            if n == 0 {
                assert(amounts.take(0).len() == 0);
                assert(sum_of(amounts.take(0)) == 0);
            } else {
                assert(rest.take(n - 1) =~= amounts.take(n).drop_first());
                lemma_sum_take_step(amounts, n);
                assert(remaining_after(rem1, rest.take(n - 1)) > 0);
            }
        }
    }
}

/// The same law stated from an arbitrary remaining amount, for the
/// induction.
pub proof fn lemma_partial_take_sequence_from(amounts: Seq<u64>, remaining: int)
    requires
        0 <= remaining,
        valid_take_seq(amounts, remaining),
    ensures
        0 <= sum_of(amounts) <= remaining,
        forall|n: int|
            0 <= n < amounts.len() ==> remaining - sum_of(#[trigger] amounts.take(n)) > 0,
    decreases amounts.len(),
{
    if amounts.len() == 0 {
        assert(sum_of(amounts) == 0);
    } else {
        let rest = amounts.drop_first();
        lemma_partial_take_sequence_from(rest, remaining - amounts[0]);
        assert(sum_of(amounts) == amounts[0] + sum_of(rest));
        assert forall|n: int|
            0 <= n < amounts.len() implies remaining - sum_of(#[trigger] amounts.take(n))
            > 0 by {
            if n == 0 {
                assert(sum_of(amounts.take(0)) == 0);
            } else {
                assert(rest.take(n - 1) =~= amounts.take(n).drop_first());
                lemma_sum_take_step(amounts, n);
            }
        }
    }
}

/// Unfolds the sum of a non-empty prefix.
pub proof fn lemma_sum_take_step(amounts: Seq<u64>, n: int)
    requires
        0 < n <= amounts.len(),
    ensures
        sum_of(amounts.take(n)) == amounts[0] + sum_of(amounts.drop_first().take(n - 1)),
{
    assert(amounts.take(n).len() == n);
    assert(amounts.take(n)[0] == amounts[0]);
    assert(amounts.take(n).drop_first() =~= amounts.drop_first().take(n - 1));
}

/// Law: a partial take fails with `ArithmeticOverflow` exactly when its
/// scaled price `amount * receive_per_unit` leaves the representable range
/// (and the amount itself passed its own checks); no other failure of a
/// partial take reports that kind — custodian-side capacity wraps report
/// `CustodyCapacityExceeded` instead — and by `take`'s contract an erring
/// take leaves the record and every balance unchanged.
pub proof fn lemma_take_overflow(e: Engine, id: usize, taker: [u8; 32], req: TakeRequest, now: i64)
    requires
        e.open_record(id as int),
        e.record_at(id as int).terms is PartialFill,
        req is SettlePartial,
    ensures
        take_err(e, id, taker, req, now) == Some(EscrowError::ArithmeticOverflow) <==> {
            let amt = req->SettlePartial_amount_to_take;
            let rec = e.record_at(id as int);
            &&& 0 < amt
            &&& amt <= rec.terms->PartialFill_remaining_amount
            &&& rec.terms->PartialFill_receive_per_unit * amt > u64::MAX
        },
{
}

/// Law: a valid partial take is owed success. If the claimed amount is
/// positive and within the remaining balance, its scaled price fits, the
/// taker's paying account covers it, and the two receiving accounts can
/// absorb what they are paid, then no check and no settlement leg fails:
/// together with `lemma_partial_take_sequence`, any valid sequence of
/// funded takes runs to completion and closes the record exactly when the
/// amounts sum to the deposit. (Authorization is owed by the record's own
/// invariant: the stored discriminant re-derives to the vault's owner.)
pub proof fn lemma_partial_take_succeeds(
    e: Engine,
    id: usize,
    taker: [u8; 32],
    req: TakeRequest,
    now: i64,
)
    requires
        e.wf(),
        e.open_record(id as int),
        e.record_at(id as int).terms is PartialFill,
        req is SettlePartial,
        crate::engine::take_accounts_ok(e, e.record_at(id as int), taker, req),
        ({
            let rec = e.record_at(id as int);
            let amt = req->SettlePartial_amount_to_take;
            let price = rec.terms->PartialFill_receive_per_unit * amt;
            let pay = req->SettlePartial_pay_source;
            let mdest = req->SettlePartial_maker_dest;
            let rdest = req->SettlePartial_recv_dest;
            &&& 0 < amt <= rec.terms->PartialFill_remaining_amount
            &&& price <= u64::MAX
            &&& e.ledger.acct(pay).balance >= price
            &&& pay != mdest && pay != rdest && mdest != rdest
            &&& e.ledger.acct(mdest).balance + price <= u64::MAX
            &&& e.ledger.acct(rdest).balance + amt <= u64::MAX
        }),
    ensures
        take_err(e, id, taker, req, now) is None,
{
    let rec = e.record_at(id as int);
    assert(Engine::record_ok(rec, e.ledger));
    let s = e.ledger.accounts@;
    let vault = rec.vaults@[0];
    let amt = req->SettlePartial_amount_to_take;
    let price = (rec.terms->PartialFill_receive_per_unit * amt) as u64;
    let pay = req->SettlePartial_pay_source;
    let mdest = req->SettlePartial_maker_dest;
    let rdest = req->SettlePartial_recv_dest;
    assert(e.party_account(pay) && e.party_account(mdest) && e.party_account(rdest));
    assert(e.is_open_vault(vault)) by {
        assert(rec.vaults@.contains(vault));
    }
    assert(vault != pay && vault != mdest && vault != rdest);
    assert(Ledger::transfer_err(
        s,
        pay,
        mdest,
        rec.terms->PartialFill_expected_mint,
        price,
        taker@,
    ) is None);
    let s1 = Ledger::transfer_apply(s, pay, mdest, price);
    assert(s1[vault as int] == s[vault as int]);
    assert(s1[rdest as int] == s[rdest as int]);
    assert(Ledger::transfer_err(
        s1,
        vault,
        rdest,
        rec.terms->PartialFill_offered_mint,
        amt,
        s[vault as int].owner@,
    ) is None);
    let s2 = Ledger::transfer_apply(s1, vault, rdest, amt);
    if rec.terms->PartialFill_remaining_amount == amt {
        assert(s2[vault as int].balance == 0);
        assert(Ledger::close_err(s2, vault, rdest, s[vault as int].owner@) is None);
    }
}

/// Law: a bundle take whose flat handle list is not three handles per
/// bundle entry fails with `BundleLengthMismatch` — and by `take`'s
/// contract nothing is transferred.
pub proof fn lemma_take_bundle_length(e: Engine, id: usize, taker: [u8; 32], req: TakeRequest, now: i64)
    requires
        e.open_record(id as int),
        e.record_at(id as int).terms is MultiAsset,
        req is SettleBundle,
        req->SettleBundle_handles@.len() != 3 * (e.record_at(
            id as int,
        ).terms->MultiAsset_expected@.len() + e.record_at(
            id as int,
        ).terms->MultiAsset_offered@.len()),
    ensures
        take_err(e, id, taker, req, now) == Some(EscrowError::BundleLengthMismatch),
{
}

/// Law: a time-boxed escrow cannot be taken at or after its deadline —
/// the take fails with `EscrowExpired` and changes nothing — and cannot be
/// refunded before it — the refund fails with `EscrowNotExpired` and
/// changes nothing.
pub proof fn lemma_expiry_boundary(
    e: Engine,
    id: usize,
    taker: [u8; 32],
    treq: TakeRequest,
    rreq: RefundRequest,
    now: i64,
)
    requires
        e.open_record(id as int),
        e.record_at(id as int).terms is TimeBoxed,
    ensures
        now >= e.record_at(id as int).terms->TimeBoxed_expires_at ==> take_err(
            e,
            id,
            taker,
            treq,
            now,
        ) == Some(EscrowError::EscrowExpired),
        now < e.record_at(id as int).terms->TimeBoxed_expires_at ==> refund_err(e, id, rreq, now)
            == Some(EscrowError::EscrowNotExpired),
{
}

/// Law: a refund of an open partial fill pays the maker's destination
/// exactly the remaining amount — not the original total — and always
/// closes the vault; the record's destruction is `refund`'s contract.
pub proof fn lemma_refund_returns_remaining(e: Engine, id: usize, req: RefundRequest, now: i64)
    requires
        e.wf(),
        e.open_record(id as int),
        e.record_at(id as int).terms is PartialFill,
        req is Reclaim,
        crate::engine::refund_accounts_ok(e, e.record_at(id as int), req),
        req->Reclaim_maker_dest as int != e.record_at(id as int).vaults@[0] as int,
        refund_err(e, id, req, now) is None,
    ensures
        ({
            let rec = e.record_at(id as int);
            let vault = rec.vaults@[0];
            let mdest = req->Reclaim_maker_dest;
            let after = crate::engine::refund_apply(e, id, req);
            let rem = rec.terms->PartialFill_remaining_amount;
            &&& after[mdest as int].balance == e.ledger.acct(mdest).balance + rem
            &&& !after[vault as int].open
            &&& after[vault as int].balance == 0
        }),
{
    let rec = e.record_at(id as int);
    assert(Engine::record_ok(rec, e.ledger));
    let s = e.ledger.accounts@;
    let vault = rec.vaults@[0];
    let mdest = req->Reclaim_maker_dest;
    let rem = rec.terms->PartialFill_remaining_amount;
    assert(e.ledger.acct(vault).balance == rem);
    assert(e.ledger.acct_ok(mdest) && e.ledger.acct_ok(vault));
    let s1 = crate::ledger::Ledger::transfer_apply(s, vault, mdest, rem);
    assert(crate::ledger::Ledger::transfer_err(s, vault, mdest, rec.terms->PartialFill_offered_mint, rem, s[vault as int].owner@) is None);
    assert(s1[mdest as int].balance == s[mdest as int].balance + rem);
    assert(s1[vault as int].balance == 0);
    let s2 = crate::ledger::Ledger::close_apply(s1, vault, mdest);
    assert(s2[mdest as int].balance == s[mdest as int].balance + rem);
    assert(!s2[vault as int].open && s2[vault as int].balance == 0);
    assert(crate::engine::refund_apply(e, id, req) == s2);
}

/// The total amount of one asset held across all accounts of the book.
pub open spec fn asset_supply(s: Seq<TokenAccount>, mint: usize) -> int
    decreases s.len(),
{
    if s.len() == 0 {
        0
    } else {
        asset_supply(s.drop_last(), mint) + (if s.last().mint == mint {
            s.last().balance as int
        } else {
            0int
        })
    }
}

/// Replacing one account changes an asset's supply by exactly that
/// account's change of contribution.
pub proof fn lemma_supply_update(s: Seq<TokenAccount>, i: int, a: TokenAccount, mint: usize)
    requires
        0 <= i < s.len(),
    ensures
        asset_supply(s.update(i, a), mint) == asset_supply(s, mint) - (if s[i].mint == mint {
            s[i].balance as int
        } else {
            0int
        }) + (if a.mint == mint {
            a.balance as int
        } else {
            0int
        }),
    decreases s.len(),
{
    if i == s.len() - 1 {
        assert(s.update(i, a).drop_last() =~= s.drop_last());
        assert(s.update(i, a).last() == a);
    } else {
        lemma_supply_update(s.drop_last(), i, a, mint);
        assert(s.update(i, a).drop_last() =~= s.drop_last().update(i, a));
        assert(s.update(i, a).last() == s.last());
    }
}

/// Law: a transfer between two accounts of one asset neither creates nor
/// destroys any asset — every settlement leg of the protocol is such a
/// transfer, so no sequence of them changes what exists in total.
pub proof fn lemma_transfer_conserves_supply(
    s: Seq<TokenAccount>,
    from: usize,
    to: usize,
    amount: u64,
    mint: usize,
)
    requires
        from < s.len(),
        to < s.len(),
        s[from as int].mint == s[to as int].mint,
        amount <= s[from as int].balance,
        from != to ==> s[to as int].balance + amount <= u64::MAX,
    ensures
        asset_supply(Ledger::transfer_apply(s, from, to, amount), mint) == asset_supply(s, mint),
{
    if from == to {
    } else {
        let s1 = s.update(
            from as int,
            (TokenAccount { balance: (s[from as int].balance - amount) as u64, ..s[from as int] }),
        );
        lemma_supply_update(
            s,
            from as int,
            (TokenAccount { balance: (s[from as int].balance - amount) as u64, ..s[from as int] }),
            mint,
        );
        lemma_supply_update(
            s1,
            to as int,
            (TokenAccount { balance: (s[to as int].balance + amount) as u64, ..s[to as int] }),
            mint,
        );
    }
}

/// Law: closing an account into a destination of the same asset moves its
/// whole residue and neither creates nor destroys any asset.
pub proof fn lemma_close_conserves_supply(
    s: Seq<TokenAccount>,
    account: usize,
    destination: usize,
    mint: usize,
)
    requires
        account < s.len(),
        destination < s.len(),
        account != destination,
        s[account as int].mint == s[destination as int].mint,
        s[destination as int].balance + s[account as int].balance <= u64::MAX,
    ensures
        asset_supply(Ledger::close_apply(s, account, destination), mint) == asset_supply(s, mint),
{
    let s1 = s.update(
        destination as int,
        (TokenAccount {
            balance: (s[destination as int].balance + s[account as int].balance) as u64,
            ..s[destination as int]
        }),
    );
    lemma_supply_update(
        s,
        destination as int,
        (TokenAccount {
            balance: (s[destination as int].balance + s[account as int].balance) as u64,
            ..s[destination as int]
        }),
        mint,
    );
    lemma_supply_update(
        s1,
        account as int,
        (TokenAccount { balance: 0u64, open: false, ..s[account as int] }),
        mint,
    );
}

} // verus!
