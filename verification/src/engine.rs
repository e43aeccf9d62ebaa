//! The escrow lifecycle manager.
//!
//! Owns the escrow records and the custodian's book, and drives the three
//! public operations — `make`, `take`, `refund` — each of which either
//! completes fully or returns an error with no state change. Staged
//! transfers run on a scratch copy of the book and are committed only once
//! every leg has succeeded, so a failing leg can never leave a partial
//! settlement behind.
//!
//! Handles a caller supplies stand for host-validated party accounts: the
//! host's account model guarantees they exist, are open, are not custody
//! vaults, and (where a constraint names an owner) belong to the stated
//! party. In that model a party holds one account per asset, and a deal
//! names pairwise-distinct assets on each side, so the party accounts a
//! single call names are pairwise distinct; a deal whose legs would reuse
//! one account is outside the model. Those guarantees appear here as
//! preconditions; everything the protocol itself must check is an explicit
//! branch with a typed error.
//!
//! Resolving a record id to a live record is likewise the host's account
//! resolution: a record destroyed by a take or refund no longer resolves,
//! so a later call against it is rejected by the host before the engine
//! runs — deterministically, and without touching any balance. That
//! rejection appears here as the open-record precondition of `take` and
//! `refund`; `is_open` decides it, and the `None` tombstone a destroyed
//! record leaves behind keeps ids stable and the check meaningful.

use vstd::prelude::*;

use crate::authority;
use crate::authority::Authority;
use crate::errors::EscrowError;
use crate::ledger::{Ledger, TokenAccount};
use crate::record::{
    expected_mint_of, terms_wf, vault_count, vault_mint, Escrow, MakeTerms, RefundRequest,
    TakeRequest, Terms, TokenData, MAX_BUNDLE_LEN,
};

verus! {

/// The lifecycle manager: every escrow record ever created (closed ones
/// leave a `None` tombstone so ids stay stable) together with the
/// custodian's book.
pub struct Engine {
    /// The custodian's book of assets and accounts.
    pub ledger: Ledger,
    /// All records, addressed by the id `make` returned; `None` once
    /// closed.
    pub records: Vec<Option<Escrow>>,
}

/// Two handle lists share no element.
pub open spec fn vaults_disjoint(a: Seq<usize>, b: Seq<usize>) -> bool {
    forall|k1: int, k2: int|
        0 <= k1 < a.len() && 0 <= k2 < b.len() ==> #[trigger] a[k1] != #[trigger] b[k2]
}

impl Engine {
    /// Record id `i` exists and is still open.
    pub open spec fn open_record(self, i: int) -> bool {
        0 <= i < self.records@.len() && self.records@[i] is Some
    }

    /// The record behind id `i`.
    pub open spec fn record_at(self, i: int) -> Escrow {
        self.records@[i]->Some_0
    }

    /// `h` is a custody vault of some open record.
    pub open spec fn is_open_vault(self, h: usize) -> bool {
        exists|i: int| #![auto] self.open_record(i) && self.record_at(i).vaults@.contains(h)
    }

    /// `h` stands for a host-validated party account: open, and not a
    /// custody vault of any open record.
    pub open spec fn party_account(self, h: usize) -> bool {
        self.ledger.acct_ok(h) && !self.is_open_vault(h)
    }

    /// What an open record guarantees about itself and its vaults: terms
    /// consistent, one vault per offered asset, every vault open, of the
    /// declared asset, under one owner that the record's stored
    /// discriminant re-derives to (so authorization is owed to succeed),
    /// pairwise distinct, and holding exactly what the record still owes
    /// (the remaining amount for a partial fill, the declared amount per
    /// bundle entry).
    pub open spec fn record_ok(rec: Escrow, l: Ledger) -> bool {
        &&& terms_wf(rec.terms)
        &&& rec.vaults@.len() == vault_count(rec.terms)
        &&& authority::authority_at(rec.maker@, rec.seed, rec.bump) == Some(
            l.acct(rec.vaults@[0]).owner@,
        )
        &&& forall|k: int|
            0 <= k < rec.vaults@.len() ==> l.acct_ok(#[trigger] rec.vaults@[k])
        &&& forall|k: int|
            0 <= k < rec.vaults@.len() ==> l.acct(#[trigger] rec.vaults@[k]).mint == vault_mint(
                rec.terms,
                k,
            )
        &&& forall|k: int|
            0 <= k < rec.vaults@.len() ==> l.acct(#[trigger] rec.vaults@[k]).owner == l.acct(
                rec.vaults@[0],
            ).owner
        &&& forall|k1: int, k2: int|
            0 <= k1 < k2 < rec.vaults@.len() ==> rec.vaults@[k1] != rec.vaults@[k2]
        &&& match rec.terms {
            Terms::PartialFill { remaining_amount, .. } => l.acct(rec.vaults@[0]).balance
                == remaining_amount,
            Terms::MultiAsset { offered, .. } => forall|k: int|
                0 <= k < offered@.len() ==> l.acct(rec.vaults@[k]).balance == (
                #[trigger] offered@[k]).amount,
            _ => true,
        }
    }

    /// The manager's invariant: a consistent book, every open record
    /// internally consistent against it, and no vault shared between two
    /// open records.
    pub open spec fn wf(self) -> bool {
        &&& self.ledger.wf()
        &&& forall|i: int|
            #[trigger] self.open_record(i) ==> Self::record_ok(self.record_at(i), self.ledger)
        &&& forall|i: int, j: int|
            self.open_record(i) && self.open_record(j) && i != j ==> vaults_disjoint(
                self.record_at(i).vaults@,
                self.record_at(j).vaults@,
            )
    }

    /// A fresh manager over an empty book.
    pub fn new() -> (e: Engine)
        ensures
            e.wf(),
            e.records@.len() == 0,
            e.ledger.mints@.len() == 0,
            e.ledger.accounts@.len() == 0,
    {
        Engine { ledger: Ledger::new(), records: Vec::new() }
    }

    /// Whether `id` still resolves to a live record: what the host's
    /// account resolution decides before admitting a take or refund.
    pub fn is_open(&self, id: usize) -> (r: bool)
        ensures
            r == self.open_record(id as int),
    {
        id < self.records.len() && self.records[id].is_some()
    }
}

/// The deposit legs a creation request implies: one (asset, amount) entry
/// per custody vault to fill.
pub open spec fn make_offered(terms: MakeTerms) -> Seq<TokenData> {
    match terms {
        MakeTerms::FullFill { offered_mint, deposit, .. } => seq![
            TokenData { mint: offered_mint, amount: deposit },
        ],
        MakeTerms::PartialFill { offered_mint, deposit, .. } => seq![
            TokenData { mint: offered_mint, amount: deposit },
        ],
        MakeTerms::MultiAsset { offered, .. } => offered@,
        MakeTerms::TimeBoxed { offered_mint, deposit, .. } => seq![
            TokenData { mint: offered_mint, amount: deposit },
        ],
    }
}

/// The first reason the creation terms themselves are rejected: a zero
/// deposit, or a bundle that is empty or over the bound.
pub open spec fn make_terms_err(terms: MakeTerms) -> Option<EscrowError> {
    match terms {
        MakeTerms::FullFill { deposit, .. } => if deposit == 0 {
            Some(EscrowError::InvalidAmount)
        } else {
            None
        },
        MakeTerms::PartialFill { deposit, .. } => if deposit == 0 {
            Some(EscrowError::InvalidAmount)
        } else {
            None
        },
        MakeTerms::MultiAsset { offered, expected } => if !(1 <= offered@.len()
            <= MAX_BUNDLE_LEN && 1 <= expected@.len() <= MAX_BUNDLE_LEN) {
            Some(EscrowError::BundleLengthMismatch)
        } else if exists|k: int| 0 <= k < offered@.len() && (#[trigger] offered@[k]).amount == 0 {
            Some(EscrowError::InvalidAmount)
        } else {
            None
        },
        MakeTerms::TimeBoxed { deposit, .. } => if deposit == 0 {
            Some(EscrowError::InvalidAmount)
        } else {
            None
        },
    }
}

/// The first reason some deposit leg fails, scanning entries in order:
/// an unregistered asset, a source of the wrong asset, a source the maker
/// does not own, or a source balance below the entry's amount. Sources are
/// pairwise distinct, so each leg's conditions read the original book.
pub open spec fn deposit_err(
    s: Seq<TokenAccount>,
    ml: int,
    offered: Seq<TokenData>,
    sources: Seq<usize>,
    maker: Seq<u8>,
    k: int,
) -> Option<EscrowError>
    decreases offered.len() - k,
{
    if k < 0 || k >= offered.len() {
        None
    } else if offered[k].mint >= ml {
        Some(EscrowError::AssetMismatch)
    } else if s[sources[k] as int].mint != offered[k].mint {
        Some(EscrowError::AssetMismatch)
    } else if s[sources[k] as int].owner@ != maker {
        Some(EscrowError::UnauthorizedAuthority)
    } else if s[sources[k] as int].balance < offered[k].amount {
        Some(EscrowError::InsufficientCustodyBalance)
    } else {
        deposit_err(s, ml, offered, sources, maker, k + 1)
    }
}

/// Whether computing the deadline `now + duration` leaves the clock's
/// range.
pub open spec fn deadline_overflows(now: i64, duration: i64) -> bool {
    now + duration > i64::MAX || now + duration < i64::MIN
}

/// The first reason a creation request fails: rejected terms, a source
/// list of the wrong length, a deadline out of range, no derivable custody
/// address, or a failing deposit leg.
pub open spec fn make_err(
    s: Seq<TokenAccount>,
    ml: int,
    seed: u64,
    maker: [u8; 32],
    terms: MakeTerms,
    sources: Seq<usize>,
    now: i64,
) -> Option<EscrowError> {
    if make_terms_err(terms) is Some {
        make_terms_err(terms)
    } else if terms matches MakeTerms::TimeBoxed { duration, .. } && deadline_overflows(
        now,
        duration,
    ) {
        Some(EscrowError::ArithmeticOverflow)
    } else if sources.len() != make_offered(terms).len() {
        Some(EscrowError::BundleLengthMismatch)
    } else if authority::derived_authority(maker@, seed) is None {
        Some(EscrowError::UnauthorizedAuthority)
    } else {
        deposit_err(s, ml, make_offered(terms), sources, maker@, 0)
    }
}

/// The stored terms a creation request gives rise to.
pub open spec fn made_terms(terms: MakeTerms, now: i64) -> Terms {
    match terms {
        MakeTerms::FullFill { offered_mint, expected_mint, deposit, receive } => Terms::FullFill {
            offered_mint,
            expected_mint,
            receive,
        },
        MakeTerms::PartialFill {
            offered_mint,
            expected_mint,
            deposit,
            receive_per_unit,
        } => Terms::PartialFill {
            offered_mint,
            expected_mint,
            total_amount: deposit,
            remaining_amount: deposit,
            receive_per_unit,
        },
        MakeTerms::MultiAsset { offered, expected } => Terms::MultiAsset { offered, expected },
        MakeTerms::TimeBoxed {
            offered_mint,
            expected_mint,
            deposit,
            receive,
            duration,
        } => Terms::TimeBoxed {
            offered_mint,
            expected_mint,
            receive,
            expires_at: (now + duration) as i64,
        },
    }
}

impl Engine {
    /// Copies the custodian's book, so staged transfers can be discarded if
    /// any leg fails.
    fn snapshot_ledger(&self) -> (r: Ledger)
        ensures
            r.mints@ == self.ledger.mints@,
            r.accounts@ == self.ledger.accounts@,
    {
        let mints = self.ledger.mints.clone();
        let accounts = self.ledger.accounts.clone();
        proof {
            assert(mints@ =~= self.ledger.mints@);
            assert(accounts@ =~= self.ledger.accounts@);
        }
        Ledger { mints, accounts }
    }

    /// Creates an escrow: validates the terms, derives the custody
    /// authority, creates one vault per offered entry and moves the
    /// maker's deposit into it, then persists the record open. Returns the
    /// record id. On any failure nothing is created and nothing moves.
    ///
    /// The sources are the maker's own per-asset accounts, one per offered
    /// entry; the host's account model makes them pairwise distinct (see
    /// the module doc), which the precondition records.
    #[verifier::rlimit(100)]
    #[verifier::loop_isolation(false)]
    pub fn make(
        &mut self,
        seed: u64,
        maker: [u8; 32],
        terms: MakeTerms,
        sources: &Vec<usize>,
        now: i64,
    ) -> (r: Result<usize, EscrowError>)
        requires
            old(self).wf(),
            forall|k: int|
                0 <= k < sources@.len() ==> old(self).party_account(#[trigger] sources@[k])
                    && old(self).ledger.acct(sources@[k]).owner == maker,
            forall|k1: int, k2: int|
                0 <= k1 < k2 < sources@.len() ==> sources@[k1] != sources@[k2],
        ensures
            final(self).wf(),
            r is Err <==> make_err(
                old(self).ledger.accounts@,
                old(self).ledger.mints@.len() as int,
                seed,
                maker,
                terms,
                sources@,
                now,
            ) is Some,
            r is Err ==> Some(r->Err_0) == make_err(
                old(self).ledger.accounts@,
                old(self).ledger.mints@.len() as int,
                seed,
                maker,
                terms,
                sources@,
                now,
            ) && *final(self) == *old(self),
            r is Ok ==> {
                let id = r->Ok_0;
                let rec = final(self).record_at(id as int);
                let n = make_offered(terms).len() as int;
                let old_len = old(self).ledger.accounts@.len() as int;
                &&& id == old(self).records@.len()
                &&& final(self).records@.len() == old(self).records@.len() + 1
                &&& forall|i: int|
                    0 <= i < old(self).records@.len() ==> final(self).records@[i] == old(self).records@[i]
                &&& final(self).open_record(id as int)
                &&& rec.seed == seed
                &&& rec.maker == maker
                &&& rec.terms == made_terms(terms, now)
                &&& rec.vaults@.len() == n
                &&& forall|k: int| 0 <= k < n ==> rec.vaults@[k] == old_len + k
                &&& authority::derived_authority(maker@, seed) == Some(
                    (final(self).ledger.acct(rec.vaults@[0]).owner@, rec.bump),
                )
                &&& authority::authority_at(maker@, seed, rec.bump) == Some(
                    final(self).ledger.acct(rec.vaults@[0]).owner@,
                )
                &&& final(self).ledger.mints@ == old(self).ledger.mints@
                &&& final(self).ledger.accounts@.len() == old_len + n
                &&& forall|h: int|
                    0 <= h < old_len && !sources@.contains(h as usize) ==> final(self).ledger.accounts@[h] == old(self).ledger.accounts@[h]
                &&& forall|k: int|
                    0 <= k < n ==> final(self).ledger.acct(#[trigger] sources@[k]) == (TokenAccount {
                        balance: (old(self).ledger.acct(sources@[k]).balance - make_offered(
                            terms,
                        )[k].amount) as u64,
                        ..old(self).ledger.acct(sources@[k])
                    })
                &&& forall|k: int|
                    0 <= k < n ==> {
                        let v = final(self).ledger.acct(#[trigger] rec.vaults@[k]);
                        &&& v.mint == make_offered(terms)[k].mint
                        &&& v.balance == make_offered(terms)[k].amount
                        &&& v.open
                        &&& v.owner == final(self).ledger.acct(rec.vaults@[0]).owner
                    }
            },
    {
        let ghost s0 = self.ledger.accounts@;
        let ghost ml = self.ledger.mints@.len() as int;
        let ghost gt = terms;
        // Validate the terms, compute the deadline for the time-boxed
        // shape, and fix the stored terms and the deposit legs.
        let (offered_vec, stored): (Vec<TokenData>, Terms) = match terms {
            MakeTerms::FullFill { offered_mint, expected_mint, deposit, receive } => {
                if deposit == 0 {
                    return Err(EscrowError::InvalidAmount);
                }
                (
                    vec![TokenData { mint: offered_mint, amount: deposit }],
                    Terms::FullFill { offered_mint, expected_mint, receive },
                )
            },
            MakeTerms::PartialFill { offered_mint, expected_mint, deposit, receive_per_unit } => {
                if deposit == 0 {
                    return Err(EscrowError::InvalidAmount);
                }
                (
                    vec![TokenData { mint: offered_mint, amount: deposit }],
                    Terms::PartialFill {
                        offered_mint,
                        expected_mint,
                        total_amount: deposit,
                        remaining_amount: deposit,
                        receive_per_unit,
                    },
                )
            },
            MakeTerms::MultiAsset { offered, expected } => {
                if offered.len() < 1 || offered.len() > MAX_BUNDLE_LEN || expected.len() < 1
                    || expected.len() > MAX_BUNDLE_LEN {
                    return Err(EscrowError::BundleLengthMismatch);
                }
                let mut k: usize = 0;
                while k < offered.len()
                    invariant
                        *self == *old(self),
                        0 <= k <= offered@.len(),
                        forall|j: int| 0 <= j < k ==> (#[trigger] offered@[j]).amount > 0,
                    decreases offered@.len() - k,
                {
                    if offered[k].amount == 0 {
                        proof {
                            assert((#[trigger] offered@[k as int]).amount == 0);
                        }
                        return Err(EscrowError::InvalidAmount);
                    }
                    k += 1;
                }
                let mut copy: Vec<TokenData> = Vec::new();
                let mut j: usize = 0;
                while j < offered.len()
                    invariant
                        *self == *old(self),
                        0 <= j <= offered@.len(),
                        copy@.len() == j,
                        forall|i: int| 0 <= i < j ==> copy@[i] == offered@[i],
                    decreases offered@.len() - j,
                {
                    copy.push(offered[j]);
                    j += 1;
                }
                proof {
                    assert(copy@ =~= offered@);
                }
                (copy, Terms::MultiAsset { offered, expected })
            },
            MakeTerms::TimeBoxed { offered_mint, expected_mint, deposit, receive, duration } => {
                if deposit == 0 {
                    return Err(EscrowError::InvalidAmount);
                }
                let expires_at = match now.checked_add(duration) {
                    Some(t) => t,
                    None => {
                        return Err(EscrowError::ArithmeticOverflow);
                    },
                };
                (
                    vec![TokenData { mint: offered_mint, amount: deposit }],
                    Terms::TimeBoxed { offered_mint, expected_mint, receive, expires_at },
                )
            },
        };
        proof {
            assert(make_terms_err(gt) is None);
            assert(offered_vec@ =~= make_offered(gt));
            assert(stored == made_terms(gt, now));
        }
        // One funding source per vault to fill.
        if sources.len() != offered_vec.len() {
            return Err(EscrowError::BundleLengthMismatch);
        }
        // The custody authority this record's vaults will live under.
        let (vault_owner, bump) = match authority::derive(&maker, seed) {
            Ok(found) => found,
            Err(e) => {
                return Err(e);
            },
        };
        // Stage the vaults and deposits on a scratch book.
        let mut scratch = self.snapshot_ledger();
        let mut vaults: Vec<usize> = Vec::new();
        let ghost old_len = s0.len() as int;
        let mut k: usize = 0;
        while k < offered_vec.len()
            invariant
                *self == *old(self),
                old(self).wf(),
                0 <= k <= offered_vec@.len(),
                offered_vec@ == make_offered(gt),
                sources@.len() == offered_vec@.len(),
                scratch.wf(),
                scratch.mints@ == old(self).ledger.mints@,
                ml == scratch.mints@.len() as int,
                old_len == s0.len() as int,
                scratch.accounts@.len() == old_len + k,
                vaults@.len() == k,
                forall|j: int| 0 <= j < k ==> vaults@[j] == old_len + j,
                forall|k1: int, k2: int|
                    0 <= k1 < k2 < sources@.len() ==> sources@[k1] != sources@[k2],
                forall|j: int|
                    0 <= j < sources@.len() ==> (#[trigger] sources@[j]) < old_len && s0[
                        sources@[j] as int
                    ].open,
                forall|h: int|
                    0 <= h < old_len && !sources@.subrange(0, k as int).contains(h as usize)
                        ==> scratch.accounts@[h] == s0[h],
                forall|j: int|
                    0 <= j < k ==> scratch.accounts@[sources@[j] as int] == (TokenAccount {
                        balance: (s0[sources@[j] as int].balance - make_offered(gt)[j].amount)
                            as u64,
                        ..s0[sources@[j] as int]
                    }),
                forall|j: int|
                    0 <= j < k ==> {
                        let v = #[trigger] scratch.accounts@[old_len + j];
                        &&& v.mint == make_offered(gt)[j].mint
                        &&& v.balance == make_offered(gt)[j].amount
                        &&& v.open
                        &&& v.owner == vault_owner
                    },
                deposit_err(s0, ml, make_offered(gt), sources@, maker@, 0) == deposit_err(
                    s0,
                    ml,
                    make_offered(gt),
                    sources@,
                    maker@,
                    k as int,
                ),
            decreases offered_vec@.len() - k,
        {
            let entry = offered_vec[k];
            let source = sources[k];
            proof {
                assert(scratch.accounts@[source as int] == s0[source as int] || exists|j: int|
                    0 <= j < k && sources@[j] == source);
                assert(forall|j: int|
                    0 <= j < k ==> sources@[j] != source);
                assert(!sources@.subrange(0, k as int).contains(source)) by {
                    if sources@.subrange(0, k as int).contains(source) {
                        let j = choose|j: int|
                            0 <= j < k && #[trigger] sources@.subrange(0, k as int)[j] == source;
                        assert(sources@[j] == source);
                    }
                }
                assert(scratch.accounts@[source as int] == s0[source as int]);
            }
            let vh = match scratch.open_account(entry.mint, vault_owner) {
                Ok(h) => h,
                Err(e) => {
                    proof {
                        assert(entry.mint >= ml);
                        assert(deposit_err(s0, ml, make_offered(gt), sources@, maker@, k as int)
                            == Some(EscrowError::AssetMismatch));
                    }
                    return Err(EscrowError::AssetMismatch);
                },
            };
            match scratch.transfer(
                source,
                vh,
                entry.mint,
                entry.amount,
                &Authority { address: maker },
            ) {
                Ok(_) => (),
                Err(e) => {
                    proof {
                        assert(deposit_err(s0, ml, make_offered(gt), sources@, maker@, k as int)
                            == Some(e));
                    }
                    return Err(e);
                },
            }
            vaults.push(vh);
            k += 1;
            proof {
                assert forall|h: int|
                    0 <= h < old_len && !sources@.subrange(0, k as int).contains(
                        h as usize,
                    ) implies scratch.accounts@[h] == s0[h] by {
                    assert(!sources@.subrange(0, k - 1).contains(h as usize)) by {
                        if sources@.subrange(0, k - 1).contains(h as usize) {
                            let j = choose|j: int|
                                0 <= j < k - 1 && #[trigger] sources@.subrange(0, k - 1)[j] == h
                                    as usize;
                            assert(sources@.subrange(0, k as int)[j] == h as usize);
                        }
                    }
                    assert(h != source as int) by {
                        if h == source as int {
                            assert(sources@.subrange(0, k as int)[k - 1] == h as usize);
                        }
                    }
                }
            }
        }
        proof {
            assert(deposit_err(s0, ml, make_offered(gt), sources@, maker@, k as int) is None);
            assert(make_err(s0, ml, seed, maker, gt, sources@, now) is None);
        }
        // Every leg succeeded: commit the book and persist the record.
        self.ledger = scratch;
        let id = self.records.len();
        let record = Escrow { seed, maker, terms: stored, bump, vaults };
        self.records.push(Some(record));
        proof {
            assert(final(self).open_record(id as int));
            assert(final(self).record_at(id as int).terms == made_terms(gt, now));
            assert forall|i: int| #[trigger] final(self).open_record(i) implies Engine::record_ok(
                final(self).record_at(i),
                final(self).ledger,
            ) by {
                if i == id {
                    assert(terms_wf(stored));
                    assert(Engine::record_ok(final(self).record_at(i), final(self).ledger));
                } else {
                    assert(old(self).open_record(i));
                    let rec = old(self).record_at(i);
                    assert(Engine::record_ok(rec, old(self).ledger));
                    assert forall|kk: int| 0 <= kk < rec.vaults@.len() implies final(self).ledger.accounts@[#[trigger] rec.vaults@[kk] as int] == old(self).ledger.accounts@[rec.vaults@[kk] as int] by {
                        let h = rec.vaults@[kk];
                        assert(old(self).ledger.acct_ok(h));
                        if sources@.contains(h) {
                            let j = choose|j: int| 0 <= j < sources@.len() && sources@[j] == h;
                            assert(old(self).is_open_vault(sources@[j]));
                            assert(false);
                        }
                        assert(!sources@.subrange(0, sources@.len() as int).contains(h));
                        assert(sources@.subrange(0, sources@.len() as int) =~= sources@);
                    }
                    assert(Engine::record_ok(rec, final(self).ledger));
                }
            }
            assert forall|i: int, j: int|
                final(self).open_record(i) && final(self).open_record(j) && i != j
                implies vaults_disjoint(
                final(self).record_at(i).vaults@,
                final(self).record_at(j).vaults@,
            ) by {
                if i != id && j != id {
                    assert(old(self).open_record(i) && old(self).open_record(j));
                } else if j == id {
                    assert(old(self).open_record(i));
                    let rec = old(self).record_at(i);
                    assert(Engine::record_ok(rec, old(self).ledger));
                    assert forall|k1: int, k2: int|
                        0 <= k1 < rec.vaults@.len() && 0 <= k2 < final(self).record_at(
                            j,
                        ).vaults@.len() implies #[trigger] rec.vaults@[k1] != #[trigger] final(self).record_at(j).vaults@[k2] by {
                        assert(old(self).ledger.acct_ok(rec.vaults@[k1]));
                        assert(rec.vaults@[k1] < old_len);
                        assert(final(self).record_at(j).vaults@[k2] == old_len + k2);
                    }
                } else {
                    assert(old(self).open_record(j));
                    let rec = old(self).record_at(j);
                    assert(Engine::record_ok(rec, old(self).ledger));
                    assert forall|k1: int, k2: int|
                        0 <= k1 < final(self).record_at(i).vaults@.len() && 0 <= k2
                            < rec.vaults@.len() implies #[trigger] final(self).record_at(
                        i,
                    ).vaults@[k1] != (#[trigger] rec.vaults@[k2]) by {
                        assert(old(self).ledger.acct_ok(rec.vaults@[k2]));
                        assert(rec.vaults@[k2] < old_len);
                        assert(final(self).record_at(i).vaults@[k1] == old_len + k1);
                    }
                }
            }
            assert(sources@.subrange(0, sources@.len() as int) =~= sources@);
        }
        Ok(id)
    }

    /// Settles an open escrow against the taker's accounts: the taker pays
    /// the expected asset(s) to the maker, custody releases the offered
    /// asset(s) to the taker, and the record closes — except for a partial
    /// fill that still has balance left, which stays open with its
    /// remaining amount reduced. The expected-asset payment always precedes
    /// the release from custody. On any failure nothing moves and the
    /// record is untouched.
    ///
    /// The open-record and party-account preconditions are the host's
    /// account validation (see the module doc): a call against a record
    /// already destroyed by a take or refund never reaches the engine, so
    /// re-invocation can never double-spend what custody held.
    #[verifier::rlimit(100)]
    #[verifier::loop_isolation(false)]
    pub fn take(&mut self, id: usize, taker: [u8; 32], req: &TakeRequest, now: i64) -> (r: Result<
        (),
        EscrowError,
    >)
        requires
            old(self).wf(),
            old(self).open_record(id as int),
            crate::record::take_request_matches(old(self).record_at(id as int).terms, *req),
            take_accounts_ok(*old(self), old(self).record_at(id as int), taker, *req),
        ensures
            final(self).wf(),
            r is Err <==> take_err(*old(self), id, taker, *req, now) is Some,
            r is Err ==> Some(r->Err_0) == take_err(*old(self), id, taker, *req, now) && *final(self) == *old(self),
            r is Ok ==> {
                let orec = old(self).record_at(id as int);
                &&& final(self).ledger.mints@ == old(self).ledger.mints@
                &&& final(self).ledger.accounts@ == take_apply(*old(self), id, taker, *req)
                &&& final(self).records@.len() == old(self).records@.len()
                &&& forall|i: int|
                    0 <= i < final(self).records@.len() && i != id ==> final(self).records@[i]
                        == old(self).records@[i]
                &&& if orec.terms is PartialFill && orec.terms->PartialFill_remaining_amount
                    > req->SettlePartial_amount_to_take {
                    let nrec = final(self).record_at(id as int);
                    &&& final(self).open_record(id as int)
                    &&& nrec.seed == orec.seed
                    &&& nrec.maker == orec.maker
                    &&& nrec.bump == orec.bump
                    &&& nrec.vaults@ == orec.vaults@
                    &&& nrec.terms == (Terms::PartialFill {
                        offered_mint: orec.terms->PartialFill_offered_mint,
                        expected_mint: orec.terms->PartialFill_expected_mint,
                        total_amount: orec.terms->PartialFill_total_amount,
                        remaining_amount: (orec.terms->PartialFill_remaining_amount
                            - req->SettlePartial_amount_to_take) as u64,
                        receive_per_unit: orec.terms->PartialFill_receive_per_unit,
                    })
                } else {
                    final(self).records@[id as int] is None
                }
            },
    {
        let ghost g0 = *old(self);
        let ghost grec = g0.record_at(id as int);
        let ghost s = g0.ledger.accounts@;
        proof {
            assert(g0.open_record(id as int));
            assert(Engine::record_ok(grec, g0.ledger));
        }
        match &self.records[id] {
            None => {
                proof {
                    assert(false);
                }
                Err(EscrowError::InvalidAmount)
            },
            Some(rec) => {
                let seed = rec.seed;
                let maker_id = rec.maker;
                let bump = rec.bump;
                let vault = rec.vaults[0];
                match &rec.terms {
                    Terms::FullFill { offered_mint, expected_mint, receive } => {
                        let (om, em, receive) = (*offered_mint, *expected_mint, *receive);
                        let (pay, mdest, rdest) = match req {
                            TakeRequest::Settle { pay_source, maker_dest, recv_dest } => (
                                *pay_source,
                                *maker_dest,
                                *recv_dest,
                            ),
                            _ => {
                                proof {
                                    assert(false);
                                }
                                return Err(EscrowError::InvalidAmount);
                            },
                        };
                        let vault_acct = self.ledger.accounts[vault];
                        let auth = match authority::authorize(
                            &maker_id,
                            seed,
                            bump,
                            &vault_acct.owner,
                        ) {
                            Ok(a) => a,
                            Err(e) => {
                                return Err(e);
                            },
                        };
                        let vault_bal = vault_acct.balance;
                        let mut scratch = self.snapshot_ledger();
                        match scratch.transfer(
                            pay,
                            mdest,
                            em,
                            receive,
                            &Authority { address: taker },
                        ) {
                            Ok(_) => (),
                            Err(e) => {
                                return Err(e);
                            },
                        }
                        match scratch.transfer(vault, rdest, om, vault_bal, &auth) {
                            Ok(_) => (),
                            Err(e) => {
                                return Err(e);
                            },
                        }
                        match scratch.close_and_reclaim(vault, rdest, &auth) {
                            Ok(_) => (),
                            Err(e) => {
                                return Err(e);
                            },
                        }
                        self.ledger = scratch;
                        self.records[id] = None;
                        proof {
                            take_commit_wf(g0, id, taker, *req, now, *final(self));
                        }
                        Ok(())
                    },
                    Terms::TimeBoxed { offered_mint, expected_mint, receive, expires_at } => {
                        let (om, em, receive, expires_at) = (
                            *offered_mint,
                            *expected_mint,
                            *receive,
                            *expires_at,
                        );
                        let (pay, mdest, rdest) = match req {
                            TakeRequest::Settle { pay_source, maker_dest, recv_dest } => (
                                *pay_source,
                                *maker_dest,
                                *recv_dest,
                            ),
                            _ => {
                                proof {
                                    assert(false);
                                }
                                return Err(EscrowError::InvalidAmount);
                            },
                        };
                        if now >= expires_at {
                            return Err(EscrowError::EscrowExpired);
                        }
                        let vault_acct = self.ledger.accounts[vault];
                        let auth = match authority::authorize(
                            &maker_id,
                            seed,
                            bump,
                            &vault_acct.owner,
                        ) {
                            Ok(a) => a,
                            Err(e) => {
                                return Err(e);
                            },
                        };
                        let vault_bal = vault_acct.balance;
                        let mut scratch = self.snapshot_ledger();
                        match scratch.transfer(
                            pay,
                            mdest,
                            em,
                            receive,
                            &Authority { address: taker },
                        ) {
                            Ok(_) => (),
                            Err(e) => {
                                return Err(e);
                            },
                        }
                        match scratch.transfer(vault, rdest, om, vault_bal, &auth) {
                            Ok(_) => (),
                            Err(e) => {
                                return Err(e);
                            },
                        }
                        match scratch.close_and_reclaim(vault, rdest, &auth) {
                            Ok(_) => (),
                            Err(e) => {
                                return Err(e);
                            },
                        }
                        self.ledger = scratch;
                        self.records[id] = None;
                        proof {
                            take_commit_wf(g0, id, taker, *req, now, *final(self));
                        }
                        Ok(())
                    },
                    Terms::PartialFill {
                        offered_mint,
                        expected_mint,
                        total_amount,
                        remaining_amount,
                        receive_per_unit,
                    } => {
                        let (om, em, total, remaining, rpu) = (
                            *offered_mint,
                            *expected_mint,
                            *total_amount,
                            *remaining_amount,
                            *receive_per_unit,
                        );
                        let (amt, pay, mdest, rdest) = match req {
                            TakeRequest::SettlePartial {
                                amount_to_take,
                                pay_source,
                                maker_dest,
                                recv_dest,
                            } => (*amount_to_take, *pay_source, *maker_dest, *recv_dest),
                            _ => {
                                proof {
                                    assert(false);
                                }
                                return Err(EscrowError::InvalidAmount);
                            },
                        };
                        if amt == 0 {
                            return Err(EscrowError::InvalidAmount);
                        }
                        if amt > remaining {
                            return Err(EscrowError::ExceedsRemainingAmount);
                        }
                        let pay_amt = match rpu.checked_mul(amt) {
                            Some(p) => p,
                            None => {
                                return Err(EscrowError::ArithmeticOverflow);
                            },
                        };
                        let vault_acct = self.ledger.accounts[vault];
                        let auth = match authority::authorize(
                            &maker_id,
                            seed,
                            bump,
                            &vault_acct.owner,
                        ) {
                            Ok(a) => a,
                            Err(e) => {
                                return Err(e);
                            },
                        };
                        let mut scratch = self.snapshot_ledger();
                        match scratch.transfer(
                            pay,
                            mdest,
                            em,
                            pay_amt,
                            &Authority { address: taker },
                        ) {
                            Ok(_) => (),
                            Err(e) => {
                                return Err(e);
                            },
                        }
                        match scratch.transfer(vault, rdest, om, amt, &auth) {
                            Ok(_) => (),
                            Err(e) => {
                                return Err(e);
                            },
                        }
                        if remaining == amt {
                            match scratch.close_and_reclaim(vault, rdest, &auth) {
                                Ok(_) => (),
                                Err(e) => {
                                    return Err(e);
                                },
                            }
                            self.ledger = scratch;
                            self.records[id] = None;
                        } else {
                            self.ledger = scratch;
                            self.records[id] = Some(
                                Escrow {
                                    seed,
                                    maker: maker_id,
                                    terms: Terms::PartialFill {
                                        offered_mint: om,
                                        expected_mint: em,
                                        total_amount: total,
                                        remaining_amount: remaining - amt,
                                        receive_per_unit: rpu,
                                    },
                                    bump,
                                    vaults: vec![vault],
                                },
                            );
                            proof {
                                assert(final(self).record_at(id as int).vaults@ =~= grec.vaults@);
                            }
                        }
                        proof {
                            take_commit_wf(g0, id, taker, *req, now, *final(self));
                        }
                        Ok(())
                    },
                    Terms::MultiAsset { offered, expected } => {
                        let handles = match req {
                            TakeRequest::SettleBundle { handles } => handles,
                            _ => {
                                proof {
                                    assert(false);
                                }
                                return Err(EscrowError::InvalidAmount);
                            },
                        };
                        let ec = expected.len();
                        let oc = offered.len();
                        if handles.len() != 3 * (ec + oc) {
                            return Err(EscrowError::BundleLengthMismatch);
                        }
                        let vault_acct = self.ledger.accounts[vault];
                        let auth = match authority::authorize(
                            &maker_id,
                            seed,
                            bump,
                            &vault_acct.owner,
                        ) {
                            Ok(a) => a,
                            Err(e) => {
                                return Err(e);
                            },
                        };
                        let ghost pda = s[vault as int].owner@;
                        let mut scratch = self.snapshot_ledger();
                        // Expected legs: the taker pays each declared entry
                        // to the listed destination, in lock-step with the
                        // flat list.
                        let mut i: usize = 0;
                        while i < ec
                            invariant
                                0 <= i <= ec,
                                scratch.wf(),
                                scratch.mints@ == g0.ledger.mints@,
                                scratch.accounts@.len() == s.len(),
                                bundle_pay_err(s, expected@, handles@, taker@, 0) == bundle_pay_err(
                                    s,
                                    expected@,
                                    handles@,
                                    taker@,
                                    i as int,
                                ),
                                bundle_pay_apply(s, expected@, handles@, 0) == bundle_pay_apply(
                                    scratch.accounts@,
                                    expected@,
                                    handles@,
                                    i as int,
                                ),
                                forall|h: int|
                                    0 <= h < s.len() && !pay_touched(handles@, i as int, h)
                                        ==> scratch.accounts@[h] == s[h],
                            decreases ec - i,
                        {
                            let mint_h = handles[3 * i];
                            let src = handles[3 * i + 1];
                            let dst = handles[3 * i + 2];
                            let entry = expected[i];
                            if mint_h != entry.mint {
                                return Err(EscrowError::AssetMismatch);
                            }
                            proof {
                                lemma_party_pos(ec as int, i as int);
                                assert(g0.party_account(src) && g0.party_account(dst));
                                assert(!pay_touched(handles@, i as int, src as int)) by {
                                    if pay_touched(handles@, i as int, src as int) {
                                        let j = choose|j: int|
                                            #![trigger handles@[3 * j + 1]]
                                            #![trigger handles@[3 * j + 2]]
                                            0 <= j < i && (handles@[3 * j + 1] as int == src as int
                                                || handles@[3 * j + 2] as int == src as int);
                                        lemma_party_pos(ec as int, j);
                                        assert(false);
                                    }
                                }
                                assert(!pay_touched(handles@, i as int, dst as int)) by {
                                    if pay_touched(handles@, i as int, dst as int) {
                                        let j = choose|j: int|
                                            #![trigger handles@[3 * j + 1]]
                                            #![trigger handles@[3 * j + 2]]
                                            0 <= j < i && (handles@[3 * j + 1] as int == dst as int
                                                || handles@[3 * j + 2] as int == dst as int);
                                        lemma_party_pos(ec as int, j);
                                        assert(false);
                                    }
                                }
                                assert(scratch.accounts@[src as int] == s[src as int]);
                                assert(scratch.accounts@[dst as int] == s[dst as int]);
                            }
                            match scratch.transfer(
                                src,
                                dst,
                                entry.mint,
                                entry.amount,
                                &Authority { address: taker },
                            ) {
                                Ok(_) => (),
                                Err(e) => {
                                    return Err(e);
                                },
                            }
                            i += 1;
                            proof {
                                assert forall|h: int|
                                    0 <= h < s.len() && !pay_touched(handles@, i as int, h) implies
                                    scratch.accounts@[h] == s[h] by {
                                    assert(!pay_touched(handles@, i - 1, h));
                                    assert(h != src as int && h != dst as int);
                                }
                            }
                        }
                        proof {
                            assert(bundle_pay_err(s, expected@, handles@, taker@, 0) is None);
                        }
                        // Offered legs: each custody vault releases its
                        // declared amount to the listed destination and is
                        // closed behind it.
                        let ghost s_mid = scratch.accounts@;
                        let mut k: usize = 0;
                        while k < oc
                            invariant
                                0 <= k <= oc,
                                scratch.wf(),
                                scratch.mints@ == g0.ledger.mints@,
                                scratch.accounts@.len() == s.len(),
                                bundle_release_err(
                                    s,
                                    offered@,
                                    grec.vaults@,
                                    handles@,
                                    3 * ec as int,
                                    pda,
                                    0,
                                ) == bundle_release_err(
                                    s,
                                    offered@,
                                    grec.vaults@,
                                    handles@,
                                    3 * ec as int,
                                    pda,
                                    k as int,
                                ),
                                bundle_release_apply(
                                    s_mid,
                                    offered@,
                                    grec.vaults@,
                                    handles@,
                                    3 * ec as int,
                                    0,
                                ) == bundle_release_apply(
                                    scratch.accounts@,
                                    offered@,
                                    grec.vaults@,
                                    handles@,
                                    3 * ec as int,
                                    k as int,
                                ),
                                forall|h: int|
                                    0 <= h < s.len() && !release_touched(
                                        grec.vaults@,
                                        handles@,
                                        3 * ec as int,
                                        k as int,
                                        h,
                                    ) ==> scratch.accounts@[h] == s_mid[h],
                            decreases oc - k,
                        {
                            let base = 3 * ec;
                            let mint_h = handles[base + 3 * k];
                            let vault_h = handles[base + 3 * k + 1];
                            let dst = handles[base + 3 * k + 2];
                            let entry = offered[k];
                            let rv = rec.vaults[k];
                            if mint_h != entry.mint {
                                return Err(EscrowError::AssetMismatch);
                            }
                            if vault_h != rv {
                                return Err(EscrowError::UnauthorizedAuthority);
                            }
                            proof {
                                lemma_release_party_pos(ec as int, k as int);
                                assert(g0.party_account(dst));
                                assert(grec.vaults@.contains(rv));
                                assert(g0.is_open_vault(rv));
                                assert(!release_touched(
                                    grec.vaults@,
                                    handles@,
                                    3 * ec as int,
                                    k as int,
                                    dst as int,
                                )) by {
                                    if release_touched(
                                        grec.vaults@,
                                        handles@,
                                        3 * ec as int,
                                        k as int,
                                        dst as int,
                                    ) {
                                        let j = choose|j: int|
                                            #![trigger grec.vaults@[j]]
                                            #![trigger dest_slot(handles@, 3 * ec as int, j)]
                                            0 <= j < k && (grec.vaults@[j] as int == dst as int
                                                || dest_slot(handles@, 3 * ec as int, j) as int
                                                == dst as int);
                                        lemma_release_party_pos(ec as int, j);
                                        assert(dest_slot(handles@, 3 * ec as int, j) == handles@[3
                                            * ec as int + 3 * j + 2]);
                                        assert(g0.party_account(handles@[3 * ec as int + 3 * j
                                            + 2]));
                                        assert(false);
                                    }
                                }
                                assert(!pay_touched(handles@, ec as int, dst as int)) by {
                                    if pay_touched(handles@, ec as int, dst as int) {
                                        let j = choose|j: int|
                                            #![trigger handles@[3 * j + 1]]
                                            #![trigger handles@[3 * j + 2]]
                                            0 <= j < ec && (handles@[3 * j + 1] as int == dst as int
                                                || handles@[3 * j + 2] as int == dst as int);
                                        lemma_party_pos(ec as int, j);
                                        assert(false);
                                    }
                                }
                                assert(!release_touched(
                                    grec.vaults@,
                                    handles@,
                                    3 * ec as int,
                                    k as int,
                                    rv as int,
                                )) by {
                                    if release_touched(
                                        grec.vaults@,
                                        handles@,
                                        3 * ec as int,
                                        k as int,
                                        rv as int,
                                    ) {
                                        let j = choose|j: int|
                                            #![trigger grec.vaults@[j]]
                                            #![trigger dest_slot(handles@, 3 * ec as int, j)]
                                            0 <= j < k && (grec.vaults@[j] as int == rv as int
                                                || dest_slot(handles@, 3 * ec as int, j) as int
                                                == rv as int);
                                        if grec.vaults@[j] as int == rv as int {
                                            assert(grec.vaults@[j] != grec.vaults@[k as int]);
                                            assert(false);
                                        } else {
                                            lemma_release_party_pos(ec as int, j);
                                            assert(dest_slot(handles@, 3 * ec as int, j)
                                                == handles@[3 * ec as int + 3 * j + 2]);
                                            assert(g0.party_account(
                                                handles@[3 * ec as int + 3 * j + 2],
                                            ));
                                            assert(false);
                                        }
                                    }
                                }
                                assert(!pay_touched(handles@, ec as int, rv as int)) by {
                                    if pay_touched(handles@, ec as int, rv as int) {
                                        let j = choose|j: int|
                                            #![trigger handles@[3 * j + 1]]
                                            #![trigger handles@[3 * j + 2]]
                                            0 <= j < ec && (handles@[3 * j + 1] as int == rv as int
                                                || handles@[3 * j + 2] as int == rv as int);
                                        lemma_party_pos(ec as int, j);
                                        assert(g0.party_account(rv));
                                        assert(false);
                                    }
                                }
                                assert(scratch.accounts@[rv as int] == s[rv as int]);
                                assert(scratch.accounts@[dst as int] == s[dst as int]);
                                assert(s[rv as int].balance == entry.amount);
                                assert(s[rv as int].owner@ == pda);
                                assert(s[rv as int].mint == entry.mint);
                            }
                            match scratch.transfer(rv, dst, entry.mint, entry.amount, &auth) {
                                Ok(_) => (),
                                Err(e) => {
                                    return Err(e);
                                },
                            }
                            match scratch.close_and_reclaim(rv, dst, &auth) {
                                Ok(_) => (),
                                Err(e) => {
                                    proof {
                                        assert(false);
                                    }
                                    return Err(e);
                                },
                            }
                            k += 1;
                            proof {
                                assert forall|h: int|
                                    0 <= h < s.len() && !release_touched(
                                        grec.vaults@,
                                        handles@,
                                        3 * ec as int,
                                        k as int,
                                        h,
                                    ) implies scratch.accounts@[h] == s_mid[h] by {
                                    assert(!release_touched(
                                        grec.vaults@,
                                        handles@,
                                        3 * ec as int,
                                        k - 1,
                                        h,
                                    ));
                                    assert(dest_slot(handles@, 3 * ec as int, k - 1) == dst);
                                    assert(h != rv as int && h != dst as int);
                                }
                            }
                        }
                        proof {
                            assert(bundle_release_err(
                                s,
                                offered@,
                                grec.vaults@,
                                handles@,
                                3 * ec as int,
                                pda,
                                0,
                            ) is None);
                        }
                        self.ledger = scratch;
                        self.records[id] = None;
                        proof {
                            take_commit_wf(g0, id, taker, *req, now, *final(self));
                        }
                        Ok(())
                    },
                }
            },
        }
    }

    /// Returns an open escrow's residual custody to the maker: every vault
    /// releases what it still owes — the remaining amount for a partial
    /// fill, the full balance otherwise — to the maker's account(s) and is
    /// closed; the record is destroyed. No counter-asset changes hands. A
    /// time-boxed escrow cannot be refunded before its deadline. On any
    /// failure nothing moves and the record is untouched.
    ///
    /// As with `take`, the open-record and destination-account
    /// preconditions are the host's account validation (see the module
    /// doc).
    #[verifier::rlimit(100)]
    #[verifier::loop_isolation(false)]
    pub fn refund(&mut self, id: usize, req: &RefundRequest, now: i64) -> (r: Result<
        (),
        EscrowError,
    >)
        requires
            old(self).wf(),
            old(self).open_record(id as int),
            crate::record::refund_request_matches(old(self).record_at(id as int).terms, *req),
            refund_accounts_ok(*old(self), old(self).record_at(id as int), *req),
        ensures
            final(self).wf(),
            r is Err <==> refund_err(*old(self), id, *req, now) is Some,
            r is Err ==> Some(r->Err_0) == refund_err(*old(self), id, *req, now) && *final(self)
                == *old(self),
            r is Ok ==> {
                &&& final(self).ledger.mints@ == old(self).ledger.mints@
                &&& final(self).ledger.accounts@ == refund_apply(*old(self), id, *req)
                &&& final(self).records@.len() == old(self).records@.len()
                &&& forall|i: int|
                    0 <= i < final(self).records@.len() && i != id ==> final(self).records@[i]
                        == old(self).records@[i]
                &&& final(self).records@[id as int] is None
            },
    {
        let ghost g0 = *old(self);
        let ghost grec = g0.record_at(id as int);
        let ghost s = g0.ledger.accounts@;
        proof {
            assert(g0.open_record(id as int));
            assert(Engine::record_ok(grec, g0.ledger));
        }
        match &self.records[id] {
            None => {
                proof {
                    assert(false);
                }
                Err(EscrowError::InvalidAmount)
            },
            Some(rec) => {
                let seed = rec.seed;
                let maker_id = rec.maker;
                let bump = rec.bump;
                let vault = rec.vaults[0];
                match &rec.terms {
                    Terms::FullFill { offered_mint, .. } => {
                        let om = *offered_mint;
                        let mdest = match req {
                            RefundRequest::Reclaim { maker_dest } => *maker_dest,
                            _ => {
                                proof {
                                    assert(false);
                                }
                                return Err(EscrowError::InvalidAmount);
                            },
                        };
                        let vault_acct = self.ledger.accounts[vault];
                        let auth = match authority::authorize(
                            &maker_id,
                            seed,
                            bump,
                            &vault_acct.owner,
                        ) {
                            Ok(a) => a,
                            Err(e) => {
                                return Err(e);
                            },
                        };
                        let mut scratch = self.snapshot_ledger();
                        match scratch.transfer(vault, mdest, om, vault_acct.balance, &auth) {
                            Ok(_) => (),
                            Err(e) => {
                                return Err(e);
                            },
                        }
                        match scratch.close_and_reclaim(vault, mdest, &auth) {
                            Ok(_) => (),
                            Err(e) => {
                                return Err(e);
                            },
                        }
                        self.ledger = scratch;
                        self.records[id] = None;
                        proof {
                            refund_commit_wf(g0, id, *req, now, *final(self));
                        }
                        Ok(())
                    },
                    Terms::TimeBoxed { offered_mint, expires_at, .. } => {
                        let om = *offered_mint;
                        let expires_at = *expires_at;
                        let mdest = match req {
                            RefundRequest::Reclaim { maker_dest } => *maker_dest,
                            _ => {
                                proof {
                                    assert(false);
                                }
                                return Err(EscrowError::InvalidAmount);
                            },
                        };
                        if now < expires_at {
                            return Err(EscrowError::EscrowNotExpired);
                        }
                        let vault_acct = self.ledger.accounts[vault];
                        let auth = match authority::authorize(
                            &maker_id,
                            seed,
                            bump,
                            &vault_acct.owner,
                        ) {
                            Ok(a) => a,
                            Err(e) => {
                                return Err(e);
                            },
                        };
                        let mut scratch = self.snapshot_ledger();
                        match scratch.transfer(vault, mdest, om, vault_acct.balance, &auth) {
                            Ok(_) => (),
                            Err(e) => {
                                return Err(e);
                            },
                        }
                        match scratch.close_and_reclaim(vault, mdest, &auth) {
                            Ok(_) => (),
                            Err(e) => {
                                return Err(e);
                            },
                        }
                        self.ledger = scratch;
                        self.records[id] = None;
                        proof {
                            refund_commit_wf(g0, id, *req, now, *final(self));
                        }
                        Ok(())
                    },
                    Terms::PartialFill { offered_mint, remaining_amount, .. } => {
                        let om = *offered_mint;
                        let remaining = *remaining_amount;
                        let mdest = match req {
                            RefundRequest::Reclaim { maker_dest } => *maker_dest,
                            _ => {
                                proof {
                                    assert(false);
                                }
                                return Err(EscrowError::InvalidAmount);
                            },
                        };
                        let vault_acct = self.ledger.accounts[vault];
                        let auth = match authority::authorize(
                            &maker_id,
                            seed,
                            bump,
                            &vault_acct.owner,
                        ) {
                            Ok(a) => a,
                            Err(e) => {
                                return Err(e);
                            },
                        };
                        let mut scratch = self.snapshot_ledger();
                        match scratch.transfer(vault, mdest, om, remaining, &auth) {
                            Ok(_) => (),
                            Err(e) => {
                                return Err(e);
                            },
                        }
                        match scratch.close_and_reclaim(vault, mdest, &auth) {
                            Ok(_) => (),
                            Err(e) => {
                                return Err(e);
                            },
                        }
                        self.ledger = scratch;
                        self.records[id] = None;
                        proof {
                            refund_commit_wf(g0, id, *req, now, *final(self));
                        }
                        Ok(())
                    },
                    Terms::MultiAsset { offered, .. } => {
                        let handles = match req {
                            RefundRequest::ReclaimBundle { handles } => handles,
                            _ => {
                                proof {
                                    assert(false);
                                }
                                return Err(EscrowError::InvalidAmount);
                            },
                        };
                        let oc = offered.len();
                        if handles.len() != 3 * oc {
                            return Err(EscrowError::BundleLengthMismatch);
                        }
                        let vault_acct = self.ledger.accounts[vault];
                        let auth = match authority::authorize(
                            &maker_id,
                            seed,
                            bump,
                            &vault_acct.owner,
                        ) {
                            Ok(a) => a,
                            Err(e) => {
                                return Err(e);
                            },
                        };
                        let ghost pda = s[vault as int].owner@;
                        let mut scratch = self.snapshot_ledger();
                        let mut k: usize = 0;
                        while k < oc
                            invariant
                                0 <= k <= oc,
                                scratch.wf(),
                                scratch.mints@ == g0.ledger.mints@,
                                scratch.accounts@.len() == s.len(),
                                bundle_release_err(s, offered@, grec.vaults@, handles@, 0, pda, 0)
                                    == bundle_release_err(
                                    s,
                                    offered@,
                                    grec.vaults@,
                                    handles@,
                                    0,
                                    pda,
                                    k as int,
                                ),
                                bundle_release_apply(s, offered@, grec.vaults@, handles@, 0, 0)
                                    == bundle_release_apply(
                                    scratch.accounts@,
                                    offered@,
                                    grec.vaults@,
                                    handles@,
                                    0,
                                    k as int,
                                ),
                                forall|h: int|
                                    0 <= h < s.len() && !release_touched(
                                        grec.vaults@,
                                        handles@,
                                        0,
                                        k as int,
                                        h,
                                    ) ==> scratch.accounts@[h] == s[h],
                            decreases oc - k,
                        {
                            let mint_h = handles[3 * k];
                            let vault_h = handles[3 * k + 1];
                            let dst = handles[3 * k + 2];
                            let entry = offered[k];
                            let rv = rec.vaults[k];
                            if mint_h != entry.mint {
                                return Err(EscrowError::AssetMismatch);
                            }
                            if vault_h != rv {
                                return Err(EscrowError::UnauthorizedAuthority);
                            }
                            proof {
                                assert(g0.party_account(dst));
                                assert(grec.vaults@.contains(rv));
                                assert(g0.is_open_vault(rv));
                                assert(!release_touched(
                                    grec.vaults@,
                                    handles@,
                                    0,
                                    k as int,
                                    dst as int,
                                )) by {
                                    if release_touched(
                                        grec.vaults@,
                                        handles@,
                                        0,
                                        k as int,
                                        dst as int,
                                    ) {
                                        let j = choose|j: int|
                                            #![trigger grec.vaults@[j]]
                                            #![trigger dest_slot(handles@, 0, j)]
                                            0 <= j < k && (grec.vaults@[j] as int == dst as int
                                                || dest_slot(handles@, 0, j) as int == dst as int);
                                        if grec.vaults@[j] as int == dst as int {
                                            assert(false);
                                        } else {
                                            assert(dest_slot(handles@, 0, j) == handles@[3 * j
                                                + 2]);
                                            assert(handles@[3 * j + 2] != handles@[3 * (k as int)
                                                + 2]);
                                            assert(false);
                                        }
                                    }
                                }
                                assert(!release_touched(
                                    grec.vaults@,
                                    handles@,
                                    0,
                                    k as int,
                                    rv as int,
                                )) by {
                                    if release_touched(
                                        grec.vaults@,
                                        handles@,
                                        0,
                                        k as int,
                                        rv as int,
                                    ) {
                                        let j = choose|j: int|
                                            #![trigger grec.vaults@[j]]
                                            #![trigger dest_slot(handles@, 0, j)]
                                            0 <= j < k && (grec.vaults@[j] as int == rv as int
                                                || dest_slot(handles@, 0, j) as int == rv as int);
                                        if grec.vaults@[j] as int == rv as int {
                                            assert(grec.vaults@[j] != grec.vaults@[k as int]);
                                            assert(false);
                                        } else {
                                            assert(dest_slot(handles@, 0, j) == handles@[3 * j
                                                + 2]);
                                            assert(g0.party_account(handles@[3 * j + 2]));
                                            assert(false);
                                        }
                                    }
                                }
                                assert(scratch.accounts@[rv as int] == s[rv as int]);
                                assert(scratch.accounts@[dst as int] == s[dst as int]);
                                assert(s[rv as int].balance == entry.amount);
                                assert(s[rv as int].owner@ == pda);
                                assert(s[rv as int].mint == entry.mint);
                            }
                            match scratch.transfer(rv, dst, entry.mint, entry.amount, &auth) {
                                Ok(_) => (),
                                Err(e) => {
                                    return Err(e);
                                },
                            }
                            match scratch.close_and_reclaim(rv, dst, &auth) {
                                Ok(_) => (),
                                Err(e) => {
                                    proof {
                                        assert(false);
                                    }
                                    return Err(e);
                                },
                            }
                            k += 1;
                            proof {
                                assert forall|h: int|
                                    0 <= h < s.len() && !release_touched(
                                        grec.vaults@,
                                        handles@,
                                        0,
                                        k as int,
                                        h,
                                    ) implies scratch.accounts@[h] == s[h] by {
                                    assert(!release_touched(grec.vaults@, handles@, 0, k - 1, h));
                                    assert(dest_slot(handles@, 0, k - 1) == dst);
                                    assert(h != rv as int && h != dst as int);
                                }
                            }
                        }
                        proof {
                            assert(bundle_release_err(
                                s,
                                offered@,
                                grec.vaults@,
                                handles@,
                                0,
                                pda,
                                0,
                            ) is None);
                        }
                        self.ledger = scratch;
                        self.records[id] = None;
                        proof {
                            refund_commit_wf(g0, id, *req, now, *final(self));
                        }
                        Ok(())
                    },
                }
            },
        }
    }
}

/// The outcome chain of a single-asset settlement: pay the maker, release
/// custody to the taker, and (when the record empties) close the vault into
/// the taker's receiving account. Returns the first failing leg's error.
pub open spec fn settle_err(
    s: Seq<TokenAccount>,
    em: usize,
    om: usize,
    pay: usize,
    mdest: usize,
    vault: usize,
    rdest: usize,
    pay_amt: u64,
    take_amt: u64,
    do_close: bool,
    taker: Seq<u8>,
) -> Option<EscrowError> {
    let pda = s[vault as int].owner@;
    match Ledger::transfer_err(s, pay, mdest, em, pay_amt, taker) {
        Some(e) => Some(e),
        None => {
            let s1 = Ledger::transfer_apply(s, pay, mdest, pay_amt);
            match Ledger::transfer_err(s1, vault, rdest, om, take_amt, pda) {
                Some(e) => Some(e),
                None => if do_close {
                    let s2 = Ledger::transfer_apply(s1, vault, rdest, take_amt);
                    Ledger::close_err(s2, vault, rdest, pda)
                } else {
                    None
                },
            }
        },
    }
}

/// The accounts after a successful single-asset settlement.
pub open spec fn settle_apply(
    s: Seq<TokenAccount>,
    pay: usize,
    mdest: usize,
    vault: usize,
    rdest: usize,
    pay_amt: u64,
    take_amt: u64,
    do_close: bool,
) -> Seq<TokenAccount> {
    let s1 = Ledger::transfer_apply(s, pay, mdest, pay_amt);
    let s2 = Ledger::transfer_apply(s1, vault, rdest, take_amt);
    if do_close {
        Ledger::close_apply(s2, vault, rdest)
    } else {
        s2
    }
}

/// The outcome chain of reclaiming one custody vault to the maker: move the
/// stated amount, then close the vault (sweeping any residue) into the same
/// destination.
pub open spec fn reclaim_err(
    s: Seq<TokenAccount>,
    om: usize,
    vault: usize,
    mdest: usize,
    amt: u64,
) -> Option<EscrowError> {
    let pda = s[vault as int].owner@;
    match Ledger::transfer_err(s, vault, mdest, om, amt, pda) {
        Some(e) => Some(e),
        None => Ledger::close_err(Ledger::transfer_apply(s, vault, mdest, amt), vault, mdest, pda),
    }
}

/// The accounts after one vault is reclaimed.
pub open spec fn reclaim_apply(s: Seq<TokenAccount>, vault: usize, mdest: usize, amt: u64) -> Seq<
    TokenAccount,
> {
    Ledger::close_apply(Ledger::transfer_apply(s, vault, mdest, amt), vault, mdest)
}

/// Whether flat-list position `p` holds a party account (rather than an
/// asset descriptor or a custody vault), for a list with `ec` expected
/// entries followed by offered entries.
pub open spec fn is_party_pos(ec: int, p: int) -> bool {
    (p % 3 == 1 && p < 3 * ec) || p % 3 == 2
}

/// Positions `3j + 1` (inside the expected block) and `3j + 2` hold party
/// accounts.
pub proof fn lemma_party_pos(ec: int, j: int)
    requires
        0 <= j,
    ensures
        j < ec ==> is_party_pos(ec, 3 * j + 1),
        is_party_pos(ec, 3 * j + 2),
{
    assert((3 * j + 1) % 3 == 1) by (nonlinear_arith)
        requires
            j >= 0,
    ;
    assert((3 * j + 2) % 3 == 2) by (nonlinear_arith)
        requires
            j >= 0,
    ;
}

/// Position `3ec + 3k + 2` (a destination inside the offered block) holds
/// a party account.
pub proof fn lemma_release_party_pos(ec: int, k: int)
    requires
        0 <= ec,
        0 <= k,
    ensures
        is_party_pos(ec, 3 * ec + 3 * k + 2),
{
    lemma_party_pos(ec, ec + k);
    assert(3 * (ec + k) + 2 == 3 * ec + 3 * k + 2);
}

/// The first failing expected-bundle leg, scanning entries in lock-step
/// with the flat list: the asset descriptor must match the declared entry,
/// then the taker's payment must go through. Party accounts in the list
/// are pairwise distinct, so each leg's conditions read the original book.
pub open spec fn bundle_pay_err(
    s: Seq<TokenAccount>,
    expected: Seq<TokenData>,
    handles: Seq<usize>,
    taker: Seq<u8>,
    i: int,
) -> Option<EscrowError>
    decreases expected.len() - i,
{
    if i < 0 || i >= expected.len() {
        None
    } else if handles[3 * i] != expected[i].mint {
        Some(EscrowError::AssetMismatch)
    } else {
        match Ledger::transfer_err(
            s,
            handles[3 * i + 1],
            handles[3 * i + 2],
            expected[i].mint,
            expected[i].amount,
            taker,
        ) {
            Some(e) => Some(e),
            None => bundle_pay_err(s, expected, handles, taker, i + 1),
        }
    }
}

/// The accounts after the expected-bundle legs, applied in list order.
pub open spec fn bundle_pay_apply(
    s: Seq<TokenAccount>,
    expected: Seq<TokenData>,
    handles: Seq<usize>,
    i: int,
) -> Seq<TokenAccount>
    decreases expected.len() - i,
{
    if i < 0 || i >= expected.len() {
        s
    } else {
        bundle_pay_apply(
            Ledger::transfer_apply(s, handles[3 * i + 1], handles[3 * i + 2], expected[i].amount),
            expected,
            handles,
            i + 1,
        )
    }
}

/// The first failing offered-bundle leg: the asset descriptor must match,
/// the listed vault must be the record's own vault for that entry, and the
/// release into the listed destination must go through. `base` is where the
/// offered triples start in the flat list; `recipient` constrains nothing
/// here; `pda` is the custody owner every vault is released under.
pub open spec fn bundle_release_err(
    s: Seq<TokenAccount>,
    offered: Seq<TokenData>,
    vaults: Seq<usize>,
    handles: Seq<usize>,
    base: int,
    pda: Seq<u8>,
    k: int,
) -> Option<EscrowError>
    decreases offered.len() - k,
{
    if k < 0 || k >= offered.len() {
        None
    } else if handles[base + 3 * k] != offered[k].mint {
        Some(EscrowError::AssetMismatch)
    } else if handles[base + 3 * k + 1] != vaults[k] {
        Some(EscrowError::UnauthorizedAuthority)
    } else {
        let dest = handles[base + 3 * k + 2];
        let vault = vaults[k];
        if s[vault as int].mint != offered[k].mint || s[dest as int].mint != offered[k].mint {
            Some(EscrowError::AssetMismatch)
        } else if s[vault as int].owner@ != pda {
            Some(EscrowError::UnauthorizedAuthority)
        } else if s[vault as int].balance < offered[k].amount {
            Some(EscrowError::InsufficientCustodyBalance)
        } else if s[dest as int].balance + offered[k].amount > u64::MAX {
            Some(EscrowError::CustodyCapacityExceeded)
        } else {
            bundle_release_err(s, offered, vaults, handles, base, pda, k + 1)
        }
    }
}

/// The accounts after the offered-bundle legs: each vault's declared amount
/// released to its listed destination and the vault closed behind it, in
/// list order.
pub open spec fn bundle_release_apply(
    s: Seq<TokenAccount>,
    offered: Seq<TokenData>,
    vaults: Seq<usize>,
    handles: Seq<usize>,
    base: int,
    k: int,
) -> Seq<TokenAccount>
    decreases offered.len() - k,
{
    if k < 0 || k >= offered.len() {
        s
    } else {
        bundle_release_apply(
            reclaim_apply(s, vaults[k], handles[base + 3 * k + 2], offered[k].amount),
            offered,
            vaults,
            handles,
            base,
            k + 1,
        )
    }
}

/// The host-validated facts about the accounts a take request names: party
/// accounts are open non-vault accounts; for the single-asset shapes the
/// constraint system has also pinned each account's owner and asset.
pub open spec fn take_accounts_ok(e: Engine, rec: Escrow, taker: [u8; 32], req: TakeRequest) -> bool {
    match req {
        TakeRequest::Settle { pay_source, maker_dest, recv_dest } => {
            single_take_accounts_ok(e, rec, taker, pay_source, maker_dest, recv_dest)
        },
        TakeRequest::SettlePartial { pay_source, maker_dest, recv_dest, .. } => {
            single_take_accounts_ok(e, rec, taker, pay_source, maker_dest, recv_dest)
        },
        TakeRequest::SettleBundle { handles } => {
            rec.terms matches Terms::MultiAsset { offered, expected } ==> {
                let ec = expected@.len() as int;
                let total = 3 * (ec + offered@.len() as int);
                handles@.len() == total ==> {
                    &&& forall|p: int|
                        0 <= p < total && is_party_pos(ec, p) ==> e.party_account(
                            #[trigger] handles@[p],
                        )
                    &&& forall|p: int, q: int|
                        0 <= p < q < total && is_party_pos(ec, p) && is_party_pos(ec, q)
                            ==> handles@[p] != handles@[q]
                }
            }
        },
    }
}

/// The single-asset shape of [`take_accounts_ok`]: the taker's paying and
/// receiving accounts and the maker's receiving account, each open, not a
/// vault, and of the owner and asset the host's constraints pin down.
pub open spec fn single_take_accounts_ok(
    e: Engine,
    rec: Escrow,
    taker: [u8; 32],
    pay: usize,
    mdest: usize,
    rdest: usize,
) -> bool {
    match rec.terms {
        Terms::MultiAsset { .. } => true,
        _ => {
            let om = vault_mint(rec.terms, 0);
            let em = expected_mint_of(rec.terms);
            &&& e.party_account(pay) && e.ledger.acct(pay).owner == taker && e.ledger.acct(
                pay,
            ).mint == em
            &&& e.party_account(mdest) && e.ledger.acct(mdest).owner == rec.maker && e.ledger.acct(
                mdest,
            ).mint == em
            &&& e.party_account(rdest) && e.ledger.acct(rdest).owner == taker && e.ledger.acct(
                rdest,
            ).mint == om
        },
    }
}

/// The first reason a take fails, in the order the checks run: the
/// deadline (time-boxed), the amount preconditions (partial fill), the flat
/// list's length (bundle), derived-authority verification, then the
/// settlement legs.
pub open spec fn take_err(e: Engine, id: usize, taker: [u8; 32], req: TakeRequest, now: i64) -> Option<
    EscrowError,
> {
    let rec = e.record_at(id as int);
    let s = e.ledger.accounts@;
    let vault = rec.vaults@[0];
    let auth_bad = authority::authority_at(rec.maker@, rec.seed, rec.bump) != Some(
        s[vault as int].owner@,
    );
    match rec.terms {
        Terms::FullFill { offered_mint, expected_mint, receive } => {
            if auth_bad {
                Some(EscrowError::UnauthorizedAuthority)
            } else {
                settle_err(
                    s,
                    expected_mint,
                    offered_mint,
                    req->Settle_pay_source,
                    req->Settle_maker_dest,
                    vault,
                    req->Settle_recv_dest,
                    receive,
                    s[vault as int].balance,
                    true,
                    taker@,
                )
            }
        },
        Terms::TimeBoxed { offered_mint, expected_mint, receive, expires_at } => {
            if now >= expires_at {
                Some(EscrowError::EscrowExpired)
            } else if auth_bad {
                Some(EscrowError::UnauthorizedAuthority)
            } else {
                settle_err(
                    s,
                    expected_mint,
                    offered_mint,
                    req->Settle_pay_source,
                    req->Settle_maker_dest,
                    vault,
                    req->Settle_recv_dest,
                    receive,
                    s[vault as int].balance,
                    true,
                    taker@,
                )
            }
        },
        Terms::PartialFill {
            offered_mint,
            expected_mint,
            total_amount,
            remaining_amount,
            receive_per_unit,
        } => {
            let amt = req->SettlePartial_amount_to_take;
            if amt == 0 {
                Some(EscrowError::InvalidAmount)
            } else if amt > remaining_amount {
                Some(EscrowError::ExceedsRemainingAmount)
            } else if receive_per_unit * amt > u64::MAX {
                Some(EscrowError::ArithmeticOverflow)
            } else if auth_bad {
                Some(EscrowError::UnauthorizedAuthority)
            } else {
                settle_err(
                    s,
                    expected_mint,
                    offered_mint,
                    req->SettlePartial_pay_source,
                    req->SettlePartial_maker_dest,
                    vault,
                    req->SettlePartial_recv_dest,
                    (receive_per_unit * amt) as u64,
                    amt,
                    remaining_amount == amt,
                    taker@,
                )
            }
        },
        Terms::MultiAsset { offered, expected } => {
            let handles = req->SettleBundle_handles@;
            let ec = expected@.len() as int;
            if handles.len() != 3 * (ec + offered@.len() as int) {
                Some(EscrowError::BundleLengthMismatch)
            } else if auth_bad {
                Some(EscrowError::UnauthorizedAuthority)
            } else {
                match bundle_pay_err(s, expected@, handles, taker@, 0) {
                    Some(e) => Some(e),
                    None => bundle_release_err(
                        s,
                        offered@,
                        rec.vaults@,
                        handles,
                        3 * ec,
                        s[vault as int].owner@,
                        0,
                    ),
                }
            }
        },
    }
}

/// The accounts after a successful take.
pub open spec fn take_apply(e: Engine, id: usize, taker: [u8; 32], req: TakeRequest) -> Seq<
    TokenAccount,
> {
    let rec = e.record_at(id as int);
    let s = e.ledger.accounts@;
    let vault = rec.vaults@[0];
    match rec.terms {
        Terms::FullFill { receive, .. } => settle_apply(
            s,
            req->Settle_pay_source,
            req->Settle_maker_dest,
            vault,
            req->Settle_recv_dest,
            receive,
            s[vault as int].balance,
            true,
        ),
        Terms::TimeBoxed { receive, .. } => settle_apply(
            s,
            req->Settle_pay_source,
            req->Settle_maker_dest,
            vault,
            req->Settle_recv_dest,
            receive,
            s[vault as int].balance,
            true,
        ),
        Terms::PartialFill { remaining_amount, receive_per_unit, .. } => {
            let amt = req->SettlePartial_amount_to_take;
            settle_apply(
                s,
                req->SettlePartial_pay_source,
                req->SettlePartial_maker_dest,
                vault,
                req->SettlePartial_recv_dest,
                (receive_per_unit * amt) as u64,
                amt,
                remaining_amount == amt,
            )
        },
        Terms::MultiAsset { offered, expected } => {
            let handles = req->SettleBundle_handles@;
            let ec = expected@.len() as int;
            bundle_release_apply(
                bundle_pay_apply(s, expected@, handles, 0),
                offered@,
                rec.vaults@,
                handles,
                3 * ec,
                0,
            )
        },
    }
}

/// Whether account `h` was debited or credited by one of the first `i`
/// expected-bundle legs.
pub open spec fn pay_touched(handles: Seq<usize>, i: int, h: int) -> bool {
    exists|j: int|
        #![trigger handles[3 * j + 1]]
        #![trigger handles[3 * j + 2]]
        0 <= j < i && (handles[3 * j + 1] as int == h || handles[3 * j + 2] as int == h)
}

/// Whether account `h` was touched by one of the first `k` offered-bundle
/// legs: one of the released vaults or one of their destinations.
/// The destination handle of the `j`-th offered-bundle triple.
pub open spec fn dest_slot(handles: Seq<usize>, base: int, j: int) -> usize {
    handles[base + 3 * j + 2]
}

pub open spec fn release_touched(
    vaults: Seq<usize>,
    handles: Seq<usize>,
    base: int,
    k: int,
    h: int,
) -> bool {
    exists|j: int|
        #![trigger vaults[j]]
        #![trigger dest_slot(handles, base, j)]
        0 <= j < k && (vaults[j] as int == h || dest_slot(handles, base, j) as int == h)
}

/// The expected-bundle legs keep the book's length and leave untouched
/// accounts unchanged.
pub proof fn lemma_pay_apply_frame(
    s: Seq<TokenAccount>,
    expected: Seq<TokenData>,
    handles: Seq<usize>,
    i: int,
    h: int,
)
    requires
        0 <= h < s.len(),
        forall|j: int| i <= j < expected.len() ==> (#[trigger] handles[3 * j + 1]) < s.len(),
        forall|j: int| i <= j < expected.len() ==> (#[trigger] handles[3 * j + 2]) < s.len(),
        forall|j: int| i <= j < expected.len() ==> (#[trigger] handles[3 * j + 1]) as int != h,
        forall|j: int| i <= j < expected.len() ==> (#[trigger] handles[3 * j + 2]) as int != h,
    ensures
        bundle_pay_apply(s, expected, handles, i).len() == s.len(),
        bundle_pay_apply(s, expected, handles, i)[h] == s[h],
    decreases expected.len() - i,
{
    if i < 0 || i >= expected.len() {
    } else {
        assert((handles[3 * i + 1]) < s.len() && handles[3 * i + 2] < s.len());
        assert((handles[3 * i + 1]) as int != h && handles[3 * i + 2] as int != h);
        let s1 = Ledger::transfer_apply(s, handles[3 * i + 1], handles[3 * i + 2], expected[i].amount);
        assert(s1.len() == s.len());
        assert(s1[h] == s[h]);
        lemma_pay_apply_frame(s1, expected, handles, i + 1, h);
    }
}

/// The expected-bundle legs keep the book's length.
pub proof fn lemma_pay_apply_len(
    s: Seq<TokenAccount>,
    expected: Seq<TokenData>,
    handles: Seq<usize>,
    i: int,
)
    requires
        forall|j: int| i <= j < expected.len() ==> (#[trigger] handles[3 * j + 1]) < s.len(),
        forall|j: int| i <= j < expected.len() ==> (#[trigger] handles[3 * j + 2]) < s.len(),
    ensures
        bundle_pay_apply(s, expected, handles, i).len() == s.len(),
    decreases expected.len() - i,
{
    if i < 0 || i >= expected.len() {
    } else {
        assert((handles[3 * i + 1]) < s.len() && handles[3 * i + 2] < s.len());
        lemma_pay_apply_len(
            Ledger::transfer_apply(s, handles[3 * i + 1], handles[3 * i + 2], expected[i].amount),
            expected,
            handles,
            i + 1,
        );
    }
}

/// The offered-bundle legs keep the book's length and leave untouched
/// accounts unchanged.
pub proof fn lemma_release_apply_frame(
    s: Seq<TokenAccount>,
    offered: Seq<TokenData>,
    vaults: Seq<usize>,
    handles: Seq<usize>,
    base: int,
    k: int,
    h: int,
)
    requires
        0 <= h < s.len(),
        forall|j: int| k <= j < offered.len() ==> (#[trigger] vaults[j]) < s.len(),
        forall|j: int|
            k <= j < offered.len() ==> (#[trigger] handles[base + 3 * j + 2]) < s.len(),
        forall|j: int| k <= j < offered.len() ==> (#[trigger] vaults[j]) as int != h,
        forall|j: int|
            k <= j < offered.len() ==> (#[trigger] handles[base + 3 * j + 2]) as int != h,
    ensures
        bundle_release_apply(s, offered, vaults, handles, base, k).len() == s.len(),
        bundle_release_apply(s, offered, vaults, handles, base, k)[h] == s[h],
    decreases offered.len() - k,
{
    if k < 0 || k >= offered.len() {
    } else {
        assert((vaults[k]) < s.len() && handles[base + 3 * k + 2] < s.len());
        assert((vaults[k]) as int != h && handles[base + 3 * k + 2] as int != h);
        let s1 = reclaim_apply(s, vaults[k], handles[base + 3 * k + 2], offered[k].amount);
        assert(s1.len() == s.len());
        assert(s1[h] == s[h]);
        lemma_release_apply_frame(s1, offered, vaults, handles, base, k + 1, h);
    }
}

/// The offered-bundle legs keep the book's length.
pub proof fn lemma_release_apply_len(
    s: Seq<TokenAccount>,
    offered: Seq<TokenData>,
    vaults: Seq<usize>,
    handles: Seq<usize>,
    base: int,
    k: int,
)
    requires
        forall|j: int| k <= j < offered.len() ==> (#[trigger] vaults[j]) < s.len(),
        forall|j: int|
            k <= j < offered.len() ==> (#[trigger] handles[base + 3 * j + 2]) < s.len(),
    ensures
        bundle_release_apply(s, offered, vaults, handles, base, k).len() == s.len(),
    decreases offered.len() - k,
{
    if k < 0 || k >= offered.len() {
    } else {
        assert((vaults[k]) < s.len() && handles[base + 3 * k + 2] < s.len());
        lemma_release_apply_len(
            reclaim_apply(s, vaults[k], handles[base + 3 * k + 2], offered[k].amount),
            offered,
            vaults,
            handles,
            base,
            k + 1,
        );
    }
}

/// After a committed take, the manager's invariant still holds: untouched
/// records keep their vaults untouched, and a partial fill that stays open
/// keeps its vault balance equal to its reduced remaining amount.
pub proof fn take_commit_wf(
    g0: Engine,
    id: usize,
    taker: [u8; 32],
    req: TakeRequest,
    now: i64,
    g1: Engine,
)
    requires
        g0.wf(),
        g0.open_record(id as int),
        crate::record::take_request_matches(g0.record_at(id as int).terms, req),
        take_accounts_ok(g0, g0.record_at(id as int), taker, req),
        take_err(g0, id, taker, req, now) is None,
        g1.ledger.mints@ == g0.ledger.mints@,
        g1.ledger.accounts@ == take_apply(g0, id, taker, req),
        g1.ledger.wf(),
        g1.records@.len() == g0.records@.len(),
        forall|i: int|
            0 <= i < g1.records@.len() && i != id ==> g1.records@[i] == g0.records@[i],
        ({
            let orec = g0.record_at(id as int);
            if orec.terms is PartialFill && orec.terms->PartialFill_remaining_amount
                > req->SettlePartial_amount_to_take {
                let nrec = g1.record_at(id as int);
                &&& g1.open_record(id as int)
                &&& nrec.seed == orec.seed
                &&& nrec.maker == orec.maker
                &&& nrec.bump == orec.bump
                &&& nrec.vaults@ == orec.vaults@
                &&& req->SettlePartial_amount_to_take > 0
                &&& nrec.terms == (Terms::PartialFill {
                    offered_mint: orec.terms->PartialFill_offered_mint,
                    expected_mint: orec.terms->PartialFill_expected_mint,
                    total_amount: orec.terms->PartialFill_total_amount,
                    remaining_amount: (orec.terms->PartialFill_remaining_amount
                        - req->SettlePartial_amount_to_take) as u64,
                    receive_per_unit: orec.terms->PartialFill_receive_per_unit,
                })
            } else {
                g1.records@[id as int] is None
            }
        }),
    ensures
        g1.wf(),
{
    let orec = g0.record_at(id as int);
    let s = g0.ledger.accounts@;
    // Every account that is a vault of a record other than `id`, and the
    // vault of a partial fill that stays open, keeps its value.
    assert(take_accounts_ok_any(g0, orec, req));
    assert(req matches TakeRequest::SettleBundle { handles } ==> handles@.len() == 3 * (
    expected_len_of(orec.terms) + vault_count(orec.terms)));
    lemma_take_apply_len(g0, id, taker, req);
    assert forall|h: int|
        0 <= h < s.len() && vault_untouched_by(g0, id, req, h) implies g1.ledger.accounts@[h]
        == s[h] by {
        lemma_take_apply_frame(g0, id, taker, req, h);
    }
    assert forall|i: int| #[trigger] g1.open_record(i) implies Engine::record_ok(
        g1.record_at(i),
        g1.ledger,
    ) by {
        if i != id {
            assert(g0.open_record(i));
            let rec = g0.record_at(i);
            assert(Engine::record_ok(rec, g0.ledger));
            assert forall|kk: int| 0 <= kk < rec.vaults@.len() implies g1.ledger.accounts@[(
            #[trigger] rec.vaults@[kk]) as int] == s[rec.vaults@[kk] as int] by {
                let h = rec.vaults@[kk];
                assert(g0.ledger.acct_ok(h));
                assert(g0.is_open_vault(h)) by {
                    assert(rec.vaults@.contains(h));
                }
                assert(vaults_disjoint(rec.vaults@, orec.vaults@));
                assert(take_accounts_ok_any(g0, orec, req));
                assert(vault_untouched_by(g0, id, req, h as int)) by {
                    lemma_other_vault_untouched(g0, id, req, i, kk);
                }
            }
            assert(Engine::record_ok(rec, g1.ledger));
        } else {
            let nrec = g1.record_at(id as int);
            assert(orec.terms is PartialFill
                && orec.terms->PartialFill_remaining_amount > req->SettlePartial_amount_to_take);
            let amt = req->SettlePartial_amount_to_take;
            let rem = orec.terms->PartialFill_remaining_amount;
            let vault = orec.vaults@[0];
            let pay = req->SettlePartial_pay_source;
            let mdest = req->SettlePartial_maker_dest;
            let rdest = req->SettlePartial_recv_dest;
            assert(g0.party_account(pay) && g0.party_account(mdest) && g0.party_account(rdest));
            assert(g0.is_open_vault(vault)) by {
                assert(orec.vaults@.contains(vault));
            }
            assert(vault != pay && vault != mdest && vault != rdest);
            assert(g1.ledger.accounts@[vault as int].balance == rem - amt);
            assert(g1.ledger.accounts@[vault as int].mint == g0.ledger.acct(vault).mint);
            assert(g1.ledger.accounts@[vault as int].open);
            assert(terms_wf(nrec.terms));
            assert(Engine::record_ok(nrec, g1.ledger));
        }
    }
    assert forall|i: int, j: int|
        g1.open_record(i) && g1.open_record(j) && i != j implies vaults_disjoint(
        g1.record_at(i).vaults@,
        g1.record_at(j).vaults@,
    ) by {
        assert(g0.open_record(i) && g0.open_record(j));
        assert(g1.record_at(i).vaults@ == g0.record_at(i).vaults@);
        assert(g1.record_at(j).vaults@ == g0.record_at(j).vaults@);
    }
}

/// `h` is not an account the take at `id` with request `req` writes:
/// not a caller-supplied party account and not one of the record's own
/// vaults that the take empties or closes.
pub open spec fn vault_untouched_by(g0: Engine, id: usize, req: TakeRequest, h: int) -> bool {
    let orec = g0.record_at(id as int);
    match req {
        TakeRequest::Settle { pay_source, maker_dest, recv_dest } => h != pay_source as int && h
            != maker_dest as int && h != recv_dest as int && h != orec.vaults@[0] as int,
        TakeRequest::SettlePartial { pay_source, maker_dest, recv_dest, .. } => h != pay_source
            as int && h != maker_dest as int && h != recv_dest as int && h != orec.vaults@[0]
            as int,
        TakeRequest::SettleBundle { handles } => {
            let ec = expected_len_of(orec.terms);
            &&& !pay_touched(handles@, ec, h)
            &&& !release_touched(orec.vaults@, handles@, 3 * ec, vault_count(orec.terms), h)
        },
    }
}

/// The expected-bundle length of a record's terms.
pub open spec fn expected_len_of(t: Terms) -> int {
    match t {
        Terms::MultiAsset { expected, .. } => expected@.len() as int,
        _ => 0,
    }
}

/// A take keeps the book's length.
pub proof fn lemma_take_apply_len(g0: Engine, id: usize, taker: [u8; 32], req: TakeRequest)
    requires
        g0.wf(),
        g0.open_record(id as int),
        crate::record::take_request_matches(g0.record_at(id as int).terms, req),
        take_accounts_ok_any(g0, g0.record_at(id as int), req),
        req matches TakeRequest::SettleBundle { handles } ==> handles@.len() == 3 * (
        expected_len_of(g0.record_at(id as int).terms) + vault_count(
            g0.record_at(id as int).terms,
        )),
    ensures
        take_apply(g0, id, taker, req).len() == g0.ledger.accounts@.len(),
{
    let orec = g0.record_at(id as int);
    let s = g0.ledger.accounts@;
    assert(Engine::record_ok(orec, g0.ledger));
    match orec.terms {
        Terms::MultiAsset { offered, expected } => {
            let handles = req->SettleBundle_handles@;
            let ec = expected@.len() as int;
            assert forall|j: int| 0 <= j < ec implies (#[trigger] handles[3 * j + 1])
                < s.len() by {
                lemma_party_pos(ec, j);
                assert(g0.party_account(handles[3 * j + 1]));
            }
            assert forall|j: int| 0 <= j < ec implies (#[trigger] handles[3 * j + 2])
                < s.len() by {
                lemma_party_pos(ec, j);
                assert(g0.party_account(handles[3 * j + 2]));
            }
            let s1 = bundle_pay_apply(s, expected@, handles, 0);
            lemma_pay_apply_len(s, expected@, handles, 0);
            assert forall|j: int| 0 <= j < offered@.len() implies (#[trigger] orec.vaults@[j])
                < s1.len() by {
                assert(g0.ledger.acct_ok(orec.vaults@[j]));
            }
            assert forall|j: int| 0 <= j < offered@.len() implies (#[trigger] handles[3 * ec + 3
                * j + 2]) < s1.len() by {
                lemma_release_party_pos(ec, j);
                assert(g0.party_account(handles[3 * ec + 3 * j + 2]));
            }
            lemma_release_apply_len(s1, offered@, orec.vaults@, handles, 3 * ec, 0);
        },
        _ => {},
    }
}

/// A take writes only the accounts `vault_untouched_by` names.
pub proof fn lemma_take_apply_frame(g0: Engine, id: usize, taker: [u8; 32], req: TakeRequest, h: int)
    requires
        g0.wf(),
        g0.open_record(id as int),
        crate::record::take_request_matches(g0.record_at(id as int).terms, req),
        take_accounts_ok_any(g0, g0.record_at(id as int), req),
        req matches TakeRequest::SettleBundle { handles } ==> handles@.len() == 3 * (
        expected_len_of(g0.record_at(id as int).terms) + vault_count(
            g0.record_at(id as int).terms,
        )),
        0 <= h < g0.ledger.accounts@.len(),
        vault_untouched_by(g0, id, req, h),
    ensures
        take_apply(g0, id, taker, req).len() == g0.ledger.accounts@.len(),
        take_apply(g0, id, taker, req)[h] == g0.ledger.accounts@[h],
{
    let orec = g0.record_at(id as int);
    let s = g0.ledger.accounts@;
    assert(Engine::record_ok(orec, g0.ledger));
    match orec.terms {
        Terms::MultiAsset { offered, expected } => {
            let handles = req->SettleBundle_handles@;
            let ec = expected@.len() as int;
            assert forall|j: int| 0 <= j < ec implies (#[trigger] handles[3 * j + 1])
                < s.len() by {
                lemma_party_pos(ec, j);
                assert(g0.party_account(handles[3 * j + 1]));
            }
            assert forall|j: int| 0 <= j < ec implies (#[trigger] handles[3 * j + 2])
                < s.len() by {
                lemma_party_pos(ec, j);
                assert(g0.party_account(handles[3 * j + 2]));
            }
            assert forall|j: int| 0 <= j < ec implies (#[trigger] handles[3 * j + 1]) as int
                != h by {
                if handles[3 * j + 1] as int == h {
                    assert(pay_touched(handles, ec, h));
                }
            }
            assert forall|j: int| 0 <= j < ec implies (#[trigger] handles[3 * j + 2]) as int
                != h by {
                if handles[3 * j + 2] as int == h {
                    assert(handles[3 * j + 1] as int == handles[3 * j + 1] as int);
                    assert(pay_touched(handles, ec, h));
                }
            }
            let s1 = bundle_pay_apply(s, expected@, handles, 0);
            lemma_pay_apply_frame(s, expected@, handles, 0, h);
            assert forall|j: int| 0 <= j < offered@.len() implies (#[trigger] orec.vaults@[j])
                < s1.len() by {
                assert(g0.ledger.acct_ok(orec.vaults@[j]));
            }
            assert forall|j: int| 0 <= j < offered@.len() implies (#[trigger] handles[3 * ec + 3
                * j + 2]) < s1.len() by {
                lemma_release_party_pos(ec, j);
                assert(g0.party_account(handles[3 * ec + 3 * j + 2]));
            }
            assert forall|j: int| 0 <= j < offered@.len() implies (#[trigger] orec.vaults@[j])
                as int != h by {
                if orec.vaults@[j] as int == h {
                    assert(release_touched(orec.vaults@, handles, 3 * ec, offered@.len() as int, h));
                }
            }
            assert forall|j: int| 0 <= j < offered@.len() implies (#[trigger] handles[3 * ec + 3
                * j + 2]) as int != h by {
                if handles[3 * ec + 3 * j + 2] as int == h {
                    assert(dest_slot(handles, 3 * ec, j) as int == h);
                    assert(release_touched(orec.vaults@, handles, 3 * ec, offered@.len() as int, h));
                }
            }
            lemma_release_apply_frame(s1, offered@, orec.vaults@, handles, 3 * ec, 0, h);
        },
        _ => {},
    }
}

/// A vault of an open record other than `id` is untouched by a take at
/// `id`: the caller's party accounts are not vaults, and two records never
/// share a vault.
pub proof fn lemma_other_vault_untouched(g0: Engine, id: usize, req: TakeRequest, i: int, kk: int)
    requires
        g0.wf(),
        g0.open_record(id as int),
        g0.open_record(i),
        i != id,
        crate::record::take_request_matches(g0.record_at(id as int).terms, req),
        req matches TakeRequest::SettleBundle { handles } ==> handles@.len() == 3 * (
        expected_len_of(g0.record_at(id as int).terms) + vault_count(
            g0.record_at(id as int).terms,
        )),
        0 <= kk < g0.record_at(i).vaults@.len(),
        take_accounts_ok_any(g0, g0.record_at(id as int), req),
    ensures
        vault_untouched_by(g0, id, req, g0.record_at(i).vaults@[kk] as int),
{
    let orec = g0.record_at(id as int);
    let rec = g0.record_at(i);
    let h = rec.vaults@[kk];
    assert(g0.is_open_vault(h)) by {
        assert(rec.vaults@.contains(h));
    }
    assert(vaults_disjoint(rec.vaults@, orec.vaults@));
    match req {
        TakeRequest::Settle { pay_source, maker_dest, recv_dest } => {
            assert(h != pay_source && h != maker_dest && h != recv_dest);
            assert(h != orec.vaults@[0]);
        },
        TakeRequest::SettlePartial { pay_source, maker_dest, recv_dest, .. } => {
            assert(h != pay_source && h != maker_dest && h != recv_dest);
            assert(h != orec.vaults@[0]);
        },
        TakeRequest::SettleBundle { handles } => {
            let ec = expected_len_of(orec.terms);
            assert(!pay_touched(handles@, ec, h as int)) by {
                if pay_touched(handles@, ec, h as int) {
                    let j = choose|j: int|
                        #![trigger handles@[3 * j + 1]]
                        #![trigger handles@[3 * j + 2]]
                        0 <= j < ec && (handles@[3 * j + 1] as int == h as int || handles@[3 * j
                            + 2] as int == h as int);
                    lemma_party_pos(ec, j);
                    assert(g0.party_account(handles@[3 * j + 1]));
                    assert(g0.party_account(handles@[3 * j + 2]));
                    assert(false);
                }
            }
            assert(!release_touched(orec.vaults@, handles@, 3 * ec, vault_count(orec.terms), h
                as int)) by {
                if release_touched(orec.vaults@, handles@, 3 * ec, vault_count(orec.terms), h
                    as int) {
                    let j = choose|j: int|
                        #![trigger orec.vaults@[j]]
                        #![trigger dest_slot(handles@, 3 * ec, j)]
                        0 <= j < vault_count(orec.terms) && (orec.vaults@[j] as int == h as int
                            || dest_slot(handles@, 3 * ec, j) as int == h as int);
                    if orec.vaults@[j] as int == h as int {
                        assert(rec.vaults@[kk] != orec.vaults@[j]);
                        assert(false);
                    } else {
                        lemma_release_party_pos(ec, j);
                        assert(dest_slot(handles@, 3 * ec, j) == handles@[3 * ec + 3 * j + 2]);
                        assert(g0.party_account(handles@[3 * ec + 3 * j + 2]));
                        assert(false);
                    }
                }
            }
        },
    }
}

/// The party-account facts of a take request, with the taker's identity
/// abstracted away: enough to know the named accounts are not custody
/// vaults.
pub open spec fn take_accounts_ok_any(g0: Engine, rec: Escrow, req: TakeRequest) -> bool {
    match req {
        TakeRequest::Settle { pay_source, maker_dest, recv_dest } => g0.party_account(pay_source)
            && g0.party_account(maker_dest) && g0.party_account(recv_dest),
        TakeRequest::SettlePartial { pay_source, maker_dest, recv_dest, .. } => g0.party_account(
            pay_source,
        ) && g0.party_account(maker_dest) && g0.party_account(recv_dest),
        TakeRequest::SettleBundle { handles } => {
            rec.terms matches Terms::MultiAsset { offered, expected } ==> {
                let ec = expected@.len() as int;
                let total = 3 * (ec + offered@.len() as int);
                handles@.len() == total ==> forall|p: int|
                    0 <= p < total && is_party_pos(ec, p) ==> g0.party_account(
                        #[trigger] handles@[p],
                    )
            }
        },
    }
}

/// The host-validated facts about the accounts a refund request names:
/// destinations are open non-vault accounts the maker owns, pairwise
/// distinct, and (for the single-asset shapes) of the offered asset.
pub open spec fn refund_accounts_ok(e: Engine, rec: Escrow, req: RefundRequest) -> bool {
    match req {
        RefundRequest::Reclaim { maker_dest } => {
            match rec.terms {
                Terms::MultiAsset { .. } => true,
                _ => e.party_account(maker_dest) && e.ledger.acct(maker_dest).owner == rec.maker
                    && e.ledger.acct(maker_dest).mint == vault_mint(rec.terms, 0),
            }
        },
        RefundRequest::ReclaimBundle { handles } => {
            rec.terms matches Terms::MultiAsset { offered, .. } ==> {
                let oc = offered@.len() as int;
                handles@.len() == 3 * oc ==> {
                    &&& forall|k: int|
                        0 <= k < oc ==> e.party_account(#[trigger] handles@[3 * k + 2])
                            && e.ledger.acct(handles@[3 * k + 2]).owner == rec.maker
                    &&& forall|k1: int, k2: int|
                        0 <= k1 < k2 < oc ==> #[trigger] handles@[3 * k1 + 2] != #[trigger] handles@[3 * k2 + 2]
                }
            }
        },
    }
}

/// The first reason a refund fails, in the order the checks run: the
/// deadline (time-boxed, which cannot be refunded early), the flat list's
/// length (bundle), derived-authority verification, then the reclaim legs.
pub open spec fn refund_err(e: Engine, id: usize, req: RefundRequest, now: i64) -> Option<
    EscrowError,
> {
    let rec = e.record_at(id as int);
    let s = e.ledger.accounts@;
    let vault = rec.vaults@[0];
    let auth_bad = authority::authority_at(rec.maker@, rec.seed, rec.bump) != Some(
        s[vault as int].owner@,
    );
    match rec.terms {
        Terms::FullFill { offered_mint, .. } => {
            if auth_bad {
                Some(EscrowError::UnauthorizedAuthority)
            } else {
                reclaim_err(
                    s,
                    offered_mint,
                    vault,
                    req->Reclaim_maker_dest,
                    s[vault as int].balance,
                )
            }
        },
        Terms::TimeBoxed { offered_mint, expires_at, .. } => {
            if now < expires_at {
                Some(EscrowError::EscrowNotExpired)
            } else if auth_bad {
                Some(EscrowError::UnauthorizedAuthority)
            } else {
                reclaim_err(
                    s,
                    offered_mint,
                    vault,
                    req->Reclaim_maker_dest,
                    s[vault as int].balance,
                )
            }
        },
        Terms::PartialFill { offered_mint, remaining_amount, .. } => {
            if auth_bad {
                Some(EscrowError::UnauthorizedAuthority)
            } else {
                reclaim_err(s, offered_mint, vault, req->Reclaim_maker_dest, remaining_amount)
            }
        },
        Terms::MultiAsset { offered, .. } => {
            let handles = req->ReclaimBundle_handles@;
            if handles.len() != 3 * offered@.len() {
                Some(EscrowError::BundleLengthMismatch)
            } else if auth_bad {
                Some(EscrowError::UnauthorizedAuthority)
            } else {
                bundle_release_err(s, offered@, rec.vaults@, handles, 0, s[vault as int].owner@, 0)
            }
        },
    }
}

/// The accounts after a successful refund.
pub open spec fn refund_apply(e: Engine, id: usize, req: RefundRequest) -> Seq<TokenAccount> {
    let rec = e.record_at(id as int);
    let s = e.ledger.accounts@;
    let vault = rec.vaults@[0];
    match rec.terms {
        Terms::FullFill { .. } => reclaim_apply(
            s,
            vault,
            req->Reclaim_maker_dest,
            s[vault as int].balance,
        ),
        Terms::TimeBoxed { .. } => reclaim_apply(
            s,
            vault,
            req->Reclaim_maker_dest,
            s[vault as int].balance,
        ),
        Terms::PartialFill { remaining_amount, .. } => reclaim_apply(
            s,
            vault,
            req->Reclaim_maker_dest,
            remaining_amount,
        ),
        Terms::MultiAsset { offered, .. } => bundle_release_apply(
            s,
            offered@,
            rec.vaults@,
            req->ReclaimBundle_handles@,
            0,
            0,
        ),
    }
}

/// `h` is not an account the refund at `id` with request `req` writes.
pub open spec fn refund_untouched_by(g0: Engine, id: usize, req: RefundRequest, h: int) -> bool {
    let orec = g0.record_at(id as int);
    match req {
        RefundRequest::Reclaim { maker_dest } => h != maker_dest as int && h != orec.vaults@[0]
            as int,
        RefundRequest::ReclaimBundle { handles } => !release_touched(
            orec.vaults@,
            handles@,
            0,
            vault_count(orec.terms),
            h,
        ),
    }
}

/// The refund's party facts with only vault-freedom kept.
pub open spec fn refund_accounts_ok_any(g0: Engine, rec: Escrow, req: RefundRequest) -> bool {
    match req {
        RefundRequest::Reclaim { maker_dest } => g0.party_account(maker_dest),
        RefundRequest::ReclaimBundle { handles } => {
            rec.terms matches Terms::MultiAsset { offered, .. } ==> {
                let oc = offered@.len() as int;
                handles@.len() == 3 * oc ==> forall|k: int|
                    0 <= k < oc ==> g0.party_account(#[trigger] handles@[3 * k + 2])
            }
        },
    }
}

/// A refund keeps the book's length.
pub proof fn lemma_refund_apply_len(g0: Engine, id: usize, req: RefundRequest)
    requires
        g0.wf(),
        g0.open_record(id as int),
        crate::record::refund_request_matches(g0.record_at(id as int).terms, req),
        refund_accounts_ok_any(g0, g0.record_at(id as int), req),
        req matches RefundRequest::ReclaimBundle { handles } ==> handles@.len() == 3 * vault_count(
            g0.record_at(id as int).terms,
        ),
    ensures
        refund_apply(g0, id, req).len() == g0.ledger.accounts@.len(),
{
    let orec = g0.record_at(id as int);
    let s = g0.ledger.accounts@;
    assert(Engine::record_ok(orec, g0.ledger));
    match orec.terms {
        Terms::MultiAsset { offered, .. } => {
            let handles = req->ReclaimBundle_handles@;
            assert forall|j: int| 0 <= j < offered@.len() implies (#[trigger] orec.vaults@[j])
                < s.len() by {
                assert(g0.ledger.acct_ok(orec.vaults@[j]));
            }
            assert forall|j: int| 0 <= j < offered@.len() implies (#[trigger] handles[3 * j + 2])
                < s.len() by {
                assert(g0.party_account(handles[3 * j + 2]));
            }
            assert forall|j: int| 0 <= j < offered@.len() implies (#[trigger] handles[0 + 3 * j
                + 2]) < s.len() by {
                assert(handles[0 + 3 * j + 2] == handles[3 * j + 2]);
            }
            lemma_release_apply_len(s, offered@, orec.vaults@, handles, 0, 0);
        },
        _ => {},
    }
}

/// A refund writes only the accounts `refund_untouched_by` names.
pub proof fn lemma_refund_apply_frame(g0: Engine, id: usize, req: RefundRequest, h: int)
    requires
        g0.wf(),
        g0.open_record(id as int),
        crate::record::refund_request_matches(g0.record_at(id as int).terms, req),
        refund_accounts_ok_any(g0, g0.record_at(id as int), req),
        req matches RefundRequest::ReclaimBundle { handles } ==> handles@.len() == 3 * vault_count(
            g0.record_at(id as int).terms,
        ),
        0 <= h < g0.ledger.accounts@.len(),
        refund_untouched_by(g0, id, req, h),
    ensures
        refund_apply(g0, id, req).len() == g0.ledger.accounts@.len(),
        refund_apply(g0, id, req)[h] == g0.ledger.accounts@[h],
{
    let orec = g0.record_at(id as int);
    let s = g0.ledger.accounts@;
    assert(Engine::record_ok(orec, g0.ledger));
    match orec.terms {
        Terms::MultiAsset { offered, .. } => {
            let handles = req->ReclaimBundle_handles@;
            assert forall|j: int| 0 <= j < offered@.len() implies (#[trigger] orec.vaults@[j])
                < s.len() by {
                assert(g0.ledger.acct_ok(orec.vaults@[j]));
            }
            assert forall|j: int| 0 <= j < offered@.len() implies (#[trigger] handles[0 + 3 * j
                + 2]) < s.len() by {
                assert(handles[0 + 3 * j + 2] == handles[3 * j + 2]);
                assert(g0.party_account(handles[3 * j + 2]));
            }
            assert forall|j: int| 0 <= j < offered@.len() implies (#[trigger] orec.vaults@[j])
                as int != h by {
                if orec.vaults@[j] as int == h {
                    assert(release_touched(orec.vaults@, handles, 0, offered@.len() as int, h));
                }
            }
            assert forall|j: int| 0 <= j < offered@.len() implies (#[trigger] handles[0 + 3 * j
                + 2]) as int != h by {
                if handles[0 + 3 * j + 2] as int == h {
                    assert(dest_slot(handles, 0, j) as int == h);
                    assert(release_touched(orec.vaults@, handles, 0, offered@.len() as int, h));
                }
            }
            lemma_release_apply_frame(s, offered@, orec.vaults@, handles, 0, 0, h);
        },
        _ => {},
    }
}

/// After a committed refund, the manager's invariant still holds.
pub proof fn refund_commit_wf(g0: Engine, id: usize, req: RefundRequest, now: i64, g1: Engine)
    requires
        g0.wf(),
        g0.open_record(id as int),
        crate::record::refund_request_matches(g0.record_at(id as int).terms, req),
        refund_accounts_ok(g0, g0.record_at(id as int), req),
        refund_err(g0, id, req, now) is None,
        g1.ledger.mints@ == g0.ledger.mints@,
        g1.ledger.accounts@ == refund_apply(g0, id, req),
        g1.ledger.wf(),
        g1.records@.len() == g0.records@.len(),
        forall|i: int|
            0 <= i < g1.records@.len() && i != id ==> g1.records@[i] == g0.records@[i],
        g1.records@[id as int] is None,
    ensures
        g1.wf(),
{
    let orec = g0.record_at(id as int);
    let s = g0.ledger.accounts@;
    assert(refund_accounts_ok_any(g0, orec, req));
    assert(req matches RefundRequest::ReclaimBundle { handles } ==> handles@.len() == 3
        * vault_count(orec.terms));
    assert forall|h: int|
        0 <= h < s.len() && refund_untouched_by(g0, id, req, h) implies g1.ledger.accounts@[h]
        == s[h] by {
        lemma_refund_apply_frame(g0, id, req, h);
    }
    assert forall|i: int| #[trigger] g1.open_record(i) implies Engine::record_ok(
        g1.record_at(i),
        g1.ledger,
    ) by {
        assert(i != id);
        assert(g0.open_record(i));
        let rec = g0.record_at(i);
        assert(Engine::record_ok(rec, g0.ledger));
        assert forall|kk: int| 0 <= kk < rec.vaults@.len() implies g1.ledger.accounts@[(
        #[trigger] rec.vaults@[kk]) as int] == s[rec.vaults@[kk] as int] by {
            let h = rec.vaults@[kk];
            assert(g0.ledger.acct_ok(h));
            assert(g0.is_open_vault(h)) by {
                assert(rec.vaults@.contains(h));
            }
            assert(vaults_disjoint(rec.vaults@, orec.vaults@));
            assert(refund_untouched_by(g0, id, req, h as int)) by {
                match req {
                    RefundRequest::Reclaim { maker_dest } => {
                        assert(g0.party_account(maker_dest));
                        assert(h != orec.vaults@[0]);
                    },
                    RefundRequest::ReclaimBundle { handles } => {
                        let oc = vault_count(orec.terms);
                        if release_touched(orec.vaults@, handles@, 0, oc, h as int) {
                            let j = choose|j: int|
                                #![trigger orec.vaults@[j]]
                                #![trigger dest_slot(handles@, 0, j)]
                                0 <= j < oc && (orec.vaults@[j] as int == h as int || dest_slot(
                                    handles@,
                                    0,
                                    j,
                                ) as int == h as int);
                            if orec.vaults@[j] as int == h as int {
                                assert(rec.vaults@[kk] != orec.vaults@[j]);
                                assert(false);
                            } else {
                                assert(dest_slot(handles@, 0, j) == handles@[3 * j + 2]);
                                assert(g0.party_account(handles@[3 * j + 2]));
                                assert(false);
                            }
                        }
                    },
                }
            }
        }
        lemma_refund_apply_len(g0, id, req);
        assert(Engine::record_ok(rec, g1.ledger));
    }
    assert forall|i: int, j: int|
        g1.open_record(i) && g1.open_record(j) && i != j implies vaults_disjoint(
        g1.record_at(i).vaults@,
        g1.record_at(j).vaults@,
    ) by {
        assert(g0.open_record(i) && g0.open_record(j));
    }
}

} // verus!
