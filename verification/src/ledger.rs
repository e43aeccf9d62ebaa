//! The asset custodian model: registered assets, token accounts and the two
//! balance-moving operations the escrow protocol delegates to.
//!
//! `transfer` moves an exact amount between two accounts of the same asset
//! after verifying the presented authority against the source's owner;
//! `close_and_reclaim` moves an account's entire residual balance to a
//! destination as part of closing it. Both report the moved asset's
//! fixed-point scale. Every failure leaves all balances unchanged.

use vstd::prelude::*;

use crate::authority::Authority;
use crate::errors::EscrowError;

verus! {

/// A registered asset: all the custodian knows of it is its fixed-point
/// scale (decimal precision).
#[derive(Clone, Copy)]
pub struct MintInfo {
    /// Number of decimal places amounts of this asset are denominated in.
    pub decimals: u8,
}

/// One custody account: holds a balance of a single registered asset on
/// behalf of one owner. A closed account keeps its slot (handles stay
/// stable) but holds nothing and accepts nothing.
#[derive(Clone, Copy)]
pub struct TokenAccount {
    /// Handle of the asset this account holds.
    pub mint: usize,
    /// The sole address allowed to move funds out of this account.
    pub owner: [u8; 32],
    /// Current balance, in the asset's smallest unit.
    pub balance: u64,
    /// Whether the account still exists.
    pub open: bool,
}

/// The custodian's book: registered assets and all accounts ever opened,
/// addressed by stable handles (their indices).
pub struct Ledger {
    /// Registered assets, addressed by index.
    pub mints: Vec<MintInfo>,
    /// All accounts, addressed by index; closed ones stay as tombstones.
    pub accounts: Vec<TokenAccount>,
}

impl Ledger {
    /// Every account's asset handle refers to a registered asset.
    pub open spec fn wf(self) -> bool {
        forall|i: int|
            0 <= i < self.accounts@.len() ==> (#[trigger] self.accounts@[i]).mint
                < self.mints@.len()
    }

    /// `h` addresses an existing, still-open account.
    pub open spec fn acct_ok(self, h: usize) -> bool {
        h < self.accounts@.len() && self.accounts@[h as int].open
    }

    /// The account behind handle `h`.
    pub open spec fn acct(self, h: usize) -> TokenAccount {
        self.accounts@[h as int]
    }

    /// The first reason a `transfer` with these arguments fails, if any:
    /// asset mismatch on either account, then authority verification, then
    /// source balance, then destination capacity.
    pub open spec fn transfer_err(
        s: Seq<TokenAccount>,
        from: usize,
        to: usize,
        mint: usize,
        amount: u64,
        auth: Seq<u8>,
    ) -> Option<EscrowError> {
        if s[from as int].mint != mint || s[to as int].mint != mint {
            Some(EscrowError::AssetMismatch)
        } else if s[from as int].owner@ != auth {
            Some(EscrowError::UnauthorizedAuthority)
        } else if s[from as int].balance < amount {
            Some(EscrowError::InsufficientCustodyBalance)
        } else if from != to && s[to as int].balance + amount > u64::MAX {
            Some(EscrowError::CustodyCapacityExceeded)
        } else {
            None
        }
    }

    /// The accounts after a successful `transfer`: `amount` moved from
    /// `from` to `to`; a self-transfer changes nothing.
    pub open spec fn transfer_apply(
        s: Seq<TokenAccount>,
        from: usize,
        to: usize,
        amount: u64,
    ) -> Seq<TokenAccount> {
        if from == to {
            s
        } else {
            s.update(
                from as int,
                (TokenAccount {
                    balance: (s[from as int].balance - amount) as u64,
                    ..s[from as int]
                }),
            ).update(
                to as int,
                (TokenAccount { balance: (s[to as int].balance + amount) as u64, ..s[to as int] }),
            )
        }
    }

    /// The first reason a `close_and_reclaim` with these arguments fails, if
    /// any: authority verification, then asset mismatch, then destination
    /// capacity.
    pub open spec fn close_err(
        s: Seq<TokenAccount>,
        account: usize,
        destination: usize,
        auth: Seq<u8>,
    ) -> Option<EscrowError> {
        if s[account as int].owner@ != auth {
            Some(EscrowError::UnauthorizedAuthority)
        } else if s[destination as int].mint != s[account as int].mint {
            Some(EscrowError::AssetMismatch)
        } else if s[destination as int].balance + s[account as int].balance > u64::MAX {
            Some(EscrowError::CustodyCapacityExceeded)
        } else {
            None
        }
    }

    /// The accounts after a successful `close_and_reclaim`: the whole
    /// residual balance moved to `destination`, the account closed.
    pub open spec fn close_apply(s: Seq<TokenAccount>, account: usize, destination: usize) -> Seq<
        TokenAccount,
    > {
        s.update(
            destination as int,
            (TokenAccount {
                balance: (s[destination as int].balance + s[account as int].balance) as u64,
                ..s[destination as int]
            }),
        ).update(
            account as int,
            (TokenAccount { balance: 0u64, open: false, ..s[account as int] }),
        )
    }

    /// An empty book: no assets, no accounts.
    pub fn new() -> (l: Ledger)
        ensures
            l.wf(),
            l.mints@.len() == 0,
            l.accounts@.len() == 0,
    {
        Ledger { mints: Vec::new(), accounts: Vec::new() }
    }

    /// Registers an asset with the given fixed-point scale and returns its
    /// handle.
    pub fn register_mint(&mut self, decimals: u8) -> (h: usize)
        requires
            old(self).wf(),
        ensures
            final(self).wf(),
            h == old(self).mints@.len(),
            final(self).mints@ == old(self).mints@.push(MintInfo { decimals }),
            final(self).accounts == old(self).accounts,
    {
        let h = self.mints.len();
        self.mints.push(MintInfo { decimals });
        h
    }

    /// Opens an account for `owner` holding asset `mint`, with a zero
    /// balance, and returns its handle. Fails if the asset is not
    /// registered.
    pub fn open_account(&mut self, mint: usize, owner: [u8; 32]) -> (r: Result<usize, EscrowError>)
        requires
            old(self).wf(),
        ensures
            final(self).wf(),
            final(self).mints == old(self).mints,
            r is Ok <==> mint < old(self).mints@.len(),
            r is Ok ==> {
                &&& r->Ok_0 == old(self).accounts@.len()
                &&& final(self).accounts@ == old(self).accounts@.push(
                    TokenAccount { mint, owner, balance: 0u64, open: true },
                )
            },
            r is Err ==> r->Err_0 == EscrowError::AssetMismatch && *final(self) == *old(self),
    {
        if mint >= self.mints.len() {
            return Err(EscrowError::AssetMismatch);
        }
        let h = self.accounts.len();
        self.accounts.push(TokenAccount { mint, owner, balance: 0u64, open: true });
        Ok(h)
    }

    /// Issues `amount` of the account's asset into the account: the
    /// custodian-side source of funds. Fails only if the balance would wrap.
    pub fn credit(&mut self, account: usize, amount: u64) -> (r: Result<(), EscrowError>)
        requires
            old(self).wf(),
            old(self).acct_ok(account),
        ensures
            final(self).wf(),
            final(self).mints == old(self).mints,
            r is Ok <==> old(self).acct(account).balance + amount <= u64::MAX,
            r is Ok ==> final(self).accounts@ == old(self).accounts@.update(
                account as int,
                (TokenAccount {
                    balance: (old(self).acct(account).balance + amount) as u64,
                    ..old(self).acct(account)
                }),
            ),
            r is Err ==> r->Err_0 == EscrowError::CustodyCapacityExceeded && *final(self)
                == *old(self),
    {
        let a = self.accounts[account];
        if amount > u64::MAX - a.balance {
            return Err(EscrowError::CustodyCapacityExceeded);
        }
        self.accounts[account] = TokenAccount { balance: a.balance + amount, ..a };
        Ok(())
    }

    /// Moves exactly `amount` of asset `mint` from `from` to `to`, after
    /// verifying that both accounts hold that asset and that `authority` is
    /// the source's owner. Returns the asset's fixed-point scale. On any
    /// failure nothing moves.
    pub fn transfer(
        &mut self,
        from: usize,
        to: usize,
        mint: usize,
        amount: u64,
        authority: &Authority,
    ) -> (r: Result<u8, EscrowError>)
        requires
            old(self).wf(),
            old(self).acct_ok(from),
            old(self).acct_ok(to),
        ensures
            final(self).wf(),
            final(self).mints == old(self).mints,
            final(self).accounts@.len() == old(self).accounts@.len(),
            r is Err <==> Ledger::transfer_err(
                old(self).accounts@,
                from,
                to,
                mint,
                amount,
                authority.address@,
            ) is Some,
            r is Err ==> {
                &&& Some(r->Err_0) == Ledger::transfer_err(
                    old(self).accounts@,
                    from,
                    to,
                    mint,
                    amount,
                    authority.address@,
                )
                &&& *final(self) == *old(self)
            },
            r is Ok ==> {
                &&& final(self).accounts@ == Ledger::transfer_apply(old(self).accounts@, from, to, amount)
                &&& r->Ok_0 == old(self).mints@[mint as int].decimals
            },
    {
        let src = self.accounts[from];
        let dst = self.accounts[to];
        if src.mint != mint || dst.mint != mint {
            return Err(EscrowError::AssetMismatch);
        }
        if !crate::authority::bytes32_eq(&src.owner, &authority.address) {
            return Err(EscrowError::UnauthorizedAuthority);
        }
        if src.balance < amount {
            return Err(EscrowError::InsufficientCustodyBalance);
        }
        if from != to {
            if amount > u64::MAX - dst.balance {
                return Err(EscrowError::CustodyCapacityExceeded);
            }
            self.accounts[from] = TokenAccount { balance: src.balance - amount, ..src };
            self.accounts[to] = TokenAccount { balance: dst.balance + amount, ..dst };
            proof {
                assert(self.accounts@ =~= Ledger::transfer_apply(
                    old(self).accounts@,
                    from,
                    to,
                    amount,
                ));
            }
        }
        Ok(self.mints[mint].decimals)
    }

    /// Moves the account's entire current balance to `destination`
    /// implicitly as part of closing it, after verifying that `authority`
    /// owns the account. Returns the asset's fixed-point scale. On any
    /// failure the account stays open and nothing moves.
    pub fn close_and_reclaim(
        &mut self,
        account: usize,
        destination: usize,
        authority: &Authority,
    ) -> (r: Result<u8, EscrowError>)
        requires
            old(self).wf(),
            old(self).acct_ok(account),
            old(self).acct_ok(destination),
            account != destination,
        ensures
            final(self).wf(),
            final(self).mints == old(self).mints,
            final(self).accounts@.len() == old(self).accounts@.len(),
            r is Err <==> Ledger::close_err(
                old(self).accounts@,
                account,
                destination,
                authority.address@,
            ) is Some,
            r is Err ==> {
                &&& Some(r->Err_0) == Ledger::close_err(
                    old(self).accounts@,
                    account,
                    destination,
                    authority.address@,
                )
                &&& *final(self) == *old(self)
            },
            r is Ok ==> {
                &&& final(self).accounts@ == Ledger::close_apply(old(self).accounts@, account, destination)
                &&& r->Ok_0 == old(self).mints@[old(self).acct(account).mint as int].decimals
            },
    {
        let acc = self.accounts[account];
        let dst = self.accounts[destination];
        if !crate::authority::bytes32_eq(&acc.owner, &authority.address) {
            return Err(EscrowError::UnauthorizedAuthority);
        }
        if dst.mint != acc.mint {
            return Err(EscrowError::AssetMismatch);
        }
        if acc.balance > u64::MAX - dst.balance {
            return Err(EscrowError::CustodyCapacityExceeded);
        }
        self.accounts[destination] = TokenAccount { balance: dst.balance + acc.balance, ..dst };
        self.accounts[account] = TokenAccount { balance: 0u64, open: false, ..acc };
        proof {
            assert(self.accounts@ =~= Ledger::close_apply(old(self).accounts@, account, destination));
        }
        Ok(self.mints[acc.mint].decimals)
    }

    /// The current balance of an open account.
    pub fn balance_of(&self, account: usize) -> (b: u64)
        requires
            account < self.accounts@.len(),
        ensures
            b == self.acct(account).balance,
    {
        self.accounts[account].balance
    }

    /// Whether `account` addresses an existing, still-open account.
    pub fn is_open_account(&self, account: usize) -> (r: bool)
        ensures
            r == self.acct_ok(account),
    {
        account < self.accounts.len() && self.accounts[account].open
    }

    /// The fixed-point scale of a registered asset.
    pub fn decimals_of(&self, mint: usize) -> (d: u8)
        requires
            mint < self.mints@.len(),
        ensures
            d == self.mints@[mint as int].decimals,
    {
        self.mints[mint].decimals
    }
}

} // verus!
