//! What the controller asks of the token ledger.
//!
//! The ledger itself is not part of this crate. The controller only decides
//! which transfer the ledger is to make; [`settle`] states what the ledger is
//! taken to do with such an order.

use vstd::prelude::*;
use crate::pubkey::Pubkey;

verus! {

/// Seed from which the vault's own address is derived: the text `nft-vault`.
pub const VAULT_SEED: [u8; 9] = [110, 102, 116, 45, 118, 97, 117, 108, 116];

/// Who owns a custody account.
#[derive(Clone, Copy, Debug, PartialEq, Eq, Hash)]
pub enum Owner {
    /// The vault of this deployment.
    Vault,
    /// The holder of the named identity.
    Wallet(Pubkey),
}

/// The account that holds what one owner has of one asset.
#[derive(Clone, Copy, Debug, PartialEq, Eq, Hash)]
pub struct CustodyAccount {
    pub mint: Pubkey,
    pub owner: Owner,
}

/// By what right a transfer takes from its source.
#[derive(Clone, Copy, Debug, PartialEq, Eq, Hash)]
pub enum Authorization {
    /// The named identity signed the request.
    Signer(Pubkey),
    /// The vault acts. It has no key to sign with: the seeds of its address,
    /// `VAULT_SEED` and this bump, stand for its signature.
    VaultSeeds { bump: u8 },
}

/// An order to the ledger: move `amount` units from `from` to `to`. The ledger
/// creates `to` if it does not exist yet.
#[derive(Clone, Copy, Debug, PartialEq, Eq, Hash)]
pub struct Transfer {
    pub from: CustodyAccount,
    pub to: CustodyAccount,
    pub authority: Authorization,
    pub amount: u64,
}

impl CustodyAccount {
    /// The account in which the vault holds `mint`.
    pub open spec fn of_vault(mint: Pubkey) -> CustodyAccount {
        CustodyAccount { mint, owner: Owner::Vault }
    }

    /// The account in which `holder` holds `mint`.
    pub open spec fn of_wallet(mint: Pubkey, holder: Pubkey) -> CustodyAccount {
        CustodyAccount { mint, owner: Owner::Wallet(holder) }
    }
}

impl Transfer {
    /// The order that puts an asset under custody: one unit of `mint` goes from
    /// the staker's account to the vault's, and the staker signs for it.
    pub open spec fn deposit(mint: Pubkey, staker: Pubkey) -> Transfer {
        Transfer {
            from: CustodyAccount::of_wallet(mint, staker),
            to: CustodyAccount::of_vault(mint),
            authority: Authorization::Signer(staker),
            amount: 1,
        }
    }

    /// The order that hands an asset back: one unit of `mint` goes from the
    /// vault's account to the staker's, and the vault answers for it with the
    /// seeds of its address.
    pub open spec fn withdrawal(mint: Pubkey, staker: Pubkey, bump: u8) -> Transfer {
        Transfer {
            from: CustodyAccount::of_vault(mint),
            to: CustodyAccount::of_wallet(mint, staker),
            authority: Authorization::VaultSeeds { bump },
            amount: 1,
        }
    }
}

impl Authorization {
    /// The seeds that prove the authorization: none for a signer, `VAULT_SEED`
    /// and the bump for the vault.
    pub open spec fn seeds(self) -> Seq<Seq<u8>> {
        match self {
            Authorization::Signer(_) => Seq::empty(),
            Authorization::VaultSeeds { bump } => seq![VAULT_SEED@, seq![bump]],
        }
    }

    /// Builds the seeds that the ledger is to be called with.
    pub fn signer_seeds(&self) -> (seeds: Vec<Vec<u8>>)
        ensures
            seeds.deep_view() == self.seeds(),
    {
        match self {
            Authorization::Signer(_) => {
                let seeds: Vec<Vec<u8>> = Vec::new();
                assert(seeds.deep_view() =~= self.seeds());
                seeds
            },
            Authorization::VaultSeeds { bump } => {
                let mut tag: Vec<u8> = Vec::new();
                let mut i: usize = 0;
                while i < 9
                    invariant
                        i <= 9,
                        tag@ == VAULT_SEED@.subrange(0, i as int),
                    decreases 9 - i,
                {
                    tag.push(VAULT_SEED[i]);
                    i += 1;
                }
                let mut proof_byte: Vec<u8> = Vec::new();
                proof_byte.push(*bump);
                let mut seeds: Vec<Vec<u8>> = Vec::new();
                assert(tag@ =~= VAULT_SEED@);
                assert(proof_byte@ =~= seq![*bump]);
                seeds.push(tag);
                seeds.push(proof_byte);
                assert(seeds@[0].deep_view() =~= VAULT_SEED@);
                assert(seeds@[1].deep_view() =~= seq![*bump]);
                assert(seeds.deep_view() =~= self.seeds());
                seeds
            },
        }
    }
}

/// What `account` holds in `ledger`; an account that the ledger does not know
/// holds nothing.
pub open spec fn balance(ledger: Map<CustodyAccount, nat>, account: CustodyAccount) -> nat {
    if ledger.contains_key(account) {
        ledger[account]
    } else {
        0
    }
}

/// Whether `authority` may take from an account of `owner`. A wallet's account
/// obeys the wallet's own signature. The vault's account obeys the seeds of the
/// vault's address, which end in the bump that the vault record holds.
pub open spec fn authorizes(authority: Authorization, owner: Owner, vault_bump: Option<u8>) -> bool {
    match owner {
        Owner::Wallet(holder) => authority == Authorization::Signer(holder),
        Owner::Vault => vault_bump matches Some(bump) && authority == (Authorization::VaultSeeds {
            bump,
        }),
    }
}

/// What the ledger is taken to do with an order. If the authority may take from
/// the source, both accounts hold the same asset and the source holds enough,
/// the amount leaves the source and reaches the destination. Otherwise the
/// ledger refuses, and nothing moves.
pub open spec fn settle(
    ledger: Map<CustodyAccount, nat>,
    vault_bump: Option<u8>,
    order: Transfer,
) -> Option<Map<CustodyAccount, nat>> {
    if authorizes(order.authority, order.from.owner, vault_bump) && order.from.mint
        == order.to.mint && balance(ledger, order.from) >= order.amount {
        let debited = ledger.insert(
            order.from,
            (balance(ledger, order.from) - order.amount) as nat,
        );
        Some(debited.insert(order.to, balance(debited, order.to) + order.amount as nat))
    } else {
        None
    }
}

} // verus!
