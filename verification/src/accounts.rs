//! What each operation is handed: the identity of the caller, the records it
//! refers to, and the asset it names.
//!
//! The host resolves these before the operation runs. It has authenticated
//! every identity that is called a caller here.

use vstd::prelude::*;
use crate::pubkey::Pubkey;
use crate::state::{NftVault, StakeNft};

verus! {

/// The accounts of `initialize`.
#[derive(Clone, Copy, Debug, PartialEq, Eq)]
pub struct Initialize {
    /// The caller, who becomes the vault's authority.
    pub authority: Pubkey,
    /// The vault record, newly created and not yet written.
    pub nft_vault: NftVault,
    /// The bump with which the vault record's address was derived.
    pub bump: u8,
}

/// The accounts of `stake`.
#[derive(Clone, Copy, Debug, PartialEq, Eq)]
pub struct Stake {
    /// The caller, who deposits the asset.
    pub staker: Pubkey,
    /// The stake record, newly created and not yet written.
    pub stake_nft: StakeNft,
    /// The vault record.
    pub nft_vault: NftVault,
    /// The asset to deposit.
    pub token_mint: Pubkey,
    /// The bump with which the stake record's address was derived.
    pub bump: u8,
}

/// The accounts of `unstake`.
#[derive(Clone, Copy, Debug, PartialEq, Eq)]
pub struct Unstake {
    /// The caller, who reclaims the asset.
    pub staker: Pubkey,
    /// The stake record that the call refers to.
    pub stake_nft: StakeNft,
    /// The vault record.
    pub nft_vault: NftVault,
    /// The asset that the call names.
    pub token_mint: Pubkey,
}

/// The accounts of `release`.
#[derive(Clone, Copy, Debug, PartialEq, Eq)]
pub struct Release {
    /// The caller, who hands the asset back on the staker's behalf.
    pub authority: Pubkey,
    /// The vault record.
    pub nft_vault: NftVault,
    /// The stake record that the call refers to.
    pub stake_nft: StakeNft,
    /// The staker that the call names; it need not take part.
    pub staker: Pubkey,
    /// The asset that the call names.
    pub token_mint: Pubkey,
}

impl Initialize {
    /// Who bears the cost of the vault record: the caller.
    pub fn payer(&self) -> (key: Pubkey)
        ensures
            key == self.authority,
    {
        self.authority
    }
}

impl Stake {
    /// Who bears the cost of the stake record, and of the vault's custody
    /// account if it has to be created: the caller.
    pub fn payer(&self) -> (key: Pubkey)
        ensures
            key == self.staker,
    {
        self.staker
    }
}

impl Unstake {
    /// Who bears the cost of the staker's custody account if it has to be
    /// created, and is given the storage cost of the stake record when it is
    /// removed: the caller, who is the staker.
    pub fn payer(&self) -> (key: Pubkey)
        ensures
            key == self.staker,
    {
        self.staker
    }
}

impl Release {
    /// Who bears the cost of the staker's custody account if it has to be
    /// created, and is given the storage cost of the stake record when it is
    /// removed: the caller, who is the authority, and not the staker.
    pub fn payer(&self) -> (key: Pubkey)
        ensures
            key == self.authority,
    {
        self.authority
    }
}

} // verus!
