//! The deployment as a mathematical object: which records exist, and what each
//! instruction makes of them.
//!
//! The host creates a record only where none exists, finds the records that an
//! instruction refers to before the controller runs, and removes a stake
//! record once the controller has approved its reclaim. The functions here say
//! so; [`crate::deployment::Deployment`] is held to them.

use vstd::prelude::*;
use crate::error::{Failure, NftError};
use crate::ledger::Transfer;
use crate::pubkey::Pubkey;
use crate::state::{NftVault, StakeAddress, StakeNft};

verus! {

/// A request to the deployment.
#[derive(Clone, Copy, Debug, PartialEq, Eq)]
pub enum Instruction {
    /// `authority` sets the vault up; `bump` is that of the vault's address.
    Initialize { authority: Pubkey, bump: u8 },
    /// `staker` deposits `token_mint`; `bump` is that of the new record's
    /// address.
    Stake { staker: Pubkey, token_mint: Pubkey, bump: u8 },
    /// `staker` reclaims the asset of the record at `stake_nft`, naming
    /// `token_mint`.
    Unstake { staker: Pubkey, stake_nft: StakeAddress, token_mint: Pubkey },
    /// `authority` hands the asset of the record at `stake_nft` back to
    /// `staker`, naming `token_mint`.
    Release { authority: Pubkey, staker: Pubkey, stake_nft: StakeAddress, token_mint: Pubkey },
}

/// Whether an address is that of a record of `mint`.
pub open spec fn is_of(mint: Pubkey) -> spec_fn(StakeAddress) -> bool {
    |a: StakeAddress| a.mint == mint
}

/// The records of a deployment.
pub struct DeploymentView {
    /// The vault record, once `initialize` has written it.
    pub vault: Option<NftVault>,
    /// The stake records, each at its address.
    pub stakes: Map<StakeAddress, StakeNft>,
}

impl DeploymentView {
    /// A deployment in which nothing has happened yet.
    pub open spec fn empty() -> DeploymentView {
        DeploymentView { vault: None, stakes: Map::empty() }
    }

    /// What holds of the records at all times: a stake record is kept at the
    /// address of its own asset and staker, there are finitely many of them,
    /// and there is none before the vault is set up.
    pub open spec fn wf(self) -> bool {
        &&& self.stakes.dom().finite()
        &&& forall|a: StakeAddress| #[trigger]
            self.stakes.contains_key(a) ==> self.stakes[a].address() == a
        &&& self.vault is None ==> self.stakes.dom().is_empty()
    }

    /// Whether an asset of `staker` of kind `mint` is under custody.
    pub open spec fn staked(self, mint: Pubkey, staker: Pubkey) -> bool {
        self.stakes.contains_key(StakeAddress { mint, staker })
    }

    /// How many units of `mint` the vault holds on behalf of `staker`: one
    /// while the pair has a stake record, none otherwise.
    pub open spec fn held_for(self, mint: Pubkey, staker: Pubkey) -> nat {
        if self.staked(mint, staker) {
            1
        } else {
            0
        }
    }

    /// The addresses of the stake records whose asset is `mint`.
    pub open spec fn stakes_of(self, mint: Pubkey) -> Set<StakeAddress> {
        self.stakes.dom().filter(is_of(mint))
    }

    /// How many units of `mint` the vault holds on behalf of all stakers.
    pub open spec fn held(self, mint: Pubkey) -> nat {
        self.stakes_of(mint).len()
    }

    /// Sets the vault up, unless it is set up already.
    pub open spec fn initialize(self, authority: Pubkey, bump: u8) -> (DeploymentView, Result<
        (),
        Failure,
    >) {
        if self.vault is Some {
            (self, Err(Failure::AccountInUse))
        } else {
            (
                DeploymentView {
                    vault: Some(NftVault { authority, bump, total_nft_stakes: 0 }),
                    ..self
                },
                Ok(()),
            )
        }
    }

    /// Puts an asset under custody, unless the pair has a record already or
    /// the vault is not set up.
    pub open spec fn stake(self, staker: Pubkey, token_mint: Pubkey, bump: u8) -> (
        DeploymentView,
        Result<Transfer, Failure>,
    ) {
        let address = StakeAddress { mint: token_mint, staker };
        if self.stakes.contains_key(address) {
            (self, Err(Failure::AccountInUse))
        } else if self.vault is None {
            (self, Err(Failure::AccountNotInitialized))
        } else {
            (
                DeploymentView {
                    stakes: self.stakes.insert(
                        address,
                        StakeNft { bump, staker, mint: token_mint },
                    ),
                    ..self
                },
                Ok(Transfer::deposit(token_mint, staker)),
            )
        }
    }

    /// Lets the staker reclaim. The vault and the record must exist; the asset
    /// named must be the record's, and the caller its staker. Then the record
    /// goes.
    pub open spec fn unstake(self, staker: Pubkey, stake_nft: StakeAddress, token_mint: Pubkey) -> (
        DeploymentView,
        Result<Transfer, Failure>,
    ) {
        if self.vault is None || !self.stakes.contains_key(stake_nft) {
            (self, Err(Failure::AccountNotInitialized))
        } else if token_mint != self.stakes[stake_nft].mint {
            (self, Err(Failure::Program(NftError::MintMismatch)))
        } else if self.stakes[stake_nft].staker != staker {
            (self, Err(Failure::Program(NftError::KeyMismatch)))
        } else {
            (
                DeploymentView { stakes: self.stakes.remove(stake_nft), ..self },
                Ok(Transfer::withdrawal(token_mint, staker, self.vault->Some_0.bump)),
            )
        }
    }

    /// Lets the authority hand an asset back. The vault and the record must
    /// exist; the caller must be the vault's authority, the asset named the
    /// record's, and the staker named the record's. Then the record goes.
    pub open spec fn release(
        self,
        authority: Pubkey,
        staker: Pubkey,
        stake_nft: StakeAddress,
        token_mint: Pubkey,
    ) -> (DeploymentView, Result<Transfer, Failure>) {
        if self.vault is None || !self.stakes.contains_key(stake_nft) {
            (self, Err(Failure::AccountNotInitialized))
        } else if self.vault->Some_0.authority != authority {
            (self, Err(Failure::Program(NftError::Unauthorized)))
        } else if token_mint != self.stakes[stake_nft].mint {
            (self, Err(Failure::Program(NftError::MintMismatch)))
        } else if self.stakes[stake_nft].staker != staker {
            (self, Err(Failure::Program(NftError::KeyMismatch)))
        } else {
            (
                DeploymentView { stakes: self.stakes.remove(stake_nft), ..self },
                Ok(Transfer::withdrawal(token_mint, staker, self.vault->Some_0.bump)),
            )
        }
    }

    /// What an instruction makes of the records, and what it answers: the
    /// transfer to settle, if it orders one, or why it failed.
    pub open spec fn process(self, instruction: Instruction) -> (DeploymentView, Result<
        Option<Transfer>,
        Failure,
    >) {
        match instruction {
            Instruction::Initialize { authority, bump } => {
                let (next, res) = self.initialize(authority, bump);
                (
                    next,
                    match res {
                        Ok(_) => Ok(None),
                        Err(e) => Err(e),
                    },
                )
            },
            Instruction::Stake { staker, token_mint, bump } => {
                let (next, res) = self.stake(staker, token_mint, bump);
                (
                    next,
                    match res {
                        Ok(order) => Ok(Some(order)),
                        Err(e) => Err(e),
                    },
                )
            },
            Instruction::Unstake { staker, stake_nft, token_mint } => {
                let (next, res) = self.unstake(staker, stake_nft, token_mint);
                (
                    next,
                    match res {
                        Ok(order) => Ok(Some(order)),
                        Err(e) => Err(e),
                    },
                )
            },
            Instruction::Release { authority, staker, stake_nft, token_mint } => {
                let (next, res) = self.release(authority, staker, stake_nft, token_mint);
                (
                    next,
                    match res {
                        Ok(order) => Ok(Some(order)),
                        Err(e) => Err(e),
                    },
                )
            },
        }
    }
}

} // verus!
